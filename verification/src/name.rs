//! Name decomposer: splits an extracted file name into stem and extension
//! at the last occurrence of the separator `.`.
//!
//! A separator found at a position after the first character splits the
//! name there: the stem is everything before it, the extension everything
//! after it (possibly empty, for a name with a trailing dot). A name with
//! no separator, or whose only use of it is the leading character (the
//! hidden-file convention), is all stem and has no extension.

use vstd::prelude::*;
use crate::text::{chars_vec, string_from_chars};

verus! {

/// Index of the last `.` strictly before position `i`, if any.
pub open spec fn find_last_dot(s: Seq<char>, i: nat) -> Option<nat>
    decreases i,
{
    if i == 0 {
        None
    } else if s[i - 1] == '.' {
        Some((i - 1) as nat)
    } else {
        find_last_dot(s, (i - 1) as nat)
    }
}

/// Index of the last `.` in the whole of `s`, if any.
pub open spec fn last_dot(s: Seq<char>) -> Option<nat> {
    find_last_dot(s, s.len())
}

/// The stem of a file name: what precedes the last separator, or the
/// whole name when there is no separator after the first character.
pub open spec fn stem_seq(name: Seq<char>) -> Seq<char> {
    match last_dot(name) {
        Some(d) => if d > 0 {
            name.subrange(0, d as int)
        } else {
            name
        },
        None => name,
    }
}

/// The extension of a file name: what follows the last separator (possibly
/// empty), or nothing when there is no separator after the first character.
pub open spec fn ext_seq(name: Seq<char>) -> Option<Seq<char>> {
    match last_dot(name) {
        Some(d) => if d > 0 {
            Some(name.subrange(d as int + 1, name.len() as int))
        } else {
            None
        },
        None => None,
    }
}

/// What `find_last_dot` returns: the last dot position in the searched
/// range, with no dot after it.
pub proof fn lemma_find_last_dot(s: Seq<char>, i: nat)
    requires
        i <= s.len(),
    ensures
        match find_last_dot(s, i) {
            Some(d) => d < i && s[d as int] == '.' && (forall|j: int| d < j < i ==> s[j] != '.'),
            None => forall|j: int| 0 <= j < i ==> s[j] != '.',
        },
    decreases i,
{
    if i > 0 && s[i - 1] != '.' {
        lemma_find_last_dot(s, (i - 1) as nat);
    }
}

/// `find_last_dot` is pinned down by that characterization: a dot at `d`
/// with none after it in the range is the one found.
pub proof fn lemma_find_last_dot_is(s: Seq<char>, i: nat, d: nat)
    requires
        d < i <= s.len(),
        s[d as int] == '.',
        forall|j: int| d < j < i ==> s[j] != '.',
    ensures
        find_last_dot(s, i) == Some(d),
    decreases i,
{
    if d < i - 1 {
        lemma_find_last_dot_is(s, (i - 1) as nat, d);
    }
}

/// Splitting a name written as `stem + "." + tail`, where `tail` holds no
/// separator and `stem` is non-empty, recovers exactly that stem and tail.
pub proof fn lemma_split_at_last_dot(pre: Seq<char>, tail: Seq<char>)
    requires
        pre.len() > 0,
        forall|j: int| 0 <= j < tail.len() ==> tail[j] != '.',
    ensures
        last_dot(pre + seq!['.'] + tail) == Some(pre.len()),
        stem_seq(pre + seq!['.'] + tail) == pre,
        ext_seq(pre + seq!['.'] + tail) == Some(tail),
{
    let name = pre + seq!['.'] + tail;
    assert(name.len() == pre.len() + 1 + tail.len());
    assert(name[pre.len() as int] == '.');
    assert forall|j: int| pre.len() < j < name.len() implies name[j] != '.' by {
        assert(name[j] == tail[j - pre.len() - 1]);
    }
    lemma_find_last_dot_is(name, name.len(), pre.len());
    assert(name.subrange(0, pre.len() as int) =~= pre);
    assert(name.subrange(pre.len() as int + 1, name.len() as int) =~= tail);
}

/// Reconstruction: a name holding a separator after its first character is
/// exactly its stem, the separator, and its extension, in that order.
pub proof fn lemma_decompose_reconstructs(name: Seq<char>)
    requires
        exists|j: int| 0 < j < name.len() && name[j] == '.',
    ensures
        ext_seq(name) is Some,
        stem_seq(name) + seq!['.'] + ext_seq(name).unwrap() == name,
{
    let w = choose|j: int| 0 < j < name.len() && name[j] == '.';
    lemma_find_last_dot(name, name.len());
    match last_dot(name) {
        Some(d) => {
            assert(d >= w);
            assert(stem_seq(name) + seq!['.'] + ext_seq(name).unwrap() =~= name);
        },
        None => {
            assert(name[w] != '.');
        },
    }
}

/// A name whose only separator is its leading character keeps its whole
/// self as stem and has no extension.
pub proof fn lemma_leading_dot_only(name: Seq<char>)
    requires
        name.len() > 0,
        name[0] == '.',
        forall|j: int| 0 < j < name.len() ==> name[j] != '.',
    ensures
        stem_seq(name) == name,
        ext_seq(name) is None,
{
    lemma_find_last_dot_is(name, name.len(), 0);
}

/// Splits `name` into its stem and its extension: the parts before and
/// after the last separator, when that separator stands after the first
/// character; otherwise the whole name with no extension.
pub fn decompose(name: &str) -> (r: (String, Option<String>))
    ensures
        r.0@ == stem_seq(name@),
        match r.1 {
            Some(e) => ext_seq(name@) == Some(e@),
            None => ext_seq(name@) is None,
        },
{
    let cs = chars_vec(name);
    let ghost s = name@;
    let dot = find_last_dot_vec(&cs);
    match dot {
        Some(d) if d > 0 => {
            let mut stem: Vec<char> = Vec::new();
            let mut j: usize = 0;
            while j < d
                invariant
                    cs@ == s,
                    j <= d < cs.len(),
                    cs.len() == s.len(),
                    stem@ == s.subrange(0, j as int),
                decreases d - j,
            {
                stem.push(cs[j]);
                proof {
                    assert(stem@ =~= s.subrange(0, j + 1));
                }
                j += 1;
            }
            let mut ext: Vec<char> = Vec::new();
            let mut k: usize = d + 1;
            while k < cs.len()
                invariant
                    cs@ == s,
                    d + 1 <= k <= cs.len(),
                    cs.len() == s.len(),
                    ext@ == s.subrange(d + 1, k as int),
                decreases cs.len() - k,
            {
                ext.push(cs[k]);
                proof {
                    assert(ext@ =~= s.subrange(d + 1, k + 1));
                }
                k += 1;
            }
            (string_from_chars(&stem), Some(string_from_chars(&ext)))
        },
        _ => {
            let whole = string_from_chars(&cs);
            (whole, None)
        },
    }
}

/// Index of the last `.` in `cs`, if any.
fn find_last_dot_vec(cs: &Vec<char>) -> (r: Option<usize>)
    ensures
        match r {
            Some(d) => d < cs@.len() && last_dot(cs@) == Some(d as nat),
            None => last_dot(cs@) is None,
        },
{
    let mut i = cs.len();
    while i > 0
        invariant
            i <= cs@.len(),
            cs@.len() == cs.len(),
            forall|j: int| i <= j < cs@.len() ==> cs@[j] != '.',
        decreases i,
    {
        i -= 1;
        if cs[i] == '.' {
            proof {
                lemma_find_last_dot_is(cs@, cs@.len(), i as nat);
            }
            return Some(i);
        }
    }
    proof {
        lemma_find_last_dot(cs@, cs@.len());
        if last_dot(cs@) is Some {
            let d = last_dot(cs@).unwrap();
            assert(cs@[d as int] == '.');
        }
    }
    None
}

} // verus!
