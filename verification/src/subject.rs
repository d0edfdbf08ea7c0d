//! Subject parser: extracts the embedded quoted file name from a raw
//! subject line.
//!
//! Usenet posts conventionally embed the real file name in double quotes,
//! e.g. `[1/20] - "My.File.Name.part01.rar" yEnc (1/50)`. The parser pairs
//! the quote characters of the subject from left to right and returns the
//! content of the first pair that is not blank, verbatim. A subject with
//! no such pair yields no name at all: nothing is guessed from unquoted
//! text.

use vstd::prelude::*;
use crate::text::{chars_vec, is_space, space, string_from_chars};

verus! {

/// Index of the first `"` at or after position `i`, if any.
pub open spec fn find_quote(s: Seq<char>, i: nat) -> Option<nat>
    decreases s.len() - i,
        when i <= s.len()
{
    if i >= s.len() {
        None
    } else if s[i as int] == '"' {
        Some(i)
    } else {
        find_quote(s, (i + 1) as nat)
    }
}

/// A sequence is blank when every character in it is whitespace;
/// in particular the empty sequence is blank.
pub open spec fn is_blank(s: Seq<char>) -> bool {
    forall|j: int| 0 <= j < s.len() ==> is_space(s[j])
}

/// The name extracted from `s` when quote pairing starts at position `i`:
/// the content of the first non-blank quote pair at or after `i`.
pub open spec fn extract_from(s: Seq<char>, i: nat) -> Option<Seq<char>>
    decreases s.len() - i,
        when i <= s.len()
        via extract_from_decreases
{
    match find_quote(s, i) {
        None => None,
        Some(q1) => match find_quote(s, (q1 + 1) as nat) {
            None => None,
            Some(q2) => {
                let content = s.subrange(q1 as int + 1, q2 as int);
                if is_blank(content) {
                    extract_from(s, (q2 + 1) as nat)
                } else {
                    Some(content)
                }
            },
        },
    }
}

#[via_fn]
proof fn extract_from_decreases(s: Seq<char>, i: nat) {
    lemma_find_quote(s, i);
    match find_quote(s, i) {
        Some(q1) => {
            lemma_find_quote(s, (q1 + 1) as nat);
        },
        None => {},
    }
}

/// The name embedded in subject `s`: the content of its first non-blank
/// double-quoted substring, or nothing when no such substring exists.
pub open spec fn extract_name_seq(s: Seq<char>) -> Option<Seq<char>> {
    extract_from(s, 0)
}

/// What `find_quote` returns: the first quote position, with no quote
/// before it in the searched range.
pub proof fn lemma_find_quote(s: Seq<char>, i: nat)
    requires
        i <= s.len(),
    ensures
        match find_quote(s, i) {
            Some(q) => i <= q < s.len() && s[q as int] == '"' && (forall|j: int|
                i <= j < q ==> s[j] != '"'),
            None => forall|j: int| i <= j < s.len() ==> s[j] != '"',
        },
    decreases s.len() - i,
{
    if i < s.len() && s[i as int] != '"' {
        lemma_find_quote(s, (i + 1) as nat);
    }
}

/// `find_quote` is pinned down by that characterization: a quote at `q`
/// with none before it in the range is the one found.
pub proof fn lemma_find_quote_is(s: Seq<char>, i: nat, q: nat)
    requires
        i <= q < s.len(),
        s[q as int] == '"',
        forall|j: int| i <= j < q ==> s[j] != '"',
    ensures
        find_quote(s, i) == Some(q),
    decreases q - i,
{
    if i < q {
        lemma_find_quote_is(s, (i + 1) as nat, q);
    }
}

/// A range with no quote at all makes `find_quote` return nothing.
pub proof fn lemma_find_quote_none(s: Seq<char>, i: nat)
    requires
        i <= s.len(),
        forall|j: int| i <= j < s.len() ==> s[j] != '"',
    ensures
        find_quote(s, i) is None,
    decreases s.len() - i,
{
    if i < s.len() {
        lemma_find_quote_none(s, (i + 1) as nat);
    }
}

/// Searching for a quote is unaffected by what stands before the searched
/// range: a search in `p + r` from a position inside `r` finds the quote
/// that a search in `r` alone finds, shifted by `p`'s length.
pub proof fn lemma_find_quote_shift(p: Seq<char>, r: Seq<char>, i: nat)
    requires
        i <= r.len(),
    ensures
        find_quote(p + r, (p.len() + i) as nat) == match find_quote(r, i) {
            Some(q) => Some((p.len() + q) as nat),
            None => None::<nat>,
        },
    decreases r.len() - i,
{
    let s = p + r;
    if i < r.len() {
        assert(s[p.len() + i as int] == r[i as int]);
        if r[i as int] != '"' {
            lemma_find_quote_shift(p, r, (i + 1) as nat);
        }
    }
}

/// Extraction is unaffected by what stands before the searched range:
/// extracting from `p + r` starting inside `r` extracts what `r` alone
/// yields from the corresponding position.
pub proof fn lemma_extract_shift(p: Seq<char>, r: Seq<char>, i: nat)
    requires
        i <= r.len(),
    ensures
        extract_from(p + r, (p.len() + i) as nat) == extract_from(r, i),
    decreases r.len() - i,
{
    let s = p + r;
    lemma_find_quote_shift(p, r, i);
    lemma_find_quote(r, i);
    match find_quote(r, i) {
        None => {},
        Some(q1) => {
            lemma_find_quote_shift(p, r, (q1 + 1) as nat);
            lemma_find_quote(r, (q1 + 1) as nat);
            match find_quote(r, (q1 + 1) as nat) {
                None => {},
                Some(q2) => {
                    assert(s.subrange(p.len() as int + q1 as int + 1, p.len() as int + q2 as int) =~= r.subrange(
                        q1 as int + 1,
                        q2 as int,
                    ));
                    if is_blank(r.subrange(q1 as int + 1, q2 as int)) {
                        lemma_extract_shift(p, r, (q2 + 1) as nat);
                    }
                },
            }
        },
    }
}

/// A subject with no quote character at all yields no name.
pub proof fn lemma_no_quotes_no_name(s: Seq<char>)
    requires
        forall|j: int| 0 <= j < s.len() ==> s[j] != '"',
    ensures
        extract_name_seq(s) is None,
{
    lemma_find_quote_none(s, 0);
}

/// A subject whose first quote pair encloses a non-blank name yields that
/// name exactly, verbatim, whatever follows the pair.
pub proof fn lemma_first_quoted_name(a: Seq<char>, n: Seq<char>, b: Seq<char>)
    requires
        forall|j: int| 0 <= j < a.len() ==> a[j] != '"',
        forall|j: int| 0 <= j < n.len() ==> n[j] != '"',
        !is_blank(n),
    ensures
        extract_name_seq(a + seq!['"'] + n + seq!['"'] + b) == Some(n),
{
    let s = a + seq!['"'] + n + seq!['"'] + b;
    let q1 = a.len();
    let q2 = a.len() + 1 + n.len();
    assert(s[q1 as int] == '"');
    assert(s[q2 as int] == '"');
    assert forall|j: int| 0 <= j < q1 implies s[j] != '"' by {
        assert(s[j] == a[j]);
    }
    assert forall|j: int| q1 < j < q2 implies s[j] != '"' by {
        assert(s[j] == n[j - q1 - 1]);
    }
    lemma_find_quote_is(s, 0, q1);
    lemma_find_quote_is(s, (q1 + 1) as nat, q2);
    assert(s.subrange(q1 as int + 1, q2 as int) =~= n);
}

/// A quote pair enclosing only whitespace is passed over: the name comes
/// from the rest of the subject.
pub proof fn lemma_blank_pair_skipped(w: Seq<char>, rest: Seq<char>)
    requires
        forall|j: int| 0 <= j < w.len() ==> w[j] != '"',
        is_blank(w),
    ensures
        extract_name_seq(seq!['"'] + w + seq!['"'] + rest) == extract_name_seq(rest),
{
    let s = seq!['"'] + w + seq!['"'] + rest;
    let q2 = w.len() + 1;
    assert(s[0] == '"');
    assert(s[q2 as int] == '"');
    assert forall|j: int| 0 < j < q2 implies s[j] != '"' by {
        assert(s[j] == w[j - 1]);
    }
    lemma_find_quote_is(s, 0, 0);
    lemma_find_quote_is(s, 1, q2);
    assert(s.subrange(1, q2 as int) =~= w);
    let p = seq!['"'] + w + seq!['"'];
    assert(s =~= p + rest);
    lemma_extract_shift(p, rest, 0);
    assert(extract_from(s, (q2 + 1) as nat) == extract_from(rest, 0));
}

/// Extracts the file name embedded in `subject`: the content of the first
/// non-blank double-quoted substring, verbatim (not trimmed), or `None`
/// when the subject holds no such substring.
pub fn extract_name(subject: &str) -> (r: Option<String>)
    ensures
        match r {
            Some(n) => extract_name_seq(subject@) == Some(n@),
            None => extract_name_seq(subject@) is None,
        },
{
    let cs = chars_vec(subject);
    let ghost s = subject@;
    let mut i: usize = 0;
    loop
        invariant
            s == subject@,
            cs@ == s,
            i <= cs.len(),
            cs.len() == s.len(),
            extract_from(s, i as nat) == extract_from(s, 0nat),
        decreases s.len() - i,
    {
        let q1 = match find_quote_vec(&cs, i) {
            None => {
                return None;
            },
            Some(q) => q,
        };
        let q2 = match find_quote_vec(&cs, q1 + 1) {
            None => {
                return None;
            },
            Some(q) => q,
        };
        let mut content: Vec<char> = Vec::new();
        let mut blank = true;
        let mut j = q1 + 1;
        while j < q2
            invariant
                cs@ == s,
                q1 + 1 <= j <= q2 < s.len(),
                cs.len() == s.len(),
                content@ == s.subrange(q1 + 1, j as int),
                blank == is_blank(s.subrange(q1 + 1, j as int)),
            decreases q2 - j,
        {
            let c = cs[j];
            content.push(c);
            if !space(c) {
                blank = false;
            }
            j += 1;
            proof {
                let sub = s.subrange(q1 + 1, j as int);
                assert(sub.drop_last() =~= s.subrange(q1 + 1, j - 1));
                assert(sub.last() == c);
                if blank {
                    assert forall|k: int| 0 <= k < sub.len() implies is_space(sub[k]) by {
                        if k < sub.len() - 1 {
                            assert(sub[k] == s.subrange(q1 + 1, j - 1)[k]);
                        }
                    }
                } else {
                    assert(!is_blank(sub)) by {
                        let prev = s.subrange(q1 + 1, j - 1);
                        if is_blank(prev) {
                            assert(!is_space(c));
                            assert(sub[sub.len() - 1] == c);
                        } else {
                            let k = choose|k: int|
                                0 <= k < prev.len() && !(#[trigger] is_space(prev[k]));
                            assert(sub[k] == prev[k]);
                        }
                    }
                }
            }
        }
        if blank {
            i = q2 + 1;
        } else {
            let name = string_from_chars(&content);
            return Some(name);
        }
    }
}

/// Index of the first `"` in `cs` at or after `from`, if any.
fn find_quote_vec(cs: &Vec<char>, from: usize) -> (r: Option<usize>)
    requires
        from <= cs@.len(),
    ensures
        match r {
            Some(q) => from <= q < cs@.len() && find_quote(cs@, from as nat) == Some(q as nat),
            None => find_quote(cs@, from as nat) is None,
        },
{
    let mut k = from;
    while k < cs.len()
        invariant
            from <= k <= cs@.len(),
            cs@.len() == cs.len(),
            forall|j: int| from <= j < k ==> cs@[j] != '"',
        decreases cs@.len() - k,
    {
        if cs[k] == '"' {
            proof {
                lemma_find_quote_is(cs@, from as nat, k as nat);
            }
            return Some(k);
        }
        k += 1;
    }
    proof {
        lemma_find_quote_none(cs@, from as nat);
    }
    None
}

} // verus!

