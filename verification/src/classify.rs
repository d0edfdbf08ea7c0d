//! Classifier: boolean predicates over a decomposed file name.
//!
//! All predicates are total: every input, including an absent name, maps
//! to a defined boolean.
//!
//! Extension comparisons ignore ASCII case. The PAR2 volume rule accepts a
//! purely decimal volume suffix (as in `name.par2.001`); the RAR rules
//! accept the plain `rar` extension (which also covers `part<n>.rar`
//! multi-part names) and the `r` + two digits volume extensions. The
//! obfuscation heuristic flags a stem that is one long hexadecimal or
//! GUID-like run (32 or more hex digits, optionally hyphen-grouped), or a
//! long stem (20 or more characters) with no word separator at all; an
//! absent name counts as obfuscated, absence of any file name being itself
//! suspicious.

use vstd::prelude::*;
use crate::name::{decompose, ext_seq, stem_seq};
use crate::text::{chars_vec, digit, hex_digit, is_digit, is_hex_digit, lower_eq, loweq};

verus! {

/// The extension spells `par2`, ignoring ASCII case.
pub open spec fn is_ext_par2(e: Seq<char>) -> bool {
    e.len() == 4 && lower_eq(e[0], 'p') && lower_eq(e[1], 'a') && lower_eq(e[2], 'r') && e[3]
        == '2'
}

/// The extension spells `rar`, ignoring ASCII case.
pub open spec fn is_ext_rar(e: Seq<char>) -> bool {
    e.len() == 3 && lower_eq(e[0], 'r') && lower_eq(e[1], 'a') && lower_eq(e[2], 'r')
}

/// The extension is a RAR volume marker: `r` followed by exactly two
/// decimal digits, ignoring ASCII case.
pub open spec fn is_ext_rar_volume(e: Seq<char>) -> bool {
    e.len() == 3 && lower_eq(e[0], 'r') && is_digit(e[1]) && is_digit(e[2])
}

/// A volume-index suffix: non-empty and purely decimal digits.
pub open spec fn is_volume_suffix(e: Seq<char>) -> bool {
    e.len() > 0 && forall|j: int| 0 <= j < e.len() ==> is_digit(e[j])
}

/// A name is a PAR2 artifact when its extension is `par2`, or when its
/// extension is a volume-index suffix and the stem's own extension is
/// `par2` (the `name.par2.001` form).
pub open spec fn par2_name(name: Seq<char>) -> bool {
    match ext_seq(name) {
        Some(e) => is_ext_par2(e) || (is_volume_suffix(e) && match ext_seq(stem_seq(name)) {
            Some(e2) => is_ext_par2(e2),
            None => false,
        }),
        None => false,
    }
}

/// A name is a RAR archive when its extension is `rar` (which includes the
/// `part<n>.rar` multi-part form) or a RAR volume marker such as `r00`.
pub open spec fn rar_name(name: Seq<char>) -> bool {
    match ext_seq(name) {
        Some(e) => is_ext_rar(e) || is_ext_rar_volume(e),
        None => false,
    }
}

/// Number of hexadecimal digits in `s`.
pub open spec fn hex_count(s: Seq<char>) -> nat
    decreases s.len(),
{
    if s.len() == 0 {
        0
    } else {
        hex_count(s.drop_last()) + if is_hex_digit(s.last()) {
            1nat
        } else {
            0nat
        }
    }
}

/// A word separator inside a stem: space, dot, hyphen or underscore.
pub open spec fn is_separator(c: char) -> bool {
    c == ' ' || c == '.' || c == '-' || c == '_'
}

/// A GUID-like stem: nothing but hexadecimal digits and hyphen grouping,
/// with at least 32 hex digits in all.
pub open spec fn guid_like(s: Seq<char>) -> bool {
    (forall|j: int| 0 <= j < s.len() ==> is_hex_digit(s[j]) || s[j] == '-') && hex_count(s) >= 32
}

/// A stem looks machine-generated when it is GUID-like or when it is long
/// (20 or more characters) yet holds no word separator at all.
pub open spec fn obfuscated_stem(s: Seq<char>) -> bool {
    guid_like(s) || (s.len() >= 20 && forall|j: int| 0 <= j < s.len() ==> !is_separator(s[j]))
}

/// Obfuscation over an optional name: an absent name counts as obfuscated;
/// a present one is judged by its stem.
pub open spec fn obfuscated_name(name: Option<Seq<char>>) -> bool {
    match name {
        Some(n) => obfuscated_stem(stem_seq(n)),
        None => true,
    }
}

/// A name ending in `.par2` (with a non-empty base before the separator)
/// is a PAR2 artifact, and is not a RAR archive.
pub proof fn lemma_par2_suffix(pre: Seq<char>)
    requires
        pre.len() > 0,
    ensures
        par2_name(pre + seq!['.'] + seq!['p', 'a', 'r', '2']),
        !rar_name(pre + seq!['.'] + seq!['p', 'a', 'r', '2']),
{
    crate::name::lemma_split_at_last_dot(pre, seq!['p', 'a', 'r', '2']);
}

/// A volume name of the `.par2.<digits>` form (with a non-empty base) is
/// still a PAR2 artifact.
pub proof fn lemma_par2_volume(pre: Seq<char>, d: Seq<char>)
    requires
        pre.len() > 0,
        d.len() > 0,
        forall|j: int| 0 <= j < d.len() ==> is_digit(d[j]),
    ensures
        par2_name(pre + seq!['.', 'p', 'a', 'r', '2', '.'] + d),
{
    let base = pre + seq!['.'] + seq!['p', 'a', 'r', '2'];
    let name = pre + seq!['.', 'p', 'a', 'r', '2', '.'] + d;
    assert(name =~= base + seq!['.'] + d);
    crate::name::lemma_split_at_last_dot(base, d);
    crate::name::lemma_split_at_last_dot(pre, seq!['p', 'a', 'r', '2']);
}

/// A name ending in `.rar` (with a non-empty base) is a RAR archive and
/// not a PAR2 artifact; the same holds for the `part<n>.rar` form, which
/// is such a name.
pub proof fn lemma_rar_suffix(pre: Seq<char>)
    requires
        pre.len() > 0,
    ensures
        rar_name(pre + seq!['.'] + seq!['r', 'a', 'r']),
        !par2_name(pre + seq!['.'] + seq!['r', 'a', 'r']),
{
    crate::name::lemma_split_at_last_dot(pre, seq!['r', 'a', 'r']);
}

/// A name ending in a `.r<digit><digit>` volume marker (with a non-empty
/// base) is a RAR archive.
pub proof fn lemma_rar_volume(pre: Seq<char>, d1: char, d2: char)
    requires
        pre.len() > 0,
        is_digit(d1),
        is_digit(d2),
    ensures
        rar_name(pre + seq!['.'] + seq!['r', d1, d2]),
{
    crate::name::lemma_split_at_last_dot(pre, seq!['r', d1, d2]);
}

/// Whether `name` names a PAR2 recovery artifact.
pub fn is_par2_name(name: &str) -> (r: bool)
    ensures
        r == par2_name(name@),
{
    let (stem, ext) = decompose(name);
    match ext {
        None => false,
        Some(e) => {
            if ext_is_par2(&e) {
                true
            } else if volume_suffix(&e) {
                let (_, ext2) = decompose(stem.as_str());
                match ext2 {
                    Some(e2) => ext_is_par2(&e2),
                    None => false,
                }
            } else {
                false
            }
        },
    }
}

/// Whether `name` names a RAR archive or volume.
pub fn is_rar_name(name: &str) -> (r: bool)
    ensures
        r == rar_name(name@),
{
    let (_, ext) = decompose(name);
    match ext {
        None => false,
        Some(e) => {
            let cs = chars_vec(e.as_str());
            if cs.len() != 3 {
                false
            } else {
                loweq(cs[0], 'r') && ((loweq(cs[1], 'a') && loweq(cs[2], 'r')) || (digit(cs[1])
                    && digit(cs[2])))
            }
        },
    }
}

/// Whether the stem `s` looks machine-generated.
pub fn is_obfuscated_stem(s: &str) -> (r: bool)
    ensures
        r == obfuscated_stem(s@),
{
    let cs = chars_vec(s);
    let mut hexes: usize = 0;
    let mut hex_or_hyphen = true;
    let mut no_separator = true;
    let mut j: usize = 0;
    while j < cs.len()
        invariant
            cs@ == s@,
            j <= cs.len(),
            hexes <= j,
            hexes == hex_count(s@.subrange(0, j as int)),
            hex_or_hyphen == (forall|k: int|
                0 <= k < j ==> is_hex_digit(s@[k]) || s@[k] == '-'),
            no_separator == (forall|k: int| 0 <= k < j ==> !is_separator(s@[k])),
        decreases cs.len() - j,
    {
        let c = cs[j];
        proof {
            assert(s@.subrange(0, j + 1).drop_last() =~= s@.subrange(0, j as int));
            assert(s@.subrange(0, j + 1).last() == c);
        }
        if hex_digit(c) {
            hexes += 1;
        } else if c != '-' {
            hex_or_hyphen = false;
        }
        if c == ' ' || c == '.' || c == '-' || c == '_' {
            no_separator = false;
        }
        j += 1;
    }
    proof {
        assert(s@.subrange(0, s@.len() as int) =~= s@);
    }
    (hex_or_hyphen && hexes >= 32) || (cs.len() >= 20 && no_separator)
}

/// Whether the extension `e` spells `par2`, ignoring ASCII case.
fn ext_is_par2(e: &String) -> (r: bool)
    ensures
        r == is_ext_par2(e@),
{
    let cs = chars_vec(e.as_str());
    cs.len() == 4 && loweq(cs[0], 'p') && loweq(cs[1], 'a') && loweq(cs[2], 'r') && cs[3] == '2'
}

/// Whether the extension `e` is a volume-index suffix.
fn volume_suffix(e: &String) -> (r: bool)
    ensures
        r == is_volume_suffix(e@),
{
    let cs = chars_vec(e.as_str());
    if cs.len() == 0 {
        return false;
    }
    let mut j: usize = 0;
    while j < cs.len()
        invariant
            cs@ == e@,
            j <= cs.len(),
            forall|k: int| 0 <= k < j ==> is_digit(e@[k]),
        decreases cs.len() - j,
    {
        if !digit(cs[j]) {
            return false;
        }
        j += 1;
    }
    true
}

} // verus!
