//! Case-insensitive substring matching over snapshots.
//!
//! Detection asks one question per poll: does any process name in the current
//! snapshot contain the pattern? The comparison folds both sides to lowercase
//! with an ASCII-only fold, and the pattern is looked for as a plain
//! substring — not a whole-name match, not a wildcard.

use vstd::prelude::*;
use crate::snapshot::{ProcessRecord, Snapshot};

verus! {

/// ASCII-only lowercase fold of one character: `'A'..='Z'` shift down,
/// everything else is unchanged.
pub open spec fn lower_char(c: char) -> char {
    if 65 <= c as u32 && c as u32 <= 90 {
        ((c as u32 + 32) as u8) as char
    } else {
        c
    }
}

/// ASCII-only lowercase fold of a whole string.
pub open spec fn lower(s: Seq<char>) -> Seq<char> {
    s.map_values(|c: char| lower_char(c))
}

/// `needle` occurs in `hay` starting at position `i`.
pub open spec fn contains_at(hay: Seq<char>, needle: Seq<char>, i: int) -> bool {
    0 <= i && i + needle.len() <= hay.len() && hay.subrange(i, i + needle.len()) == needle
}

/// `needle` occurs somewhere in `hay`.
pub open spec fn is_substring(needle: Seq<char>, hay: Seq<char>) -> bool {
    exists|i: int| contains_at(hay, needle, i)
}

/// One process name detects the pattern: the lowercased name contains the
/// lowercased pattern as a substring.
pub open spec fn name_matches(name: Seq<char>, pattern: Seq<char>) -> bool {
    is_substring(lower(pattern), lower(name))
}

/// The snapshot detects the pattern: some record's name matches. False for
/// an empty snapshot.
pub open spec fn snapshot_matches(records: Seq<ProcessRecord>, pattern: Seq<char>) -> bool {
    exists|k: int| 0 <= k < records.len() && name_matches(records[k].name@, pattern)
}

/// An empty snapshot never detects any pattern.
pub proof fn lemma_empty_snapshot_never_matches(pattern: Seq<char>)
    ensures
        !snapshot_matches(Seq::<ProcessRecord>::empty(), pattern),
{
}

fn lower_char_exec(c: char) -> (r: char)
    ensures
        r == lower_char(c),
{
    let u = c as u32;
    if 65 <= u && u <= 90 {
        ((u as u8) + 32) as char
    } else {
        c
    }
}

/// The characters of `s`, as a vector.
fn chars_of(s: &str) -> (v: Vec<char>)
    ensures
        v@ == s@,
{
    let n = s.unicode_len();
    let mut v: Vec<char> = Vec::new();
    let mut i: usize = 0;
    while i < n
        invariant
            n == s@.len(),
            i <= n,
            v@ == s@.take(i as int),
        decreases n - i,
    {
        v.push(s.get_char(i));
        proof {
            assert(s@.take(i + 1) =~= s@.take(i as int).push(s@[i as int]));
        }
        i = i + 1;
    }
    proof {
        assert(s@.take(n as int) =~= s@);
    }
    v
}

/// The ASCII lowercase fold of a character vector.
fn lower_chars(v: &Vec<char>) -> (r: Vec<char>)
    ensures
        r@ == lower(v@),
{
    let mut r: Vec<char> = Vec::new();
    let mut i: usize = 0;
    while i < v.len()
        invariant
            i <= v@.len(),
            r@.len() == i,
            forall|j: int| 0 <= j < i ==> r@[j] == lower_char(v@[j]),
        decreases v@.len() - i,
    {
        r.push(lower_char_exec(v[i]));
        i = i + 1;
    }
    proof {
        assert(r@ =~= lower(v@));
    }
    r
}

/// Whether `needle` occurs in `hay` starting at `start`.
fn match_at(hay: &Vec<char>, needle: &Vec<char>, start: usize) -> (b: bool)
    requires
        start + needle@.len() <= hay@.len(),
    ensures
        b == contains_at(hay@, needle@, start as int),
{
    let m = needle.len();
    let hn = hay.len();
    let mut j: usize = 0;
    while j < m
        invariant
            j <= m,
            m == needle@.len(),
            hn == hay@.len(),
            start + m <= hn,
            forall|k: int| 0 <= k < j ==> hay@[start + k] == needle@[k],
        decreases m - j,
    {
        if hay[start + j] != needle[j] {
            proof {
                assert(hay@.subrange(start as int, start + m as int)[j as int]
                    == hay@[start + j]);
            }
            return false;
        }
        j = j + 1;
    }
    proof {
        assert(hay@.subrange(start as int, start + m as int) =~= needle@);
    }
    true
}

/// Whether `needle` occurs anywhere in `hay`.
fn contains_sub(hay: &Vec<char>, needle: &Vec<char>) -> (b: bool)
    ensures
        b == is_substring(needle@, hay@),
{
    let n = hay.len();
    let m = needle.len();
    if m > n {
        return false;
    }
    if m == 0 {
        proof {
            assert(hay@.subrange(0, 0) =~= needle@);
            assert(contains_at(hay@, needle@, 0));
        }
        return true;
    }
    let mut i: usize = 0;
    while i <= n - m
        invariant
            0 < m <= n,
            n == hay@.len(),
            m == needle@.len(),
            i <= n - m + 1,
            forall|i0: int| 0 <= i0 < i ==> !contains_at(hay@, needle@, i0),
        decreases n - i,
    {
        if match_at(hay, needle, i) {
            return true;
        }
        i = i + 1;
    }
    false
}

/// Whether the lowercased `name` contains the lowercased `pattern`.
pub fn name_contains(name: &str, pattern: &str) -> (b: bool)
    ensures
        b == name_matches(name@, pattern@),
{
    let h = lower_chars(&chars_of(name));
    let p = lower_chars(&chars_of(pattern));
    contains_sub(&h, &p)
}

/// Whether any record of the snapshot has a name that contains the pattern,
/// case-insensitively.
pub fn matches(snap: &Snapshot, pattern: &str) -> (b: bool)
    ensures
        b == snapshot_matches(snap.records@, pattern@),
{
    let mut k: usize = 0;
    while k < snap.records.len()
        invariant
            k <= snap.records@.len(),
            forall|k0: int| 0 <= k0 < k ==> !name_matches(snap.records@[k0].name@, pattern@),
        decreases snap.records@.len() - k,
    {
        if name_contains(snap.records[k].name.as_str(), pattern) {
            return true;
        }
        k = k + 1;
    }
    false
}

} // verus!
