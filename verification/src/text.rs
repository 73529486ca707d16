//! Character-level helpers shared by the extraction logic: string equality
//! over character sequences and the blank-text test used to drop empty
//! chapter children.

use vstd::prelude::*;

verus! {

/// Whitespace as this library counts it: the ASCII whitespace characters.
pub open spec fn is_space_char(c: char) -> bool {
    c == ' ' || c == '\t' || c == '\n' || c == '\r' || c == '\u{000C}'
}

/// A character sequence is blank when every character in it is whitespace;
/// in particular the empty sequence is blank.
pub open spec fn all_blank(s: Seq<char>) -> bool {
    forall|k: int| 0 <= k < s.len() ==> is_space_char(s[k])
}

/// Character-by-character string equality.
pub fn str_eq(a: &str, b: &str) -> (r: bool)
    ensures
        r == (a@ == b@),
{
    let n = a.unicode_len();
    if n != b.unicode_len() {
        return false;
    }
    let mut k: usize = 0;
    while k < n
        invariant
            n == a@.len(),
            n == b@.len(),
            k <= n,
            forall|j: int| 0 <= j < k ==> a@[j] == b@[j],
        decreases n - k,
    {
        if a.get_char(k) != b.get_char(k) {
            return false;
        }
        k = k + 1;
    }
    proof {
        assert(a@ =~= b@);
    }
    true
}

/// Whether the subrange of `s` starting at `k` equals `w`.
pub fn subrange_eq(s: &str, k: usize, w: &str) -> (r: bool)
    requires
        k + w@.len() <= s@.len(),
    ensures
        r == (s@.subrange(k as int, k + w@.len()) == w@),
{
    let n = s.unicode_len();
    let wn = w.unicode_len();
    let mut j: usize = 0;
    while j < wn
        invariant
            n == s@.len(),
            wn == w@.len(),
            k + wn <= n,
            j <= wn,
            forall|x: int| 0 <= x < j ==> s@[k + x] == w@[x],
        decreases wn - j,
    {
        if s.get_char(k + j) != w.get_char(j) {
            assert(s@.subrange(k as int, k + w@.len())[j as int] == s@[k + j]);
            return false;
        }
        j = j + 1;
    }
    proof {
        assert(s@.subrange(k as int, k + w@.len()) =~= w@);
    }
    true
}

/// Whether the text is empty or all whitespace.
pub fn is_blank(s: &str) -> (r: bool)
    ensures
        r == all_blank(s@),
{
    let n = s.unicode_len();
    let mut k: usize = 0;
    while k < n
        invariant
            n == s@.len(),
            k <= n,
            forall|j: int| 0 <= j < k ==> is_space_char(s@[j]),
        decreases n - k,
    {
        let c = s.get_char(k);
        if !(c == ' ' || c == '\t' || c == '\n' || c == '\r' || c == '\u{000C}') {
            return false;
        }
        k = k + 1;
    }
    true
}

} // verus!
