//! Character-level text utilities: the case-insensitive substring match used
//! for model-name normalization, and the calendar-date prefix of a time
//! stamp.

use vstd::prelude::*;

verus! {

/// `c` equals the pattern character `p` up to ASCII case, where `p` is
/// already lower case.
pub open spec fn ci_eq(c: char, p: char) -> bool {
    c == p || ('A' <= c && c <= 'Z' && c as u32 + 32 == p as u32)
}

/// `pat` matches `s` at position `i`, character by character up to case.
pub open spec fn ci_match_at(s: Seq<char>, pat: Seq<char>, i: int) -> bool {
    forall|j: int| 0 <= j < pat.len() ==> ci_eq(s[i + j], pat[j])
}

/// A lower-case pattern occurs in `s`, ignoring ASCII case.
pub open spec fn contains_ci(s: Seq<char>, pat: Seq<char>) -> bool {
    exists|i: int| 0 <= i <= s.len() - pat.len() && ci_match_at(s, pat, i)
}

fn ci_eq_exec(c: char, p: char) -> (r: bool)
    ensures
        r == ci_eq(c, p),
{
    c == p || ('A' <= c && c <= 'Z' && c as u32 + 32 == p as u32)
}

/// Compares `pat` against `s` at position `i`, ignoring ASCII case.
fn ci_match_prefix(s: &str, pat: &str, i: usize) -> (r: bool)
    requires
        i + pat@.len() <= s@.len(),
    ensures
        r == ci_match_at(s@, pat@, i as int),
{
    let sn: usize = s.unicode_len();
    let pn: usize = pat.unicode_len();
    let mut j: usize = 0;
    while j < pn
        invariant
            pn == pat@.len(),
            sn == s@.len(),
            i + pn <= sn,
            0 <= j <= pn,
            forall|m: int| 0 <= m < j ==> ci_eq(s@[i + m], pat@[m]),
        decreases pn - j,
    {
        if !ci_eq_exec(s.get_char(i + j), pat.get_char(j)) {
            assert(!ci_eq(s@[i + j], pat@[j as int]));
            return false;
        }
        j = j + 1;
    }
    true
}

/// Case-insensitive substring search; `pat` must already be lower case for
/// the match to behave as `contains_ci` describes.
pub fn str_contains_ci(s: &str, pat: &str) -> (r: bool)
    ensures
        r == contains_ci(s@, pat@),
{
    let sn: usize = s.unicode_len();
    let pn: usize = pat.unicode_len();
    if pn > sn {
        assert(!contains_ci(s@, pat@));
        return false;
    }
    let mut i: usize = 0;
    while i <= sn - pn
        invariant
            pn <= sn,
            sn == s@.len(),
            pn == pat@.len(),
            0 <= i <= sn - pn + 1,
            forall|k: int| 0 <= k < i ==> !ci_match_at(s@, pat@, k),
        decreases sn - pn + 1 - i,
    {
        if ci_match_prefix(s, pat, i) {
            return true;
        }
        i = i + 1;
    }
    assert forall|k: int| 0 <= k <= s@.len() - pat@.len() implies !ci_match_at(
        s@,
        pat@,
        k,
    ) by {}
    false
}

/// Character-by-character string equality.
pub fn str_eq(a: &str, b: &str) -> (r: bool)
    ensures
        r == (a@ == b@),
{
    let an: usize = a.unicode_len();
    let bn: usize = b.unicode_len();
    if an != bn {
        return false;
    }
    let mut i: usize = 0;
    while i < an
        invariant
            an == a@.len(),
            an == b@.len(),
            0 <= i <= an,
            forall|j: int| 0 <= j < i ==> a@[j] == b@[j],
        decreases an - i,
    {
        if a.get_char(i) != b.get_char(i) {
            return false;
        }
        i = i + 1;
    }
    proof {
        assert(a@ =~= b@);
    }
    true
}

/// The calendar-date prefix of an ISO date-time string: its first ten
/// characters, or empty when the string is shorter than a date.
pub open spec fn date_prefix_spec(s: Seq<char>) -> Seq<char> {
    if s.len() >= 10 {
        s.take(10)
    } else {
        Seq::empty()
    }
}

/// Truncates a date-time string to calendar-date granularity.
pub fn date_prefix(s: &str) -> (r: String)
    ensures
        r@ == date_prefix_spec(s@),
{
    let n: usize = s.unicode_len();
    if n >= 10 {
        let p = s.substring_char(0, 10);
        assert(p@ =~= s@.take(10));
        String::from_str(p)
    } else {
        String::new()
    }
}

} // verus!
