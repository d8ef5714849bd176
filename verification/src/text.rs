//! Byte-level text utilities: splitting a log file into lines and searching
//! a line for a fixed marker. Session logs are newline-delimited, so the
//! framing itself is part of the format this crate owns.

use vstd::prelude::*;
use vstd::slice::{slice_subrange, slice_to_vec};

verus! {

pub const LINE_FEED: u8 = 10;

pub const CARRIAGE_RETURN: u8 = 13;

/// A segment before a line feed loses one trailing carriage return, so that
/// both bare and carriage-return line endings delimit lines.
pub open spec fn strip_cr(s: Seq<u8>) -> Seq<u8> {
    if s.len() > 0 && s.last() == CARRIAGE_RETURN {
        s.drop_last()
    } else {
        s
    }
}

/// Index of the first line feed in `s`, or `s.len()` if there is none.
pub open spec fn first_nl(s: Seq<u8>) -> int
    decreases s.len(),
{
    if s.len() == 0 {
        0
    } else if s[0] == LINE_FEED {
        0
    } else {
        1 + first_nl(s.drop_first())
    }
}

/// `first_nl` always lands between 0 and the length.
pub proof fn lemma_first_nl_bounds(s: Seq<u8>)
    ensures
        0 <= first_nl(s) <= s.len(),
    decreases s.len(),
{
    if s.len() > 0 && s[0] != LINE_FEED {
        lemma_first_nl_bounds(s.drop_first());
    }
}

/// The lines of `s`: segments delimited by line feeds, each stripped of one
/// trailing carriage return; a final segment without a line feed counts as a
/// line, and a trailing line feed adds no empty line.
pub open spec fn lines_of(s: Seq<u8>) -> Seq<Seq<u8>>
    decreases s.len(),
    via lines_of_decreases
{
    if s.len() == 0 {
        Seq::empty()
    } else {
        let k = first_nl(s);
        if k == s.len() {
            seq![s]
        } else {
            seq![strip_cr(s.take(k))] + lines_of(s.skip(k + 1))
        }
    }
}

#[via_fn]
proof fn lines_of_decreases(s: Seq<u8>) {
    lemma_first_nl_bounds(s);
}

/// Pins `first_nl` from an explicit witness: no line feed before `k`, and a
/// line feed at `k` unless `k` is the length.
proof fn lemma_first_nl_is(s: Seq<u8>, k: int)
    requires
        0 <= k <= s.len(),
        forall|j: int| 0 <= j < k ==> s[j] != LINE_FEED,
        k < s.len() ==> s[k] == LINE_FEED,
    ensures
        first_nl(s) == k,
    decreases s.len(),
{
    if s.len() > 0 && k > 0 {
        assert(s[0] != LINE_FEED);
        assert forall|j: int| 0 <= j < k - 1 implies s.drop_first()[j] != LINE_FEED by {
            assert(s.drop_first()[j] == s[j + 1]);
        }
        assert(k - 1 < s.drop_first().len() ==> s.drop_first()[k - 1] == LINE_FEED);
        lemma_first_nl_is(s.drop_first(), k - 1);
    }
}

/// The bytes of one line: `content[start..nl]` with a trailing carriage
/// return removed.
fn cut_segment(content: &[u8], start: usize, nl: usize) -> (r: Vec<u8>)
    requires
        start <= nl <= content@.len(),
    ensures
        r@ == strip_cr(content@.subrange(start as int, nl as int)),
{
    let mut seg = slice_to_vec(slice_subrange(content, start, nl));
    if seg.len() > 0 && seg[seg.len() - 1] == CARRIAGE_RETURN {
        seg.pop();
    }
    seg
}

/// Splits a file body into its lines, exactly as `lines_of` describes.
pub fn split_lines(content: &[u8]) -> (r: Vec<Vec<u8>>)
    ensures
        r.deep_view() == lines_of(content@),
{
    let len: usize = content.len();
    let mut r: Vec<Vec<u8>> = Vec::new();
    let ghost mut acc: Seq<Seq<u8>> = Seq::empty();
    let mut start: usize = 0;
    let mut i: usize = 0;
    proof {
        assert(r.deep_view() =~= acc);
        assert(content@.skip(0) =~= content@);
    }
    while i < len
        invariant
            len == content@.len(),
            0 <= start <= i <= len,
            forall|j: int| start <= j < i ==> content@[j] != LINE_FEED,
            acc == r.deep_view(),
            lines_of(content@) == acc + lines_of(content@.skip(start as int)),
        decreases len - i,
    {
        if content[i] == LINE_FEED {
            let seg = cut_segment(content, start, i);
            let ghost tail = content@.skip(start as int);
            proof {
                assert forall|j: int| 0 <= j < i - start implies tail[j] != LINE_FEED by {
                    assert(tail[j] == content@[start + j]);
                }
                assert(tail[i - start] == content@[i as int]);
                lemma_first_nl_is(tail, i - start);
                assert(tail.take(i - start) =~= content@.subrange(start as int, i as int));
                assert(tail.skip(i - start + 1) =~= content@.skip(i as int + 1));
                assert(lines_of(tail) == seq![strip_cr(tail.take(i - start))] + lines_of(
                    tail.skip(i - start + 1),
                ));
            }
            let ghost prev = r.deep_view();
            r.push(seg);
            proof {
                assert(seg.deep_view() =~= seg@);
                assert forall|m: int| 0 <= m < prev.len() implies r.deep_view()[m] == prev[m] by {}
                assert(r.deep_view() =~= prev.push(seg@));
                acc = acc.push(seg@);
                assert((acc.drop_last() + (seq![seg@] + lines_of(content@.skip(i as int + 1))))
                    =~= acc + lines_of(content@.skip(i as int + 1)));
                assert(lines_of(content@) == acc + lines_of(content@.skip(i as int + 1)));
            }
            start = i + 1;
        }
        i = i + 1;
    }
    if start < len {
        let ghost tail = content@.skip(start as int);
        let seg = slice_to_vec(slice_subrange(content, start, len));
        proof {
            assert forall|j: int| 0 <= j < tail.len() implies tail[j] != LINE_FEED by {
                assert(tail[j] == content@[start + j]);
            }
            lemma_first_nl_is(tail, tail.len() as int);
            assert(lines_of(tail) == seq![tail]);
            assert(seg@ =~= tail);
        }
        let ghost prev = r.deep_view();
        r.push(seg);
        proof {
            assert(seg.deep_view() =~= seg@);
            assert forall|m: int| 0 <= m < prev.len() implies r.deep_view()[m] == prev[m] by {}
            assert(r.deep_view() =~= prev.push(seg@));
            acc = acc.push(seg@);
            assert((prev + seq![tail]) =~= acc);
            assert(lines_of(content@) == acc);
        }
    } else {
        proof {
            assert(content@.skip(start as int).len() == 0);
            assert(acc + lines_of(content@.skip(start as int)) =~= acc);
        }
    }
    r
}

/// `pat` occurs in `hay` starting at position `i`.
pub open spec fn match_at(hay: Seq<u8>, pat: Seq<u8>, i: int) -> bool {
    forall|j: int| 0 <= j < pat.len() ==> hay[i + j] == pat[j]
}

/// `pat` occurs somewhere in `hay`.
pub open spec fn has_sub(hay: Seq<u8>, pat: Seq<u8>) -> bool {
    exists|i: int| 0 <= i <= hay.len() - pat.len() && match_at(hay, pat, i)
}

/// Compares `pat` against `hay` at position `i`.
fn match_prefix(hay: &[u8], pat: &[u8], i: usize) -> (r: bool)
    requires
        i + pat@.len() <= hay@.len(),
    ensures
        r == match_at(hay@, pat@, i as int),
{
    let hn: usize = hay.len();
    let pn: usize = pat.len();
    let mut j: usize = 0;
    while j < pn
        invariant
            pn == pat@.len(),
            hn == hay@.len(),
            i + pn <= hn,
            0 <= j <= pn,
            forall|m: int| 0 <= m < j ==> hay@[i + m] == pat@[m],
        decreases pn - j,
    {
        if hay[i + j] != pat[j] {
            assert(hay@[i + j] != pat@[j as int]);
            return false;
        }
        j = j + 1;
    }
    true
}

/// Naive substring search over bytes.
pub fn contains_bytes(hay: &[u8], pat: &[u8]) -> (r: bool)
    ensures
        r == has_sub(hay@, pat@),
{
    let hn: usize = hay.len();
    let pn: usize = pat.len();
    if pn > hn {
        assert(!has_sub(hay@, pat@));
        return false;
    }
    let mut i: usize = 0;
    while i <= hn - pn
        invariant
            pn <= hn,
            hn == hay@.len(),
            pn == pat@.len(),
            0 <= i <= hn - pn + 1,
            forall|k: int| 0 <= k < i ==> !match_at(hay@, pat@, k),
        decreases hn - pn + 1 - i,
    {
        if match_prefix(hay, pat, i) {
            return true;
        }
        i = i + 1;
    }
    assert forall|k: int| 0 <= k <= hay@.len() - pat@.len() implies !match_at(
        hay@,
        pat@,
        k,
    ) by {}
    false
}

} // verus!
