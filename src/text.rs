//! Text post-processing of transcript segments: whitespace trimming and the
//! removal of text that a segment repeats from the one before it.

use vstd::prelude::*;
use crate::chars::{chars_of, is_white_space, string_of, white_space};

verus! {

/// `s` without its leading white space.
pub open spec fn trim_start_spec(s: Seq<char>) -> Seq<char>
    decreases s.len(),
{
    if s.len() > 0 && is_white_space(s[0]) {
        trim_start_spec(s.drop_first())
    } else {
        s
    }
}

/// `s` without its trailing white space.
pub open spec fn trim_end_spec(s: Seq<char>) -> Seq<char>
    decreases s.len(),
{
    if s.len() > 0 && is_white_space(s.last()) {
        trim_end_spec(s.drop_last())
    } else {
        s
    }
}

/// `s` without leading and trailing white space.
pub open spec fn trimmed(s: Seq<char>) -> Seq<char> {
    trim_end_spec(trim_start_spec(s))
}

/// Shortest overlap that counts as repeated text, in code points.
pub const MIN_OVERLAP: usize = 4;

/// The last `k` characters of `p` are the first `k` characters of `c`.
pub open spec fn overlaps_by(p: Seq<char>, c: Seq<char>, k: int) -> bool {
    0 <= k <= p.len() && k <= c.len() && p.subrange(p.len() - k, p.len() as int) == c.subrange(0, k)
}

/// The largest `k` in `MIN_OVERLAP..=bound` by which `p` overlaps `c`, or 0 if there is none.
pub open spec fn largest_overlap_upto(p: Seq<char>, c: Seq<char>, bound: int) -> int
    decreases bound,
{
    if bound < MIN_OVERLAP as int {
        0
    } else if overlaps_by(p, c, bound) {
        bound
    } else {
        largest_overlap_upto(p, c, bound - 1)
    }
}

/// Length of the longest suffix of `p` that is a prefix of `c`, if at least
/// `MIN_OVERLAP` long; else 0.
pub open spec fn overlap_len(p: Seq<char>, c: Seq<char>) -> int {
    largest_overlap_upto(p, c, if p.len() < c.len() { p.len() as int } else { c.len() as int })
}

/// What remains of `current` once the text it repeats from the end of `previous` is dropped.
pub open spec fn deduplicated(previous: Seq<char>, current: Seq<char>) -> Seq<char> {
    let p = trimmed(previous);
    let c = trim_start_spec(current);
    if p.len() == 0 || c.len() == 0 {
        c
    } else {
        let k = overlap_len(p, c);
        if k >= MIN_OVERLAP as int {
            trim_start_spec(c.subrange(k, c.len() as int))
        } else {
            c
        }
    }
}

/// Number of leading characters of the left-trimmed `current` that [`deduplicated`] drops.
pub open spec fn removed_prefix_len(previous: Seq<char>, current: Seq<char>) -> int {
    let p = trimmed(previous);
    let c = trim_start_spec(current);
    if p.len() == 0 || c.len() == 0 {
        0
    } else {
        overlap_len(p, c)
    }
}

proof fn lemma_largest_overlap_upto(p: Seq<char>, c: Seq<char>, bound: int)
    ensures
        largest_overlap_upto(p, c, bound) == 0 || (MIN_OVERLAP as int <= largest_overlap_upto(
            p,
            c,
            bound,
        ) <= bound && overlaps_by(p, c, largest_overlap_upto(p, c, bound))),
    decreases bound,
{
    if bound >= MIN_OVERLAP as int && !overlaps_by(p, c, bound) {
        lemma_largest_overlap_upto(p, c, bound - 1);
    }
}

proof fn lemma_trim_start_idempotent(s: Seq<char>)
    ensures
        trim_start_spec(trim_start_spec(s)) == trim_start_spec(s),
    decreases s.len(),
{
    if s.len() > 0 && is_white_space(s[0]) {
        lemma_trim_start_idempotent(s.drop_first());
    }
}

/// Overlap removal drops either nothing or a prefix of at least `MIN_OVERLAP`
/// code points that is no longer than either segment, and that prefix is text
/// which `previous` ends with.
pub proof fn lemma_dedup_bound(previous: Seq<char>, current: Seq<char>)
    ensures
        ({
            let p = trimmed(previous);
            let c = trim_start_spec(current);
            let k = removed_prefix_len(previous, current);
            &&& k == 0 || (MIN_OVERLAP as int <= k && k <= p.len() && k <= c.len())
            &&& k > 0 ==> p.subrange(p.len() - k, p.len() as int) == c.subrange(0, k)
            &&& deduplicated(previous, current) == trim_start_spec(c.subrange(k, c.len() as int))
        }),
{
    let p = trimmed(previous);
    let c = trim_start_spec(current);
    let bound = if p.len() < c.len() { p.len() as int } else { c.len() as int };
    lemma_largest_overlap_upto(p, c, bound);
    lemma_trim_start_idempotent(current);
    assert(c.subrange(0, c.len() as int) =~= c);
}

/// Index of the first character of `s` at or after `from` that is not white space.
fn skip_white_space(s: &[char], from: usize) -> (i: usize)
    requires
        from <= s@.len(),
    ensures
        from <= i <= s@.len(),
        trim_start_spec(s@.subrange(from as int, s@.len() as int)) == s@.subrange(
            i as int,
            s@.len() as int,
        ),
{
    let mut i = from;
    while i < s.len() && white_space(s[i])
        invariant
            from <= i <= s@.len(),
            trim_start_spec(s@.subrange(from as int, s@.len() as int)) == trim_start_spec(
                s@.subrange(i as int, s@.len() as int),
            ),
        decreases s@.len() - i,
    {
        assert(s@.subrange(i as int, s@.len() as int).drop_first() =~= s@.subrange(
            i + 1,
            s@.len() as int,
        ));
        i = i + 1;
    }
    i
}

/// Index one past the last character of `s[from..to]` that is not white space.
fn end_of_text(s: &[char], from: usize, to: usize) -> (j: usize)
    requires
        from <= to <= s@.len(),
    ensures
        from <= j <= to,
        trim_end_spec(s@.subrange(from as int, to as int)) == s@.subrange(from as int, j as int),
{
    let mut j = to;
    while j > from && white_space(s[j - 1])
        invariant
            from <= j <= to <= s@.len(),
            trim_end_spec(s@.subrange(from as int, to as int)) == trim_end_spec(
                s@.subrange(from as int, j as int),
            ),
        decreases j,
    {
        assert(s@.subrange(from as int, j as int).drop_last() =~= s@.subrange(
            from as int,
            j - 1,
        ));
        j = j - 1;
    }
    j
}

/// `s` without leading and trailing white space.
pub fn trim_whitespace(s: &str) -> (r: String)
    ensures
        r@ == trimmed(s@),
{
    let v = chars_of(s);
    let v = v.as_slice();
    let i = skip_white_space(v, 0);
    let j = end_of_text(v, i, v.len());
    assert(v@.subrange(0, v@.len() as int) =~= v@);
    string_of(&v[i..j])
}

/// Whether the last `k` characters of `p` are the first `k` characters of `c`.
fn overlaps(p: &[char], c: &[char], k: usize) -> (r: bool)
    requires
        k <= p@.len(),
        k <= c@.len(),
    ensures
        r == overlaps_by(p@, c@, k as int),
{
    let n = p.len();
    let start = n - k;
    let mut i: usize = 0;
    while i < k
        invariant
            i <= k <= p@.len(),
            k <= c@.len(),
            start + k == n,
            n == p@.len(),
            forall|m: int| 0 <= m < i ==> p@[start + m] == c@[m],
        decreases k - i,
    {
        if p[start + i] != c[i] {
            assert(p@.subrange(start as int, p@.len() as int)[i as int] != c@.subrange(
                0,
                k as int,
            )[i as int]);
            return false;
        }
        i = i + 1;
    }
    assert(p@.subrange(start as int, p@.len() as int) =~= c@.subrange(0, k as int));
    true
}

/// Remove the text that `current` repeats from the end of `previous`.
///
/// `previous` is trimmed and `current` left-trimmed; the longest suffix of
/// `previous` that is also a prefix of `current`, counted in code points and
/// at least `MIN_OVERLAP` long, is dropped from `current`, which is then
/// left-trimmed again. Without such an overlap `current` comes back unchanged.
pub fn remove_text_overlap(previous: &str, current: &str) -> (r: String)
    ensures
        r@ == deduplicated(previous@, current@),
{
    let pv = chars_of(previous);
    let pv = pv.as_slice();
    let ps = skip_white_space(pv, 0);
    let pe = end_of_text(pv, ps, pv.len());
    assert(pv@.subrange(0, pv@.len() as int) =~= pv@);
    let p = &pv[ps..pe];
    let cv = chars_of(current);
    let cv = cv.as_slice();
    let cs = skip_white_space(cv, 0);
    assert(cv@.subrange(0, cv@.len() as int) =~= cv@);
    let c = &cv[cs..cv.len()];
    if p.len() == 0 || c.len() == 0 {
        return string_of(c);
    }
    let bound = if p.len() < c.len() { p.len() } else { c.len() };
    let mut k = bound;
    while k >= MIN_OVERLAP && !overlaps(p, c, k)
        invariant
            k <= bound,
            bound <= p@.len(),
            bound <= c@.len(),
            bound == (if p@.len() < c@.len() { p@.len() } else { c@.len() }),
            overlap_len(p@, c@) == largest_overlap_upto(p@, c@, k as int),
        decreases k,
    {
        k = k - 1;
    }
    if k >= MIN_OVERLAP {
        let rest = &c[k..c.len()];
        let s = skip_white_space(rest, 0);
        assert(rest@.subrange(0, rest@.len() as int) =~= rest@);
        string_of(&rest[s..rest.len()])
    } else {
        string_of(c)
    }
}

} // verus!
