//! The three aggregates a tree can answer — sum, maximum, minimum — and the
//! mathematical range-aggregate function the contracts are stated over.

use vstd::prelude::*;

verus! {

/// Which aggregate a tree maintains: the combine operation together with its
/// identity element.
#[derive(Clone, Copy)]
pub enum Agg {
    Sum,
    Max,
    Min,
}

/// The identity element of an aggregate: combined with any stored value it
/// yields that value unchanged.  It also fills the padding leaves.
pub open spec fn identity_elem(op: Agg) -> i64 {
    match op {
        Agg::Sum => 0i64,
        Agg::Max => i64::MIN,
        Agg::Min => i64::MAX,
    }
}

/// The combine operation of an aggregate, over unbounded integers.
pub open spec fn combine(op: Agg, a: int, b: int) -> int {
    match op {
        Agg::Sum => a + b,
        Agg::Max => if a >= b { a } else { b },
        Agg::Min => if a <= b { a } else { b },
    }
}

/// The aggregate of the values of `s` on the inclusive range `[l, r]`;
/// the identity element when the range is empty.
pub open spec fn range_agg(op: Agg, s: Seq<i64>, l: int, r: int) -> int
    decreases r - l,
{
    if l > r {
        identity_elem(op) as int
    } else if l == r {
        s[l] as int
    } else {
        combine(op, s[l] as int, range_agg(op, s, l + 1, r))
    }
}

/// The sum of `s[l], ..., s[r]`; `0` on an empty range.
pub open spec fn range_sum(s: Seq<i64>, l: int, r: int) -> int {
    range_agg(Agg::Sum, s, l, r)
}

/// The maximum of `s[l], ..., s[r]`; `i64::MIN` on an empty range.
pub open spec fn range_max(s: Seq<i64>, l: int, r: int) -> int {
    range_agg(Agg::Max, s, l, r)
}

/// The minimum of `s[l], ..., s[r]`; `i64::MAX` on an empty range.
pub open spec fn range_min(s: Seq<i64>, l: int, r: int) -> int {
    range_agg(Agg::Min, s, l, r)
}

/// The smaller of a query's two endpoints.
pub open spec fn span_lo(l: int, r: int) -> int {
    if l <= r {
        l
    } else {
        r
    }
}

/// The larger of a query's two endpoints.
pub open spec fn span_hi(l: int, r: int) -> int {
    if l <= r {
        r
    } else {
        l
    }
}

/// Every contiguous range of `s` has a sum representable as an `i64`.
/// Sum trees need this so that no stored node, and no query result, can
/// overflow the value type.
pub open spec fn sum_ranges_fit(s: Seq<i64>) -> bool {
    forall|l: int, r: int|
        0 <= l <= r < s.len() ==> i64::MIN <= #[trigger] range_sum(s, l, r) <= i64::MAX
}

/// `s` extended to length `n` with the aggregate's identity element.
pub open spec fn pad(op: Agg, s: Seq<i64>, n: int) -> Seq<i64> {
    Seq::new(n as nat, |i: int| if 0 <= i < s.len() { s[i] } else { identity_elem(op) })
}

/// Splitting a non-empty range at an interior point splits its aggregate.
pub proof fn lemma_range_agg_split(op: Agg, s: Seq<i64>, l: int, m: int, r: int)
    requires
        l <= m < r,
    ensures
        range_agg(op, s, l, r) == combine(op, range_agg(op, s, l, m), range_agg(op, s, m + 1, r)),
    decreases m - l,
{
    if l < m {
        lemma_range_agg_split(op, s, l + 1, m, r);
    }
}

/// The aggregate of a range depends only on the values inside the range.
pub proof fn lemma_range_agg_agree(op: Agg, s1: Seq<i64>, s2: Seq<i64>, l: int, r: int)
    requires
        forall|i: int| l <= i <= r ==> s1[i] == s2[i],
    ensures
        range_agg(op, s1, l, r) == range_agg(op, s2, l, r),
    decreases r - l,
{
    if l < r {
        lemma_range_agg_agree(op, s1, s2, l + 1, r);
    }
}

/// A maximum or minimum aggregate always lies in the `i64` range: every value
/// it can take, the identity element included, is an `i64`.
pub proof fn lemma_range_agg_fits(op: Agg, s: Seq<i64>, l: int, r: int)
    requires
        op is Max || op is Min,
    ensures
        i64::MIN <= range_agg(op, s, l, r) <= i64::MAX,
    decreases r - l,
{
    if l < r {
        lemma_range_agg_fits(op, s, l + 1, r);
    }
}

/// A trailing identity element does not change a range's aggregate.
pub proof fn lemma_range_agg_identity_tail(op: Agg, s: Seq<i64>, l: int, r: int)
    requires
        l <= r,
        s[r] == identity_elem(op),
    ensures
        range_agg(op, s, l, r) == range_agg(op, s, l, r - 1),
{
    if l < r {
        lemma_range_agg_split(op, s, l, r - 1, r);
        if !(op is Sum) {
            lemma_range_agg_fits(op, s, l, r - 1);
        }
    }
}

/// Identity elements at positions `b..=r` can all be stripped from a range.
pub proof fn lemma_range_agg_strip(op: Agg, s: Seq<i64>, l: int, b: int, r: int)
    requires
        l <= b <= r + 1,
        forall|i: int| b <= i <= r ==> s[i] == identity_elem(op),
    ensures
        range_agg(op, s, l, r) == range_agg(op, s, l, b - 1),
    decreases r + 1 - b,
{
    if b <= r {
        lemma_range_agg_identity_tail(op, s, l, r);
        lemma_range_agg_strip(op, s, l, b, r - 1);
    }
}

/// Padding a sequence with zeroes keeps every contiguous range sum
/// representable: a padded range sums to the same value as its unpadded part.
pub proof fn lemma_pad_preserves_fit(s: Seq<i64>, n: int)
    requires
        s.len() <= n,
        sum_ranges_fit(s),
    ensures
        sum_ranges_fit(pad(Agg::Sum, s, n)),
{
    let p = pad(Agg::Sum, s, n);
    assert forall|l: int, r: int| 0 <= l <= r < p.len() implies i64::MIN <= #[trigger] range_sum(
        p,
        l,
        r,
    ) <= i64::MAX by {
        if l >= s.len() {
            lemma_range_agg_strip(Agg::Sum, p, l, l, r);
        } else {
            let hi = if r < s.len() {
                r
            } else {
                s.len() - 1
            };
            lemma_range_agg_strip(Agg::Sum, p, l, hi + 1, r);
            lemma_range_agg_agree(Agg::Sum, p, s, l, hi);
            assert(i64::MIN <= range_sum(s, l, hi) <= i64::MAX);
        }
    }
}

} // verus!
