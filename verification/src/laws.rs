//! Laws the trees obey, stated over the same spec functions and views that
//! the public contracts use.

use vstd::prelude::*;

use crate::agg::Agg;
use crate::agg::lemma_range_agg_agree;
use crate::agg::range_agg;
use crate::agg::range_max;
use crate::agg::range_min;
use crate::agg::range_sum;
use crate::agg::span_hi;
use crate::agg::span_lo;
use crate::rmaxq::RMaxQ;
use crate::rminq::RMinQ;
use crate::rsq::RSQ;

verus! {

/// A point update changes exactly its own position: afterwards the aggregate
/// of the single range `[pos, pos]` is the new value, and the aggregate of
/// every range that does not contain `pos` is what it was before.
pub proof fn lemma_update_point(op: Agg, s: Seq<i64>, pos: int, value: i64)
    requires
        0 <= pos < s.len(),
    ensures
        range_agg(op, s.update(pos, value), pos, pos) == value,
        forall|l: int, r: int|
            0 <= l <= r < s.len() && !(l <= pos <= r) ==> #[trigger] range_agg(
                op,
                s.update(pos, value),
                l,
                r,
            ) == range_agg(op, s, l, r),
{
    assert forall|l: int, r: int| 0 <= l <= r < s.len() && !(l <= pos <= r) implies #[trigger]
    range_agg(op, s.update(pos, value), l, r) == range_agg(op, s, l, r) by {
        lemma_range_agg_agree(op, s.update(pos, value), s, l, r);
    }
}

/// A query's endpoints may be given in either order: both orders name the
/// same inclusive range, so the specified result is the same.
pub proof fn lemma_span_symmetric(l: int, r: int)
    ensures
        span_lo(l, r) == span_lo(r, l),
        span_hi(l, r) == span_hi(r, l),
{
}

/// Sum trees holding the same logical values answer every query identically:
/// a query's outcome depends only on the values and the endpoints.  In
/// particular, two trees built from the same input are interchangeable.
pub proof fn lemma_sum_queries_from_values(t1: RSQ, t2: RSQ)
    requires
        t1.wf(),
        t2.wf(),
        t1@ == t2@,
    ensures
        t1@.len() == t2@.len(),
        forall|l: int, r: int| #[trigger] range_sum(t1@, l, r) == range_sum(t2@, l, r),
{
}

/// Maximum trees holding the same logical values answer every query
/// identically.
pub proof fn lemma_max_queries_from_values(t1: RMaxQ, t2: RMaxQ)
    requires
        t1.wf(),
        t2.wf(),
        t1@ == t2@,
    ensures
        t1@.len() == t2@.len(),
        forall|l: int, r: int| #[trigger] range_max(t1@, l, r) == range_max(t2@, l, r),
{
}

/// Minimum trees holding the same logical values answer every query
/// identically.
pub proof fn lemma_min_queries_from_values(t1: RMinQ, t2: RMinQ)
    requires
        t1.wf(),
        t2.wf(),
        t1@ == t2@,
    ensures
        t1@.len() == t2@.len(),
        forall|l: int, r: int| #[trigger] range_min(t1@, l, r) == range_min(t2@, l, r),
{
}

} // verus!
