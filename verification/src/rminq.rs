//! Range-minimum queries: a static segment tree whose nodes hold minima.

use vstd::prelude::*;

use crate::agg::Agg;
use crate::agg::lemma_range_agg_agree;
use crate::agg::pad;
use crate::agg::range_min;
use crate::agg::span_hi;
use crate::agg::span_lo;
use crate::errors::SegmentTreeError;
use crate::layout::node_ok;
use crate::ops::build_tree;
use crate::ops::query_node;
use crate::ops::update_node;

verus! {

/// A static segment tree answering range-minimum queries over `i64` values.
///
/// `values` is the implicit binary tree: `2 * sz` slots, the root at slot 0,
/// children of slot `v` at `2v+1` and `2v+2`.  `sz` is the capacity, the
/// least power of two at or above the input length, and `bound` that input
/// length: queries and updates are valid on positions below `bound`.
/// Padding leaves hold `i64::MAX`, which no minimum can be raised by.
pub struct RMinQ {
    values: Vec<i64>,
    sz: usize,
    bound: usize,
    model: Ghost<Seq<i64>>,
}

impl View for RMinQ {
    type V = Seq<i64>;

    /// The logical values the tree currently holds, one per input position.
    closed spec fn view(&self) -> Seq<i64> {
        self.model@
    }
}

impl RMinQ {
    /// The padded leaf sequence the node storage represents.
    pub closed spec fn leaves(self) -> Seq<i64> {
        pad(Agg::Min, self.model@, self.sz as int)
    }

    /// The tree invariant: sizes are consistent and every node stores the
    /// minimum of its leaf range.
    pub closed spec fn wf(self) -> bool {
        &&& 1 <= self.bound <= self.sz <= usize::MAX / 2
        &&& self.values@.len() == 2 * self.sz
        &&& self.model@.len() == self.bound
        &&& node_ok(Agg::Min, self.values@, self.leaves(), 0, 0, self.sz - 1)
    }

    /// Builds a minimum tree holding exactly `values`; an empty input is
    /// refused with `EmptyData`.
    pub fn build(values: &[i64]) -> (result: Result<RMinQ, SegmentTreeError>)
        requires
            values@.len() <= usize::MAX / 4,
        ensures
            values@.len() == 0 ==> result == Err::<RMinQ, SegmentTreeError>(
                SegmentTreeError::EmptyData,
            ),
            values@.len() > 0 ==> (result matches Ok(t) && t.wf() && t@ == values@),
    {
        if values.len() == 0 {
            return Err(SegmentTreeError::EmptyData);
        }
        let (va, n) = build_tree(Agg::Min, values);
        let tree = RMinQ { values: va, sz: n, bound: values.len(), model: Ghost(values@) };
        Ok(tree)
    }

    /// The minimum of the values on the inclusive range between `l` and `r`,
    /// taken in either order; `InvalidRange` if the larger endpoint is not a
    /// valid position.
    pub fn min(&self, l: usize, r: usize) -> (result: Result<i64, SegmentTreeError>)
        requires
            self.wf(),
        ensures
            span_hi(l as int, r as int) < self@.len() ==> (result matches Ok(s) && s == range_min(
                self@,
                span_lo(l as int, r as int),
                span_hi(l as int, r as int),
            )),
            span_hi(l as int, r as int) >= self@.len() ==> result == Err::<i64, SegmentTreeError>(
                SegmentTreeError::InvalidRange,
            ),
    {
        if l < self.bound && r < self.bound {
            let lo = if l <= r {
                l
            } else {
                r
            };
            let hi = if l <= r {
                r
            } else {
                l
            };
            let res = query_node(
                Agg::Min,
                &self.values,
                Ghost(self.leaves()),
                0,
                0,
                self.sz - 1,
                lo,
                hi,
            );
            proof {
                lemma_range_agg_agree(Agg::Min, self.leaves(), self.model@, lo as int, hi as int);
            }
            Ok(res)
        } else {
            Err(SegmentTreeError::InvalidRange)
        }
    }

    /// Overwrites the value at `pos` with `value`, leaving every other
    /// position unchanged; `IndexOutBounds` if `pos` is not a valid position.
    pub fn upddate(&mut self, pos: usize, value: i64) -> (result: Result<(), SegmentTreeError>)
        requires
            old(self).wf(),
        ensures
            final(self).wf(),
            pos < old(self)@.len() ==> result == Ok::<(), SegmentTreeError>(()) && final(self)@
                == old(self)@.update(pos as int, value),
            pos >= old(self)@.len() ==> result == Err::<(), SegmentTreeError>(
                SegmentTreeError::IndexOutBounds,
            ) && *final(self) == *old(self),
    {
        if pos < self.bound {
            let ghost oldlv = self.leaves();
            let ghost newmodel = self.model@.update(pos as int, value);
            proof {
                assert(pad(Agg::Min, newmodel, self.sz as int) =~= oldlv.update(pos as int, value));
            }
            update_node(Agg::Min, &mut self.values, Ghost(oldlv), 0, 0, self.sz - 1, pos, value);
            proof {
                self.model@ = newmodel;
            }
            Ok(())
        } else {
            Err(SegmentTreeError::IndexOutBounds)
        }
    }
}

} // verus!
