//! The implicit binary-tree layout: node `v` has children `2v+1` and `2v+2`,
//! and the well-formedness predicate tying stored node values to the range
//! aggregates of a leaf sequence.

use vstd::prelude::*;

use crate::agg::Agg;
use crate::agg::range_agg;

verus! {

/// `2^k`, the sizes that node ranges of a power-of-two tree can take.
pub open spec fn pow2(k: nat) -> nat
    decreases k,
{
    if k == 0 {
        1
    } else {
        2 * pow2((k - 1) as nat)
    }
}

pub proof fn lemma_pow2_pos(k: nat)
    ensures
        pow2(k) >= 1,
    decreases k,
{
    if k > 0 {
        lemma_pow2_pos((k - 1) as nat);
    }
}

/// Whether slot `i` lies in the subtree rooted at slot `v`: either `i` is `v`
/// itself, or its chain of parents `(i-1)/2` passes through `v`.
pub open spec fn in_subtree(v: int, i: int) -> bool
    decreases i,
{
    if v < 0 || i < v {
        false
    } else if i == v {
        true
    } else {
        in_subtree(v, (i - 1) / 2)
    }
}

/// Subtree containment is transitive.
pub proof fn lemma_in_subtree_trans(a: int, b: int, i: int)
    requires
        in_subtree(a, b),
        in_subtree(b, i),
    ensures
        in_subtree(a, i),
    decreases i,
{
    if i != b {
        lemma_in_subtree_trans(a, b, (i - 1) / 2);
    }
}

/// The subtrees of the two children of a node share no slot.
pub proof fn lemma_siblings_disjoint(v: int, i: int)
    requires
        0 <= v,
    ensures
        !(in_subtree(2 * v + 1, i) && in_subtree(2 * v + 2, i)),
    decreases i,
{
    if i > 2 * v + 2 {
        lemma_siblings_disjoint(v, (i - 1) / 2);
    } else if i == 2 * v + 2 {
        assert(in_subtree(2 * v + 1, i) == in_subtree(2 * v + 1, v));
        assert(!in_subtree(2 * v + 1, v));
    }
}

/// Node `v` holds the aggregate of `lv[tl ..= tr]`, and so on recursively for
/// its children: the tree invariant, for the subtree rooted at `v`.
pub open spec fn node_ok(op: Agg, va: Seq<i64>, lv: Seq<i64>, v: int, tl: int, tr: int) -> bool
    decreases tr - tl,
{
    &&& 0 <= v < va.len()
    &&& 0 <= tl <= tr < lv.len()
    &&& va[v] as int == range_agg(op, lv, tl, tr)
    &&& (tl < tr ==> {
        let m = (tl + tr) / 2;
        &&& node_ok(op, va, lv, 2 * v + 1, tl, m)
        &&& node_ok(op, va, lv, 2 * v + 2, m + 1, tr)
    })
}

/// The invariant of a subtree only reads the slots of that subtree: storage
/// that agrees there satisfies it too.
pub proof fn lemma_node_ok_va_agree(
    op: Agg,
    va1: Seq<i64>,
    va2: Seq<i64>,
    lv: Seq<i64>,
    v: int,
    tl: int,
    tr: int,
)
    requires
        node_ok(op, va1, lv, v, tl, tr),
        va2.len() == va1.len(),
        forall|i: int| 0 <= i < va1.len() && in_subtree(v, i) ==> va1[i] == va2[i],
    ensures
        node_ok(op, va2, lv, v, tl, tr),
    decreases tr - tl,
{
    if tl < tr {
        let m = (tl + tr) / 2;
        assert(in_subtree(v, v));
        assert(in_subtree(v, 2 * v + 1));
        assert(in_subtree(v, 2 * v + 2));
        assert forall|i: int| 0 <= i < va1.len() && in_subtree(2 * v + 1, i) implies va1[i]
            == va2[i] by {
            lemma_in_subtree_trans(v, 2 * v + 1, i);
        }
        assert forall|i: int| 0 <= i < va1.len() && in_subtree(2 * v + 2, i) implies va1[i]
            == va2[i] by {
            lemma_in_subtree_trans(v, 2 * v + 2, i);
        }
        lemma_node_ok_va_agree(op, va1, va2, lv, 2 * v + 1, tl, m);
        lemma_node_ok_va_agree(op, va1, va2, lv, 2 * v + 2, m + 1, tr);
    }
}

/// The invariant of a subtree only reads the leaf values of its range: leaf
/// sequences that agree there are interchangeable.
pub proof fn lemma_node_ok_lv_agree(
    op: Agg,
    va: Seq<i64>,
    lv1: Seq<i64>,
    lv2: Seq<i64>,
    v: int,
    tl: int,
    tr: int,
)
    requires
        node_ok(op, va, lv1, v, tl, tr),
        lv2.len() == lv1.len(),
        forall|i: int| tl <= i <= tr ==> lv1[i] == lv2[i],
    ensures
        node_ok(op, va, lv2, v, tl, tr),
    decreases tr - tl,
{
    crate::agg::lemma_range_agg_agree(op, lv1, lv2, tl, tr);
    if tl < tr {
        let m = (tl + tr) / 2;
        lemma_node_ok_lv_agree(op, va, lv1, lv2, 2 * v + 1, tl, m);
        lemma_node_ok_lv_agree(op, va, lv1, lv2, 2 * v + 2, m + 1, tr);
    }
}

} // verus!
