//! The traversal algorithms all three trees share: building the node storage,
//! answering a range query, and applying a point update.

use vstd::prelude::*;

use crate::agg::Agg;
use crate::agg::identity_elem;
use crate::agg::lemma_pad_preserves_fit;
use crate::agg::lemma_range_agg_split;
use crate::agg::pad;
use crate::agg::range_agg;
use crate::agg::range_sum;
use crate::agg::sum_ranges_fit;
use crate::layout::in_subtree;
use crate::layout::lemma_in_subtree_trans;
use crate::layout::lemma_node_ok_lv_agree;
use crate::layout::lemma_node_ok_va_agree;
use crate::layout::lemma_pow2_pos;
use crate::layout::lemma_siblings_disjoint;
use crate::layout::node_ok;
use crate::layout::pow2;
use crate::sentinels::MaxValue;
use crate::sentinels::MinValue;

verus! {

/// The identity element of an aggregate, as a runtime value.
pub(crate) fn identity_value(op: Agg) -> (r: i64)
    ensures
        r == identity_elem(op),
{
    match op {
        Agg::Sum => 0i64,
        Agg::Max => <i64 as MinValue>::min_value(),
        Agg::Min => <i64 as MaxValue>::max_value(),
    }
}

/// Answers a query on the subtree rooted at slot `v`, which covers leaf
/// positions `tl ..= tr` of the leaf sequence `lv`.  An empty query range
/// yields the identity element; a range equal to the node's own is answered
/// from storage; any other range is split at the node's midpoint.
pub(crate) fn query_node(
    op: Agg,
    va: &Vec<i64>,
    Ghost(lv): Ghost<Seq<i64>>,
    v: usize,
    tl: usize,
    tr: usize,
    l: usize,
    r: usize,
) -> (res: i64)
    requires
        node_ok(op, va@, lv, v as int, tl as int, tr as int),
        op is Sum ==> sum_ranges_fit(lv),
        va@.len() <= usize::MAX,
        tr <= usize::MAX / 2,
        l <= r ==> tl <= l && r <= tr,
    ensures
        res as int == range_agg(op, lv, l as int, r as int),
    decreases tr - tl,
{
    if l > r {
        identity_value(op)
    } else if tl == l && tr == r {
        va[v]
    } else {
        assert(tl < tr);
        let m: usize = (tl + tr) / 2;
        proof {
            assert(node_ok(op, va@, lv, 2 * (v as int) + 1, tl as int, m as int));
            assert(node_ok(op, va@, lv, 2 * (v as int) + 2, m as int + 1, tr as int));
        }
        let rl: usize = if r <= m {
            r
        } else {
            m
        };
        let a = query_node(op, va, Ghost(lv), 2 * v + 1, tl, m, l, rl);
        let lr: usize = if l >= m + 1 {
            l
        } else {
            m + 1
        };
        let b = query_node(op, va, Ghost(lv), 2 * v + 2, m + 1, tr, lr, r);
        proof {
            if l <= m && m < r {
                lemma_range_agg_split(op, lv, l as int, m as int, r as int);
                if op is Sum {
                    assert(range_sum(lv, l as int, r as int) == range_agg(
                        op,
                        lv,
                        l as int,
                        r as int,
                    ));
                }
            }
        }
        match op {
            Agg::Sum => a + b,
            Agg::Max => if a >= b {
                a
            } else {
                b
            },
            Agg::Min => if a <= b {
                a
            } else {
                b
            },
        }
    }
}

/// Replaces the leaf at position `pos` of the subtree rooted at slot `v` with
/// `value` and recomputes every node on the path back to `v`, so that the
/// subtree invariant holds for the updated leaf sequence.
pub(crate) fn update_node(
    op: Agg,
    va: &mut Vec<i64>,
    Ghost(lv): Ghost<Seq<i64>>,
    v: usize,
    tl: usize,
    tr: usize,
    pos: usize,
    value: i64,
)
    requires
        node_ok(op, old(va)@, lv, v as int, tl as int, tr as int),
        op is Sum ==> sum_ranges_fit(lv.update(pos as int, value)),
        old(va)@.len() <= usize::MAX,
        tr <= usize::MAX / 2,
        tl <= pos <= tr,
    ensures
        final(va)@.len() == old(va)@.len(),
        node_ok(op, final(va)@, lv.update(pos as int, value), v as int, tl as int, tr as int),
        forall|i: int|
            0 <= i < old(va)@.len() && !in_subtree(v as int, i) ==> final(va)@[i] == old(va)@[i],
    decreases tr - tl,
{
    let ghost nlv = lv.update(pos as int, value);
    if tl == tr {
        va.set(v, value);
    } else {
        let m: usize = (tl + tr) / 2;
        proof {
            assert(node_ok(op, va@, lv, 2 * (v as int) + 1, tl as int, m as int));
            assert(node_ok(op, va@, lv, 2 * (v as int) + 2, m as int + 1, tr as int));
        }
        if pos <= m {
            update_node(op, va, Ghost(lv), 2 * v + 1, tl, m, pos, value);
            proof {
                assert forall|i: int|
                    0 <= i < va@.len() && in_subtree(2 * (v as int) + 2, i) implies old(va)@[i]
                    == va@[i] by {
                    lemma_siblings_disjoint(v as int, i);
                }
                lemma_node_ok_va_agree(
                    op,
                    old(va)@,
                    va@,
                    lv,
                    2 * (v as int) + 2,
                    m as int + 1,
                    tr as int,
                );
                lemma_node_ok_lv_agree(
                    op,
                    va@,
                    lv,
                    nlv,
                    2 * (v as int) + 2,
                    m as int + 1,
                    tr as int,
                );
            }
        } else {
            update_node(op, va, Ghost(lv), 2 * v + 2, m + 1, tr, pos, value);
            proof {
                assert forall|i: int|
                    0 <= i < va@.len() && in_subtree(2 * (v as int) + 1, i) implies old(va)@[i]
                    == va@[i] by {
                    lemma_siblings_disjoint(v as int, i);
                }
                lemma_node_ok_va_agree(
                    op,
                    old(va)@,
                    va@,
                    lv,
                    2 * (v as int) + 1,
                    tl as int,
                    m as int,
                );
                lemma_node_ok_lv_agree(op, va@, lv, nlv, 2 * (v as int) + 1, tl as int, m as int);
            }
        }
        let ghost mid = va@;
        let a = va[2 * v + 1];
        let b = va[2 * v + 2];
        proof {
            lemma_range_agg_split(op, nlv, tl as int, m as int, tr as int);
            if op is Sum {
                assert(range_sum(nlv, tl as int, tr as int) == range_agg(
                    op,
                    nlv,
                    tl as int,
                    tr as int,
                ));
            }
        }
        let c: i64 = match op {
            Agg::Sum => a + b,
            Agg::Max => if a >= b {
                a
            } else {
                b
            },
            Agg::Min => if a <= b {
                a
            } else {
                b
            },
        };
        va.set(v, c);
        proof {
            assert forall|i: int|
                0 <= i < va@.len() && in_subtree(2 * (v as int) + 1, i) implies mid[i]
                == va@[i] by {
                assert(!in_subtree(2 * (v as int) + 1, v as int));
            }
            assert forall|i: int|
                0 <= i < va@.len() && in_subtree(2 * (v as int) + 2, i) implies mid[i]
                == va@[i] by {
                assert(!in_subtree(2 * (v as int) + 2, v as int));
            }
            lemma_node_ok_va_agree(op, mid, va@, nlv, 2 * (v as int) + 1, tl as int, m as int);
            lemma_node_ok_va_agree(op, mid, va@, nlv, 2 * (v as int) + 2, m as int + 1, tr as int);
            assert forall|i: int|
                0 <= i < old(va)@.len() && !in_subtree(v as int, i) implies va@[i] == old(
                va,
            )@[i] by {
                assert(in_subtree(v as int, v as int));
                if in_subtree(2 * (v as int) + 1, i) {
                    lemma_in_subtree_trans(v as int, 2 * (v as int) + 1, i);
                }
                if in_subtree(2 * (v as int) + 2, i) {
                    lemma_in_subtree_trans(v as int, 2 * (v as int) + 2, i);
                }
            }
        }
    }
}

/// Fills the subtree rooted at slot `v`, covering leaf positions
/// `tl ..= tr`, from storage pre-filled with the identity element: leaves
/// within the input get the input value, and every internal node the combine
/// of its children.  `k` is the height of the subtree, `lv` the padded leaf
/// sequence the finished tree represents.
pub(crate) fn fill_node(
    op: Agg,
    va: &mut Vec<i64>,
    src: &[i64],
    v: usize,
    tl: usize,
    tr: usize,
    Ghost(k): Ghost<nat>,
    Ghost(lv): Ghost<Seq<i64>>,
)
    requires
        tl <= tr,
        tr - tl + 1 == pow2(k),
        (v + 2) * pow2(k) <= old(va)@.len() + 1,
        old(va)@.len() <= usize::MAX,
        tr <= usize::MAX / 2,
        tr < lv.len(),
        forall|i: int|
            0 <= i < lv.len() ==> lv[i] == (if i < src@.len() {
                src@[i]
            } else {
                identity_elem(op)
            }),
        forall|i: int|
            0 <= i < old(va)@.len() && in_subtree(v as int, i) ==> old(va)@[i] == identity_elem(
                op,
            ),
        op is Sum ==> sum_ranges_fit(lv),
    ensures
        final(va)@.len() == old(va)@.len(),
        node_ok(op, final(va)@, lv, v as int, tl as int, tr as int),
        forall|i: int|
            0 <= i < old(va)@.len() && !in_subtree(v as int, i) ==> final(va)@[i] == old(va)@[i],
    decreases tr - tl,
{
    proof {
        lemma_pow2_pos(k);
        assert((v as int + 2) * 1 <= (v as int + 2) * pow2(k)) by (nonlinear_arith)
            requires
                pow2(k) >= 1,
                v as int + 2 >= 0,
        ;
        assert(in_subtree(v as int, v as int));
    }
    if tl == tr {
        if tl < src.len() {
            va.set(v, src[tl]);
        }
    } else {
        let ghost k1 = (k - 1) as nat;
        proof {
            if k == 0 {
                assert(pow2(0) == 1);
            }
            assert(pow2(k) == 2 * pow2(k1));
            lemma_pow2_pos(k1);
            assert((2 * (v as int) + 3) * pow2(k1) <= (2 * (v as int) + 4) * pow2(k1))
                by (nonlinear_arith)
                requires
                    pow2(k1) >= 0,
            ;
            assert((2 * (v as int) + 4) * pow2(k1) == (v as int + 2) * pow2(k))
                by (nonlinear_arith)
                requires
                    pow2(k) == 2 * pow2(k1),
            ;
            assert((2 * (v as int) + 3) * 1 <= (2 * (v as int) + 3) * pow2(k1))
                by (nonlinear_arith)
                requires
                    pow2(k1) >= 1,
                    2 * (v as int) + 3 >= 0,
            ;
            assert(in_subtree(v as int, 2 * (v as int) + 1));
            assert(in_subtree(v as int, 2 * (v as int) + 2));
        }
        let m: usize = (tl + tr) / 2;
        proof {
            assert forall|i: int|
                0 <= i < va@.len() && in_subtree(2 * (v as int) + 1, i) implies va@[i]
                == identity_elem(op) by {
                lemma_in_subtree_trans(v as int, 2 * (v as int) + 1, i);
            }
        }
        fill_node(op, va, src, 2 * v + 1, tl, m, Ghost(k1), Ghost(lv));
        proof {
            assert forall|i: int|
                0 <= i < va@.len() && in_subtree(2 * (v as int) + 2, i) implies va@[i]
                == identity_elem(op) by {
                lemma_siblings_disjoint(v as int, i);
                lemma_in_subtree_trans(v as int, 2 * (v as int) + 2, i);
            }
        }
        let ghost after_left = va@;
        fill_node(op, va, src, 2 * v + 2, m + 1, tr, Ghost(k1), Ghost(lv));
        proof {
            assert forall|i: int|
                0 <= i < va@.len() && in_subtree(2 * (v as int) + 1, i) implies after_left[i]
                == va@[i] by {
                lemma_siblings_disjoint(v as int, i);
            }
            lemma_node_ok_va_agree(op, after_left, va@, lv, 2 * (v as int) + 1, tl as int, m as int);
        }
        let ghost mid = va@;
        let a = va[2 * v + 1];
        let b = va[2 * v + 2];
        proof {
            lemma_range_agg_split(op, lv, tl as int, m as int, tr as int);
            if op is Sum {
                assert(range_sum(lv, tl as int, tr as int) == range_agg(
                    op,
                    lv,
                    tl as int,
                    tr as int,
                ));
            }
        }
        let c: i64 = match op {
            Agg::Sum => a + b,
            Agg::Max => if a >= b {
                a
            } else {
                b
            },
            Agg::Min => if a <= b {
                a
            } else {
                b
            },
        };
        va.set(v, c);
        proof {
            assert forall|i: int|
                0 <= i < va@.len() && in_subtree(2 * (v as int) + 1, i) implies mid[i]
                == va@[i] by {
                assert(!in_subtree(2 * (v as int) + 1, v as int));
            }
            assert forall|i: int|
                0 <= i < va@.len() && in_subtree(2 * (v as int) + 2, i) implies mid[i]
                == va@[i] by {
                assert(!in_subtree(2 * (v as int) + 2, v as int));
            }
            lemma_node_ok_va_agree(op, mid, va@, lv, 2 * (v as int) + 1, tl as int, m as int);
            lemma_node_ok_va_agree(op, mid, va@, lv, 2 * (v as int) + 2, m as int + 1, tr as int);
            assert forall|i: int|
                0 <= i < old(va)@.len() && !in_subtree(v as int, i) implies va@[i] == old(
                va,
            )@[i] by {
                if in_subtree(2 * (v as int) + 1, i) {
                    lemma_in_subtree_trans(v as int, 2 * (v as int) + 1, i);
                }
                if in_subtree(2 * (v as int) + 2, i) {
                    lemma_in_subtree_trans(v as int, 2 * (v as int) + 2, i);
                }
            }
        }
    }
}

/// Builds the node storage for a tree over `values`: computes the capacity
/// `n` as the least power of two at or above the input length, fills `2 * n`
/// slots with the identity element, and then builds the tree over the input
/// padded to length `n`.
pub(crate) fn build_tree(op: Agg, values: &[i64]) -> (out: (Vec<i64>, usize))
    requires
        values@.len() >= 1,
        values@.len() <= usize::MAX / 4,
        op is Sum ==> sum_ranges_fit(values@),
    ensures
        ({
            let (va, n) = out;
            &&& 1 <= n <= usize::MAX / 2
            &&& values@.len() <= n
            &&& va@.len() == 2 * n
            &&& node_ok(op, va@, pad(op, values@, n as int), 0, 0, n - 1)
            &&& (op is Sum ==> sum_ranges_fit(pad(op, values@, n as int)))
        }),
{
    let len = values.len();
    let mut n: usize = 1;
    let ghost mut k: nat = 0;
    while n < len
        invariant
            1 <= n,
            n == pow2(k),
            n <= usize::MAX / 2,
            len <= usize::MAX / 4,
            len == values@.len(),
        decreases 2 * len - n,
    {
        n = n * 2;
        proof {
            assert(pow2(k + 1) == 2 * pow2(k));
            k = k + 1;
        }
    }
    let id = identity_value(op);
    let mut va: Vec<i64> = Vec::new();
    let mut i: usize = 0;
    while i < 2 * n
        invariant
            n <= usize::MAX / 2,
            i <= 2 * n,
            va@.len() == i,
            id == identity_elem(op),
            forall|j: int| 0 <= j < i ==> va@[j] == identity_elem(op),
        decreases 2 * n - i,
    {
        va.push(id);
        i = i + 1;
    }
    let ghost lv = pad(op, values@, n as int);
    proof {
        assert forall|j: int| 0 <= j < va@.len() && in_subtree(0, j) implies va@[j]
            == identity_elem(op) by {}
        if op is Sum {
            lemma_pad_preserves_fit(values@, n as int);
        }
        assert((0 + 2) * pow2(k) == 2 * n);
    }
    fill_node(op, &mut va, values, 0, 0, n - 1, Ghost(k), Ghost(lv));
    (va, n)
}

} // verus!
