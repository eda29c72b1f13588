//! What holds of every simulated failure on a placed matrix: no shard is
//! promoted twice, and the hits on the surviving nodes add up.

use vstd::prelude::*;
use crate::failover::{
    claimed,
    FailoverReport,
    is_candidate,
    node_promotions,
    promotions,
    takes_over,
};
use crate::matrix::{lemma_value_bounds, Layout, Matrix};

verus! {

/// In a placement, a shard identifier tells the group of the slots that store it.
pub proof fn lemma_value_tells_group(l: Layout, node_a: int, slot_a: int, node_b: int, slot_b: int)
    requires
        l.valid(),
        l.slots * l.nodes <= usize::MAX,
        i32::MIN <= l.origin <= i32::MAX,
        0 <= node_a < l.nodes,
        0 <= node_b < l.nodes,
        0 <= slot_a < l.slots,
        0 <= slot_b < l.slots,
        l.value(node_a, slot_a) == l.value(node_b, slot_b),
    ensures
        slot_a / 3 == slot_b / 3,
{
    lemma_value_bounds(l, node_a, slot_a);
    lemma_value_bounds(l, node_b, slot_b);
    let n = l.nodes;
    let ga = slot_a / 3;
    let gb = slot_b / 3;
    let oa = l.offset(node_a, slot_a);
    let ob = l.offset(node_b, slot_b);
    assert(ga == gb) by (nonlinear_arith)
        requires
            ga * n + oa == gb * n + ob,
            0 <= oa < n,
            0 <= ob < n,
    ;
}

/// The promotions made before the traversal reaches `slot` of `node`.
pub open spec fn promotions_before(
    grid: Seq<Seq<i64>>,
    failed: int,
    node: int,
    slot: int,
    slots: int,
) -> Seq<(i64, usize)> {
    promotions(grid, failed, node, slots) + node_promotions(grid, failed, node, slot)
}

/// The promotion was made in a slot that the traversal visits before `slot`
/// of `node`.
pub open spec fn made_before(
    grid: Seq<Seq<i64>>,
    failed: int,
    promotion: (i64, usize),
    node: int,
    slot: int,
    slots: int,
) -> bool {
    exists|c: int, r: int|
        {
            &&& 0 <= c
            &&& 0 <= r < slots
            &&& (c < node || (c == node && r < slot))
            &&& #[trigger] takes_over(grid, failed, c, r)
            &&& promotion == (grid[c][r], c as usize)
        }
}

/// At most one node takes over in a slot.
pub proof fn lemma_one_takeover_per_slot(
    grid: Seq<Seq<i64>>,
    failed: int,
    node_a: int,
    node_b: int,
    slot: int,
)
    requires
        0 <= node_a,
        0 <= node_b,
        takes_over(grid, failed, node_a, slot),
        takes_over(grid, failed, node_b, slot),
    ensures
        node_a == node_b,
{
    if node_a < node_b {
        assert(is_candidate(grid, failed, node_a, slot));
        assert(claimed(grid, failed, node_b, slot));
    } else if node_b < node_a {
        assert(is_candidate(grid, failed, node_b, slot));
        assert(claimed(grid, failed, node_a, slot));
    }
}

/// Every promotion made before a point of the traversal was made in an earlier
/// slot, and no two of them name the same shard.
pub proof fn lemma_promotions_before(m: Matrix, failed: int, node: int, slot: int)
    requires
        m.is_placed(),
        0 <= failed < m.cols,
        0 <= node <= m.cols,
        0 <= slot <= m.rows,
        node < m.cols || slot == 0,
    ensures
        forall|i: int|
            0 <= i < promotions_before(m.grid(), failed, node, slot, m.rows as int).len()
                ==> made_before(
                m.grid(),
                failed,
                #[trigger] promotions_before(m.grid(), failed, node, slot, m.rows as int)[i],
                node,
                slot,
                m.rows as int,
            ),
        forall|i: int, j: int|
            0 <= i < j < promotions_before(m.grid(), failed, node, slot, m.rows as int).len()
                ==> (#[trigger] promotions_before(m.grid(), failed, node, slot, m.rows as int)[i]).0
                != (#[trigger] promotions_before(m.grid(), failed, node, slot, m.rows as int)[j]).0,
    decreases node, slot,
{
    let grid = m.grid();
    let slots = m.rows as int;
    let here = promotions_before(grid, failed, node, slot, slots);
    if slot == 0 {
        if node == 0 {
            assert(here =~= Seq::empty());
        } else {
            lemma_promotions_before(m, failed, node - 1, slots);
            let there = promotions_before(grid, failed, node - 1, slots, slots);
            assert(here =~= there);
            assert forall|i: int| 0 <= i < here.len() implies made_before(
                grid,
                failed,
                #[trigger] here[i],
                node,
                slot,
                slots,
            ) by {
                assert(made_before(grid, failed, there[i], node - 1, slots, slots));
                let (c, r) = choose|c: int, r: int|
                    {
                        &&& 0 <= c
                        &&& 0 <= r < slots
                        &&& (c < node - 1 || (c == node - 1 && r < slots))
                        &&& #[trigger] takes_over(grid, failed, c, r)
                        &&& there[i] == (grid[c][r], c as usize)
                    };
                assert(c < node && takes_over(grid, failed, c, r));
            }
        }
    } else {
        lemma_promotions_before(m, failed, node, slot - 1);
        let there = promotions_before(grid, failed, node, slot - 1, slots);
        let r0 = slot - 1;
        if takes_over(grid, failed, node, r0) {
            let added = (grid[node][r0], node as usize);
            assert(here =~= there.push(added));
            assert forall|i: int| 0 <= i < here.len() implies made_before(
                grid,
                failed,
                #[trigger] here[i],
                node,
                slot,
                slots,
            ) by {
                if i < there.len() {
                    assert(made_before(grid, failed, there[i], node, slot - 1, slots));
                    let (c, r) = choose|c: int, r: int|
                        {
                            &&& 0 <= c
                            &&& 0 <= r < slots
                            &&& (c < node || (c == node && r < slot - 1))
                            &&& #[trigger] takes_over(grid, failed, c, r)
                            &&& there[i] == (grid[c][r], c as usize)
                        };
                    assert((c < node || (c == node && r < slot)) && takes_over(
                        grid,
                        failed,
                        c,
                        r,
                    ));
                } else {
                    assert(takes_over(grid, failed, node, r0));
                }
            }
            assert forall|i: int, j: int| 0 <= i < j < here.len() implies (#[trigger] here[i]).0 != (
            #[trigger] here[j]).0 by {
                if j == there.len() {
                    assert(made_before(grid, failed, there[i], node, slot - 1, slots));
                    let (c, r) = choose|c: int, r: int|
                        {
                            &&& 0 <= c
                            &&& 0 <= r < slots
                            &&& (c < node || (c == node && r < slot - 1))
                            &&& #[trigger] takes_over(grid, failed, c, r)
                            &&& there[i] == (grid[c][r], c as usize)
                        };
                    if grid[c][r] == grid[node][r0] {
                        let l = m.layout();
                        assert(m.data@[c]@[r] == l.value(c, r));
                        assert(m.data@[node]@[r0] == l.value(node, r0));
                        lemma_value_tells_group(l, c, r, node, r0);
                        assert(r == r0);
                        lemma_one_takeover_per_slot(grid, failed, c, node, r0);
                    }
                } else {
                    assert(there[i].0 != there[j].0);
                }
            }
        } else {
            assert(here =~= there);
            assert forall|i: int| 0 <= i < here.len() implies made_before(
                grid,
                failed,
                #[trigger] here[i],
                node,
                slot,
                slots,
            ) by {
                assert(made_before(grid, failed, there[i], node, slot - 1, slots));
                let (c, r) = choose|c: int, r: int|
                    {
                        &&& 0 <= c
                        &&& 0 <= r < slots
                        &&& (c < node || (c == node && r < slot - 1))
                        &&& #[trigger] takes_over(grid, failed, c, r)
                        &&& there[i] == (grid[c][r], c as usize)
                    };
                assert((c < node || (c == node && r < slot)) && takes_over(grid, failed, c, r));
            }
        }
    }
}

/// Determinism of failover: two reports that describe the same failure agree
/// in every part.
pub proof fn lemma_report_determined(
    a: FailoverReport,
    b: FailoverReport,
    grid: Seq<Seq<i64>>,
    failed: int,
    slots: int,
)
    requires
        a.describes(grid, failed, slots),
        b.describes(grid, failed, slots),
    ensures
        a.failed_node == b.failed_node,
        a.lost_shard_ids@ == b.lost_shard_ids@,
        a.promotions@ == b.promotions@,
        a.per_node_hit_count@ == b.per_node_hit_count@,
        a.per_node_leader_promotion_count@ == b.per_node_leader_promotion_count@,
{
    assert(a.per_node_hit_count@ =~= b.per_node_hit_count@);
    assert(a.per_node_leader_promotion_count@ =~= b.per_node_leader_promotion_count@);
}

/// Promotion at most once: in the failure of any node of a placed matrix, no
/// shard identifier occurs in more than one promotion.
pub proof fn lemma_promoted_at_most_once(m: Matrix, failed: int, i: int, j: int)
    requires
        m.is_placed(),
        0 <= failed < m.cols,
        0 <= i < promotions(m.grid(), failed, m.cols as int, m.rows as int).len(),
        0 <= j < promotions(m.grid(), failed, m.cols as int, m.rows as int).len(),
        i != j,
    ensures
        promotions(m.grid(), failed, m.cols as int, m.rows as int)[i].0 != promotions(
            m.grid(),
            failed,
            m.cols as int,
            m.rows as int,
        )[j].0,
{
    let grid = m.grid();
    let all = promotions(grid, failed, m.cols as int, m.rows as int);
    lemma_promotions_before(m, failed, m.cols as int, 0);
    let here = promotions_before(grid, failed, m.cols as int, 0, m.rows as int);
    assert(here =~= all);
    if i < j {
        assert(here[i].0 != here[j].0);
    } else {
        assert(here[j].0 != here[i].0);
    }
}

} // verus!
