//! What the failure of one node does to a placement: which shards lose a
//! replica, which surviving nodes are hit, and which of them take over as leader.

use std::collections::HashSet;
use vstd::prelude::*;
use crate::matrix::Matrix;

verus! {

/// The shards that the failed node stored.
pub open spec fn lost_shards(grid: Seq<Seq<i64>>, failed: int) -> Set<i64> {
    grid[failed].to_set()
}

/// The different values among the first `upto` entries, each at the place of
/// its first occurrence.
pub open spec fn distinct_prefix(s: Seq<i64>, upto: int) -> Seq<i64>
    decreases upto,
{
    if upto <= 0 {
        Seq::empty()
    } else {
        let front = distinct_prefix(s, upto - 1);
        if front.contains(s[upto - 1]) {
            front
        } else {
            front.push(s[upto - 1])
        }
    }
}

/// The different values of a sequence, each at the place of its first occurrence.
pub open spec fn distinct(s: Seq<i64>) -> Seq<i64> {
    distinct_prefix(s, s.len() as int)
}

/// How many of the first `upto` slots of a node store a lost shard.
pub open spec fn hits_upto(column: Seq<i64>, lost: Set<i64>, upto: int) -> nat
    decreases upto,
{
    if upto <= 0 {
        0
    } else {
        hits_upto(column, lost, upto - 1) + if lost.contains(column[upto - 1]) {
            1nat
        } else {
            0nat
        }
    }
}

/// How many slots of a surviving node store a lost shard; the failed node
/// itself counts no hit.
pub open spec fn node_hits(grid: Seq<Seq<i64>>, failed: int, node: int) -> nat {
    if node == failed {
        0
    } else {
        hits_upto(grid[node], lost_shards(grid, failed), grid[node].len() as int)
    }
}

/// The hits on the first `upto_node` nodes, added up.
pub open spec fn total_hits(grid: Seq<Seq<i64>>, failed: int, upto_node: int) -> nat
    decreases upto_node,
{
    if upto_node <= 0 {
        0
    } else {
        total_hits(grid, failed, upto_node - 1) + node_hits(grid, failed, upto_node - 1)
    }
}

/// A surviving node stores, as first follower, the shard that the failed node led.
pub open spec fn is_candidate(grid: Seq<Seq<i64>>, failed: int, node: int, slot: int) -> bool {
    &&& node != failed
    &&& slot % 3 == 1
    &&& grid[node][slot] == grid[failed][slot - 1]
}

/// Some node before `upto_node` is a candidate in `slot`.
pub open spec fn claimed(grid: Seq<Seq<i64>>, failed: int, upto_node: int, slot: int) -> bool {
    exists|c: int| 0 <= c < upto_node && #[trigger] is_candidate(grid, failed, c, slot)
}

/// The node takes over as leader in `slot`: it is the first candidate there.
pub open spec fn takes_over(grid: Seq<Seq<i64>>, failed: int, node: int, slot: int) -> bool {
    is_candidate(grid, failed, node, slot) && !claimed(grid, failed, node, slot)
}

/// The promotions that land on a node in its first `upto` slots, in slot order.
pub open spec fn node_promotions(grid: Seq<Seq<i64>>, failed: int, node: int, upto: int) -> Seq<
    (i64, usize),
>
    decreases upto,
{
    if upto <= 0 {
        Seq::empty()
    } else {
        let before = node_promotions(grid, failed, node, upto - 1);
        if takes_over(grid, failed, node, upto - 1) {
            before.push((grid[node][upto - 1], node as usize))
        } else {
            before
        }
    }
}

/// The promotions on the first `upto_node` nodes of `slots` slots each, in
/// ascending order of node, then of slot.
pub open spec fn promotions(grid: Seq<Seq<i64>>, failed: int, upto_node: int, slots: int) -> Seq<
    (i64, usize),
>
    decreases upto_node,
{
    if upto_node <= 0 {
        Seq::empty()
    } else {
        promotions(grid, failed, upto_node - 1, slots) + node_promotions(
            grid,
            failed,
            upto_node - 1,
            slots,
        )
    }
}

/// The outcome of one simulated node failure.
#[derive(Clone, Debug)]
pub struct FailoverReport {
    /// The node that failed.
    pub failed_node: usize,
    /// The shards that lost a replica, in the order of the failed node's slots.
    pub lost_shard_ids: Vec<i64>,
    /// Shard and new leader node of every promotion, in traversal order.
    pub promotions: Vec<(i64, usize)>,
    /// For every node, how many of its slots store a lost shard.
    pub per_node_hit_count: Vec<usize>,
    /// For every node, how many promotions land on it.
    pub per_node_leader_promotion_count: Vec<usize>,
}

impl FailoverReport {
    /// The report is the outcome of the failure of `failed` in `grid`, whose
    /// nodes have `slots` slots each.
    pub open spec fn describes(&self, grid: Seq<Seq<i64>>, failed: int, slots: int) -> bool {
        &&& self.failed_node == failed
        &&& self.lost_shard_ids@ == distinct(grid[failed])
        &&& self.promotions@ == promotions(grid, failed, grid.len() as int, slots)
        &&& self.per_node_hit_count@.len() == grid.len()
        &&& forall|c: int|
            0 <= c < grid.len() ==> (#[trigger] self.per_node_hit_count@[c]) == node_hits(
                grid,
                failed,
                c,
            )
        &&& self.per_node_leader_promotion_count@.len() == grid.len()
        &&& forall|c: int|
            0 <= c < grid.len() ==> (#[trigger] self.per_node_leader_promotion_count@[c])
                == node_promotions(grid, failed, c, slots).len()
    }
}

/// A value is among the distinct values of a prefix exactly when it occurs in
/// the prefix.
pub proof fn lemma_distinct_prefix_contains(s: Seq<i64>, upto: int, v: i64)
    requires
        0 <= upto <= s.len(),
    ensures
        distinct_prefix(s, upto).contains(v) <==> exists|i: int| 0 <= i < upto && s[i] == v,
    decreases upto,
{
    if upto > 0 {
        lemma_distinct_prefix_contains(s, upto - 1, v);
        let front = distinct_prefix(s, upto - 1);
        let last = s[upto - 1];
        if front.contains(last) {
            lemma_distinct_prefix_contains(s, upto - 1, last);
        } else {
            let full = front.push(last);
            assert(full[front.len() as int] == last);
            if front.contains(v) {
                let j = choose|j: int| 0 <= j < front.len() && front[j] == v;
                assert(full[j] == v);
            }
        }
    }
}

/// Collects the different values of a column: as a set for look-up, and as
/// the sequence of their first occurrences.
pub(crate) fn collect_distinct(column: &Vec<i64>) -> (out: (HashSet<i64>, Vec<i64>))
    ensures
        out.0@ == column@.to_set(),
        out.1@ == distinct(column@),
{
    broadcast use vstd::std_specs::hash::group_hash_axioms;

    let mut seen: HashSet<i64> = HashSet::new();
    let mut ids: Vec<i64> = Vec::new();
    let mut slot: usize = 0;
    while slot < column.len()
        invariant
            slot <= column@.len(),
            ids@ == distinct_prefix(column@, slot as int),
            forall|v: i64| seen@.contains(v) <==> exists|i: int| 0 <= i < slot && column@[i] == v,
        decreases column@.len() - slot,
    {
        let v: i64 = column[slot];
        proof {
            lemma_distinct_prefix_contains(column@, slot as int, v);
        }
        let fresh: bool = seen.insert(v);
        if fresh {
            ids.push(v);
        }
        slot = slot + 1;
    }
    proof {
        assert forall|v: i64| seen@.contains(v) <==> column@.to_set().contains(v) by {
            if column@.contains(v) {
                let i = choose|i: int| 0 <= i < column@.len() && column@[i] == v;
                assert(0 <= i < slot && column@[i] == v);
            }
        }
        assert(seen@ =~= column@.to_set());
    }
    (seen, ids)
}

/// What a failure does to one cell.
#[derive(Clone, Copy, Debug, PartialEq, Eq, Structural)]
pub enum CellMark {
    /// The cell stores no shard of the failed node.
    Unaffected,
    /// The cell stores a shard of the failed node.
    Affected,
    /// The cell stores a shard that the failed node led, and takes over as its leader.
    Promoted,
}

/// What the failure of `failed` does to the cell of `node` in `slot`.
pub open spec fn cell_mark(grid: Seq<Seq<i64>>, failed: int, node: int, slot: int) -> CellMark {
    if takes_over(grid, failed, node, slot) {
        CellMark::Promoted
    } else if lost_shards(grid, failed).contains(grid[node][slot]) {
        CellMark::Affected
    } else {
        CellMark::Unaffected
    }
}

/// Marks every cell with what the failure of `failed_node` does to it.
///
/// Nodes are visited in ascending order, and the slots of a node in ascending
/// order. Where the failed node led a group, the first node visited that
/// stores the group's shard as first follower takes over as leader; one flag
/// per group records that it has been promoted, so that no group is promoted
/// twice.
pub fn mark_cells(matrix: &Matrix, failed_node: usize) -> (marks: Vec<Vec<CellMark>>)
    requires
        matrix.shaped(),
        failed_node < matrix.cols,
    ensures
        marks@.len() == matrix.cols,
        forall|c: int| 0 <= c < matrix.cols ==> (#[trigger] marks@[c])@.len() == matrix.rows,
        forall|c: int, r: int|
            0 <= c < matrix.cols && 0 <= r < matrix.rows ==> (#[trigger] marks@[c]@[r]) == cell_mark(
                matrix.grid(),
                failed_node as int,
                c,
                r,
            ),
{
    broadcast use vstd::std_specs::hash::group_hash_axioms;

    let ghost grid = matrix.grid();
    let ghost failed = failed_node as int;
    let ghost lost = lost_shards(grid, failed);
    let rows: usize = matrix.rows;
    let cols: usize = matrix.cols;
    let failed_column: &Vec<i64> = &matrix.data[failed_node];
    assert(failed_column@ == grid[failed]);
    let (lost_set, _) = collect_distinct(failed_column);

    let groups: usize = rows / 3 + 1;
    let mut promoted: Vec<bool> = Vec::new();
    while promoted.len() < groups
        invariant
            promoted@.len() <= groups,
            forall|g: int| 0 <= g < promoted@.len() ==> !(#[trigger] promoted@[g]),
        decreases groups - promoted@.len(),
    {
        promoted.push(false);
    }

    let mut marks: Vec<Vec<CellMark>> = Vec::new();
    let mut node: usize = 0;
    while node < cols
        invariant
            node <= cols,
            matrix.shaped(),
            rows == matrix.rows,
            cols == matrix.cols,
            failed_node < cols,
            grid == matrix.grid(),
            failed == failed_node as int,
            lost == lost_shards(grid, failed),
            lost_set@ == lost,
            failed_column@ == grid[failed],
            groups == rows / 3 + 1,
            promoted@.len() == groups,
            forall|g: int|
                0 <= g && 3 * g + 1 < rows ==> (#[trigger] promoted@[g]) == claimed(
                    grid,
                    failed,
                    node as int,
                    3 * g + 1,
                ),
            marks@.len() == node,
            forall|c: int| 0 <= c < node ==> (#[trigger] marks@[c])@.len() == rows,
            forall|c: int, r: int|
                0 <= c < node && 0 <= r < rows ==> (#[trigger] marks@[c]@[r]) == cell_mark(
                    grid,
                    failed,
                    c,
                    r,
                ),
        decreases cols - node,
    {
        let column: &Vec<i64> = &matrix.data[node];
        assert(column@ == grid[node as int]);
        let mut column_marks: Vec<CellMark> = Vec::new();
        let mut slot: usize = 0;
        while slot < rows
            invariant
                slot <= rows,
                node < cols,
                failed_node < cols,
                failed == failed_node as int,
                lost == lost_shards(grid, failed),
                lost_set@ == lost,
                column@ == grid[node as int],
                column@.len() == rows,
                failed_column@ == grid[failed],
                failed_column@.len() == rows,
                groups == rows / 3 + 1,
                promoted@.len() == groups,
                forall|g: int|
                    0 <= g && 3 * g + 1 < rows ==> (#[trigger] promoted@[g]) == (claimed(
                        grid,
                        failed,
                        node as int,
                        3 * g + 1,
                    ) || (3 * g + 1 < slot && is_candidate(grid, failed, node as int, 3 * g + 1))),
                column_marks@.len() == slot,
                forall|r: int|
                    0 <= r < slot ==> (#[trigger] column_marks@[r]) == cell_mark(
                        grid,
                        failed,
                        node as int,
                        r,
                    ),
            decreases rows - slot,
        {
            let v: i64 = column[slot];
            let mut mark: CellMark = if lost_set.contains(&v) {
                CellMark::Affected
            } else {
                CellMark::Unaffected
            };
            if node != failed_node && slot % 3 == 1 {
                let group: usize = slot / 3;
                assert(3 * (group as int) + 1 == slot);
                if v == failed_column[slot - 1] && !promoted[group] {
                    promoted.set(group, true);
                    mark = CellMark::Promoted;
                }
            }
            assert(mark == cell_mark(grid, failed, node as int, slot as int));
            column_marks.push(mark);
            slot = slot + 1;
        }
        proof {
            assert forall|g: int| 0 <= g && 3 * g + 1 < rows implies (#[trigger] promoted@[g])
                == claimed(grid, failed, node as int + 1, 3 * g + 1) by {
                let s = 3 * g + 1;
                if claimed(grid, failed, node as int, s) {
                    let c = choose|c: int|
                        0 <= c < node as int && #[trigger] is_candidate(grid, failed, c, s);
                    assert(0 <= c < node as int + 1 && is_candidate(grid, failed, c, s));
                }
                if is_candidate(grid, failed, node as int, s) {
                    assert(0 <= node as int && (node as int) < node as int + 1);
                }
                if claimed(grid, failed, node as int + 1, s) {
                    let c = choose|c: int|
                        0 <= c < node as int + 1 && #[trigger] is_candidate(grid, failed, c, s);
                    if c < node as int {
                        assert(claimed(grid, failed, node as int, s));
                    }
                }
            }
        }
        marks.push(column_marks);
        node = node + 1;
    }
    marks
}

/// A cell that takes over stores a lost shard.
pub proof fn lemma_promoted_is_lost(grid: Seq<Seq<i64>>, failed: int, node: int, slot: int)
    requires
        0 <= slot <= grid[failed].len(),
        takes_over(grid, failed, node, slot),
    ensures
        lost_shards(grid, failed).contains(grid[node][slot]),
{
    assert(0 <= slot - 1 < grid[failed].len());
    assert(grid[failed].contains(grid[failed][slot - 1]));
}

/// Simulates the failure of `failed_node`.
///
/// A slot of a surviving node that stores a shard of the failed node is a
/// hit. The promotions are listed in ascending order of node, then of slot.
pub fn simulate(matrix: &Matrix, failed_node: usize) -> (report: FailoverReport)
    requires
        matrix.shaped(),
        failed_node < matrix.cols,
    ensures
        report.describes(matrix.grid(), failed_node as int, matrix.rows as int),
{
    let ghost grid = matrix.grid();
    let ghost failed = failed_node as int;
    let ghost lost = lost_shards(grid, failed);
    let rows: usize = matrix.rows;
    let cols: usize = matrix.cols;
    let failed_column: &Vec<i64> = &matrix.data[failed_node];
    assert(failed_column@ == grid[failed]);
    let (_, lost_shard_ids) = collect_distinct(failed_column);
    let marks = mark_cells(matrix, failed_node);

    let mut promotion_list: Vec<(i64, usize)> = Vec::new();
    let mut per_node_hit_count: Vec<usize> = Vec::new();
    let mut per_node_leader_promotion_count: Vec<usize> = Vec::new();
    let mut node: usize = 0;
    while node < cols
        invariant
            node <= cols,
            matrix.shaped(),
            rows == matrix.rows,
            cols == matrix.cols,
            failed_node < cols,
            grid == matrix.grid(),
            failed == failed_node as int,
            lost == lost_shards(grid, failed),
            marks@.len() == cols,
            forall|c: int| 0 <= c < cols ==> (#[trigger] marks@[c])@.len() == rows,
            forall|c: int, r: int|
                0 <= c < cols && 0 <= r < rows ==> (#[trigger] marks@[c]@[r]) == cell_mark(
                    grid,
                    failed,
                    c,
                    r,
                ),
            promotion_list@ == promotions(grid, failed, node as int, rows as int),
            per_node_hit_count@.len() == node,
            forall|c: int|
                0 <= c < node ==> (#[trigger] per_node_hit_count@[c]) == node_hits(grid, failed, c),
            per_node_leader_promotion_count@.len() == node,
            forall|c: int|
                0 <= c < node ==> (#[trigger] per_node_leader_promotion_count@[c])
                    == node_promotions(grid, failed, c, rows as int).len(),
        decreases cols - node,
    {
        let mut hit: usize = 0;
        let mut led: usize = 0;
        let ghost before = promotion_list@;
        let column: &Vec<i64> = &matrix.data[node];
        let column_marks: &Vec<CellMark> = &marks[node];
        assert(column@ == grid[node as int]);
        let mut slot: usize = 0;
        while slot < rows
            invariant
                slot <= rows,
                node < cols,
                failed_node < cols,
                failed == failed_node as int,
                lost == lost_shards(grid, failed),
                column@ == grid[node as int],
                column@.len() == rows,
                grid[failed].len() == rows,
                column_marks@.len() == rows,
                forall|r: int|
                    0 <= r < rows ==> (#[trigger] column_marks@[r]) == cell_mark(
                        grid,
                        failed,
                        node as int,
                        r,
                    ),
                promotion_list@ == before + node_promotions(grid, failed, node as int, slot as int),
                node != failed_node ==> hit == hits_upto(grid[node as int], lost, slot as int),
                node == failed_node ==> hit == 0,
                hit <= slot,
                led == node_promotions(grid, failed, node as int, slot as int).len(),
                led <= slot,
            decreases rows - slot,
        {
            let mark: CellMark = column_marks[slot];
            proof {
                if takes_over(grid, failed, node as int, slot as int) {
                    lemma_promoted_is_lost(grid, failed, node as int, slot as int);
                }
            }
            match mark {
                CellMark::Unaffected => {},
                CellMark::Affected => {
                    if node != failed_node {
                        hit = hit + 1;
                    }
                },
                CellMark::Promoted => {
                    hit = hit + 1;
                    led = led + 1;
                    promotion_list.push((column[slot], node));
                },
            }
            proof {
                let grown = node_promotions(grid, failed, node as int, slot as int + 1);
                assert(promotion_list@ =~= before + grown);
            }
            slot = slot + 1;
        }
        per_node_hit_count.push(hit);
        per_node_leader_promotion_count.push(led);
        node = node + 1;
    }
    FailoverReport {
        failed_node,
        lost_shard_ids,
        promotions: promotion_list,
        per_node_hit_count,
        per_node_leader_promotion_count,
    }
}

} // verus!
