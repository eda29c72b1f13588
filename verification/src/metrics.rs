//! Measures of how evenly a placement spreads shards and failover load.

use vstd::prelude::*;
use crate::builder::build;
use crate::failover::{collect_distinct, node_hits, simulate};
use crate::hit_conservation::lemma_distinct_counts_the_set;
use crate::matrix::{build_error, DistributionVariant, Layout, Matrix};
use crate::placement_laws::lemma_placed_grid;
use crate::shift::{build_third_shift, shift_table};

verus! {

/// For every node, how many different shards it stores.
pub fn per_column_distinct_count(matrix: &Matrix) -> (counts: Vec<usize>)
    requires
        matrix.shaped(),
    ensures
        counts@.len() == matrix.cols,
        forall|c: int|
            0 <= c < matrix.cols ==> (#[trigger] counts@[c]) == matrix.grid()[c].to_set().len(),
{
    let mut counts: Vec<usize> = Vec::new();
    let mut node: usize = 0;
    while node < matrix.cols
        invariant
            node <= matrix.cols,
            matrix.shaped(),
            counts@.len() == node,
            forall|c: int|
                0 <= c < node ==> (#[trigger] counts@[c]) == matrix.grid()[c].to_set().len(),
        decreases matrix.cols - node,
    {
        let column: &Vec<i64> = &matrix.data[node];
        let (_, ids) = collect_distinct(column);
        proof {
            lemma_distinct_counts_the_set(column@);
            assert(matrix.grid()[node as int] == column@);
        }
        counts.push(ids.len());
        node = node + 1;
    }
    counts
}

/// The failover load under one rank cycle.
#[derive(Clone, Debug)]
pub struct SweepEntry {
    /// The rank cycle that the placement was built with.
    pub rank_cycle: usize,
    /// Fewest hits on a surviving node.
    pub min: usize,
    /// Most hits on a surviving node.
    pub max: usize,
    /// Spread of the hits: `max - min`.
    pub delta: usize,
    /// Hits on every node; none on the failed node.
    pub per_node_hit_counts: Vec<usize>,
}

/// A placement of the given size can be built with this rank cycle: it lies
/// in range, a shift table is known for it, and the slots divide into whole
/// cycles.
pub open spec fn sweepable(slots: int, nodes: int, cycle: int) -> bool {
    &&& shift_table(cycle, nodes).is_some()
    &&& build_error(slots, nodes, 3, cycle, cycle).is_none()
}

/// The placement that the sweep builds for a rank cycle: ascending, with
/// shards numbered from zero.
pub open spec fn sweep_layout(slots: int, nodes: int, cycle: int) -> Layout {
    Layout {
        slots,
        nodes,
        rank_cycle: cycle,
        shift: shift_table(cycle, nodes).unwrap(),
        origin: 0,
        variant: DistributionVariant::Ascending,
    }
}

/// The rank cycles from 1 up to, not including, `upto` with which a
/// placement can be built, in ascending order.
pub open spec fn sweep_cycles(slots: int, nodes: int, upto: int) -> Seq<int>
    decreases upto,
{
    if upto <= 1 {
        Seq::empty()
    } else if sweepable(slots, nodes, upto - 1) {
        sweep_cycles(slots, nodes, upto - 1).push(upto - 1)
    } else {
        sweep_cycles(slots, nodes, upto - 1)
    }
}

/// `low` is the least of the counts of the surviving nodes.
pub open spec fn is_least(counts: Seq<usize>, failed: int, low: int) -> bool {
    &&& forall|c: int| 0 <= c < counts.len() && c != failed ==> low <= #[trigger] counts[c]
    &&& exists|c: int| 0 <= c < counts.len() && c != failed && #[trigger] counts[c] == low
}

/// `high` is the greatest of the counts of the surviving nodes.
pub open spec fn is_greatest(counts: Seq<usize>, failed: int, high: int) -> bool {
    &&& forall|c: int| 0 <= c < counts.len() && c != failed ==> high >= #[trigger] counts[c]
    &&& exists|c: int| 0 <= c < counts.len() && c != failed && #[trigger] counts[c] == high
}

impl SweepEntry {
    /// The entry reports the failure of `failed` in the placement that the
    /// sweep builds for `cycle`.
    pub open spec fn describes(&self, slots: int, nodes: int, failed: int, cycle: int) -> bool {
        &&& self.rank_cycle == cycle
        &&& self.per_node_hit_counts@.len() == nodes
        &&& forall|c: int|
            0 <= c < nodes ==> (#[trigger] self.per_node_hit_counts@[c]) == node_hits(
                sweep_layout(slots, nodes, cycle).grid(),
                failed,
                c,
            )
        &&& is_least(self.per_node_hit_counts@, failed, self.min as int)
        &&& is_greatest(self.per_node_hit_counts@, failed, self.max as int)
        &&& self.delta == self.max - self.min
    }
}

/// Least and greatest count among the surviving nodes.
pub fn spread(counts: &Vec<usize>, failed_node: usize) -> (out: (usize, usize))
    requires
        counts@.len() >= 2,
        failed_node < counts@.len(),
    ensures
        is_least(counts@, failed_node as int, out.0 as int),
        is_greatest(counts@, failed_node as int, out.1 as int),
        out.0 <= out.1,
{
    let first: usize = if failed_node == 0 {
        1
    } else {
        0
    };
    let mut low: usize = counts[first];
    let mut high: usize = counts[first];
    let mut node: usize = 0;
    while node < counts.len()
        invariant
            node <= counts@.len(),
            first < counts@.len(),
            first != failed_node,
            low <= high,
            forall|c: int| 0 <= c < node && c != failed_node ==> low <= #[trigger] counts@[c],
            forall|c: int| 0 <= c < node && c != failed_node ==> high >= #[trigger] counts@[c],
            exists|c: int|
                0 <= c < counts@.len() && c != failed_node && #[trigger] counts@[c] == low,
            exists|c: int|
                0 <= c < counts@.len() && c != failed_node && #[trigger] counts@[c] == high,
        decreases counts@.len() - node,
    {
        if node != failed_node {
            let count: usize = counts[node];
            if count < low {
                low = count;
            }
            if count > high {
                high = count;
            }
        }
        node = node + 1;
    }
    (low, high)
}

/// For every rank cycle below the node count with which a placement of this
/// size can be built, builds it, lets `failed_node` fail, and reports how the
/// hits spread over the surviving nodes. The entries come in ascending order
/// of rank cycle.
pub fn failover_delta_sweep(slots_per_node: usize, node_count: usize, failed_node: usize) -> (out:
    Vec<SweepEntry>)
    requires
        failed_node < node_count,
        slots_per_node * node_count <= usize::MAX,
    ensures
        out@.len() == sweep_cycles(
            slots_per_node as int,
            node_count as int,
            node_count as int,
        ).len(),
        forall|i: int|
            0 <= i < out@.len() ==> (#[trigger] out@[i]).describes(
                slots_per_node as int,
                node_count as int,
                failed_node as int,
                sweep_cycles(slots_per_node as int, node_count as int, node_count as int)[i],
            ),
{
    let ghost slots = slots_per_node as int;
    let ghost nodes = node_count as int;
    let mut out: Vec<SweepEntry> = Vec::new();
    let mut cycle: usize = 1;
    while cycle < node_count
        invariant
            1 <= cycle,
            cycle <= node_count || node_count < 1,
            failed_node < node_count,
            slots_per_node * node_count <= usize::MAX,
            slots == slots_per_node as int,
            nodes == node_count as int,
            out@.len() == sweep_cycles(slots, nodes, cycle as int).len(),
            forall|i: int|
                0 <= i < out@.len() ==> (#[trigger] out@[i]).describes(
                    slots,
                    nodes,
                    failed_node as int,
                    sweep_cycles(slots, nodes, cycle as int)[i],
                ),
        decreases node_count - cycle,
    {
        match build_third_shift(cycle, node_count) {
            Ok(table) => {
                match build(
                    slots_per_node,
                    node_count,
                    3,
                    cycle,
                    table,
                    0,
                    DistributionVariant::Ascending,
                ) {
                    Ok(matrix) => {
                        let report = simulate(&matrix, failed_node);
                        let (min, max) = spread(&report.per_node_hit_count, failed_node);
                        proof {
                            lemma_placed_grid(matrix);
                            assert(matrix.layout() == sweep_layout(slots, nodes, cycle as int));
                        }
                        let entry = SweepEntry {
                            rank_cycle: cycle,
                            min,
                            max,
                            delta: max - min,
                            per_node_hit_counts: report.per_node_hit_count,
                        };
                        assert(entry.describes(slots, nodes, failed_node as int, cycle as int));
                        out.push(entry);
                        assert(sweepable(slots, nodes, cycle as int));
                    },
                    Err(_) => {
                        assert(!sweepable(slots, nodes, cycle as int));
                    },
                }
            },
            Err(_) => {
                assert(!sweepable(slots, nodes, cycle as int));
            },
        }
        cycle = cycle + 1;
    }
    out
}

} // verus!
