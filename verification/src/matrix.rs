//! The placement matrix: which shard every slot of every node stores.

use vstd::prelude::*;
use vstd::arithmetic::div_mod::{
    lemma_fundamental_div_mod,
    lemma_mod_bound,
    lemma_mod_multiples_basic,
};
use crate::error::ConfigError;
use crate::shift::{contribution, rank_cycle_of, shift_table};

verus! {

/// Number of replicas kept of every shard.
pub const REPLICATION: usize = 3;

/// How the nodes are walked when a row is laid out.
#[derive(Clone, Copy, Debug, PartialEq, Eq, Structural)]
pub enum DistributionVariant {
    /// Every row rotates over the nodes in ascending order.
    Ascending,
    /// Rows of every second repetition of the rank cycle rotate in descending
    /// order, so that leadership spreads over all nodes.
    Polar,
}

/// The parameters that determine a placement, as mathematical values.
pub struct Layout {
    pub slots: int,
    pub nodes: int,
    pub rank_cycle: int,
    pub shift: Seq<usize>,
    pub origin: int,
    pub variant: DistributionVariant,
}

impl Layout {
    /// The parameters admit a placement.
    pub open spec fn valid(self) -> bool {
        &&& self.nodes >= 2
        &&& 1 <= self.rank_cycle < self.nodes
        &&& self.shift.len() == self.rank_cycle
        &&& self.slots >= 0
        &&& self.slots % (3 * self.rank_cycle) == 0
    }

    /// Group of three slots that a slot belongs to.
    pub open spec fn group(self, slot: int) -> int {
        slot / 3
    }

    /// Rank of a slot's group inside its rank cycle.
    pub open spec fn rank(self, slot: int) -> int {
        (slot / 3) % self.rank_cycle
    }

    /// Smallest shard number of a slot's group, before the origin is added.
    pub open spec fn base(self, slot: int) -> int {
        (slot / 3) * self.nodes
    }

    /// Whether the row of this slot walks the nodes in descending order.
    pub open spec fn descends(self, slot: int) -> bool {
        self.variant == DistributionVariant::Polar && ((slot / 3) / self.rank_cycle) % 2 == 1
    }

    /// Rotation of a row: what the leader, first follower or second follower
    /// of its rank contributes.
    pub open spec fn turn(self, slot: int) -> int {
        contribution(self.shift, self.rank(slot), slot % 3)
    }

    /// Shard of the group, counted from the group's base, that a node stores in a slot.
    pub open spec fn offset(self, node: int, slot: int) -> int {
        if self.descends(slot) {
            (self.nodes + self.turn(slot) - node) % self.nodes
        } else {
            (self.turn(slot) + node) % self.nodes
        }
    }

    /// Shard identifier that a node stores in a slot.
    pub open spec fn value(self, node: int, slot: int) -> int {
        self.base(slot) + self.offset(node, slot) + self.origin
    }

    /// The whole placement, one sequence per node.
    pub open spec fn grid(self) -> Seq<Seq<i64>> {
        Seq::new(
            self.nodes as nat,
            |c: int| Seq::new(self.slots as nat, |r: int| self.value(c, r) as i64),
        )
    }
}

/// The layout of machine-sized parameters.
pub open spec fn layout_of(
    slots: usize,
    nodes: usize,
    rank_cycle: usize,
    shift: Seq<usize>,
    origin: i32,
    variant: DistributionVariant,
) -> Layout {
    Layout {
        slots: slots as int,
        nodes: nodes as int,
        rank_cycle: rank_cycle as int,
        shift,
        origin: origin as int,
        variant,
    }
}

/// A placement of replicated shards: `data[node][slot]` is the shard stored there.
#[derive(Clone, Debug)]
pub struct Matrix {
    pub start_from: i32,
    pub rows: usize,
    pub cols: usize,
    pub replication: usize,
    pub rank_cycle: usize,
    pub third_shift: Vec<usize>,
    pub variant: DistributionVariant,
    pub data: Vec<Vec<i64>>,
}

/// The variant that goes with a balancing policy: polar exactly when the rank
/// cycle is halved.
pub open spec fn variant_of(nodes: int, balance: bool) -> DistributionVariant {
    if (nodes - 1) % 2 == 0 && !balance {
        DistributionVariant::Polar
    } else {
        DistributionVariant::Ascending
    }
}

/// Why explicit parameters admit no placement, if they do not.
pub open spec fn build_error(
    slots: int,
    nodes: int,
    replication: int,
    rank_cycle: int,
    shift_len: int,
) -> Option<ConfigError> {
    if nodes < 2 {
        Some(ConfigError::NodeCount)
    } else if replication != 3 {
        Some(ConfigError::ReplicationFactor)
    } else if rank_cycle < 1 || rank_cycle >= nodes {
        Some(ConfigError::RankCycle)
    } else if shift_len != rank_cycle {
        Some(ConfigError::ShiftTable)
    } else if slots % (3 * rank_cycle) != 0 {
        Some(ConfigError::SlotCount)
    } else {
        None
    }
}

/// Why a node count, slot count and balancing policy admit no placement, if
/// they do not.
pub open spec fn plan_error(slots: int, nodes: int, replication: int, balance: bool) -> Option<
    ConfigError,
> {
    if nodes < 2 {
        Some(ConfigError::NodeCount)
    } else if replication != 3 {
        Some(ConfigError::ReplicationFactor)
    } else if shift_table(rank_cycle_of(nodes, balance), nodes).is_none() {
        Some(ConfigError::UnsupportedRankCycle)
    } else if slots % (3 * rank_cycle_of(nodes, balance)) != 0 {
        Some(ConfigError::SlotCount)
    } else {
        None
    }
}

/// The layout that a node count, slot count and balancing policy resolve to.
pub open spec fn planned_layout(slots: int, nodes: int, origin: int, balance: bool) -> Layout {
    Layout {
        slots,
        nodes,
        rank_cycle: rank_cycle_of(nodes, balance),
        shift: shift_table(rank_cycle_of(nodes, balance), nodes).unwrap(),
        origin,
        variant: variant_of(nodes, balance),
    }
}

impl Matrix {
    /// The parameters of this matrix as mathematical values.
    pub open spec fn layout(&self) -> Layout {
        layout_of(
            self.rows,
            self.cols,
            self.rank_cycle,
            self.third_shift@,
            self.start_from,
            self.variant,
        )
    }

    /// The cells of this matrix, one sequence per node.
    pub open spec fn grid(&self) -> Seq<Seq<i64>> {
        Seq::new(self.data@.len(), |c: int| self.data@[c]@)
    }

    /// The cells form a full rectangle of `cols` nodes by `rows` slots.
    pub open spec fn shaped(&self) -> bool {
        &&& self.data@.len() == self.cols
        &&& forall|c: int| 0 <= c < self.cols ==> (#[trigger] self.data@[c])@.len() == self.rows
    }

    /// Well-formed: valid parameters, three replicas, a full rectangle of cells
    /// that can be numbered.
    pub open spec fn wf(&self) -> bool {
        &&& self.layout().valid()
        &&& self.replication == 3
        &&& self.shaped()
        &&& self.rows * self.cols <= usize::MAX
    }

    /// No shard has been placed yet: every cell holds zero.
    pub open spec fn is_blank(&self) -> bool {
        &&& self.wf()
        &&& forall|c: int, r: int|
            0 <= c < self.cols && 0 <= r < self.rows ==> (#[trigger] self.data@[c]@[r]) == 0
    }

    /// Every cell holds the shard that the layout assigns to it.
    pub open spec fn is_placed(&self) -> bool {
        &&& self.wf()
        &&& forall|c: int, r: int|
            0 <= c < self.cols && 0 <= r < self.rows ==> (#[trigger] self.data@[c]@[r])
                == self.layout().value(c, r)
    }

    /// The shard stored by `node` in `slot`.
    pub fn cell(&self, node: usize, slot: usize) -> (v: i64)
        requires
            self.shaped(),
            node < self.cols,
            slot < self.rows,
        ensures
            v == self.grid()[node as int][slot as int],
    {
        self.data[node][slot]
    }
}

/// Every shard of a valid layout fits the cell type, provided that the cells
/// can be counted.
pub proof fn lemma_value_bounds(l: Layout, node: int, slot: int)
    requires
        l.valid(),
        0 <= node < l.nodes,
        0 <= slot < l.slots,
        l.slots * l.nodes <= usize::MAX,
        i32::MIN <= l.origin <= i32::MAX,
    ensures
        0 <= l.offset(node, slot) < l.nodes,
        0 <= l.base(slot),
        3 * (l.base(slot) + l.nodes) <= l.slots * l.nodes,
        i64::MIN <= l.value(node, slot) <= i64::MAX,
        3 * l.nodes <= usize::MAX,
{
    let n = l.nodes;
    let g = slot / 3;
    lemma_mod_bound(n + l.turn(slot) - node, n);
    lemma_mod_bound(l.turn(slot) + node, n);
    // the groups are whole, so a whole group lies at and after the slot's
    lemma_slots_whole_groups(l);
    assert(3 * (g + 1) <= l.slots);
    assert(0 <= g * n) by (nonlinear_arith)
        requires
            g >= 0,
            n >= 0,
    ;
    assert(3 * (g * n + n) <= l.slots * n) by (nonlinear_arith)
        requires
            3 * (g + 1) <= l.slots,
            n >= 0,
    ;
    assert(3 * n <= l.slots * n) by (nonlinear_arith)
        requires
            3 <= l.slots,
            n >= 0,
    ;
}

/// The slots of a valid layout divide into whole groups of three.
pub proof fn lemma_slots_whole_groups(l: Layout)
    requires
        l.valid(),
    ensures
        l.slots % 3 == 0,
        (l.slots / 3) % l.rank_cycle == 0,
{
    let d = 3 * l.rank_cycle;
    let q = l.slots / d;
    lemma_fundamental_div_mod(l.slots, d);
    assert(l.slots == 3 * (l.rank_cycle * q)) by (nonlinear_arith)
        requires
            l.slots == d * q,
            d == 3 * l.rank_cycle,
    ;
    assert(l.slots / 3 == l.rank_cycle * q);
    lemma_mod_multiples_basic(q, l.rank_cycle);
    assert(l.rank_cycle * q == q * l.rank_cycle) by (nonlinear_arith);
}

} // verus!
