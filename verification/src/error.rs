//! Reasons for which a placement cannot be planned.

use vstd::prelude::*;

verus! {

/// A request that no placement can satisfy. Nothing is built when one of these
/// is returned, and none of them is worth retrying.
#[derive(Clone, Copy, Debug, PartialEq, Eq, Structural)]
pub enum ConfigError {
    /// No slot per node was asked for.
    NoSlots,
    /// Fewer than two nodes were asked for.
    NodeCount,
    /// A replication factor other than three was asked for.
    ReplicationFactor,
    /// The rank cycle is zero, or not smaller than the node count.
    RankCycle,
    /// No collision-avoiding shift table is known for the rank cycle and node count.
    UnsupportedRankCycle,
    /// The shift table does not hold one offset per rank of the cycle.
    ShiftTable,
    /// The slots of a node do not divide into whole rank cycles of replica groups.
    SlotCount,
    /// The node to fail is none of the nodes.
    FailedNode,
    /// There are more cells than the machine can count.
    CellCount,
}

} // verus!
