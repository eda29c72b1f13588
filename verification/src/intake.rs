//! From a request to its outcome: the parameters are checked before anything
//! is built, then the shards are placed and, where a node is named, its
//! failure is simulated.

use vstd::prelude::*;
use crate::builder::distribute;
use crate::error::ConfigError;
use crate::failover::{simulate, FailoverReport};
use crate::matrix::{plan_error, planned_layout, Matrix};

verus! {

/// What is wrong with the parameters of a request, if anything.
pub open spec fn request_error(slots: int, nodes: int, failed: Option<usize>) -> Option<
    ConfigError,
> {
    if slots < 1 {
        Some(ConfigError::NoSlots)
    } else if nodes < 2 {
        Some(ConfigError::NodeCount)
    } else if failed.is_some() && failed.unwrap() >= nodes {
        Some(ConfigError::FailedNode)
    } else if slots * nodes > usize::MAX {
        Some(ConfigError::CellCount)
    } else {
        None
    }
}

/// Checks the parameters of a request: at least one slot per node, at least
/// two nodes, the node to fail among them, and no more cells than can be counted.
pub fn check_request(slots_per_node: usize, node_count: usize, failed_node: Option<usize>) -> (out:
    Result<(), ConfigError>)
    ensures
        match request_error(slots_per_node as int, node_count as int, failed_node) {
            Some(e) => out == Err::<(), ConfigError>(e),
            None => out == Ok::<(), ConfigError>(()),
        },
{
    if slots_per_node < 1 {
        return Err(ConfigError::NoSlots);
    }
    if node_count < 2 {
        return Err(ConfigError::NodeCount);
    }
    match failed_node {
        Some(failed) => {
            if failed >= node_count {
                return Err(ConfigError::FailedNode);
            }
        },
        None => {},
    }
    match slots_per_node.checked_mul(node_count) {
        Some(_) => Ok(()),
        None => Err(ConfigError::CellCount),
    }
}

/// A placement and, where a node was named, the outcome of its failure.
#[derive(Debug)]
pub struct Plan {
    pub matrix: Matrix,
    pub report: Option<FailoverReport>,
}

/// Why a request has no plan, if it has none: what is wrong with its
/// parameters, else why they admit no placement.
pub open spec fn refusal(slots: int, nodes: int, balance: bool, failed: Option<usize>) -> Option<
    ConfigError,
> {
    if request_error(slots, nodes, failed).is_some() {
        request_error(slots, nodes, failed)
    } else {
        plan_error(slots, nodes, 3, balance)
    }
}

/// Places the shards and, where `failed_node` names a node, simulates its failure.
pub fn plan(
    slots_per_node: usize,
    node_count: usize,
    id_origin: i32,
    balance_leader_when_failover: bool,
    failed_node: Option<usize>,
) -> (out: Result<Plan, ConfigError>)
    ensures
        match refusal(
            slots_per_node as int,
            node_count as int,
            balance_leader_when_failover,
            failed_node,
        ) {
            Some(e) => out == Err::<Plan, ConfigError>(e),
            None => {
                &&& out.is_ok()
                &&& out.unwrap().matrix.is_placed()
                &&& out.unwrap().matrix.layout() == planned_layout(
                    slots_per_node as int,
                    node_count as int,
                    id_origin as int,
                    balance_leader_when_failover,
                )
                &&& out.unwrap().report.is_some() == failed_node.is_some()
                &&& failed_node.is_some() ==> out.unwrap().report.unwrap().describes(
                    out.unwrap().matrix.grid(),
                    failed_node.unwrap() as int,
                    slots_per_node as int,
                )
            },
        },
{
    match check_request(slots_per_node, node_count, failed_node) {
        Ok(_) => {},
        Err(e) => {
            return Err(e);
        },
    }
    let matrix: Matrix = match distribute(
        slots_per_node,
        node_count,
        id_origin,
        balance_leader_when_failover,
    ) {
        Ok(placed) => placed,
        Err(e) => {
            return Err(e);
        },
    };
    let report: Option<FailoverReport> = match failed_node {
        Some(failed) => Some(simulate(&matrix, failed)),
        None => None,
    };
    Ok(Plan { matrix, report })
}

} // verus!
