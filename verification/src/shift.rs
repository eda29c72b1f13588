//! The rank cycle of a placement and the offsets of its third replica.
//!
//! Groups of three slots repeat their rotation pattern with a fixed period, the
//! rank cycle. Within a cycle, the rank `k` rotates the first follower by `k + 1`
//! and the second follower by a further offset taken from the shift table.

use vstd::prelude::*;
use crate::error::ConfigError;

verus! {

/// Period of the rotation pattern: one less than the node count, or half of that
/// when it is even and failover leadership need not balance.
pub open spec fn rank_cycle_of(nodes: int, balance: bool) -> int {
    if (nodes - 1) % 2 == 0 && !balance {
        (nodes - 1) / 2
    } else {
        nodes - 1
    }
}

/// The consecutive integers `lo, lo + 1, ..., hi` (empty when `hi < lo`).
pub open spec fn run(lo: int, hi: int) -> Seq<usize> {
    Seq::new(
        if hi < lo { 0nat } else { (hi - lo + 1) as nat },
        |i: int| (lo + i) as usize,
    )
}

/// The natural table of a cycle: rank `k` shifts by `k + 1`.
pub open spec fn natural_shift(cycle: int) -> Seq<usize> {
    run(1, cycle)
}

/// The table for an even node count: the natural offsets with the one just below
/// half the node count left out, closed by a final offset of two.
pub open spec fn skip_midpoint_shift(nodes: int) -> Seq<usize> {
    run(1, nodes / 2 - 2) + run(nodes / 2, nodes - 1) + seq![2usize]
}

/// Whether a table is registered for this rank cycle and node count.
pub open spec fn is_registered(cycle: int, nodes: int) -> bool {
    (cycle == 17 && nodes == 18) || (cycle == 41 && nodes == 42)
}

/// The registry of hand-made tables.
pub open spec fn registered_shift(cycle: int, nodes: int) -> Option<Seq<usize>> {
    if is_registered(cycle, nodes) {
        Some(skip_midpoint_shift(nodes))
    } else {
        None
    }
}

/// The shift table of a rank cycle on a node count: the registered one where
/// there is one, else the natural one for an odd cycle, else none.
pub open spec fn shift_table(cycle: int, nodes: int) -> Option<Seq<usize>> {
    if is_registered(cycle, nodes) {
        registered_shift(cycle, nodes)
    } else if cycle % 2 == 1 {
        Some(natural_shift(cycle))
    } else {
        None
    }
}

/// Offsets of the three replicas of a rank, before reduction by the node count.
pub open spec fn contribution(shift: Seq<usize>, rank: int, position: int) -> int {
    if position == 0 {
        0
    } else if position == 1 {
        rank + 1
    } else {
        rank + 1 + shift[rank]
    }
}

/// A table is safe on a node count when, for every rank, the three replica
/// offsets differ modulo the node count.
pub open spec fn shift_is_safe(shift: Seq<usize>, nodes: int) -> bool {
    forall|k: int|
        0 <= k < shift.len() ==> {
            &&& #[trigger] contribution(shift, k, 1) % nodes != 0
            &&& contribution(shift, k, 2) % nodes != 0
            &&& contribution(shift, k, 2) % nodes != contribution(shift, k, 1) % nodes
        }
}

/// Computes the rank cycle for a node count and balancing policy.
pub fn rank_cycle(nodes: usize, balance: bool) -> (cycle: usize)
    requires
        nodes >= 1,
    ensures
        cycle == rank_cycle_of(nodes as int, balance),
{
    let span: usize = nodes - 1;
    if span % 2 == 0 && !balance {
        span / 2
    } else {
        span
    }
}

/// Appends `lo, lo + 1, ..., hi` to `table`.
fn push_run(table: &mut Vec<usize>, lo: usize, hi: usize)
    ensures
        final(table)@ == old(table)@ + run(lo as int, hi as int),
{
    if hi < lo {
        assert(table@ =~= table@ + run(lo as int, hi as int));
        return ;
    }
    let ghost before = table@;
    let mut next: usize = lo;
    while next < hi
        invariant
            lo <= next <= hi,
            table@ == before + run(lo as int, next as int - 1),
        decreases hi - next,
    {
        table.push(next);
        assert(table@ =~= before + run(lo as int, next as int));
        next = next + 1;
    }
    table.push(hi);
    assert(table@ =~= before + run(lo as int, hi as int));
}

/// Looks a shift table up in the registry.
pub fn registered_table(cycle: usize, nodes: usize) -> (found: Option<Vec<usize>>)
    ensures
        match registered_shift(cycle as int, nodes as int) {
            Some(table) => found.is_some() && found.unwrap()@ == table,
            None => found.is_none(),
        },
{
    if (cycle == 17 && nodes == 18) || (cycle == 41 && nodes == 42) {
        let half: usize = nodes / 2;
        let mut table: Vec<usize> = Vec::new();
        push_run(&mut table, 1, half - 2);
        push_run(&mut table, half, nodes - 1);
        table.push(2);
        assert(table@ =~= skip_midpoint_shift(nodes as int));
        Some(table)
    } else {
        None
    }
}

/// Resolves the shift table for a rank cycle on `rank_size` nodes.
///
/// A registered table wins; an odd cycle without one gets the natural table; an
/// even cycle without one has no known table.
pub fn build_third_shift(rank_cycle: usize, rank_size: usize) -> (out: Result<Vec<usize>, ConfigError>)
    ensures
        match shift_table(rank_cycle as int, rank_size as int) {
            Some(table) => out.is_ok() && out.unwrap()@ == table,
            None => out == Err::<Vec<usize>, ConfigError>(ConfigError::UnsupportedRankCycle),
        },
{
    match registered_table(rank_cycle, rank_size) {
        Some(table) => Ok(table),
        None => {
            if rank_cycle % 2 == 1 {
                let mut table: Vec<usize> = Vec::new();
                push_run(&mut table, 1, rank_cycle);
                assert(table@ =~= natural_shift(rank_cycle as int));
                Ok(table)
            } else {
                Err(ConfigError::UnsupportedRankCycle)
            }
        },
    }
}

/// Resolves rank cycle and shift table for a node count and balancing policy.
pub fn resolve(node_count: usize, balance: bool) -> (out: Result<(usize, Vec<usize>), ConfigError>)
    ensures
        node_count < 2 ==> out == Err::<(usize, Vec<usize>), ConfigError>(ConfigError::NodeCount),
        node_count >= 2 ==> match shift_table(
            rank_cycle_of(node_count as int, balance),
            node_count as int,
        ) {
            Some(table) => out.is_ok() && out.unwrap().0 == rank_cycle_of(
                node_count as int,
                balance,
            ) && out.unwrap().1@ == table,
            None => out == Err::<(usize, Vec<usize>), ConfigError>(
                ConfigError::UnsupportedRankCycle,
            ),
        },
{
    if node_count < 2 {
        return Err(ConfigError::NodeCount);
    }
    let cycle: usize = rank_cycle(node_count, balance);
    match build_third_shift(cycle, node_count) {
        Ok(table) => Ok((cycle, table)),
        Err(e) => Err(e),
    }
}

} // verus!
