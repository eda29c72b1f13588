//! Building a placement matrix from its parameters.

use vstd::prelude::*;
use vstd::arithmetic::div_mod::{
    lemma_add_mod_noop,
    lemma_add_mod_noop_right,
    lemma_mod_bound,
    lemma_small_mod,
};
use crate::error::ConfigError;
use crate::matrix::{
    build_error,
    layout_of,
    lemma_value_bounds,
    plan_error,
    planned_layout,
    variant_of,
    DistributionVariant,
    Matrix,
    REPLICATION,
};
use crate::shift::{build_third_shift, rank_cycle, shift_table};

verus! {

/// Whether `slots` is a whole number of rank cycles of replica groups.
fn fills_whole_cycles(slots: usize, rank_cycle: usize) -> (whole: bool)
    requires
        rank_cycle >= 1,
    ensures
        whole == (slots as int % (3 * rank_cycle as int) == 0),
{
    let period: u128 = 3u128 * (rank_cycle as u128);
    (slots as u128) % period == 0
}

/// The shard that `node` stores in `slot` under the given parameters.
fn shard_at(
    slots: usize,
    nodes: usize,
    rank_cycle: usize,
    shift: &Vec<usize>,
    origin: i32,
    variant: DistributionVariant,
    node: usize,
    slot: usize,
) -> (v: i64)
    requires
        layout_of(slots, nodes, rank_cycle, shift@, origin, variant).valid(),
        node < nodes,
        slot < slots,
        slots * nodes <= usize::MAX,
    ensures
        v == layout_of(slots, nodes, rank_cycle, shift@, origin, variant).value(
            node as int,
            slot as int,
        ),
{
    let ghost l = layout_of(slots, nodes, rank_cycle, shift@, origin, variant);
    let ghost n = nodes as int;
    proof {
        lemma_value_bounds(l, node as int, slot as int);
    }
    let group: usize = slot / 3;
    let position: usize = slot % 3;
    let rank: usize = group % rank_cycle;
    // the row's rotation, reduced by the node count
    let turn: usize = if position == 0 {
        0
    } else if position == 1 {
        rank + 1
    } else {
        let extra: usize = shift[rank] % nodes;
        (rank + 1 + extra) % nodes
    };
    proof {
        let full = l.turn(slot as int);
        if position == 2 {
            lemma_add_mod_noop_right(rank as int + 1, shift@[rank as int] as int, n);
        } else {
            lemma_small_mod(full as nat, n as nat);
        }
        assert(turn == full % n);
        lemma_mod_bound(full, n);
    }
    let descending: bool = match variant {
        DistributionVariant::Polar => (group / rank_cycle) % 2 == 1,
        DistributionVariant::Ascending => false,
    };
    let offset: usize = if descending {
        proof {
            let full = l.turn(slot as int);
            lemma_add_mod_noop(full, n - node as int, n);
            lemma_add_mod_noop_right(turn as int, n - node as int, n);
        }
        (nodes + turn - node) % nodes
    } else {
        proof {
            let full = l.turn(slot as int);
            lemma_add_mod_noop(full, node as int, n);
            lemma_small_mod(node as nat, n as nat);
        }
        (turn + node) % nodes
    };
    assert(offset == l.offset(node as int, slot as int));
    let base: usize = group * nodes;
    (base as i64) + (offset as i64) + (origin as i64)
}

/// Lays every shard of a valid layout out, node by node.
fn fill(
    slots: usize,
    nodes: usize,
    rank_cycle: usize,
    shift: &Vec<usize>,
    origin: i32,
    variant: DistributionVariant,
) -> (data: Vec<Vec<i64>>)
    requires
        layout_of(slots, nodes, rank_cycle, shift@, origin, variant).valid(),
        slots * nodes <= usize::MAX,
    ensures
        data@.len() == nodes,
        forall|c: int| 0 <= c < nodes ==> (#[trigger] data@[c])@.len() == slots,
        forall|c: int, r: int|
            0 <= c < nodes && 0 <= r < slots ==> (#[trigger] data@[c]@[r]) == layout_of(
                slots,
                nodes,
                rank_cycle,
                shift@,
                origin,
                variant,
            ).value(c, r),
{
    let ghost l = layout_of(slots, nodes, rank_cycle, shift@, origin, variant);
    let mut data: Vec<Vec<i64>> = Vec::new();
    let mut node: usize = 0;
    while node < nodes
        invariant
            node <= nodes,
            l.valid(),
            l == layout_of(slots, nodes, rank_cycle, shift@, origin, variant),
            slots * nodes <= usize::MAX,
            data@.len() == node,
            forall|c: int| 0 <= c < node ==> (#[trigger] data@[c])@.len() == slots,
            forall|c: int, r: int|
                0 <= c < node && 0 <= r < slots ==> (#[trigger] data@[c]@[r]) == l.value(c, r),
        decreases nodes - node,
    {
        let mut column: Vec<i64> = Vec::new();
        let mut slot: usize = 0;
        while slot < slots
            invariant
                slot <= slots,
                node < nodes,
                l.valid(),
                l == layout_of(slots, nodes, rank_cycle, shift@, origin, variant),
                slots * nodes <= usize::MAX,
                column@.len() == slot,
                forall|r: int| 0 <= r < slot ==> (#[trigger] column@[r]) == l.value(node as int, r),
            decreases slots - slot,
        {
            let v: i64 = shard_at(slots, nodes, rank_cycle, shift, origin, variant, node, slot);
            column.push(v);
            slot = slot + 1;
        }
        data.push(column);
        node = node + 1;
    }
    data
}

/// A rectangle of `cols` nodes by `rows` slots in which every cell holds zero.
fn blank_grid(rows: usize, cols: usize) -> (data: Vec<Vec<i64>>)
    ensures
        data@.len() == cols,
        forall|c: int| 0 <= c < cols ==> (#[trigger] data@[c])@.len() == rows,
        forall|c: int, r: int| 0 <= c < cols && 0 <= r < rows ==> (#[trigger] data@[c]@[r]) == 0,
{
    let mut data: Vec<Vec<i64>> = Vec::new();
    let mut node: usize = 0;
    while node < cols
        invariant
            node <= cols,
            data@.len() == node,
            forall|c: int| 0 <= c < node ==> (#[trigger] data@[c])@.len() == rows,
            forall|c: int, r: int|
                0 <= c < node && 0 <= r < rows ==> (#[trigger] data@[c]@[r]) == 0,
        decreases cols - node,
    {
        let mut column: Vec<i64> = Vec::new();
        let mut slot: usize = 0;
        while slot < rows
            invariant
                slot <= rows,
                column@.len() == slot,
                forall|r: int| 0 <= r < slot ==> (#[trigger] column@[r]) == 0,
            decreases rows - slot,
        {
            column.push(0);
            slot = slot + 1;
        }
        data.push(column);
        node = node + 1;
    }
    data
}

/// The variant that goes with a balancing policy.
fn pick_variant(nodes: usize, balance: bool) -> (variant: DistributionVariant)
    requires
        nodes >= 1,
    ensures
        variant == variant_of(nodes as int, balance),
{
    if (nodes - 1) % 2 == 0 && !balance {
        DistributionVariant::Polar
    } else {
        DistributionVariant::Ascending
    }
}

impl Matrix {
    /// Resolves rank cycle and shift table for `c` nodes of `r` slots each and
    /// returns the matrix of that shape with no shard placed yet.
    pub fn new(r: usize, c: usize, rep: usize, s: i32, balance_leader_when_failover: bool) -> (out:
        Result<Matrix, ConfigError>)
        requires
            r * c <= usize::MAX,
        ensures
            match plan_error(r as int, c as int, rep as int, balance_leader_when_failover) {
                Some(e) => out == Err::<Matrix, ConfigError>(e),
                None => out.is_ok() && out.unwrap().is_blank() && out.unwrap().layout()
                    == planned_layout(r as int, c as int, s as int, balance_leader_when_failover),
            },
    {
        if c < 2 {
            return Err(ConfigError::NodeCount);
        }
        if rep != REPLICATION {
            return Err(ConfigError::ReplicationFactor);
        }
        let rc: usize = rank_cycle(c, balance_leader_when_failover);
        let ts: Vec<usize> = match build_third_shift(rc, c) {
            Ok(table) => table,
            Err(e) => {
                return Err(e);
            },
        };
        if !fills_whole_cycles(r, rc) {
            return Err(ConfigError::SlotCount);
        }
        let m = Matrix {
            start_from: s,
            rows: r,
            cols: c,
            replication: rep,
            rank_cycle: rc,
            third_shift: ts,
            variant: pick_variant(c, balance_leader_when_failover),
            data: blank_grid(r, c),
        };
        Ok(m)
    }
}

/// Places the shards of `rows` slots on each of `cols` nodes, with the rank
/// cycle and shift table that the node count and balancing policy resolve to.
pub fn distribute(rows: usize, cols: usize, start: i32, balance_leader_when_failover: bool) -> (out:
    Result<Matrix, ConfigError>)
    requires
        rows * cols <= usize::MAX,
    ensures
        match plan_error(rows as int, cols as int, 3, balance_leader_when_failover) {
            Some(e) => out == Err::<Matrix, ConfigError>(e),
            None => out.is_ok() && out.unwrap().is_placed() && out.unwrap().layout()
                == planned_layout(
                rows as int,
                cols as int,
                start as int,
                balance_leader_when_failover,
            ),
        },
{
    let mut m: Matrix = match Matrix::new(
        rows,
        cols,
        REPLICATION,
        start,
        balance_leader_when_failover,
    ) {
        Ok(blank) => blank,
        Err(e) => {
            return Err(e);
        },
    };
    m.data = fill(m.rows, m.cols, m.rank_cycle, &m.third_shift, m.start_from, m.variant);
    Ok(m)
}

/// Places the shards for explicitly given rank cycle, shift table and variant.
pub fn build(
    slots_per_node: usize,
    node_count: usize,
    replication_factor: usize,
    rank_cycle: usize,
    shift_table: Vec<usize>,
    id_origin: i32,
    variant: DistributionVariant,
) -> (out: Result<Matrix, ConfigError>)
    requires
        slots_per_node * node_count <= usize::MAX,
    ensures
        match build_error(
            slots_per_node as int,
            node_count as int,
            replication_factor as int,
            rank_cycle as int,
            shift_table@.len() as int,
        ) {
            Some(e) => out == Err::<Matrix, ConfigError>(e),
            None => out.is_ok() && out.unwrap().is_placed() && out.unwrap().layout() == layout_of(
                slots_per_node,
                node_count,
                rank_cycle,
                shift_table@,
                id_origin,
                variant,
            ),
        },
{
    if node_count < 2 {
        return Err(ConfigError::NodeCount);
    }
    if replication_factor != REPLICATION {
        return Err(ConfigError::ReplicationFactor);
    }
    if rank_cycle < 1 || rank_cycle >= node_count {
        return Err(ConfigError::RankCycle);
    }
    if shift_table.len() != rank_cycle {
        return Err(ConfigError::ShiftTable);
    }
    if !fills_whole_cycles(slots_per_node, rank_cycle) {
        return Err(ConfigError::SlotCount);
    }
    let data = fill(slots_per_node, node_count, rank_cycle, &shift_table, id_origin, variant);
    Ok(
        Matrix {
            start_from: id_origin,
            rows: slots_per_node,
            cols: node_count,
            replication: replication_factor,
            rank_cycle,
            third_shift: shift_table,
            variant,
            data,
        },
    )
}

} // verus!
