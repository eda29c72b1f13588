//! What holds of every placement: each row is a permutation of its group's
//! shards, and with a safe shift table no node stores a shard twice.

use vstd::prelude::*;
use vstd::arithmetic::div_mod::lemma_small_mod;
use crate::matrix::{lemma_value_bounds, Layout, Matrix};
use crate::modular::{
    lemma_counter_rotation_reaches,
    lemma_mod_below_twice,
    lemma_mod_cancel,
    lemma_mod_injective,
    lemma_rotation_reaches,
};
use crate::shift::{
    contribution,
    is_registered,
    natural_shift,
    rank_cycle_of,
    run,
    shift_is_safe,
    shift_table,
    skip_midpoint_shift,
};

verus! {

/// Smallest shard identifier of the group that `slot` belongs to.
pub open spec fn row_floor(l: Layout, slot: int) -> int {
    l.base(slot) + l.origin
}

/// Some node stores `shard` in `slot`.
pub open spec fn row_holds(grid: Seq<Seq<i64>>, slot: int, shard: int) -> bool {
    exists|c: int| 0 <= c < grid.len() && (#[trigger] grid[c])[slot] == shard
}

/// Within a row, different nodes store different shards.
pub proof fn lemma_row_injective(l: Layout, slot: int, a: int, b: int)
    requires
        l.valid(),
        0 <= a < l.nodes,
        0 <= b < l.nodes,
        l.value(a, slot) == l.value(b, slot),
    ensures
        a == b,
{
    let n = l.nodes;
    let t = l.turn(slot);
    if l.descends(slot) {
        lemma_mod_injective(n + t - a, n + t - b, n);
    } else {
        lemma_mod_injective(t + a, t + b, n);
    }
}

/// Within a row, every shard of the group's range is stored by some node.
pub proof fn lemma_row_surjective(l: Layout, slot: int, shard: int) -> (node: int)
    requires
        l.valid(),
        row_floor(l, slot) <= shard < row_floor(l, slot) + l.nodes,
    ensures
        0 <= node < l.nodes,
        l.value(node, slot) == shard,
{
    let n = l.nodes;
    let t = l.turn(slot);
    let target = shard - row_floor(l, slot);
    if l.descends(slot) {
        lemma_counter_rotation_reaches(t, target, n);
        (t - target) % n
    } else {
        lemma_rotation_reaches(t, target, n);
        (target - t) % n
    }
}

/// Row bijection: the shards of a row are the `nodes` consecutive identifiers
/// that start at the row's floor, each stored by exactly one node.
pub proof fn lemma_row_bijection(m: Matrix, slot: int)
    requires
        m.is_placed(),
        0 <= slot < m.rows,
    ensures
        forall|c: int|
            0 <= c < m.cols ==> row_floor(m.layout(), slot) <= (#[trigger] m.grid()[c][slot])
                < row_floor(m.layout(), slot) + m.cols,
        forall|a: int, b: int|
            0 <= a < m.cols && 0 <= b < m.cols && a != b ==> (#[trigger] m.grid()[a][slot]) != (
            #[trigger] m.grid()[b][slot]),
        forall|v: int|
            row_floor(m.layout(), slot) <= v < row_floor(m.layout(), slot) + m.cols
                ==> #[trigger] row_holds(m.grid(), slot, v),
{
    let l = m.layout();
    assert forall|c: int| 0 <= c < m.cols implies row_floor(l, slot) <= (#[trigger] m.grid()[c][slot])
        < row_floor(l, slot) + m.cols by {
        lemma_value_bounds(l, c, slot);
        assert(m.data@[c]@[slot] == l.value(c, slot));
    }
    assert forall|a: int, b: int| 0 <= a < m.cols && 0 <= b < m.cols && a != b implies (
    #[trigger] m.grid()[a][slot]) != (#[trigger] m.grid()[b][slot]) by {
        assert(m.data@[a]@[slot] == l.value(a, slot));
        assert(m.data@[b]@[slot] == l.value(b, slot));
        if l.value(a, slot) == l.value(b, slot) {
            lemma_row_injective(l, slot, a, b);
        }
    }
    assert forall|v: int| row_floor(l, slot) <= v < row_floor(l, slot) + m.cols implies #[trigger] row_holds(
        m.grid(),
        slot,
        v,
    ) by {
        let c = lemma_row_surjective(l, slot, v);
        assert(m.data@[c]@[slot] == l.value(c, slot));
        assert(m.grid()[c][slot] == v);
    }
}

/// The cells of a placed matrix are those of its layout.
pub proof fn lemma_placed_grid(m: Matrix)
    requires
        m.is_placed(),
    ensures
        m.grid() == m.layout().grid(),
{
    let l = m.layout();
    assert forall|c: int| 0 <= c < m.cols implies #[trigger] m.grid()[c] == l.grid()[c] by {
        assert forall|r: int| 0 <= r < m.rows implies #[trigger] m.grid()[c][r] == l.grid()[c][r] by {
            assert(m.data@[c]@[r] == l.value(c, r));
        }
        assert(m.data@[c]@.len() == m.rows);
        assert(m.grid()[c] =~= l.grid()[c]);
    }
    assert(m.grid() =~= l.grid());
}

/// Determinism of placement: two placed matrices with the same parameters
/// hold the same shard in every cell.
pub proof fn lemma_placement_determined(a: Matrix, b: Matrix)
    requires
        a.is_placed(),
        b.is_placed(),
        a.layout() == b.layout(),
    ensures
        a.grid() == b.grid(),
{
    lemma_placed_grid(a);
    lemma_placed_grid(b);
}

/// With a safe shift table, a node stores different shards in two different
/// slots of one group.
pub proof fn lemma_group_values_differ(l: Layout, node: int, slot_a: int, slot_b: int)
    requires
        l.valid(),
        shift_is_safe(l.shift, l.nodes),
        0 <= node < l.nodes,
        0 <= slot_a < l.slots,
        0 <= slot_b < l.slots,
        slot_a / 3 == slot_b / 3,
        slot_a != slot_b,
    ensures
        l.value(node, slot_a) != l.value(node, slot_b),
{
    let n = l.nodes;
    let k = l.rank(slot_a);
    let ta = l.turn(slot_a);
    let tb = l.turn(slot_b);
    assert(0 <= k < l.rank_cycle) by {
        vstd::arithmetic::div_mod::lemma_mod_bound(slot_a / 3, l.rank_cycle);
    }
    // the three rotations of a rank differ modulo the node count
    assert(ta % n != tb % n) by {
        assert(contribution(l.shift, k, 1) % n != 0);
        assert(contribution(l.shift, k, 0) % n == 0) by {
            lemma_small_mod(0, n as nat);
        }
    }
    if l.descends(slot_a) {
        lemma_mod_cancel(ta, tb, n - node, n);
        assert(n + ta - node == ta + (n - node));
        assert(n + tb - node == tb + (n - node));
    } else {
        lemma_mod_cancel(ta, tb, node, n);
    }
}

/// No co-location: where the shift table is safe, the replicas of a shard in
/// two different slots of a group lie on different nodes.
pub proof fn lemma_no_colocation(m: Matrix, slot_a: int, slot_b: int, node_a: int, node_b: int)
    requires
        m.is_placed(),
        shift_is_safe(m.third_shift@, m.cols as int),
        0 <= slot_a < m.rows,
        0 <= slot_b < m.rows,
        slot_a / 3 == slot_b / 3,
        slot_a != slot_b,
        0 <= node_a < m.cols,
        0 <= node_b < m.cols,
        m.grid()[node_a][slot_a] == m.grid()[node_b][slot_b],
    ensures
        node_a != node_b,
{
    let l = m.layout();
    assert(m.data@[node_a]@[slot_a] == l.value(node_a, slot_a));
    assert(m.data@[node_b]@[slot_b] == l.value(node_b, slot_b));
    if node_a == node_b {
        lemma_group_values_differ(l, node_a, slot_a, slot_b);
    }
}

/// What the table for an even node count holds at each rank.
pub proof fn lemma_skip_midpoint_entries(nodes: int)
    requires
        nodes >= 4,
        nodes % 2 == 0,
        nodes <= usize::MAX,
    ensures
        skip_midpoint_shift(nodes).len() == nodes - 1,
        forall|k: int|
            0 <= k < nodes - 1 ==> (#[trigger] skip_midpoint_shift(nodes)[k]) == (if k < nodes / 2
                - 2 {
                k + 1
            } else if k < nodes - 2 {
                k + 2
            } else {
                2
            }),
{
    let half = nodes / 2;
    let low = run(1, half - 2);
    let high = run(half, nodes - 1);
    let s = skip_midpoint_shift(nodes);
    assert(low.len() == half - 2);
    assert(high.len() == half);
    assert forall|k: int| 0 <= k < nodes - 1 implies (#[trigger] s[k]) == (if k < half - 2 {
        k + 1
    } else if k < nodes - 2 {
        k + 2
    } else {
        2
    }) by {
        if k < half - 2 {
            assert(s[k] == low[k]);
        } else if k < nodes - 2 {
            assert(s[k] == high[k - (half - 2)]);
        } else {
            assert(s[k] == seq![2usize][0]);
        }
    }
}

/// The table for an even node count is safe on it.
pub proof fn lemma_skip_midpoint_safe(nodes: int)
    requires
        nodes >= 4,
        nodes % 2 == 0,
        nodes <= usize::MAX,
    ensures
        shift_is_safe(skip_midpoint_shift(nodes), nodes),
{
    let s = skip_midpoint_shift(nodes);
    lemma_skip_midpoint_entries(nodes);
    assert forall|k: int| 0 <= k < s.len() implies {
        &&& #[trigger] contribution(s, k, 1) % nodes != 0
        &&& contribution(s, k, 2) % nodes != 0
        &&& contribution(s, k, 2) % nodes != contribution(s, k, 1) % nodes
    } by {
        let first = contribution(s, k, 1);
        let second = contribution(s, k, 2);
        assert(s[k] == (if k < nodes / 2 - 2 {
            k + 1
        } else if k < nodes - 2 {
            k + 2
        } else {
            2
        }));
        lemma_mod_below_twice(first, nodes);
        lemma_mod_below_twice(second, nodes);
    }
}

/// Every registered table is safe on the node count it is registered for.
pub proof fn lemma_registered_shift_safe(cycle: int, nodes: int)
    requires
        is_registered(cycle, nodes),
    ensures
        shift_is_safe(skip_midpoint_shift(nodes), nodes),
{
    lemma_skip_midpoint_safe(nodes);
}

/// The natural table is safe on every odd node count above its cycle.
pub proof fn lemma_natural_shift_safe(cycle: int, nodes: int)
    requires
        1 <= cycle < nodes,
        nodes % 2 == 1,
        nodes <= usize::MAX,
    ensures
        shift_is_safe(natural_shift(cycle), nodes),
{
    let s = natural_shift(cycle);
    assert forall|k: int| 0 <= k < s.len() implies {
        &&& #[trigger] contribution(s, k, 1) % nodes != 0
        &&& contribution(s, k, 2) % nodes != 0
        &&& contribution(s, k, 2) % nodes != contribution(s, k, 1) % nodes
    } by {
        assert(s[k] == k + 1);
        lemma_mod_below_twice(contribution(s, k, 1), nodes);
        lemma_mod_below_twice(contribution(s, k, 2), nodes);
    }
}

/// The table that a node count and balancing policy resolve to is safe where
/// the node count is odd, and where it is taken from the registry.
pub proof fn lemma_resolved_shift_safe(nodes: int, balance: bool)
    requires
        2 <= nodes <= usize::MAX,
        shift_table(rank_cycle_of(nodes, balance), nodes).is_some(),
        nodes % 2 == 1 || is_registered(rank_cycle_of(nodes, balance), nodes),
    ensures
        shift_is_safe(shift_table(rank_cycle_of(nodes, balance), nodes).unwrap(), nodes),
{
    let cycle = rank_cycle_of(nodes, balance);
    if is_registered(cycle, nodes) {
        lemma_registered_shift_safe(cycle, nodes);
    } else {
        lemma_natural_shift_safe(cycle, nodes);
    }
}

/// No co-location on the registered node counts: in a placement on 18 nodes
/// with rank cycle 17, or on 42 nodes with rank cycle 41, that uses the
/// registered table, the three replicas of every shard lie on three nodes.
pub proof fn lemma_registry_no_colocation(
    m: Matrix,
    slot_a: int,
    slot_b: int,
    node_a: int,
    node_b: int,
)
    requires
        m.is_placed(),
        is_registered(m.rank_cycle as int, m.cols as int),
        m.third_shift@ == skip_midpoint_shift(m.cols as int),
        0 <= slot_a < m.rows,
        0 <= slot_b < m.rows,
        slot_a / 3 == slot_b / 3,
        slot_a != slot_b,
        0 <= node_a < m.cols,
        0 <= node_b < m.cols,
        m.grid()[node_a][slot_a] == m.grid()[node_b][slot_b],
    ensures
        node_a != node_b,
{
    lemma_registered_shift_safe(m.rank_cycle as int, m.cols as int);
    lemma_no_colocation(m, slot_a, slot_b, node_a, node_b);
}

} // verus!
