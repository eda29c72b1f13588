//! Conservation of hits: every shard of a placement has three replicas, so
//! the hits on the surviving nodes are three per lost shard, less the slots
//! of the failed node itself.

use vstd::prelude::*;
use crate::failover::{
    distinct,
    distinct_prefix,
    hits_upto,
    lemma_distinct_prefix_contains,
    lost_shards,
    total_hits,
};
use crate::failover_laws::lemma_value_tells_group;
use crate::matrix::{lemma_slots_whole_groups, lemma_value_bounds, Matrix};
use crate::placement_laws::{
    lemma_group_values_differ,
    lemma_row_injective,
    lemma_row_surjective,
    row_floor,
};
use crate::shift::shift_is_safe;

verus! {

/// The hits on the first `upto_node` nodes that fall into their first
/// `upto_slot` slots.
pub open spec fn hits_within(grid: Seq<Seq<i64>>, failed: int, upto_node: int, upto_slot: int) -> nat
    decreases upto_node,
{
    if upto_node <= 0 {
        0
    } else {
        hits_within(grid, failed, upto_node - 1, upto_slot) + if upto_node - 1 == failed {
            0nat
        } else {
            hits_upto(grid[upto_node - 1], lost_shards(grid, failed), upto_slot)
        }
    }
}

/// The hits in one slot on the first `upto_node` nodes.
pub open spec fn row_hits(grid: Seq<Seq<i64>>, failed: int, slot: int, upto_node: int) -> nat
    decreases upto_node,
{
    if upto_node <= 0 {
        0
    } else {
        row_hits(grid, failed, slot, upto_node - 1) + if upto_node - 1 != failed && lost_shards(
            grid,
            failed,
        ).contains(grid[upto_node - 1][slot]) {
            1nat
        } else {
            0nat
        }
    }
}

/// How many different values three values are.
pub open spec fn different(a: int, b: int, c: int) -> nat {
    1 + if b != a {
        1nat
    } else {
        0nat
    } + if c != a && c != b {
        1nat
    } else {
        0nat
    }
}

/// How many of the nodes before `upto`, `skip` left out, are one of three nodes.
pub open spec fn among(upto: int, a: int, b: int, c: int, skip: int) -> nat
    decreases upto,
{
    if upto <= 0 {
        0
    } else {
        among(upto - 1, a, b, c, skip) + if upto - 1 != skip && (upto - 1 == a || upto - 1 == b
            || upto - 1 == c) {
            1nat
        } else {
            0nat
        }
    }
}

/// Counting the three nodes one by one.
proof fn lemma_among(upto: int, a: int, b: int, c: int, skip: int)
    requires
        0 <= upto,
        0 <= a,
        0 <= b,
        0 <= c,
    ensures
        among(upto, a, b, c, skip) == (if a < upto && a != skip {
            1nat
        } else {
            0nat
        }) + (if b != a && b < upto && b != skip {
            1nat
        } else {
            0nat
        }) + (if c != a && c != b && c < upto && c != skip {
            1nat
        } else {
            0nat
        }),
    decreases upto,
{
    if upto > 0 {
        lemma_among(upto - 1, a, b, c, skip);
    }
}

/// Hits can be added up slot by slot as well as node by node.
proof fn lemma_hits_by_row(grid: Seq<Seq<i64>>, failed: int, upto_node: int, upto_slot: int)
    requires
        upto_slot >= 1,
    ensures
        hits_within(grid, failed, upto_node, upto_slot) == hits_within(
            grid,
            failed,
            upto_node,
            upto_slot - 1,
        ) + row_hits(grid, failed, upto_slot - 1, upto_node),
    decreases upto_node,
{
    if upto_node > 0 {
        lemma_hits_by_row(grid, failed, upto_node - 1, upto_slot);
    }
}

/// Over all slots, the hits within are the total of the nodes' hits.
proof fn lemma_hits_within_all(grid: Seq<Seq<i64>>, failed: int, upto_node: int, slots: int)
    requires
        0 <= upto_node <= grid.len(),
        forall|c: int| 0 <= c < grid.len() ==> (#[trigger] grid[c]).len() == slots,
    ensures
        hits_within(grid, failed, upto_node, slots) == total_hits(grid, failed, upto_node),
    decreases upto_node,
{
    if upto_node > 0 {
        lemma_hits_within_all(grid, failed, upto_node - 1, slots);
        assert(grid[upto_node - 1].len() == slots);
    }
}

/// No slot is hit anywhere before the first.
proof fn lemma_hits_within_none(grid: Seq<Seq<i64>>, failed: int, upto_node: int)
    ensures
        hits_within(grid, failed, upto_node, 0) == 0,
    decreases upto_node,
{
    if upto_node > 0 {
        lemma_hits_within_none(grid, failed, upto_node - 1);
    }
}

/// Where, among the nodes before `upto`, exactly three nodes store a lost
/// shard in a slot, the slot's hits are those three less the failed node.
proof fn lemma_row_hits_among(
    grid: Seq<Seq<i64>>,
    failed: int,
    slot: int,
    upto: int,
    a: int,
    b: int,
    c: int,
)
    requires
        forall|x: int|
            0 <= x < upto ==> (lost_shards(grid, failed).contains((#[trigger] grid[x])[slot]) <==> (x
                == a || x == b || x == c)),
    ensures
        row_hits(grid, failed, slot, upto) == among(upto, a, b, c, failed),
    decreases upto,
{
    if upto > 0 {
        lemma_row_hits_among(grid, failed, slot, upto - 1, a, b, c);
        let x = upto - 1;
        assert(lost_shards(grid, failed).contains(grid[x][slot]) <==> (x == a || x == b || x == c));
    }
}

/// The failed node's shards of the group of `slot`.
pub open spec fn group_shard(grid: Seq<Seq<i64>>, failed: int, slot: int, position: int) -> i64 {
    grid[failed][3 * (slot / 3) + position]
}

/// In a placed matrix, a slot is hit on as many surviving nodes as the failed
/// node stores different shards in the slot's group, less one.
proof fn lemma_row_hits(m: Matrix, failed: int, slot: int)
    requires
        m.is_placed(),
        0 <= failed < m.cols,
        0 <= slot < m.rows,
    ensures
        row_hits(m.grid(), failed, slot, m.cols as int) + 1 == different(
            group_shard(m.grid(), failed, slot, 0) as int,
            group_shard(m.grid(), failed, slot, 1) as int,
            group_shard(m.grid(), failed, slot, 2) as int,
        ),
{
    let grid = m.grid();
    let l = m.layout();
    let n = m.cols as int;
    let g = slot / 3;
    let lost = lost_shards(grid, failed);
    lemma_slots_whole_groups(l);
    assert(3 * g + 2 < m.rows);
    let s0 = 3 * g;
    let s1 = 3 * g + 1;
    let s2 = 3 * g + 2;
    let a0 = grid[failed][s0];
    let a1 = grid[failed][s1];
    let a2 = grid[failed][s2];
    assert(m.data@[failed]@[s0] == l.value(failed, s0));
    assert(m.data@[failed]@[s1] == l.value(failed, s1));
    assert(m.data@[failed]@[s2] == l.value(failed, s2));
    lemma_value_bounds(l, failed, s0);
    lemma_value_bounds(l, failed, s1);
    lemma_value_bounds(l, failed, s2);
    assert(row_floor(l, s0) == row_floor(l, slot));
    assert(row_floor(l, s1) == row_floor(l, slot));
    assert(row_floor(l, s2) == row_floor(l, slot));
    // the nodes that store the three shards in this slot
    let c0 = lemma_row_surjective(l, slot, a0 as int);
    let c1 = lemma_row_surjective(l, slot, a1 as int);
    let c2 = lemma_row_surjective(l, slot, a2 as int);
    assert(m.data@[c0]@[slot] == l.value(c0, slot));
    assert(m.data@[c1]@[slot] == l.value(c1, slot));
    assert(m.data@[c2]@[slot] == l.value(c2, slot));
    assert forall|x: int| 0 <= x < n implies (lost.contains((#[trigger] grid[x])[slot]) <==> (x == c0
        || x == c1 || x == c2)) by {
        assert(m.data@[x]@[slot] == l.value(x, slot));
        let v = grid[x][slot];
        if lost.contains(v) {
            let r = choose|r: int| 0 <= r < grid[failed].len() && grid[failed][r] == v;
            assert(m.data@[failed]@[r] == l.value(failed, r));
            lemma_value_tells_group(l, failed, r, x, slot);
            assert(r == s0 || r == s1 || r == s2);
            if r == s0 {
                lemma_row_injective(l, slot, x, c0);
            } else if r == s1 {
                lemma_row_injective(l, slot, x, c1);
            } else {
                lemma_row_injective(l, slot, x, c2);
            }
        }
        if x == c0 {
            assert(grid[failed][s0] == v);
            assert(grid[failed].contains(v));
        }
        if x == c1 {
            assert(grid[failed][s1] == v);
            assert(grid[failed].contains(v));
        }
        if x == c2 {
            assert(grid[failed][s2] == v);
            assert(grid[failed].contains(v));
        }
    }
    lemma_row_hits_among(grid, failed, slot, n, c0, c1, c2);
    lemma_among(n, c0, c1, c2, failed);
    // the failed node is one of the three
    assert(m.data@[failed]@[slot] == l.value(failed, slot));
    assert(slot == s0 || slot == s1 || slot == s2);
    if slot == s0 {
        lemma_row_injective(l, slot, failed, c0);
    } else if slot == s1 {
        lemma_row_injective(l, slot, failed, c1);
    } else {
        lemma_row_injective(l, slot, failed, c2);
    }
    assert(failed == c0 || failed == c1 || failed == c2);
    // two of the nodes coincide exactly when their shards do
    if a0 == a1 {
        lemma_row_injective(l, slot, c0, c1);
    }
    if a0 == a2 {
        lemma_row_injective(l, slot, c0, c2);
    }
    if a1 == a2 {
        lemma_row_injective(l, slot, c1, c2);
    }
}

/// In a placed matrix, a group adds to the lost shards as many as the failed
/// node stores different shards in it.
proof fn lemma_group_adds(m: Matrix, failed: int, group: int)
    requires
        m.is_placed(),
        0 <= failed < m.cols,
        0 <= group,
        3 * group + 3 <= m.rows,
    ensures
        distinct_prefix(m.grid()[failed], 3 * group + 3).len() == distinct_prefix(
            m.grid()[failed],
            3 * group,
        ).len() + different(
            group_shard(m.grid(), failed, 3 * group, 0) as int,
            group_shard(m.grid(), failed, 3 * group, 1) as int,
            group_shard(m.grid(), failed, 3 * group, 2) as int,
        ),
{
    let grid = m.grid();
    let l = m.layout();
    let column = grid[failed];
    let s0 = 3 * group;
    let s1 = 3 * group + 1;
    let s2 = 3 * group + 2;
    let a0 = column[s0];
    let a1 = column[s1];
    let a2 = column[s2];
    assert(m.data@[failed]@[s0] == l.value(failed, s0));
    assert(m.data@[failed]@[s1] == l.value(failed, s1));
    assert(m.data@[failed]@[s2] == l.value(failed, s2));
    assert forall|i: int, s: int|
        0 <= i < s0 && (s == s0 || s == s1 || s == s2) implies #[trigger] column[i]
        != #[trigger] column[s] by {
        assert(m.data@[failed]@[i] == l.value(failed, i));
        if column[i] == column[s] {
            lemma_value_tells_group(l, failed, i, failed, s);
        }
    }
    let d0 = distinct_prefix(column, s0);
    let d1 = distinct_prefix(column, s1);
    let d2 = distinct_prefix(column, s2);
    let d3 = distinct_prefix(column, s2 + 1);
    lemma_distinct_prefix_contains(column, s0, a0);
    lemma_distinct_prefix_contains(column, s1, a1);
    lemma_distinct_prefix_contains(column, s2, a2);
    assert(!d0.contains(a0)) by {
        if d0.contains(a0) {
            let i = choose|i: int| 0 <= i < s0 && column[i] == a0;
            assert(column[i] != column[s0]);
        }
    }
    assert(d1 == d0.push(a0));
    assert(d1.contains(a1) <==> a1 == a0) by {
        if d1.contains(a1) {
            let i = choose|i: int| 0 <= i < s1 && column[i] == a1;
            if i < s0 {
                assert(column[i] != column[s1]);
            }
        }
        if a1 == a0 {
            assert(0 <= s0 < s1 && column[s0] == a1);
        }
    }
    assert(d2.contains(a2) <==> (a2 == a0 || a2 == a1)) by {
        if d2.contains(a2) {
            let i = choose|i: int| 0 <= i < s2 && column[i] == a2;
            if i < s0 {
                assert(column[i] != column[s2]);
            }
        }
        if a2 == a0 {
            assert(0 <= s0 < s2 && column[s0] == a2);
        }
        if a2 == a1 {
            assert(0 <= s1 < s2 && column[s1] == a2);
        }
    }
    assert(d2.len() == d1.len() + if a1 != a0 {
        1nat
    } else {
        0nat
    });
    assert(d3.len() == d2.len() + if a2 != a0 && a2 != a1 {
        1nat
    } else {
        0nat
    });
}

/// The hits within the first groups of a placed matrix: three per lost shard
/// of those groups, less the slots of the failed node.
proof fn lemma_hits_of_groups(m: Matrix, failed: int, groups: int)
    requires
        m.is_placed(),
        0 <= failed < m.cols,
        0 <= groups,
        3 * groups <= m.rows,
    ensures
        hits_within(m.grid(), failed, m.cols as int, 3 * groups) + 3 * groups == 3
            * distinct_prefix(m.grid()[failed], 3 * groups).len(),
    decreases groups,
{
    let grid = m.grid();
    let n = m.cols as int;
    if groups == 0 {
        lemma_hits_within_none(grid, failed, n);
    } else {
        let g = groups - 1;
        lemma_hits_of_groups(m, failed, g);
        lemma_hits_by_row(grid, failed, n, 3 * g + 1);
        lemma_hits_by_row(grid, failed, n, 3 * g + 2);
        lemma_hits_by_row(grid, failed, n, 3 * g + 3);
        lemma_row_hits(m, failed, 3 * g);
        lemma_row_hits(m, failed, 3 * g + 1);
        lemma_row_hits(m, failed, 3 * g + 2);
        assert((3 * g) / 3 == g && (3 * g + 1) / 3 == g && (3 * g + 2) / 3 == g);
        lemma_group_adds(m, failed, g);
    }
}

/// The distinct values of a sequence are as many as the set of its values has
/// elements.
pub proof fn lemma_distinct_counts_the_set(s: Seq<i64>)
    ensures
        distinct(s).no_duplicates(),
        distinct(s).to_set() == s.to_set(),
        s.to_set().finite(),
        distinct(s).len() == s.to_set().len(),
{
    lemma_distinct_prefix_no_duplicates(s, s.len() as int);
    assert forall|v: i64| distinct(s).to_set().contains(v) <==> s.to_set().contains(v) by {
        lemma_distinct_prefix_contains(s, s.len() as int, v);
        if s.contains(v) {
            let i = choose|i: int| 0 <= i < s.len() && s[i] == v;
            assert(0 <= i < s.len() && s[i] == v);
        }
    }
    assert(distinct(s).to_set() =~= s.to_set());
    distinct(s).unique_seq_to_set();
    vstd::seq_lib::seq_to_set_is_finite(s);
}

/// No value occurs twice among the distinct values of a prefix.
proof fn lemma_distinct_prefix_no_duplicates(s: Seq<i64>, upto: int)
    requires
        0 <= upto <= s.len(),
    ensures
        distinct_prefix(s, upto).no_duplicates(),
    decreases upto,
{
    if upto > 0 {
        lemma_distinct_prefix_no_duplicates(s, upto - 1);
    }
}

/// Hit-count conservation: in the failure of any node of a placed matrix, the
/// hits on all nodes add up to three per lost shard, less the slots of the
/// failed node. They are two per lost shard exactly when the failed node
/// stored no shard twice.
pub proof fn lemma_hit_conservation(m: Matrix, failed: int)
    requires
        m.is_placed(),
        0 <= failed < m.cols,
    ensures
        lost_shards(m.grid(), failed).finite(),
        total_hits(m.grid(), failed, m.cols as int) + m.rows == 3 * lost_shards(
            m.grid(),
            failed,
        ).len(),
        lost_shards(m.grid(), failed).len() == distinct(m.grid()[failed]).len(),
        total_hits(m.grid(), failed, m.cols as int) == 2 * lost_shards(m.grid(), failed).len()
            <==> lost_shards(m.grid(), failed).len() == m.rows,
{
    let grid = m.grid();
    let l = m.layout();
    lemma_slots_whole_groups(l);
    let groups = m.rows as int / 3;
    assert(3 * groups == m.rows);
    lemma_hits_of_groups(m, failed, groups);
    lemma_hits_within_all(grid, failed, m.cols as int, m.rows as int);
    lemma_distinct_counts_the_set(grid[failed]);
}

/// With a safe shift table the failed node stored no shard twice, so every
/// lost shard is hit on exactly two surviving nodes.
pub proof fn lemma_hit_conservation_safe(m: Matrix, failed: int)
    requires
        m.is_placed(),
        shift_is_safe(m.third_shift@, m.cols as int),
        0 <= failed < m.cols,
    ensures
        lost_shards(m.grid(), failed).len() == m.rows,
        total_hits(m.grid(), failed, m.cols as int) == 2 * lost_shards(m.grid(), failed).len(),
{
    let grid = m.grid();
    let l = m.layout();
    let column = grid[failed];
    lemma_hit_conservation(m, failed);
    assert forall|i: int, j: int| 0 <= i < j < column.len() implies column[i] != column[j] by {
        assert(m.data@[failed]@[i] == l.value(failed, i));
        assert(m.data@[failed]@[j] == l.value(failed, j));
        if column[i] == column[j] {
            lemma_value_tells_group(l, failed, i, failed, j);
            lemma_group_values_differ(l, failed, i, j);
        }
    }
    assert(column.no_duplicates());
    column.unique_seq_to_set();
}

} // verus!
