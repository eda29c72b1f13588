use shard_placement::{
    distribute, failover_delta_sweep, per_column_distinct_count, spread, DistributionVariant,
    Matrix,
};

#[test]
fn distinct_shards_per_node() {
    let m = distribute(9, 4, 0, false).unwrap();
    assert_eq!(per_column_distinct_count(&m), vec![8, 8, 8, 8]);
    let n = distribute(51, 18, 0, false).unwrap();
    assert_eq!(per_column_distinct_count(&n), vec![51; 18]);
}

#[test]
fn distinct_shards_of_a_handmade_matrix() {
    let m = Matrix {
        start_from: 0,
        rows: 3,
        cols: 2,
        replication: 3,
        rank_cycle: 1,
        third_shift: vec![1],
        variant: DistributionVariant::Ascending,
        data: vec![vec![7, 7, 7], vec![1, 2, 1]],
    };
    assert_eq!(per_column_distinct_count(&m), vec![1, 2]);
}

#[test]
fn spread_leaves_the_failed_node_out() {
    assert_eq!(spread(&vec![0, 12, 6, 0, 0, 6, 12], 0), (0, 12));
    assert_eq!(spread(&vec![0, 6, 6, 6], 0), (6, 6));
    assert_eq!(spread(&vec![9, 0, 3], 1), (3, 9));
    assert_eq!(spread(&vec![5, 0], 1), (5, 5));
}

#[test]
fn sweep_over_seven_nodes() {
    let entries = failover_delta_sweep(18, 7, 0);
    assert_eq!(entries.len(), 2);
    assert_eq!(entries[0].rank_cycle, 1);
    assert_eq!(entries[0].per_node_hit_counts, vec![0, 12, 6, 0, 0, 6, 12]);
    assert_eq!(entries[0].min, 0);
    assert_eq!(entries[0].max, 12);
    assert_eq!(entries[0].delta, 12);
    assert_eq!(entries[1].rank_cycle, 3);
    assert_eq!(entries[1].per_node_hit_counts, vec![0, 6, 6, 6, 6, 6, 6]);
    assert_eq!(entries[1].min, 6);
    assert_eq!(entries[1].max, 6);
    assert_eq!(entries[1].delta, 0);
}

#[test]
fn sweep_uses_the_registered_table() {
    let entries = failover_delta_sweep(51, 18, 5);
    let cycles: Vec<usize> = entries.iter().map(|e| e.rank_cycle).collect();
    assert_eq!(cycles, vec![1, 17]);
    assert_eq!(
        entries[1].per_node_hit_counts,
        vec![6, 6, 6, 6, 7, 0, 7, 6, 6, 6, 6, 6, 6, 5, 6, 5, 6, 6]
    );
    assert_eq!((entries[1].min, entries[1].max, entries[1].delta), (5, 7, 2));
}

#[test]
fn sweep_of_a_single_node_is_empty() {
    assert_eq!(failover_delta_sweep(9, 1, 0).len(), 0);
}

#[test]
fn sweep_skips_cycles_that_do_not_divide_the_slots() {
    let entries = failover_delta_sweep(9, 7, 1);
    let cycles: Vec<usize> = entries.iter().map(|e| e.rank_cycle).collect();
    assert_eq!(cycles, vec![1, 3]);
    let none = failover_delta_sweep(10, 7, 1);
    assert_eq!(none.len(), 0);
}
