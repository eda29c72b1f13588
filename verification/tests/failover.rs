use shard_placement::{
    distribute, mark_cells, plan, simulate, CellMark, ConfigError, DistributionVariant,
    FailoverReport, Matrix,
};

fn handmade(data: Vec<Vec<i64>>) -> Matrix {
    Matrix {
        start_from: 0,
        rows: data[0].len(),
        cols: data.len(),
        replication: 3,
        rank_cycle: 1,
        third_shift: vec![1],
        variant: DistributionVariant::Ascending,
        data,
    }
}

fn promoted_shards(report: &FailoverReport) -> Vec<i64> {
    report.promotions.iter().map(|p| p.0).collect()
}

#[test]
fn four_nodes_failure_of_node_zero() {
    let m = distribute(9, 4, 0, true).unwrap();
    let report = simulate(&m, 0);
    assert_eq!(report.failed_node, 0);
    assert!(report.lost_shard_ids.contains(&0));
    let of_zero: Vec<(i64, usize)> =
        report.promotions.iter().cloned().filter(|p| p.0 == 0).collect();
    assert_eq!(of_zero, vec![(0, 3)]);
    assert_eq!(m.data[3][1], 0);
}

#[test]
fn four_nodes_full_report() {
    let m = distribute(9, 4, 0, true).unwrap();
    let report = simulate(&m, 0);
    assert_eq!(report.lost_shard_ids, vec![0, 1, 2, 4, 6, 8, 11, 10]);
    assert_eq!(report.promotions, vec![(8, 1), (4, 2), (0, 3)]);
    assert_eq!(report.per_node_hit_count, vec![0, 4, 7, 4]);
    assert_eq!(report.per_node_leader_promotion_count, vec![0, 1, 1, 1]);
}

#[test]
fn seven_nodes_polar_report() {
    let m = distribute(18, 7, 0, false).unwrap();
    let report = simulate(&m, 2);
    assert_eq!(
        report.lost_shard_ids,
        vec![2, 3, 4, 9, 11, 13, 16, 19, 15, 26, 27, 21, 33, 28, 30, 40, 36, 39]
    );
    assert_eq!(
        report.promotions,
        vec![(9, 0), (2, 1), (26, 3), (33, 4), (40, 5), (16, 6)]
    );
    assert_eq!(report.per_node_hit_count, vec![6, 6, 0, 6, 6, 6, 6]);
    assert_eq!(report.per_node_leader_promotion_count, vec![1, 1, 0, 1, 1, 1, 1]);
}

#[test]
fn first_candidate_wins() {
    // nodes 1 and 2 both store, as first follower, the shard that node 0 led
    let m = handmade(vec![vec![5, 6, 7], vec![8, 5, 9], vec![10, 5, 11]]);
    let report = simulate(&m, 0);
    assert_eq!(report.promotions, vec![(5, 1)]);
    assert_eq!(report.per_node_leader_promotion_count, vec![0, 1, 0]);
    assert_eq!(report.per_node_hit_count, vec![0, 1, 1]);
}

#[test]
fn second_follower_is_not_promoted() {
    let m = handmade(vec![vec![5, 6, 7], vec![8, 9, 5], vec![10, 11, 12]]);
    let report = simulate(&m, 0);
    assert_eq!(report.promotions, Vec::<(i64, usize)>::new());
    assert_eq!(report.per_node_hit_count, vec![0, 1, 0]);
}

#[test]
fn shard_zero_is_promoted_once() {
    // a shard numbered zero must not be promoted by a later candidate
    let m = handmade(vec![vec![0, 1, 2], vec![3, 0, 4], vec![5, 0, 6], vec![7, 0, 8]]);
    let report = simulate(&m, 0);
    assert_eq!(report.promotions, vec![(0, 1)]);
}

#[test]
fn lost_shards_are_listed_once() {
    let m = handmade(vec![vec![4, 4, 9, 4, 9, 1], vec![0, 0, 0, 0, 0, 0]]);
    let report = simulate(&m, 0);
    assert_eq!(report.lost_shard_ids, vec![4, 9, 1]);
    assert_eq!(report.per_node_hit_count, vec![0, 0]);
}

#[test]
fn failed_node_counts_no_hit() {
    let m = distribute(51, 18, 0, false).unwrap();
    for failed in 0..18 {
        let report = simulate(&m, failed);
        assert_eq!(report.per_node_hit_count[failed], 0);
        assert_eq!(report.per_node_leader_promotion_count[failed], 0);
    }
}

#[test]
fn eighteen_nodes_report() {
    let m = distribute(51, 18, 0, false).unwrap();
    let report = simulate(&m, 5);
    assert_eq!(report.lost_shard_ids.len(), 51);
    assert_eq!(
        report.per_node_hit_count,
        vec![6, 6, 6, 6, 7, 0, 7, 6, 6, 6, 6, 6, 6, 5, 6, 5, 6, 6]
    );
    assert_eq!(
        report.promotions,
        vec![
            (77, 0),
            (59, 1),
            (41, 2),
            (23, 3),
            (5, 4),
            (293, 6),
            (275, 7),
            (257, 8),
            (239, 9),
            (221, 10),
            (203, 11),
            (185, 12),
            (167, 13),
            (149, 14),
            (131, 15),
            (113, 16),
            (95, 17),
        ]
    );
}

#[test]
fn no_shard_is_promoted_twice() {
    for (slots, nodes) in [(9usize, 4usize), (18, 7), (51, 18), (123, 42), (15, 11)] {
        let m = distribute(slots, nodes, 0, false).unwrap();
        for failed in 0..nodes {
            let mut shards = promoted_shards(&simulate(&m, failed));
            let before = shards.len();
            shards.sort();
            shards.dedup();
            assert_eq!(shards.len(), before);
        }
    }
}

#[test]
fn hits_are_two_per_lost_shard_without_collisions() {
    for (slots, nodes) in [(18usize, 7usize), (51, 18), (123, 42), (15, 11)] {
        let m = distribute(slots, nodes, 0, false).unwrap();
        for failed in 0..nodes {
            let report = simulate(&m, failed);
            let total: usize = report.per_node_hit_count.iter().sum();
            assert_eq!(report.lost_shard_ids.len(), slots);
            assert_eq!(total, 2 * report.lost_shard_ids.len());
        }
    }
}

#[test]
fn hits_are_three_per_lost_shard_less_the_failed_slots() {
    let m = distribute(9, 4, 0, false).unwrap();
    for failed in 0..4 {
        let report = simulate(&m, failed);
        let total: usize = report.per_node_hit_count.iter().sum();
        assert_eq!(report.lost_shard_ids.len(), 8);
        assert_eq!(total + 9, 3 * report.lost_shard_ids.len());
    }
}

#[test]
fn simulation_is_deterministic() {
    let m = distribute(51, 18, 0, false).unwrap();
    let a = simulate(&m, 3);
    let b = simulate(&m, 3);
    assert_eq!(a.lost_shard_ids, b.lost_shard_ids);
    assert_eq!(a.promotions, b.promotions);
    assert_eq!(a.per_node_hit_count, b.per_node_hit_count);
    assert_eq!(a.per_node_leader_promotion_count, b.per_node_leader_promotion_count);
}

#[test]
fn cells_are_marked() {
    let m = distribute(3, 3, 10, false).unwrap();
    let marks = mark_cells(&m, 1);
    assert_eq!(
        marks,
        vec![
            vec![CellMark::Affected, CellMark::Promoted, CellMark::Affected],
            vec![CellMark::Affected, CellMark::Affected, CellMark::Affected],
            vec![CellMark::Affected, CellMark::Affected, CellMark::Affected],
        ]
    );
}

#[test]
fn cells_of_other_groups_are_unaffected() {
    let m = handmade(vec![vec![5, 6, 7], vec![8, 5, 9], vec![10, 5, 11]]);
    let marks = mark_cells(&m, 0);
    assert_eq!(
        marks,
        vec![
            vec![CellMark::Affected, CellMark::Affected, CellMark::Affected],
            vec![CellMark::Unaffected, CellMark::Promoted, CellMark::Unaffected],
            vec![CellMark::Unaffected, CellMark::Affected, CellMark::Unaffected],
        ]
    );
}

#[test]
fn plan_places_and_simulates() {
    let planned = plan(9, 4, 0, false, Some(0)).unwrap();
    assert_eq!(planned.matrix.data[0], vec![0, 1, 2, 4, 6, 4, 8, 11, 10]);
    let report = planned.report.unwrap();
    assert_eq!(report.promotions, vec![(8, 1), (4, 2), (0, 3)]);
    let unfailed = plan(9, 4, 0, false, None).unwrap();
    assert!(unfailed.report.is_none());
    assert_eq!(unfailed.matrix.data, planned.matrix.data);
}

#[test]
fn plan_refuses_bad_requests() {
    assert_eq!(plan(0, 4, 0, false, None).err(), Some(ConfigError::NoSlots));
    assert_eq!(plan(9, 1, 0, false, None).err(), Some(ConfigError::NodeCount));
    assert_eq!(plan(9, 4, 0, false, Some(4)).err(), Some(ConfigError::FailedNode));
    assert_eq!(plan(usize::MAX, 3, 0, false, None).err(), Some(ConfigError::CellCount));
    assert_eq!(plan(12, 5, 0, true, None).err(), Some(ConfigError::UnsupportedRankCycle));
    assert_eq!(plan(10, 4, 0, false, Some(1)).err(), Some(ConfigError::SlotCount));
}
