use shard_placement::{
    build, build_third_shift, check_request, distribute, rank_cycle, registered_table, resolve, ConfigError,
    DistributionVariant, Matrix,
};

fn row(m: &Matrix, slot: usize) -> Vec<i64> {
    (0..m.cols).map(|c| m.data[c][slot]).collect()
}

fn collisions(m: &Matrix) -> usize {
    let mut found = 0;
    for c in 0..m.cols {
        for g in 0..m.rows / 3 {
            let a = m.data[c][3 * g];
            let b = m.data[c][3 * g + 1];
            let d = m.data[c][3 * g + 2];
            if a == b || a == d || b == d {
                found += 1;
            }
        }
    }
    found
}

fn rows_are_permutations(m: &Matrix) -> bool {
    for r in 0..m.rows {
        let floor = ((r / 3) * m.cols) as i64 + m.start_from as i64;
        let mut values = row(m, r);
        values.sort();
        let expected: Vec<i64> = (0..m.cols as i64).map(|i| floor + i).collect();
        if values != expected {
            return false;
        }
    }
    true
}

#[test]
fn rank_cycle_is_halved_only_without_balancing() {
    assert_eq!(rank_cycle(7, false), 3);
    assert_eq!(rank_cycle(7, true), 6);
    assert_eq!(rank_cycle(4, false), 3);
    assert_eq!(rank_cycle(4, true), 3);
    assert_eq!(rank_cycle(18, false), 17);
    assert_eq!(rank_cycle(2, false), 1);
    assert_eq!(rank_cycle(3, false), 1);
}

#[test]
fn odd_cycle_gets_the_natural_table() {
    assert_eq!(build_third_shift(3, 4), Ok(vec![1, 2, 3]));
    assert_eq!(build_third_shift(1, 3), Ok(vec![1]));
    assert_eq!(build_third_shift(5, 11), Ok(vec![1, 2, 3, 4, 5]));
}

#[test]
fn even_cycle_without_table_is_unsupported() {
    assert_eq!(build_third_shift(4, 5), Err(ConfigError::UnsupportedRankCycle));
    assert_eq!(build_third_shift(0, 1), Err(ConfigError::UnsupportedRankCycle));
    assert_eq!(build_third_shift(16, 18), Err(ConfigError::UnsupportedRankCycle));
}

#[test]
fn registered_table_for_eighteen_nodes() {
    let expected: Vec<usize> = vec![1, 2, 3, 4, 5, 6, 7, 9, 10, 11, 12, 13, 14, 15, 16, 17, 2];
    assert_eq!(build_third_shift(17, 18), Ok(expected.clone()));
    assert_eq!(registered_table(17, 18), Some(expected));
}

#[test]
fn registered_table_for_forty_two_nodes() {
    let expected: Vec<usize> = vec![
        1, 2, 3, 4, 5, 6, 7, 8, 9, 10, 11, 12, 13, 14, 15, 16, 17, 18, 19, 21, 22, 23, 24, 25,
        26, 27, 28, 29, 30, 31, 32, 33, 34, 35, 36, 37, 38, 39, 40, 41, 2,
    ];
    assert_eq!(expected.len(), 41);
    assert_eq!(build_third_shift(41, 42), Ok(expected));
}

#[test]
fn registry_knows_no_other_pair() {
    assert_eq!(registered_table(17, 19), None);
    assert_eq!(registered_table(3, 4), None);
    assert_eq!(registered_table(41, 18), None);
}

#[test]
fn resolve_gives_cycle_and_table() {
    assert_eq!(resolve(4, false), Ok((3, vec![1, 2, 3])));
    assert_eq!(resolve(7, false), Ok((3, vec![1, 2, 3])));
    assert_eq!(resolve(7, true), Err(ConfigError::UnsupportedRankCycle));
    assert_eq!(
        resolve(18, true),
        Ok((17, vec![1, 2, 3, 4, 5, 6, 7, 9, 10, 11, 12, 13, 14, 15, 16, 17, 2]))
    );
}

#[test]
fn resolve_rejects_fewer_than_two_nodes() {
    assert_eq!(resolve(1, false), Err(ConfigError::NodeCount));
    assert_eq!(resolve(0, true), Err(ConfigError::NodeCount));
}

#[test]
fn four_nodes_nine_slots_first_row() {
    let m = distribute(9, 4, 0, true).unwrap();
    assert_eq!(m.rank_cycle, 3);
    assert_eq!(m.third_shift, vec![1, 2, 3]);
    assert_eq!(row(&m, 0), vec![0, 1, 2, 3]);
}

#[test]
fn four_nodes_nine_slots_every_cell() {
    let m = distribute(9, 4, 0, false).unwrap();
    assert_eq!(m.rows, 9);
    assert_eq!(m.cols, 4);
    assert_eq!(m.replication, 3);
    assert_eq!(m.variant, DistributionVariant::Ascending);
    assert_eq!(
        m.data,
        vec![
            vec![0, 1, 2, 4, 6, 4, 8, 11, 10],
            vec![1, 2, 3, 5, 7, 5, 9, 8, 11],
            vec![2, 3, 0, 6, 4, 6, 10, 9, 8],
            vec![3, 0, 1, 7, 5, 7, 11, 10, 9],
        ]
    );
}

#[test]
fn origin_shifts_every_shard() {
    let m = distribute(3, 3, 10, false).unwrap();
    assert_eq!(m.data, vec![vec![10, 11, 12], vec![11, 12, 10], vec![12, 10, 11]]);
    let n = distribute(3, 3, -2, false).unwrap();
    assert_eq!(n.data, vec![vec![-2, -1, 0], vec![-1, 0, -2], vec![0, -2, -1]]);
}

#[test]
fn polar_placement_descends_on_odd_repetitions() {
    let m = distribute(18, 7, 0, false).unwrap();
    assert_eq!(m.rank_cycle, 3);
    assert_eq!(m.variant, DistributionVariant::Polar);
    assert_eq!(
        m.data,
        vec![
            vec![0, 1, 2, 7, 9, 11, 14, 17, 20, 21, 22, 23, 28, 30, 32, 35, 38, 41],
            vec![1, 2, 3, 8, 10, 12, 15, 18, 14, 27, 21, 22, 34, 29, 31, 41, 37, 40],
            vec![2, 3, 4, 9, 11, 13, 16, 19, 15, 26, 27, 21, 33, 28, 30, 40, 36, 39],
            vec![3, 4, 5, 10, 12, 7, 17, 20, 16, 25, 26, 27, 32, 34, 29, 39, 35, 38],
            vec![4, 5, 6, 11, 13, 8, 18, 14, 17, 24, 25, 26, 31, 33, 28, 38, 41, 37],
            vec![5, 6, 0, 12, 7, 9, 19, 15, 18, 23, 24, 25, 30, 32, 34, 37, 40, 36],
            vec![6, 0, 1, 13, 8, 10, 20, 16, 19, 22, 23, 24, 29, 31, 33, 36, 39, 35],
        ]
    );
}

#[test]
fn build_with_explicit_table_matches_distribute() {
    let built = build(9, 4, 3, 3, vec![1, 2, 3], 0, DistributionVariant::Ascending).unwrap();
    let planned = distribute(9, 4, 0, false).unwrap();
    assert_eq!(built.data, planned.data);
}

#[test]
fn build_with_another_table() {
    let m = build(3, 5, 3, 1, vec![2], 0, DistributionVariant::Ascending).unwrap();
    assert_eq!(row(&m, 0), vec![0, 1, 2, 3, 4]);
    assert_eq!(row(&m, 1), vec![1, 2, 3, 4, 0]);
    assert_eq!(row(&m, 2), vec![3, 4, 0, 1, 2]);
}

#[test]
fn build_polar_with_full_cycle() {
    let m = build(6, 3, 3, 1, vec![1], 0, DistributionVariant::Polar).unwrap();
    assert_eq!(row(&m, 0), vec![0, 1, 2]);
    assert_eq!(row(&m, 1), vec![1, 2, 0]);
    assert_eq!(row(&m, 2), vec![2, 0, 1]);
    assert_eq!(row(&m, 3), vec![3, 5, 4]);
    assert_eq!(row(&m, 4), vec![4, 3, 5]);
    assert_eq!(row(&m, 5), vec![5, 4, 3]);
}

#[test]
fn blank_matrix_has_the_resolved_shape() {
    let m = Matrix::new(9, 4, 3, 5, false).unwrap();
    assert_eq!(m.start_from, 5);
    assert_eq!(m.rows, 9);
    assert_eq!(m.cols, 4);
    assert_eq!(m.rank_cycle, 3);
    assert_eq!(m.third_shift, vec![1, 2, 3]);
    assert_eq!(m.data, vec![vec![0i64; 9]; 4]);
}

#[test]
fn no_slots_is_an_empty_placement() {
    let m = distribute(0, 4, 0, false).unwrap();
    assert_eq!(m.data, vec![Vec::<i64>::new(); 4]);
}

#[test]
fn too_few_nodes_are_rejected() {
    assert_eq!(distribute(9, 1, 0, false).err(), Some(ConfigError::NodeCount));
    assert_eq!(distribute(9, 0, 0, false).err(), Some(ConfigError::NodeCount));
    assert_eq!(
        build(9, 1, 3, 1, vec![1], 0, DistributionVariant::Ascending).err(),
        Some(ConfigError::NodeCount)
    );
}

#[test]
fn other_replication_factors_are_rejected() {
    assert_eq!(Matrix::new(9, 4, 2, 0, false).err(), Some(ConfigError::ReplicationFactor));
    assert_eq!(
        build(9, 4, 4, 3, vec![1, 2, 3], 0, DistributionVariant::Ascending).err(),
        Some(ConfigError::ReplicationFactor)
    );
}

#[test]
fn rank_cycle_out_of_range_is_rejected() {
    assert_eq!(
        build(9, 4, 3, 0, vec![], 0, DistributionVariant::Ascending).err(),
        Some(ConfigError::RankCycle)
    );
    assert_eq!(
        build(12, 4, 3, 4, vec![1, 2, 3, 4], 0, DistributionVariant::Ascending).err(),
        Some(ConfigError::RankCycle)
    );
}

#[test]
fn shift_table_of_wrong_length_is_rejected() {
    assert_eq!(
        build(9, 4, 3, 3, vec![1, 2], 0, DistributionVariant::Ascending).err(),
        Some(ConfigError::ShiftTable)
    );
}

#[test]
fn slots_must_fill_whole_cycles() {
    assert_eq!(distribute(10, 4, 0, false).err(), Some(ConfigError::SlotCount));
    assert_eq!(distribute(3, 4, 0, false).err(), Some(ConfigError::SlotCount));
    assert_eq!(
        build(6, 4, 3, 3, vec![1, 2, 3], 0, DistributionVariant::Ascending).err(),
        Some(ConfigError::SlotCount)
    );
}

#[test]
fn unknown_even_cycle_is_rejected() {
    assert_eq!(distribute(12, 5, 0, true).err(), Some(ConfigError::UnsupportedRankCycle));
    assert_eq!(distribute(6, 5, 0, false).err(), Some(ConfigError::UnsupportedRankCycle));
}

#[test]
fn every_row_is_a_permutation_of_its_range() {
    assert!(rows_are_permutations(&distribute(9, 4, 0, false).unwrap()));
    assert!(rows_are_permutations(&distribute(18, 7, 100, false).unwrap()));
    assert!(rows_are_permutations(&distribute(51, 18, -7, true).unwrap()));
    assert!(rows_are_permutations(&distribute(123, 42, 0, false).unwrap()));
}

#[test]
fn eighteen_nodes_have_no_collision() {
    let m = distribute(102, 18, 0, false).unwrap();
    assert_eq!(m.rank_cycle, 17);
    assert_eq!(collisions(&m), 0);
}

#[test]
fn forty_two_nodes_have_no_collision() {
    let m = distribute(123, 42, 0, true).unwrap();
    assert_eq!(m.rank_cycle, 41);
    assert_eq!(collisions(&m), 0);
}

#[test]
fn odd_node_counts_have_no_collision() {
    assert_eq!(collisions(&distribute(18, 7, 0, false).unwrap()), 0);
    assert_eq!(collisions(&distribute(15, 11, 0, false).unwrap()), 0);
}

#[test]
fn natural_table_collides_on_four_nodes() {
    let m = distribute(9, 4, 0, false).unwrap();
    assert_eq!(collisions(&m), 4);
}

#[test]
fn placement_is_deterministic() {
    let a = distribute(51, 18, 3, false).unwrap();
    let b = distribute(51, 18, 3, false).unwrap();
    assert_eq!(a.data, b.data);
    assert_eq!(a.third_shift, b.third_shift);
    assert_eq!(a.rank_cycle, b.rank_cycle);
}

#[test]
fn cell_reads_the_grid() {
    let m = distribute(9, 4, 0, false).unwrap();
    assert_eq!(m.cell(2, 4), 4);
    assert_eq!(m.cell(3, 8), 9);
}

#[test]
fn request_is_checked_before_anything_is_built() {
    assert_eq!(check_request(9, 4, None), Ok(()));
    assert_eq!(check_request(9, 4, Some(3)), Ok(()));
    assert_eq!(check_request(0, 4, None), Err(ConfigError::NoSlots));
    assert_eq!(check_request(9, 1, None), Err(ConfigError::NodeCount));
    assert_eq!(check_request(0, 1, Some(7)), Err(ConfigError::NoSlots));
    assert_eq!(check_request(9, 4, Some(4)), Err(ConfigError::FailedNode));
    assert_eq!(check_request(usize::MAX, 2, None), Err(ConfigError::CellCount));
    assert_eq!(check_request(usize::MAX, 2, Some(2)), Err(ConfigError::FailedNode));
}
