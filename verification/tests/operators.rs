use daft_plan::aggregate::local_aggregate;
use daft_plan::error::PlanError;
use daft_plan::expr::{AggExpr, Expr};
use daft_plan::fanout::{fanout_by_hash, fanout_partition_random, fanout_random, reduce_merge};
use daft_plan::hashing::{hash_row_values, HASH_FACTOR, HASH_SEED};
use daft_plan::limit::{global_limit, local_limit};
use daft_plan::partition::Partition;
use daft_plan::shuffle::{coalesce, split};

fn rows_of_len(n: usize, tag: i64) -> Vec<Vec<i64>> {
    let mut rows = Vec::new();
    for i in 0..n {
        rows.push(vec![tag, i as i64]);
    }
    rows
}

fn sizes(parts: &[Partition]) -> Vec<usize> {
    parts.iter().map(|p| p.rows.len()).collect()
}

#[test]
fn local_limit_caps_each_partition_independently() {
    let parts = vec![
        Partition::new(rows_of_len(2, 0)),
        Partition::new(rows_of_len(9, 1)),
        Partition::new(rows_of_len(4, 2)),
    ];
    let out = local_limit(&parts, 4);
    assert_eq!(sizes(&out), vec![2, 4, 4]);
    // Caps keep the leading rows.
    assert_eq!(out[1].rows[0], vec![1, 0]);
    assert_eq!(out[1].rows[3], vec![1, 3]);
}

#[test]
fn global_limit_stops_pulling_once_the_budget_is_filled() {
    let parts = vec![
        Partition::new(rows_of_len(5, 0)),
        Partition::new(rows_of_len(10, 1)),
        Partition::new(rows_of_len(10, 2)),
    ];
    let (out, pulled) = global_limit(&parts, 5);
    assert_eq!(pulled, 1);
    assert_eq!(sizes(&out), vec![5]);

    let (out, pulled) = global_limit(&parts, 7);
    assert_eq!(pulled, 2);
    assert_eq!(sizes(&out), vec![5, 2]);

    let (out, pulled) = global_limit(&parts, 0);
    assert_eq!(pulled, 0);
    assert!(out.is_empty());

    let (out, pulled) = global_limit(&parts, 100);
    assert_eq!(pulled, 3);
    let total: usize = out.iter().map(|p| p.rows.len()).sum();
    assert_eq!(total, 25);
}

#[test]
fn limit_total_is_the_smaller_of_budget_and_upstream() {
    let parts = vec![
        Partition::new(rows_of_len(10, 0)),
        Partition::new(rows_of_len(10, 1)),
    ];
    for budget in [0usize, 1, 5, 19, 20, 21, 50] {
        let capped = local_limit(&parts, budget);
        let (out, _) = global_limit(&capped, budget);
        let total: usize = out.iter().map(|p| p.rows.len()).sum();
        assert_eq!(total, budget.min(20));
    }
}

#[test]
fn split_redistributes_contiguous_balanced_ranges() {
    let parts = vec![
        Partition::new(vec![vec![1], vec![2], vec![3]]),
        Partition::new(vec![vec![4], vec![5]]),
    ];
    let out = split(&parts, 3);
    // Five rows over three chunks: sizes 2, 2, 1, original order kept.
    assert_eq!(sizes(&out), vec![2, 2, 1]);
    assert_eq!(out[0].rows, vec![vec![1], vec![2]]);
    assert_eq!(out[1].rows, vec![vec![3], vec![4]]);
    assert_eq!(out[2].rows, vec![vec![5]]);
}

#[test]
fn split_can_widen_with_empty_chunks() {
    let parts = vec![Partition::new(vec![vec![1], vec![2]])];
    let out = split(&parts, 4);
    assert_eq!(sizes(&out), vec![1, 1, 0, 0]);
}

#[test]
fn coalesce_concatenates_contiguous_groups() {
    let parts = vec![
        Partition::new(vec![vec![1]]),
        Partition::new(vec![vec![2]]),
        Partition::new(vec![vec![3]]),
    ];
    let out = coalesce(&parts, 2);
    // Three partitions over two groups: group sizes 2, 1.
    assert_eq!(sizes(&out), vec![2, 1]);
    assert_eq!(out[0].rows, vec![vec![1], vec![2]]);
    assert_eq!(out[1].rows, vec![vec![3]]);
}

#[test]
fn coalesce_widening_yields_trailing_empty_partitions() {
    let parts = vec![Partition::new(vec![vec![1]])];
    let out = coalesce(&parts, 3);
    assert_eq!(sizes(&out), vec![1, 0, 0]);
}

#[test]
fn fanout_random_deals_rows_round_robin() {
    let p = Partition::new(vec![vec![10], vec![11], vec![12], vec![13], vec![14]]);
    let out = fanout_partition_random(&p, 2);
    assert_eq!(sizes(&out), vec![3, 2]);
    assert_eq!(out[0].rows, vec![vec![10], vec![12], vec![14]]);
    assert_eq!(out[1].rows, vec![vec![11], vec![13]]);
}

#[test]
fn fanout_random_over_many_partitions_conserves_rows() {
    let parts = vec![
        Partition::new(rows_of_len(4, 0)),
        Partition::new(rows_of_len(7, 1)),
    ];
    let out = fanout_random(&parts, 3);
    assert_eq!(out.len(), 6);
    let total: usize = out.iter().map(|p| p.rows.len()).sum();
    assert_eq!(total, 11);
}

#[test]
fn hash_of_one_value_matches_the_polynomial_formula() {
    let vals = vec![5i64];
    let expected = HASH_SEED
        .wrapping_mul(HASH_FACTOR)
        .wrapping_add(5u64.wrapping_add(0x8000_0000_0000_0000));
    assert_eq!(hash_row_values(&vals), expected);

    let vals = vec![-3i64, 4i64];
    let step1 = HASH_SEED
        .wrapping_mul(HASH_FACTOR)
        .wrapping_add((-3i64 as u64).wrapping_add(0x8000_0000_0000_0000));
    let expected = step1
        .wrapping_mul(HASH_FACTOR)
        .wrapping_add(4u64.wrapping_add(0x8000_0000_0000_0000));
    assert_eq!(hash_row_values(&vals), expected);
}

#[test]
fn equal_keys_land_in_the_same_bucket_wherever_they_come_from() {
    let parts = vec![
        Partition::new(vec![vec![42, 1], vec![7, 2]]),
        Partition::new(vec![vec![42, 3]]),
    ];
    let out = fanout_by_hash(&parts, 5, &vec![Expr::Column(0)]).unwrap();
    // Buckets come out per input partition: five for the first, five for
    // the second.
    assert_eq!(out.len(), 10);
    let first: Vec<usize> = (0..5).filter(|b| !out[*b].rows.is_empty()).collect();
    let expected_bucket = hash_row_values(&vec![42]) % 5;
    for b in 5..10 {
        if !out[b].rows.is_empty() {
            assert_eq!(b - 5, expected_bucket as usize);
        }
    }
    assert!(first.contains(&(expected_bucket as usize)));
}

#[test]
fn reduce_merge_concatenates_per_bucket_across_groups() {
    // Two groups of width two, laid out group-major.
    let parts = vec![
        Partition::new(vec![vec![1]]),
        Partition::new(vec![vec![2]]),
        Partition::new(vec![vec![3]]),
        Partition::new(vec![vec![4]]),
    ];
    let out = reduce_merge(&parts, 2).unwrap();
    assert_eq!(out.len(), 2);
    assert_eq!(out[0].rows, vec![vec![1], vec![3]]);
    assert_eq!(out[1].rows, vec![vec![2], vec![4]]);
}

#[test]
fn reduce_merge_rejects_a_misshapen_input() {
    let parts = vec![
        Partition::new(vec![vec![1]]),
        Partition::new(vec![vec![2]]),
        Partition::new(vec![vec![3]]),
    ];
    assert!(matches!(
        reduce_merge(&parts, 2),
        Err(PlanError::Unsupported)
    ));
    assert!(matches!(
        reduce_merge(&parts, 0),
        Err(PlanError::Unsupported)
    ));
}

#[test]
fn local_aggregate_groups_in_first_occurrence_order() {
    let p = Partition::new(vec![
        vec![3, 10, 1],
        vec![5, 20, 2],
        vec![3, 30, 3],
        vec![5, 1, 4],
        vec![3, 1, 5],
    ]);
    let out = local_aggregate(
        &p,
        &vec![Expr::Column(0)],
        &vec![AggExpr::Sum(Box::new(Expr::Column(1)))],
    )
    .unwrap();
    assert_eq!(out.rows, vec![vec![3, 41], vec![5, 21]]);
}

#[test]
fn local_aggregate_sums_wrap_on_overflow() {
    let p = Partition::new(vec![vec![1, i64::MAX], vec![1, 1]]);
    let out = local_aggregate(
        &p,
        &vec![Expr::Column(0)],
        &vec![AggExpr::Sum(Box::new(Expr::Column(1)))],
    )
    .unwrap();
    assert_eq!(out.rows, vec![vec![1, i64::MAX.wrapping_add(1)]]);
}

#[test]
fn local_aggregate_rejects_bad_operands() {
    let p = Partition::new(vec![vec![1, 2]]);
    let missing = local_aggregate(
        &p,
        &vec![Expr::Column(0)],
        &vec![AggExpr::Sum(Box::new(Expr::Column(9)))],
    );
    assert!(matches!(missing, Err(PlanError::TypeError)));
    let nested = local_aggregate(
        &p,
        &vec![Expr::Column(0)],
        &vec![AggExpr::Sum(Box::new(daft_plan::expr::abs(Expr::Column(1))))],
    );
    assert!(matches!(nested, Err(PlanError::Unsupported)));
}
