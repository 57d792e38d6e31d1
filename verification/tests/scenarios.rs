use daft_plan::engine::run_physical_plan;
use daft_plan::error::PlanError;
use daft_plan::expr::{AggExpr, DataType, Expr, Field, Schema};
use daft_plan::plan::{FileFormat, OutputFileInfo};
use daft_plan::stream::Instruction;
use daft_plan::partition::{Partition, PartitionCache, PartitionIterator};
use daft_plan::plan::PhysicalPlan;
use daft_plan::stream::TaskStream;

fn rows_of_len(n: usize, tag: i64) -> Vec<Vec<i64>> {
    let mut rows = Vec::new();
    for i in 0..n {
        rows.push(vec![tag, i as i64]);
    }
    rows
}

fn cache_with(key: &str, parts: Vec<Partition>) -> PartitionCache {
    let mut cache = PartitionCache::new();
    cache.insert(String::from(key), parts);
    cache
}

#[test]
fn in_memory_scan_yields_cached_partitions_in_order() {
    let parts = vec![
        Partition::new(rows_of_len(5, 0)),
        Partition::new(rows_of_len(7, 1)),
    ];
    let cache = cache_with("k", parts);
    let plan = PhysicalPlan::in_memory_scan(String::from("k"));
    let stream = plan.to_partition_tasks(&cache).unwrap();
    let parts = match stream {
        TaskStream::PartitionRead { parts } => parts,
        other => panic!("expected a partition read, got {:?}", other),
    };
    let mut iter = PartitionIterator::new(parts);
    let first = iter.next().expect("first pull");
    assert_eq!(first.rows.len(), 5);
    let second = iter.next().expect("second pull");
    assert_eq!(second.rows.len(), 7);
    assert!(iter.next().is_none());
}

#[test]
fn in_memory_scan_missing_key_is_key_not_found() {
    let cache = PartitionCache::new();
    let plan = PhysicalPlan::in_memory_scan(String::from("absent"));
    let r = plan.to_partition_tasks(&cache);
    assert!(matches!(r, Err(PlanError::KeyNotFound)));
}

#[test]
fn two_phase_limit_caps_at_five_and_stops_early() {
    let parts = vec![
        Partition::new(rows_of_len(10, 0)),
        Partition::new(rows_of_len(10, 1)),
    ];
    let cache = cache_with("k", parts);
    let scan = PhysicalPlan::in_memory_scan(String::from("k"));
    let plan = PhysicalPlan::limit(scan, 5, 2).unwrap();
    let out = run_physical_plan(plan, &cache).unwrap();
    assert_eq!(out.len(), 1);
    assert_eq!(out[0].rows.len(), 5);
    // The first partition already fills the budget, so every yielded row
    // comes from it.
    for row in &out[0].rows {
        assert_eq!(row[0], 0);
    }
}

#[test]
fn hash_fanout_then_merge_sends_equal_keys_to_one_bucket() {
    let a = Partition::new(vec![vec![7, 100], vec![3, 200]]);
    let b = Partition::new(vec![vec![7, 300]]);
    let cache = cache_with("k", vec![a, b]);
    let scan = PhysicalPlan::in_memory_scan(String::from("k"));
    let fanout = PhysicalPlan::fanout_by_hash(scan, 4, vec![Expr::Column(0)]).unwrap();
    let plan = PhysicalPlan::reduce_merge(fanout);
    let out = run_physical_plan(plan, &cache).unwrap();
    assert_eq!(out.len(), 4);
    let mut sevens_bucket = None;
    let mut sevens_count = 0;
    for (i, p) in out.iter().enumerate() {
        let count = p.rows.iter().filter(|r| r[0] == 7).count();
        if count > 0 {
            assert!(sevens_bucket.is_none(), "x=7 rows landed in two buckets");
            sevens_bucket = Some(i);
            sevens_count = count;
        }
    }
    assert!(sevens_bucket.is_some());
    assert_eq!(sevens_count, 2);
    let total: usize = out.iter().map(|p| p.rows.len()).sum();
    assert_eq!(total, 3);
}

#[test]
fn aggregate_sums_sales_per_city() {
    // Cities encoded as integers: 1 stands for NYC, 2 for LA.
    let p = Partition::new(vec![vec![1, 10], vec![1, 20], vec![2, 5]]);
    let cache = cache_with("k", vec![p]);
    let scan = PhysicalPlan::in_memory_scan(String::from("k"));
    let plan = PhysicalPlan::aggregate(
        scan,
        vec![AggExpr::Sum(Box::new(Expr::Column(1)))],
        vec![Expr::Column(0)],
    );
    let out = run_physical_plan(plan, &cache).unwrap();
    assert_eq!(out.len(), 1);
    let groups = &out[0].rows;
    assert_eq!(groups.len(), 2);
    assert!(groups.contains(&vec![1, 30]));
    assert!(groups.contains(&vec![2, 5]));
}

#[test]
fn coalesce_four_into_two_preserves_rows() {
    let parts = vec![
        Partition::new(rows_of_len(3, 0)),
        Partition::new(rows_of_len(4, 1)),
        Partition::new(rows_of_len(5, 2)),
        Partition::new(rows_of_len(6, 3)),
    ];
    let cache = cache_with("k", parts);
    let scan = PhysicalPlan::in_memory_scan(String::from("k"));
    let plan = PhysicalPlan::coalesce(scan, 4, 2).unwrap();
    let out = run_physical_plan(plan, &cache).unwrap();
    assert_eq!(out.len(), 2);
    let total: usize = out.iter().map(|p| p.rows.len()).sum();
    assert_eq!(total, 18);
    // Contiguous balanced groups of two partitions each.
    assert_eq!(out[0].rows.len(), 7);
    assert_eq!(out[1].rows.len(), 11);
}

#[test]
fn movement_pipeline_conserves_rows() {
    let parts = vec![
        Partition::new(rows_of_len(3, 0)),
        Partition::new(rows_of_len(4, 1)),
        Partition::new(rows_of_len(5, 2)),
        Partition::new(rows_of_len(6, 3)),
    ];
    let cache = cache_with("k", parts);
    let scan = PhysicalPlan::in_memory_scan(String::from("k"));
    let fanout = PhysicalPlan::fanout_by_hash(scan, 3, vec![Expr::Column(1)]).unwrap();
    let merge = PhysicalPlan::reduce_merge(fanout);
    let coalesce = PhysicalPlan::coalesce(merge, 3, 2).unwrap();
    let plan = PhysicalPlan::split(coalesce, 2, 5).unwrap();
    let out = run_physical_plan(plan, &cache).unwrap();
    assert_eq!(out.len(), 5);
    let total: usize = out.iter().map(|p| p.rows.len()).sum();
    assert_eq!(total, 18);
}

#[test]
fn fanout_by_range_is_unsupported() {
    let cache = cache_with("k", vec![Partition::new(rows_of_len(2, 0))]);
    let scan = PhysicalPlan::in_memory_scan(String::from("k"));
    let plan = PhysicalPlan::fanout_by_range(scan, 2, vec![Expr::Column(0)]).unwrap();
    let r = plan.to_partition_tasks(&cache);
    assert!(matches!(r, Err(PlanError::Unsupported)));
}

#[test]
fn reduce_merge_off_a_non_fanout_is_unsupported() {
    let cache = cache_with("k", vec![Partition::new(rows_of_len(2, 0))]);
    let scan = PhysicalPlan::in_memory_scan(String::from("k"));
    let plan = PhysicalPlan::reduce_merge(scan);
    let r = plan.to_partition_tasks(&cache);
    assert!(matches!(r, Err(PlanError::Unsupported)));
}

#[test]
fn child_compile_error_takes_precedence() {
    // The merge's child cannot compile (missing cache key), so that error,
    // not the merge's own complaint, is reported.
    let cache = PartitionCache::new();
    let scan = PhysicalPlan::in_memory_scan(String::from("absent"));
    let plan = PhysicalPlan::reduce_merge(scan);
    let r = plan.to_partition_tasks(&cache);
    assert!(matches!(r, Err(PlanError::KeyNotFound)));
}

#[test]
fn hash_fanout_with_non_column_key_is_unsupported_at_run_time() {
    let cache = cache_with("k", vec![Partition::new(vec![vec![1]])]);
    let scan = PhysicalPlan::in_memory_scan(String::from("k"));
    let key = daft_plan::expr::abs(Expr::Column(0));
    let plan = PhysicalPlan::fanout_by_hash(scan, 2, vec![key]).unwrap();
    let r = run_physical_plan(plan, &cache);
    assert!(matches!(r, Err(PlanError::Unsupported)));
}

#[test]
fn hash_fanout_with_missing_column_is_a_type_error() {
    let cache = cache_with("k", vec![Partition::new(vec![vec![1]])]);
    let scan = PhysicalPlan::in_memory_scan(String::from("k"));
    let plan = PhysicalPlan::fanout_by_hash(scan, 2, vec![Expr::Column(9)]).unwrap();
    let r = run_physical_plan(plan, &cache);
    assert!(matches!(r, Err(PlanError::TypeError)));
}

#[test]
fn filter_compiles_but_needs_the_expression_engine() {
    let cache = cache_with("k", vec![Partition::new(vec![vec![1]])]);
    let scan = PhysicalPlan::in_memory_scan(String::from("k"));
    let plan = PhysicalPlan::filter(scan, Expr::Column(0));
    let stream = plan.to_partition_tasks(&cache).unwrap();
    let r = daft_plan::engine::execute_stream(&stream);
    assert!(matches!(r, Err(PlanError::Unsupported)));
}

#[test]
fn constructors_reject_zero_partition_counts() {
    let scan = PhysicalPlan::in_memory_scan(String::from("k"));
    assert!(matches!(
        PhysicalPlan::coalesce(scan, 4, 0),
        Err(PlanError::SchemaMismatch)
    ));
    let scan = PhysicalPlan::in_memory_scan(String::from("k"));
    assert!(matches!(
        PhysicalPlan::split(scan, 0, 2),
        Err(PlanError::SchemaMismatch)
    ));
    let scan = PhysicalPlan::in_memory_scan(String::from("k"));
    assert!(matches!(
        PhysicalPlan::fanout_random(scan, 0),
        Err(PlanError::SchemaMismatch)
    ));
    let scan = PhysicalPlan::in_memory_scan(String::from("k"));
    assert!(matches!(
        PhysicalPlan::limit(scan, 5, 0),
        Err(PlanError::SchemaMismatch)
    ));
    let scan = PhysicalPlan::in_memory_scan(String::from("k"));
    assert!(matches!(
        PhysicalPlan::sort(scan, vec![Expr::Column(0)], vec![true, false], 1),
        Err(PlanError::SchemaMismatch)
    ));
}

#[test]
fn tabular_scan_compiles_to_read_instructions() {
    let schema = Schema {
        fields: vec![Field { name: String::from("a"), dtype: DataType::Int64 }],
    };
    let plan = PhysicalPlan::tabular_scan_parquet(
        schema,
        vec![String::from("part-0.parquet"), String::from("part-1.parquet")],
        Some(100),
    );
    let cache = PartitionCache::new();
    let stream = plan.to_partition_tasks(&cache).unwrap();
    match stream {
        TaskStream::ScanTasks { scan } => {
            assert_eq!(scan.file_paths.len(), 2);
            assert_eq!(scan.limit, Some(100));
            assert!(matches!(scan.format, FileFormat::Parquet));
        }
        other => panic!("expected scan tasks, got {:?}", other),
    }
    // Decoding files needs the execution engine; the reference engine
    // reports the stream unsupported.
    let plan = PhysicalPlan::tabular_scan_csv(
        Schema { fields: vec![] },
        vec![String::from("x.csv")],
        None,
    );
    let stream = plan.to_partition_tasks(&cache).unwrap();
    assert!(matches!(
        daft_plan::engine::execute_stream(&stream),
        Err(PlanError::Unsupported)
    ));
}

#[test]
fn tabular_write_compiles_to_a_tagged_pipeline() {
    let cache = cache_with("k", vec![Partition::new(rows_of_len(1, 0))]);
    let scan = PhysicalPlan::in_memory_scan(String::from("k"));
    let sink = OutputFileInfo {
        root_dir: String::from("out"),
        file_format: FileFormat::Json,
        partition_cols: None,
        compression: Some(String::from("zstd")),
    };
    let plan = PhysicalPlan::tabular_write_json(scan, Schema { fields: vec![] }, sink);
    let stream = plan.to_partition_tasks(&cache).unwrap();
    match &stream {
        TaskStream::Pipeline { instruction, .. } => match instruction {
            Instruction::Write { file_info, .. } => {
                assert_eq!(file_info.root_dir, "out");
                assert!(matches!(file_info.file_format, FileFormat::Json));
            }
            other => panic!("expected a write instruction, got {:?}", other),
        },
        other => panic!("expected a pipeline, got {:?}", other),
    }
    assert!(matches!(
        daft_plan::engine::execute_stream(&stream),
        Err(PlanError::Unsupported)
    ));
}

#[test]
fn sort_compiles_but_needs_the_engine() {
    let cache = cache_with("k", vec![Partition::new(rows_of_len(3, 0))]);
    let scan = PhysicalPlan::in_memory_scan(String::from("k"));
    let plan = PhysicalPlan::sort(scan, vec![Expr::Column(0)], vec![false], 1).unwrap();
    let r = run_physical_plan(plan, &cache);
    assert!(matches!(r, Err(PlanError::Unsupported)));
}

#[test]
fn limit_of_zero_yields_no_partitions() {
    let cache = cache_with("k", vec![Partition::new(rows_of_len(3, 0))]);
    let scan = PhysicalPlan::in_memory_scan(String::from("k"));
    let plan = PhysicalPlan::limit(scan, 0, 1).unwrap();
    let out = run_physical_plan(plan, &cache).unwrap();
    assert!(out.is_empty());
}

#[test]
fn filter_compiles_to_a_tagged_pipeline_with_an_empty_request() {
    let cache = cache_with("k", vec![Partition::new(rows_of_len(2, 0))]);
    let scan = PhysicalPlan::in_memory_scan(String::from("k"));
    let plan = PhysicalPlan::filter(scan, Expr::Column(0));
    let stream = plan.to_partition_tasks(&cache).unwrap();
    match stream {
        TaskStream::Pipeline { input, instruction } => {
            assert!(matches!(*input, TaskStream::PartitionRead { .. }));
            match instruction {
                Instruction::Filter { predicate, resource_request } => {
                    assert_eq!(predicate, Expr::Column(0));
                    assert_eq!(resource_request.num_cpus, 0);
                    assert_eq!(resource_request.memory_bytes, 0);
                }
                other => panic!("expected a filter instruction, got {:?}", other),
            }
        }
        other => panic!("expected a pipeline, got {:?}", other),
    }
}

#[test]
fn limit_compiles_to_a_global_stage_over_a_local_stage() {
    let cache = cache_with("k", vec![Partition::new(rows_of_len(2, 0))]);
    let scan = PhysicalPlan::in_memory_scan(String::from("k"));
    let plan = PhysicalPlan::limit(scan, 7, 1).unwrap();
    let stream = plan.to_partition_tasks(&cache).unwrap();
    match stream {
        TaskStream::GlobalLimit { input, limit, num_partitions } => {
            assert_eq!(limit, 7);
            assert_eq!(num_partitions, 1);
            match *input {
                TaskStream::LocalLimit { input: inner, limit } => {
                    assert_eq!(limit, 7);
                    assert!(matches!(*inner, TaskStream::PartitionRead { .. }));
                }
                other => panic!("expected a local limit stage, got {:?}", other),
            }
        }
        other => panic!("expected a global limit stage, got {:?}", other),
    }
}
