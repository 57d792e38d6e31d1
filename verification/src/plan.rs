use vstd::prelude::*;

use crate::error::PlanError;
use crate::expr::{AggExpr, Expr, Schema};

verus! {

/// The file formats a tabular scan or write node can describe.
#[derive(Debug, Clone, Copy, PartialEq, Eq, Structural)]
pub enum FileFormat {
    Parquet,
    Csv,
    Json,
}

/// Advisory scheduling hints attached to an instruction.  They are carried
/// through unmodified and never interpreted by this layer.
#[derive(Debug, Clone, Copy, PartialEq, Eq, Structural)]
pub struct ResourceRequest {
    pub num_cpus: u64,
    pub memory_bytes: u64,
}

/// Whether a resource hint requests nothing: the empty hint attached to
/// pipelined instructions.
pub open spec fn no_request(r: ResourceRequest) -> bool {
    r.num_cpus == 0 && r.memory_bytes == 0
}

impl ResourceRequest {
    /// The empty hint: no resources requested.
    pub fn none() -> (r: ResourceRequest)
        ensures
            no_request(r),
    {
        ResourceRequest { num_cpus: 0, memory_bytes: 0 }
    }
}

/// The sink description of a write node, immutable once attached.
#[derive(Debug)]
pub struct OutputFileInfo {
    pub root_dir: String,
    pub file_format: FileFormat,
    pub partition_cols: Option<Vec<Expr>>,
    pub compression: Option<String>,
}

/// An immutable tree of physical operators: each node owns its operand
/// sub-plan and its operator parameters.  Plans are built once by the
/// upstream optimizer, through the constructors below, and compiled into a
/// task stream by [`PhysicalPlan::to_partition_tasks`].
#[derive(Debug)]
pub enum PhysicalPlan {
    /// Yield the partitions staged in the partition cache under `cache_key`,
    /// in their stored order, once each.
    InMemoryScan { cache_key: String },
    TabularScanParquet { schema: Schema, file_paths: Vec<String>, limit: Option<usize> },
    TabularScanCsv { schema: Schema, file_paths: Vec<String>, limit: Option<usize> },
    TabularScanJson { schema: Schema, file_paths: Vec<String>, limit: Option<usize> },
    /// Tag each upstream partition with a filter instruction; partition count
    /// and order are unchanged.
    Filter { input: Box<PhysicalPlan>, predicate: Expr },
    /// Two-phase limit: a local cap per partition, then a global row budget
    /// across partitions.
    Limit { input: Box<PhysicalPlan>, limit: usize, num_partitions: usize },
    /// Sort into `num_partitions` output partitions.  The range-partitioned
    /// distributed sort this calls for is not implemented by the reference
    /// engine.
    Sort {
        input: Box<PhysicalPlan>,
        sort_by: Vec<Expr>,
        descending: Vec<bool>,
        num_partitions: usize,
    },
    /// Redistribute contiguous row ranges from a known source partition
    /// count to a known destination count.
    Split {
        input: Box<PhysicalPlan>,
        input_num_partitions: usize,
        output_num_partitions: usize,
    },
    /// Scatter each upstream partition's rows across `num_partitions`
    /// buckets by an engine-defined balancing policy.
    FanoutRandom { input: Box<PhysicalPlan>, num_partitions: usize },
    /// Scatter rows deterministically: equal key values always land in the
    /// same bucket index.
    FanoutByHash { input: Box<PhysicalPlan>, num_partitions: usize, partition_by: Vec<Expr> },
    /// Reserved for range-partitioned shuffles; compiling it fails with
    /// `Unsupported` rather than a program fault.
    FanoutByRange { input: Box<PhysicalPlan>, num_partitions: usize, sort_by: Vec<Expr> },
    /// Gather the buckets of the fan-out directly beneath into one merged
    /// partition per bucket index.
    ReduceMerge { input: Box<PhysicalPlan> },
    /// Tag each upstream partition with a local grouped-aggregation
    /// instruction; cross-partition aggregation is the plan's concern.
    Aggregate { input: Box<PhysicalPlan>, aggregations: Vec<AggExpr>, group_by: Vec<Expr> },
    /// Concatenate contiguous groups of upstream partitions into exactly
    /// `num_to` partitions.
    Coalesce { input: Box<PhysicalPlan>, num_from: usize, num_to: usize },
    TabularWriteParquet { input: Box<PhysicalPlan>, schema: Schema, file_info: OutputFileInfo },
    TabularWriteCsv { input: Box<PhysicalPlan>, schema: Schema, file_info: OutputFileInfo },
    TabularWriteJson { input: Box<PhysicalPlan>, schema: Schema, file_info: OutputFileInfo },
}

/// Structural validity of a plan, established by the constructors: every
/// partition-count parameter that an operator divides or routes by is at
/// least one, and a sort names as many directions as keys.
pub open spec fn plan_wf(p: PhysicalPlan) -> bool
    decreases p,
{
    match p {
        PhysicalPlan::InMemoryScan { .. } => true,
        PhysicalPlan::TabularScanParquet { .. } => true,
        PhysicalPlan::TabularScanCsv { .. } => true,
        PhysicalPlan::TabularScanJson { .. } => true,
        PhysicalPlan::Filter { input, .. } => plan_wf(*input),
        PhysicalPlan::Limit { input, num_partitions, .. } => num_partitions >= 1 && plan_wf(
            *input,
        ),
        PhysicalPlan::Sort { input, sort_by, descending, num_partitions } => {
            &&& num_partitions >= 1
            &&& sort_by@.len() == descending@.len()
            &&& sort_by@.len() >= 1
            &&& plan_wf(*input)
        },
        PhysicalPlan::Split { input, input_num_partitions, output_num_partitions } => {
            &&& input_num_partitions >= 1
            &&& output_num_partitions >= 1
            &&& plan_wf(*input)
        },
        PhysicalPlan::FanoutRandom { input, num_partitions } => num_partitions >= 1 && plan_wf(
            *input,
        ),
        PhysicalPlan::FanoutByHash { input, num_partitions, partition_by } => {
            &&& num_partitions >= 1
            &&& partition_by@.len() >= 1
            &&& plan_wf(*input)
        },
        PhysicalPlan::FanoutByRange { input, num_partitions, sort_by } => {
            &&& num_partitions >= 1
            &&& sort_by@.len() >= 1
            &&& plan_wf(*input)
        },
        PhysicalPlan::ReduceMerge { input } => plan_wf(*input),
        PhysicalPlan::Aggregate { input, .. } => plan_wf(*input),
        PhysicalPlan::Coalesce { input, num_from, num_to } => {
            &&& num_from >= 1
            &&& num_to >= 1
            &&& plan_wf(*input)
        },
        PhysicalPlan::TabularWriteParquet { input, .. } => plan_wf(*input),
        PhysicalPlan::TabularWriteCsv { input, .. } => plan_wf(*input),
        PhysicalPlan::TabularWriteJson { input, .. } => plan_wf(*input),
    }
}

impl PhysicalPlan {
    /// Scan the partitions staged under `cache_key`.
    pub fn in_memory_scan(cache_key: String) -> (r: PhysicalPlan)
        ensures
            r == (PhysicalPlan::InMemoryScan { cache_key }),
            plan_wf(r),
    {
        PhysicalPlan::InMemoryScan { cache_key }
    }

    /// Describe a Parquet scan; the execution engine performs the read.
    pub fn tabular_scan_parquet(schema: Schema, file_paths: Vec<String>, limit: Option<usize>) -> (r:
        PhysicalPlan)
        ensures
            r matches PhysicalPlan::TabularScanParquet { schema: s, file_paths: f, limit: l }
                && s == schema && f == file_paths && l == limit,
            plan_wf(r),
    {
        PhysicalPlan::TabularScanParquet { schema, file_paths, limit }
    }

    /// Describe a CSV scan; the execution engine performs the read.
    pub fn tabular_scan_csv(schema: Schema, file_paths: Vec<String>, limit: Option<usize>) -> (r:
        PhysicalPlan)
        ensures
            r matches PhysicalPlan::TabularScanCsv { schema: s, file_paths: f, limit: l }
                && s == schema && f == file_paths && l == limit,
            plan_wf(r),
    {
        PhysicalPlan::TabularScanCsv { schema, file_paths, limit }
    }

    /// Describe a JSON scan; the execution engine performs the read.
    pub fn tabular_scan_json(schema: Schema, file_paths: Vec<String>, limit: Option<usize>) -> (r:
        PhysicalPlan)
        ensures
            r matches PhysicalPlan::TabularScanJson { schema: s, file_paths: f, limit: l }
                && s == schema && f == file_paths && l == limit,
            plan_wf(r),
    {
        PhysicalPlan::TabularScanJson { schema, file_paths, limit }
    }

    /// Filter every partition by `predicate`.
    pub fn filter(input: PhysicalPlan, predicate: Expr) -> (r: PhysicalPlan)
        ensures
            r matches PhysicalPlan::Filter { input: i, predicate: pr } && *i == input
                && pr == predicate,
            plan_wf(r) <==> plan_wf(input),
    {
        PhysicalPlan::Filter { input: Box::new(input), predicate }
    }

    /// Keep at most `limit` rows overall.  `num_partitions` is the upstream
    /// partition count the global stage coordinates over; it must be at
    /// least one.
    pub fn limit(input: PhysicalPlan, limit: usize, num_partitions: usize) -> (r: Result<
        PhysicalPlan,
        PlanError,
    >)
        ensures
            r is Ok <==> num_partitions >= 1,
            r matches Ok(p) ==> {
                &&& p matches PhysicalPlan::Limit { input: i, limit: l, num_partitions: n }
                    && *i == input && l == limit && n == num_partitions
                &&& plan_wf(p) <==> plan_wf(input)
            },
            r is Err ==> r == Err::<PhysicalPlan, PlanError>(PlanError::SchemaMismatch),
    {
        if num_partitions < 1 {
            return Err(PlanError::SchemaMismatch);
        }
        Ok(PhysicalPlan::Limit { input: Box::new(input), limit, num_partitions })
    }

    /// Sort by `sort_by` into `num_partitions` partitions; `descending`
    /// names one direction per key.
    pub fn sort(
        input: PhysicalPlan,
        sort_by: Vec<Expr>,
        descending: Vec<bool>,
        num_partitions: usize,
    ) -> (r: Result<PhysicalPlan, PlanError>)
        ensures
            r is Ok <==> num_partitions >= 1 && sort_by@.len() == descending@.len()
                && sort_by@.len() >= 1,
            r matches Ok(p) ==> {
                &&& p matches PhysicalPlan::Sort { input: i, sort_by: s, descending: d, num_partitions: n }
                    && *i == input && s == sort_by && d == descending && n == num_partitions
                &&& plan_wf(p) <==> plan_wf(input)
            },
            r is Err ==> r == Err::<PhysicalPlan, PlanError>(PlanError::SchemaMismatch),
    {
        if num_partitions < 1 || sort_by.len() != descending.len() || sort_by.len() < 1 {
            return Err(PlanError::SchemaMismatch);
        }
        Ok(PhysicalPlan::Sort { input: Box::new(input), sort_by, descending, num_partitions })
    }

    /// Repartition from `input_num_partitions` to `output_num_partitions`.
    pub fn split(
        input: PhysicalPlan,
        input_num_partitions: usize,
        output_num_partitions: usize,
    ) -> (r: Result<PhysicalPlan, PlanError>)
        ensures
            r is Ok <==> input_num_partitions >= 1 && output_num_partitions >= 1,
            r matches Ok(p) ==> {
                &&& p matches PhysicalPlan::Split {
                    input: i,
                    input_num_partitions: a,
                    output_num_partitions: b,
                } && *i == input && a == input_num_partitions && b == output_num_partitions
                &&& plan_wf(p) <==> plan_wf(input)
            },
            r is Err ==> r == Err::<PhysicalPlan, PlanError>(PlanError::SchemaMismatch),
    {
        if input_num_partitions < 1 || output_num_partitions < 1 {
            return Err(PlanError::SchemaMismatch);
        }
        Ok(
            PhysicalPlan::Split {
                input: Box::new(input),
                input_num_partitions,
                output_num_partitions,
            },
        )
    }

    /// Scatter rows across `num_partitions` buckets by the engine's
    /// balancing policy.
    pub fn fanout_random(input: PhysicalPlan, num_partitions: usize) -> (r: Result<
        PhysicalPlan,
        PlanError,
    >)
        ensures
            r is Ok <==> num_partitions >= 1,
            r matches Ok(p) ==> {
                &&& p matches PhysicalPlan::FanoutRandom { input: i, num_partitions: n }
                    && *i == input && n == num_partitions
                &&& plan_wf(p) <==> plan_wf(input)
            },
            r is Err ==> r == Err::<PhysicalPlan, PlanError>(PlanError::SchemaMismatch),
    {
        if num_partitions < 1 {
            return Err(PlanError::SchemaMismatch);
        }
        Ok(PhysicalPlan::FanoutRandom { input: Box::new(input), num_partitions })
    }

    /// Scatter rows across `num_partitions` buckets by the hash of the
    /// `partition_by` key values.
    pub fn fanout_by_hash(
        input: PhysicalPlan,
        num_partitions: usize,
        partition_by: Vec<Expr>,
    ) -> (r: Result<PhysicalPlan, PlanError>)
        ensures
            r is Ok <==> num_partitions >= 1 && partition_by@.len() >= 1,
            r matches Ok(p) ==> {
                &&& p matches PhysicalPlan::FanoutByHash { input: i, num_partitions: n, partition_by: k }
                    && *i == input && n == num_partitions && k == partition_by
                &&& plan_wf(p) <==> plan_wf(input)
            },
            r is Err ==> r == Err::<PhysicalPlan, PlanError>(PlanError::SchemaMismatch),
    {
        if num_partitions < 1 || partition_by.len() < 1 {
            return Err(PlanError::SchemaMismatch);
        }
        Ok(PhysicalPlan::FanoutByHash { input: Box::new(input), num_partitions, partition_by })
    }

    /// Scatter rows across `num_partitions` buckets by sort-key ranges.
    /// Representable, but compiling it reports `Unsupported`.
    pub fn fanout_by_range(input: PhysicalPlan, num_partitions: usize, sort_by: Vec<Expr>) -> (r:
        Result<PhysicalPlan, PlanError>)
        ensures
            r is Ok <==> num_partitions >= 1 && sort_by@.len() >= 1,
            r matches Ok(p) ==> {
                &&& p matches PhysicalPlan::FanoutByRange { input: i, num_partitions: n, sort_by: k }
                    && *i == input && n == num_partitions && k == sort_by
                &&& plan_wf(p) <==> plan_wf(input)
            },
            r is Err ==> r == Err::<PhysicalPlan, PlanError>(PlanError::SchemaMismatch),
    {
        if num_partitions < 1 || sort_by.len() < 1 {
            return Err(PlanError::SchemaMismatch);
        }
        Ok(PhysicalPlan::FanoutByRange { input: Box::new(input), num_partitions, sort_by })
    }

    /// Merge the buckets of the fan-out beneath into one partition per
    /// bucket index.
    pub fn reduce_merge(input: PhysicalPlan) -> (r: PhysicalPlan)
        ensures
            r matches PhysicalPlan::ReduceMerge { input: i } && *i == input,
            plan_wf(r) <==> plan_wf(input),
    {
        PhysicalPlan::ReduceMerge { input: Box::new(input) }
    }

    /// Aggregate each partition locally: group by `group_by`, compute
    /// `aggregations` per group.
    pub fn aggregate(input: PhysicalPlan, aggregations: Vec<AggExpr>, group_by: Vec<Expr>) -> (r:
        PhysicalPlan)
        ensures
            r matches PhysicalPlan::Aggregate { input: i, aggregations: a, group_by: g }
                && *i == input && a == aggregations && g == group_by,
            plan_wf(r) <==> plan_wf(input),
    {
        PhysicalPlan::Aggregate { input: Box::new(input), aggregations, group_by }
    }

    /// Concatenate groups of upstream partitions into exactly `num_to`
    /// partitions.
    pub fn coalesce(input: PhysicalPlan, num_from: usize, num_to: usize) -> (r: Result<
        PhysicalPlan,
        PlanError,
    >)
        ensures
            r is Ok <==> num_from >= 1 && num_to >= 1,
            r matches Ok(p) ==> {
                &&& p matches PhysicalPlan::Coalesce { input: i, num_from: a, num_to: b }
                    && *i == input && a == num_from && b == num_to
                &&& plan_wf(p) <==> plan_wf(input)
            },
            r is Err ==> r == Err::<PhysicalPlan, PlanError>(PlanError::SchemaMismatch),
    {
        if num_from < 1 || num_to < 1 {
            return Err(PlanError::SchemaMismatch);
        }
        Ok(PhysicalPlan::Coalesce { input: Box::new(input), num_from, num_to })
    }

    /// Write every partition as Parquet to the described sink.
    pub fn tabular_write_parquet(input: PhysicalPlan, schema: Schema, file_info: OutputFileInfo) -> (r:
        PhysicalPlan)
        ensures
            r matches PhysicalPlan::TabularWriteParquet { input: i, schema: s, file_info: f }
                && *i == input && s == schema && f == file_info,
            plan_wf(r) <==> plan_wf(input),
    {
        PhysicalPlan::TabularWriteParquet { input: Box::new(input), schema, file_info }
    }

    /// Write every partition as CSV to the described sink.
    pub fn tabular_write_csv(input: PhysicalPlan, schema: Schema, file_info: OutputFileInfo) -> (r:
        PhysicalPlan)
        ensures
            r matches PhysicalPlan::TabularWriteCsv { input: i, schema: s, file_info: f }
                && *i == input && s == schema && f == file_info,
            plan_wf(r) <==> plan_wf(input),
    {
        PhysicalPlan::TabularWriteCsv { input: Box::new(input), schema, file_info }
    }

    /// Write every partition as JSON to the described sink.
    pub fn tabular_write_json(input: PhysicalPlan, schema: Schema, file_info: OutputFileInfo) -> (r:
        PhysicalPlan)
        ensures
            r matches PhysicalPlan::TabularWriteJson { input: i, schema: s, file_info: f }
                && *i == input && s == schema && f == file_info,
            plan_wf(r) <==> plan_wf(input),
    {
        PhysicalPlan::TabularWriteJson { input: Box::new(input), schema, file_info }
    }
}

} // verus!
