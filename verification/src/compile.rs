use vstd::prelude::*;

use crate::aggregate::{agg_parts_err, aggregate_all};
use crate::error::PlanError;
use crate::fanout::{fanout_hash_all, fanout_rr_all, merge_spec, parts_err};
use crate::limit::{global_take, local_limit_spec};
use crate::partition::{cache_lookup, clone_partitions, CacheEntry, PartitionCache};
use crate::plan::{no_request, FileFormat, PhysicalPlan, ResourceRequest};
use crate::shuffle::{coalesce_spec, split_spec};
use crate::stream::{Instruction, ScanTask, TaskStream};

verus! {

/// The fan-out width of a plan node, where it is one of the fan-out
/// variants.
pub open spec fn fanout_width_of(p: PhysicalPlan) -> Option<usize> {
    match p {
        PhysicalPlan::FanoutRandom { num_partitions, .. } => Some(num_partitions),
        PhysicalPlan::FanoutByHash { num_partitions, .. } => Some(num_partitions),
        _ => None,
    }
}

/// Whether compiling this plan succeeds against the given cache: every
/// in-memory scan finds its key, no node is a range fan-out, and every merge
/// sits directly on a fan-out whose buckets it gathers.
pub open spec fn compile_ok(p: PhysicalPlan, entries: Seq<CacheEntry>) -> bool
    decreases p,
{
    match p {
        PhysicalPlan::InMemoryScan { cache_key } => cache_lookup(entries, cache_key@) is Some,
        PhysicalPlan::TabularScanParquet { .. } => true,
        PhysicalPlan::TabularScanCsv { .. } => true,
        PhysicalPlan::TabularScanJson { .. } => true,
        PhysicalPlan::Filter { input, .. } => compile_ok(*input, entries),
        PhysicalPlan::Limit { input, .. } => compile_ok(*input, entries),
        PhysicalPlan::Sort { input, .. } => compile_ok(*input, entries),
        PhysicalPlan::Split { input, .. } => compile_ok(*input, entries),
        PhysicalPlan::FanoutRandom { input, .. } => compile_ok(*input, entries),
        PhysicalPlan::FanoutByHash { input, .. } => compile_ok(*input, entries),
        PhysicalPlan::FanoutByRange { .. } => false,
        PhysicalPlan::ReduceMerge { input } => compile_ok(*input, entries) && fanout_width_of(
            *input,
        ) is Some,
        PhysicalPlan::Aggregate { input, .. } => compile_ok(*input, entries),
        PhysicalPlan::Coalesce { input, .. } => compile_ok(*input, entries),
        PhysicalPlan::TabularWriteParquet { input, .. } => compile_ok(*input, entries),
        PhysicalPlan::TabularWriteCsv { input, .. } => compile_ok(*input, entries),
        PhysicalPlan::TabularWriteJson { input, .. } => compile_ok(*input, entries),
    }
}

/// The error compilation reports when it fails: children are compiled
/// first, so a child's error comes first; a range fan-out refuses before
/// looking at its child.
pub open spec fn compile_err(p: PhysicalPlan, entries: Seq<CacheEntry>) -> PlanError
    decreases p,
{
    match p {
        PhysicalPlan::InMemoryScan { .. } => PlanError::KeyNotFound,
        PhysicalPlan::TabularScanParquet { .. } => PlanError::Unsupported,
        PhysicalPlan::TabularScanCsv { .. } => PlanError::Unsupported,
        PhysicalPlan::TabularScanJson { .. } => PlanError::Unsupported,
        PhysicalPlan::Filter { input, .. } => compile_err(*input, entries),
        PhysicalPlan::Limit { input, .. } => compile_err(*input, entries),
        PhysicalPlan::Sort { input, .. } => compile_err(*input, entries),
        PhysicalPlan::Split { input, .. } => compile_err(*input, entries),
        PhysicalPlan::FanoutRandom { input, .. } => compile_err(*input, entries),
        PhysicalPlan::FanoutByHash { input, .. } => compile_err(*input, entries),
        PhysicalPlan::FanoutByRange { .. } => PlanError::Unsupported,
        PhysicalPlan::ReduceMerge { input } => {
            if !compile_ok(*input, entries) {
                compile_err(*input, entries)
            } else {
                PlanError::Unsupported
            }
        },
        PhysicalPlan::Aggregate { input, .. } => compile_err(*input, entries),
        PhysicalPlan::Coalesce { input, .. } => compile_err(*input, entries),
        PhysicalPlan::TabularWriteParquet { input, .. } => compile_err(*input, entries),
        PhysicalPlan::TabularWriteCsv { input, .. } => compile_err(*input, entries),
        PhysicalPlan::TabularWriteJson { input, .. } => compile_err(*input, entries),
    }
}

/// What the reference engine yields when it runs the stream a plan compiles
/// to: compile the plan, pull the stream to exhaustion.  Operators that need
/// the expression kernels or file sinks report `Unsupported` when pulled.
pub open spec fn plan_sem(p: PhysicalPlan, entries: Seq<CacheEntry>) -> Result<
    Seq<Seq<Seq<i64>>>,
    PlanError,
>
    decreases p,
{
    match p {
        PhysicalPlan::InMemoryScan { cache_key } => match cache_lookup(entries, cache_key@) {
            Some(pv) => Ok(pv),
            None => Err(PlanError::KeyNotFound),
        },
        PhysicalPlan::TabularScanParquet { .. } => Err(PlanError::Unsupported),
        PhysicalPlan::TabularScanCsv { .. } => Err(PlanError::Unsupported),
        PhysicalPlan::TabularScanJson { .. } => Err(PlanError::Unsupported),
        PhysicalPlan::Filter { input, .. } => match plan_sem(*input, entries) {
            Ok(pv) => Err(PlanError::Unsupported),
            Err(e) => Err(e),
        },
        PhysicalPlan::Limit { input, limit, .. } => match plan_sem(*input, entries) {
            Ok(pv) => Ok(global_take(local_limit_spec(pv, limit as int), limit as int)),
            Err(e) => Err(e),
        },
        PhysicalPlan::Sort { input, .. } => match plan_sem(*input, entries) {
            Ok(pv) => Err(PlanError::Unsupported),
            Err(e) => Err(e),
        },
        PhysicalPlan::Split { input, output_num_partitions, .. } => {
            match plan_sem(*input, entries) {
                Ok(pv) => {
                    if output_num_partitions >= 1 {
                        Ok(split_spec(pv, output_num_partitions as int))
                    } else {
                        Err(PlanError::Unsupported)
                    }
                },
                Err(e) => Err(e),
            }
        },
        PhysicalPlan::FanoutRandom { input, num_partitions } => match plan_sem(*input, entries) {
            Ok(pv) => {
                if num_partitions >= 1 {
                    Ok(fanout_rr_all(pv, num_partitions as int))
                } else {
                    Err(PlanError::Unsupported)
                }
            },
            Err(e) => Err(e),
        },
        PhysicalPlan::FanoutByHash { input, num_partitions, partition_by } => {
            match plan_sem(*input, entries) {
                Ok(pv) => {
                    if num_partitions >= 1 {
                        match parts_err(partition_by@, pv) {
                            Some(e) => Err(e),
                            None => Ok(fanout_hash_all(pv, partition_by@, num_partitions as int)),
                        }
                    } else {
                        Err(PlanError::Unsupported)
                    }
                },
                Err(e) => Err(e),
            }
        },
        PhysicalPlan::FanoutByRange { .. } => Err(PlanError::Unsupported),
        PhysicalPlan::ReduceMerge { input } => match fanout_width_of(*input) {
            Some(n) => match plan_sem(*input, entries) {
                Ok(pv) => {
                    if n >= 1 && pv.len() as int % n as int == 0 {
                        Ok(merge_spec(pv, n as int))
                    } else {
                        Err(PlanError::Unsupported)
                    }
                },
                Err(e) => Err(e),
            },
            None => match plan_sem(*input, entries) {
                Ok(pv) => Err(PlanError::Unsupported),
                Err(e) => Err(e),
            },
        },
        PhysicalPlan::Aggregate { input, aggregations, group_by } => {
            match plan_sem(*input, entries) {
                Ok(pv) => match agg_parts_err(pv, group_by@, aggregations@) {
                    Some(e) => Err(e),
                    None => Ok(aggregate_all(pv, group_by@, aggregations@)),
                },
                Err(e) => Err(e),
            }
        },
        PhysicalPlan::Coalesce { input, num_to, .. } => match plan_sem(*input, entries) {
            Ok(pv) => {
                if num_to >= 1 {
                    Ok(coalesce_spec(pv, num_to as int))
                } else {
                    Err(PlanError::Unsupported)
                }
            },
            Err(e) => Err(e),
        },
        PhysicalPlan::TabularWriteParquet { input, .. } => match plan_sem(*input, entries) {
            Ok(pv) => Err(PlanError::Unsupported),
            Err(e) => Err(e),
        },
        PhysicalPlan::TabularWriteCsv { input, .. } => match plan_sem(*input, entries) {
            Ok(pv) => Err(PlanError::Unsupported),
            Err(e) => Err(e),
        },
        PhysicalPlan::TabularWriteJson { input, .. } => match plan_sem(*input, entries) {
            Ok(pv) => Err(PlanError::Unsupported),
            Err(e) => Err(e),
        },
    }
}

/// The shape a plan compiles to: each node of the stream is the stage its
/// plan node calls for, carrying that node's own parameters through
/// unmodified — the scan description with its schema, format, file list and
/// row limit; the filter, aggregation and write instructions with their
/// expressions, sink description and an empty resource request; the
/// two-phase limit as a global stage over a local stage; and each stage
/// wrapping the shape its operand compiles to.
pub open spec fn compiles_to(p: PhysicalPlan, s: TaskStream) -> bool
    decreases p,
{
    match p {
        PhysicalPlan::InMemoryScan { .. } => s is PartitionRead,
        PhysicalPlan::TabularScanParquet { schema, file_paths, limit } => match s {
            TaskStream::ScanTasks { scan } => {
                &&& scan.schema == schema
                &&& scan.format == FileFormat::Parquet
                &&& scan.file_paths == file_paths
                &&& scan.limit == limit
            },
            _ => false,
        },
        PhysicalPlan::TabularScanCsv { schema, file_paths, limit } => match s {
            TaskStream::ScanTasks { scan } => {
                &&& scan.schema == schema
                &&& scan.format == FileFormat::Csv
                &&& scan.file_paths == file_paths
                &&& scan.limit == limit
            },
            _ => false,
        },
        PhysicalPlan::TabularScanJson { schema, file_paths, limit } => match s {
            TaskStream::ScanTasks { scan } => {
                &&& scan.schema == schema
                &&& scan.format == FileFormat::Json
                &&& scan.file_paths == file_paths
                &&& scan.limit == limit
            },
            _ => false,
        },
        PhysicalPlan::Filter { input, predicate } => match s {
            TaskStream::Pipeline { input: si, instruction } => match instruction {
                Instruction::Filter { predicate: pr, resource_request } => {
                    &&& pr == predicate
                    &&& no_request(resource_request)
                    &&& compiles_to(*input, *si)
                },
                _ => false,
            },
            _ => false,
        },
        PhysicalPlan::Limit { input, limit, num_partitions } => match s {
            TaskStream::GlobalLimit { input: gi, limit: gl, num_partitions: gn } => {
                &&& gl == limit
                &&& gn == num_partitions
                &&& match *gi {
                    TaskStream::LocalLimit { input: li, limit: ll } => ll == limit
                        && compiles_to(*input, *li),
                    _ => false,
                }
            },
            _ => false,
        },
        PhysicalPlan::Sort { input, sort_by, descending, num_partitions } => match s {
            TaskStream::Sort { input: si, sort_by: sb, descending: d, num_partitions: np } => {
                &&& sb == sort_by
                &&& d == descending
                &&& np == num_partitions
                &&& compiles_to(*input, *si)
            },
            _ => false,
        },
        PhysicalPlan::Split { input, input_num_partitions, output_num_partitions } => match s {
            TaskStream::Split {
                input: si,
                input_num_partitions: a,
                output_num_partitions: b,
            } => {
                &&& a == input_num_partitions
                &&& b == output_num_partitions
                &&& compiles_to(*input, *si)
            },
            _ => false,
        },
        PhysicalPlan::FanoutRandom { input, num_partitions } => match s {
            TaskStream::FanoutRandom { input: si, num_partitions: np } => {
                &&& np == num_partitions
                &&& compiles_to(*input, *si)
            },
            _ => false,
        },
        PhysicalPlan::FanoutByHash { input, num_partitions, partition_by } => match s {
            TaskStream::FanoutByHash { input: si, num_partitions: np, partition_by: pb } => {
                &&& np == num_partitions
                &&& pb == partition_by
                &&& compiles_to(*input, *si)
            },
            _ => false,
        },
        PhysicalPlan::FanoutByRange { .. } => false,
        PhysicalPlan::ReduceMerge { input } => match s {
            TaskStream::ReduceMerge { input: si, fanout_width } => {
                &&& Some(fanout_width) == fanout_width_of(*input)
                &&& compiles_to(*input, *si)
            },
            _ => false,
        },
        PhysicalPlan::Aggregate { input, aggregations, group_by } => match s {
            TaskStream::Pipeline { input: si, instruction } => match instruction {
                Instruction::LocalAggregate {
                    aggregations: ags,
                    group_by: gb,
                    resource_request,
                } => {
                    &&& ags == aggregations
                    &&& gb == group_by
                    &&& no_request(resource_request)
                    &&& compiles_to(*input, *si)
                },
                _ => false,
            },
            _ => false,
        },
        PhysicalPlan::Coalesce { input, num_from, num_to } => match s {
            TaskStream::Coalesce { input: si, num_from: a, num_to: b } => {
                &&& a == num_from
                &&& b == num_to
                &&& compiles_to(*input, *si)
            },
            _ => false,
        },
        PhysicalPlan::TabularWriteParquet { input, schema, file_info } => match s {
            TaskStream::Pipeline { input: si, instruction } => match instruction {
                Instruction::Write { schema: ws, file_info: wf, resource_request } => {
                    &&& ws == schema
                    &&& wf == file_info
                    &&& no_request(resource_request)
                    &&& compiles_to(*input, *si)
                },
                _ => false,
            },
            _ => false,
        },
        PhysicalPlan::TabularWriteCsv { input, schema, file_info } => match s {
            TaskStream::Pipeline { input: si, instruction } => match instruction {
                Instruction::Write { schema: ws, file_info: wf, resource_request } => {
                    &&& ws == schema
                    &&& wf == file_info
                    &&& no_request(resource_request)
                    &&& compiles_to(*input, *si)
                },
                _ => false,
            },
            _ => false,
        },
        PhysicalPlan::TabularWriteJson { input, schema, file_info } => match s {
            TaskStream::Pipeline { input: si, instruction } => match instruction {
                Instruction::Write { schema: ws, file_info: wf, resource_request } => {
                    &&& ws == schema
                    &&& wf == file_info
                    &&& no_request(resource_request)
                    &&& compiles_to(*input, *si)
                },
                _ => false,
            },
            _ => false,
        },
    }
}

impl PhysicalPlan {
    /// Lower the stages that reshape partitions: filters, limits, sorts,
    /// splits, fan-outs and coalesces.
    #[verifier::rlimit(100)]
    fn compile_stage(self, psets: &PartitionCache) -> (r: Result<TaskStream, PlanError>)
        requires
            self is Filter || self is Limit || self is Sort || self is Split
                || self is FanoutRandom || self is FanoutByHash || self is Coalesce,
        ensures
            r is Ok <==> compile_ok(self, psets.entries@),
            r matches Err(e) ==> e == compile_err(self, psets.entries@),
            r matches Ok(s) ==> crate::stream::stream_sem(s) == plan_sem(self, psets.entries@),
            r matches Ok(s) ==> compiles_to(self, s),
        decreases self, 1int,
    {
        match self {
            PhysicalPlan::Filter { input, predicate } => {
                let upstream = match (*input).to_partition_tasks(psets) {
                    Ok(s) => s,
                    Err(e) => {
                        return Err(e);
                    },
                };
                Ok(
                    TaskStream::Pipeline {
                        input: Box::new(upstream),
                        instruction: Instruction::Filter {
                            predicate,
                            resource_request: ResourceRequest::none(),
                        },
                    },
                )
            },
            PhysicalPlan::Limit { input, limit, num_partitions } => {
                let ghost c = *input;
                let upstream = match (*input).to_partition_tasks(psets) {
                    Ok(s) => s,
                    Err(e) => {
                        return Err(e);
                    },
                };
                let local = TaskStream::LocalLimit { input: Box::new(upstream), limit };
                proof {
                    assert(crate::stream::stream_sem(local) == (match plan_sem(
                        c,
                        psets.entries@,
                    ) {
                        Ok(pv) => Ok::<Seq<Seq<Seq<i64>>>, PlanError>(
                            local_limit_spec(pv, limit as int),
                        ),
                        Err(e) => Err(e),
                    }));
                }
                Ok(TaskStream::GlobalLimit { input: Box::new(local), limit, num_partitions })
            },
            PhysicalPlan::Sort { input, sort_by, descending, num_partitions } => {
                let upstream = match (*input).to_partition_tasks(psets) {
                    Ok(s) => s,
                    Err(e) => {
                        return Err(e);
                    },
                };
                Ok(
                    TaskStream::Sort {
                        input: Box::new(upstream),
                        sort_by,
                        descending,
                        num_partitions,
                    },
                )
            },
            PhysicalPlan::Split { input, input_num_partitions, output_num_partitions } => {
                let upstream = match (*input).to_partition_tasks(psets) {
                    Ok(s) => s,
                    Err(e) => {
                        return Err(e);
                    },
                };
                Ok(
                    TaskStream::Split {
                        input: Box::new(upstream),
                        input_num_partitions,
                        output_num_partitions,
                    },
                )
            },
            PhysicalPlan::FanoutRandom { input, num_partitions } => {
                let upstream = match (*input).to_partition_tasks(psets) {
                    Ok(s) => s,
                    Err(e) => {
                        return Err(e);
                    },
                };
                Ok(TaskStream::FanoutRandom { input: Box::new(upstream), num_partitions })
            },
            PhysicalPlan::FanoutByHash { input, num_partitions, partition_by } => {
                let upstream = match (*input).to_partition_tasks(psets) {
                    Ok(s) => s,
                    Err(e) => {
                        return Err(e);
                    },
                };
                Ok(
                    TaskStream::FanoutByHash {
                        input: Box::new(upstream),
                        num_partitions,
                        partition_by,
                    },
                )
            },
            PhysicalPlan::Coalesce { input, num_from, num_to } => {
                let upstream = match (*input).to_partition_tasks(psets) {
                    Ok(s) => s,
                    Err(e) => {
                        return Err(e);
                    },
                };
                Ok(TaskStream::Coalesce { input: Box::new(upstream), num_from, num_to })
            },
            _ => Err(PlanError::Unsupported),
        }
    }

    /// Lower the stages that gather or tag partitions: merges, aggregations
    /// and writes.
    #[verifier::rlimit(100)]
    fn compile_sink(self, psets: &PartitionCache) -> (r: Result<TaskStream, PlanError>)
        requires
            self is ReduceMerge || self is Aggregate || self is TabularWriteParquet
                || self is TabularWriteCsv || self is TabularWriteJson,
        ensures
            r is Ok <==> compile_ok(self, psets.entries@),
            r matches Err(e) ==> e == compile_err(self, psets.entries@),
            r matches Ok(s) ==> crate::stream::stream_sem(s) == plan_sem(self, psets.entries@),
            r matches Ok(s) ==> compiles_to(self, s),
        decreases self, 1int,
    {
        match self {
            PhysicalPlan::ReduceMerge { input } => {
                let width: Option<usize> = match &*input {
                    PhysicalPlan::FanoutRandom { num_partitions, .. } => Some(*num_partitions),
                    PhysicalPlan::FanoutByHash { num_partitions, .. } => Some(*num_partitions),
                    _ => None,
                };
                proof {
                    assert(width == fanout_width_of(*input));
                }
                let upstream = match (*input).to_partition_tasks(psets) {
                    Ok(s) => s,
                    Err(e) => {
                        return Err(e);
                    },
                };
                match width {
                    Some(fanout_width) => Ok(
                        TaskStream::ReduceMerge { input: Box::new(upstream), fanout_width },
                    ),
                    None => Err(PlanError::Unsupported),
                }
            },
            PhysicalPlan::Aggregate { input, aggregations, group_by } => {
                let upstream = match (*input).to_partition_tasks(psets) {
                    Ok(s) => s,
                    Err(e) => {
                        return Err(e);
                    },
                };
                Ok(
                    TaskStream::Pipeline {
                        input: Box::new(upstream),
                        instruction: Instruction::LocalAggregate {
                            aggregations,
                            group_by,
                            resource_request: ResourceRequest::none(),
                        },
                    },
                )
            },
            PhysicalPlan::TabularWriteParquet { input, schema, file_info } => {
                let upstream = match (*input).to_partition_tasks(psets) {
                    Ok(s) => s,
                    Err(e) => {
                        return Err(e);
                    },
                };
                Ok(
                    TaskStream::Pipeline {
                        input: Box::new(upstream),
                        instruction: Instruction::Write {
                            schema,
                            file_info,
                            resource_request: ResourceRequest::none(),
                        },
                    },
                )
            },
            PhysicalPlan::TabularWriteCsv { input, schema, file_info } => {
                let upstream = match (*input).to_partition_tasks(psets) {
                    Ok(s) => s,
                    Err(e) => {
                        return Err(e);
                    },
                };
                Ok(
                    TaskStream::Pipeline {
                        input: Box::new(upstream),
                        instruction: Instruction::Write {
                            schema,
                            file_info,
                            resource_request: ResourceRequest::none(),
                        },
                    },
                )
            },
            PhysicalPlan::TabularWriteJson { input, schema, file_info } => {
                let upstream = match (*input).to_partition_tasks(psets) {
                    Ok(s) => s,
                    Err(e) => {
                        return Err(e);
                    },
                };
                Ok(
                    TaskStream::Pipeline {
                        input: Box::new(upstream),
                        instruction: Instruction::Write {
                            schema,
                            file_info,
                            resource_request: ResourceRequest::none(),
                        },
                    },
                )
            },
            _ => Err(PlanError::Unsupported),
        }
    }

    /// Lower this plan into a partition task stream: a single bottom-up
    /// recursive pass that compiles each node's child first and wraps the
    /// child's stream with the node's behaviour.  Only the partition cache
    /// is read; no partition data moves.  Compilation fails with
    /// `KeyNotFound` when an in-memory scan's key is absent, and with
    /// `Unsupported` on a range fan-out or a merge that does not sit on a
    /// fan-out.  Compiling consumes the tree; compiling an equal tree again
    /// yields an independent stream with identical observable semantics,
    /// since the semantics is a function of the tree and the cache alone.
    #[verifier::rlimit(100)]
    pub fn to_partition_tasks(self, psets: &PartitionCache) -> (r: Result<TaskStream, PlanError>)
        ensures
            r is Ok <==> compile_ok(self, psets.entries@),
            r matches Err(e) ==> e == compile_err(self, psets.entries@),
            r matches Ok(s) ==> crate::stream::stream_sem(s) == plan_sem(self, psets.entries@),
            r matches Ok(s) ==> compiles_to(self, s),
        decreases self, 2int,
    {
        match self {
            PhysicalPlan::Filter { .. } => self.compile_stage(psets),
            PhysicalPlan::Limit { .. } => self.compile_stage(psets),
            PhysicalPlan::Sort { .. } => self.compile_stage(psets),
            PhysicalPlan::Split { .. } => self.compile_stage(psets),
            PhysicalPlan::FanoutRandom { .. } => self.compile_stage(psets),
            PhysicalPlan::FanoutByHash { .. } => self.compile_stage(psets),
            PhysicalPlan::Coalesce { .. } => self.compile_stage(psets),
            PhysicalPlan::ReduceMerge { .. } => self.compile_sink(psets),
            PhysicalPlan::Aggregate { .. } => self.compile_sink(psets),
            PhysicalPlan::TabularWriteParquet { .. } => self.compile_sink(psets),
            PhysicalPlan::TabularWriteCsv { .. } => self.compile_sink(psets),
            PhysicalPlan::TabularWriteJson { .. } => self.compile_sink(psets),
            PhysicalPlan::InMemoryScan { cache_key } => match psets.lookup(&cache_key) {
                Some(parts) => Ok(TaskStream::PartitionRead { parts: clone_partitions(parts) }),
                None => Err(PlanError::KeyNotFound),
            },
            PhysicalPlan::TabularScanParquet { schema, file_paths, limit } => Ok(
                TaskStream::ScanTasks {
                    scan: ScanTask {
                        schema,
                        format: FileFormat::Parquet,
                        file_paths,
                        limit,
                    },
                },
            ),
            PhysicalPlan::TabularScanCsv { schema, file_paths, limit } => Ok(
                TaskStream::ScanTasks {
                    scan: ScanTask {
                        schema,
                        format: FileFormat::Csv,
                        file_paths,
                        limit,
                    },
                },
            ),
            PhysicalPlan::TabularScanJson { schema, file_paths, limit } => Ok(
                TaskStream::ScanTasks {
                    scan: ScanTask {
                        schema,
                        format: FileFormat::Json,
                        file_paths,
                        limit,
                    },
                },
            ),
            PhysicalPlan::FanoutByRange { .. } => Err(PlanError::Unsupported),
        }
    }
}

} // verus!
