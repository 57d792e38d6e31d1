use vstd::prelude::*;

use crate::aggregate::{agg_parts_err, aggregate_all};
use crate::error::PlanError;
use crate::expr::{AggExpr, Expr, Schema};
use crate::fanout::{fanout_hash_all, fanout_rr_all, parts_err};
use crate::limit::{global_take, local_limit_spec};
use crate::partition::{parts_view, Partition};
use crate::plan::{FileFormat, OutputFileInfo, ResourceRequest};
use crate::shuffle::{coalesce_spec, split_spec};

verus! {

/// A read instruction: the files to decode and how.  The compiler never
/// reads data itself; the execution engine performs the decode.
#[derive(Debug)]
pub struct ScanTask {
    pub schema: Schema,
    pub format: FileFormat,
    pub file_paths: Vec<String>,
    pub limit: Option<usize>,
}

/// A partition-level instruction tagged onto each pulled partition of a
/// pipelined stage.  Instructions are data, never executable code.
#[derive(Debug)]
pub enum Instruction {
    /// Keep the rows satisfying `predicate`; count and order of partitions
    /// are unchanged.
    Filter { predicate: Expr, resource_request: ResourceRequest },
    /// Group each partition by `group_by` and aggregate per group; no
    /// cross-partition coordination.
    LocalAggregate {
        aggregations: Vec<AggExpr>,
        group_by: Vec<Expr>,
        resource_request: ResourceRequest,
    },
    /// Write the partition to the described sink and yield its write
    /// manifest.
    Write { schema: Schema, file_info: OutputFileInfo, resource_request: ResourceRequest },
}

/// A lazily-evaluated description of partition-level work, produced by
/// compiling a [`crate::plan::PhysicalPlan`].  Each stage exclusively owns
/// its upstream stream; a stream is pulled once and is not restartable.
#[derive(Debug)]
pub enum TaskStream {
    /// Yield these partitions in order, once each, then terminate.
    PartitionRead { parts: Vec<Partition> },
    /// Yield read instructions; no data is read at compile time.
    ScanTasks { scan: ScanTask },
    /// Tag each partition pulled from `input` with `instruction`.
    Pipeline { input: Box<TaskStream>, instruction: Instruction },
    /// Cap each upstream partition at `limit` rows.
    LocalLimit { input: Box<TaskStream>, limit: usize },
    /// Track a running row budget of `limit` across pulled partitions and
    /// stop pulling once it is exhausted.
    GlobalLimit { input: Box<TaskStream>, limit: usize, num_partitions: usize },
    /// Sort the upstream rows into `num_partitions` partitions; the
    /// reference engine does not implement this.
    Sort {
        input: Box<TaskStream>,
        sort_by: Vec<Expr>,
        descending: Vec<bool>,
        num_partitions: usize,
    },
    /// Redistribute the upstream rows as contiguous ranges over
    /// `output_num_partitions` partitions.
    Split {
        input: Box<TaskStream>,
        input_num_partitions: usize,
        output_num_partitions: usize,
    },
    /// Scatter each upstream partition over `num_partitions` buckets by the
    /// round-robin balancing policy.
    FanoutRandom { input: Box<TaskStream>, num_partitions: usize },
    /// Scatter each upstream partition over `num_partitions` buckets by key
    /// hash.
    FanoutByHash { input: Box<TaskStream>, num_partitions: usize, partition_by: Vec<Expr> },
    /// Gather the buckets of the upstream fan-out of width `fanout_width`
    /// into one merged partition per bucket index.
    ReduceMerge { input: Box<TaskStream>, fanout_width: usize },
    /// Concatenate contiguous groups of upstream partitions into `num_to`
    /// partitions.
    Coalesce { input: Box<TaskStream>, num_from: usize, num_to: usize },
}

/// What the reference execution engine yields for an instruction applied to
/// the partitions of the upstream stage.  Filtering and writing need the
/// expression kernels and the file sinks, which are collaborators, so the
/// reference engine reports them `Unsupported`.
pub open spec fn instruction_sem(instr: Instruction, pv: Seq<Seq<Seq<i64>>>) -> Result<
    Seq<Seq<Seq<i64>>>,
    PlanError,
> {
    match instr {
        Instruction::Filter { .. } => Err(PlanError::Unsupported),
        Instruction::LocalAggregate { aggregations, group_by, .. } => {
            match agg_parts_err(pv, group_by@, aggregations@) {
                Some(e) => Err(e),
                None => Ok(aggregate_all(pv, group_by@, aggregations@)),
            }
        },
        Instruction::Write { .. } => Err(PlanError::Unsupported),
    }
}

/// What the reference execution engine yields when it pulls a task stream to
/// exhaustion: the resulting partitions, or the error that stopped it.  File
/// scans and sorts need collaborators the reference engine does not have and
/// are `Unsupported` there.
pub open spec fn stream_sem(s: TaskStream) -> Result<Seq<Seq<Seq<i64>>>, PlanError>
    decreases s,
{
    match s {
        TaskStream::PartitionRead { parts } => Ok(parts_view(parts@)),
        TaskStream::ScanTasks { .. } => Err(PlanError::Unsupported),
        TaskStream::Pipeline { input, instruction } => match stream_sem(*input) {
            Ok(pv) => instruction_sem(instruction, pv),
            Err(e) => Err(e),
        },
        TaskStream::LocalLimit { input, limit } => match stream_sem(*input) {
            Ok(pv) => Ok(local_limit_spec(pv, limit as int)),
            Err(e) => Err(e),
        },
        TaskStream::GlobalLimit { input, limit, .. } => match stream_sem(*input) {
            Ok(pv) => Ok(global_take(pv, limit as int)),
            Err(e) => Err(e),
        },
        TaskStream::Sort { input, .. } => match stream_sem(*input) {
            Ok(pv) => Err(PlanError::Unsupported),
            Err(e) => Err(e),
        },
        TaskStream::Split { input, output_num_partitions, .. } => match stream_sem(*input) {
            Ok(pv) => {
                if output_num_partitions >= 1 {
                    Ok(split_spec(pv, output_num_partitions as int))
                } else {
                    Err(PlanError::Unsupported)
                }
            },
            Err(e) => Err(e),
        },
        TaskStream::FanoutRandom { input, num_partitions } => match stream_sem(*input) {
            Ok(pv) => {
                if num_partitions >= 1 {
                    Ok(fanout_rr_all(pv, num_partitions as int))
                } else {
                    Err(PlanError::Unsupported)
                }
            },
            Err(e) => Err(e),
        },
        TaskStream::FanoutByHash { input, num_partitions, partition_by } => {
            match stream_sem(*input) {
                Ok(pv) => {
                    if num_partitions >= 1 {
                        match parts_err(partition_by@, pv) {
                            Some(e) => Err(e),
                            None => Ok(fanout_hash_all(pv, partition_by@, num_partitions as int)),
                        }
                    } else {
                        Err(PlanError::Unsupported)
                    }
                },
                Err(e) => Err(e),
            }
        },
        TaskStream::ReduceMerge { input, fanout_width } => match stream_sem(*input) {
            Ok(pv) => {
                if fanout_width >= 1 && pv.len() as int % fanout_width as int == 0 {
                    Ok(crate::fanout::merge_spec(pv, fanout_width as int))
                } else {
                    Err(PlanError::Unsupported)
                }
            },
            Err(e) => Err(e),
        },
        TaskStream::Coalesce { input, num_to, .. } => match stream_sem(*input) {
            Ok(pv) => {
                if num_to >= 1 {
                    Ok(coalesce_spec(pv, num_to as int))
                } else {
                    Err(PlanError::Unsupported)
                }
            },
            Err(e) => Err(e),
        },
    }
}

} // verus!
