use vstd::prelude::*;

use crate::aggregate::{agg_parts_err, aggregate_all, local_aggregate};
use crate::compile::{compile_err, compile_ok, plan_sem};
use crate::error::PlanError;
use crate::fanout::{fanout_by_hash, fanout_random, reduce_merge};
use crate::limit::{global_limit, local_limit};
use crate::partition::{clone_partitions, parts_view, Partition, PartitionCache};
use crate::plan::PhysicalPlan;
use crate::shuffle::{coalesce, split};
use crate::stream::{instruction_sem, stream_sem, Instruction, TaskStream};

verus! {

/// Run one tagged instruction over materialized partitions.  The reference
/// engine computes grouped aggregations itself; filtering and writing need
/// the expression kernels and the file sinks, which are collaborators, so it
/// reports them `Unsupported`.
pub fn apply_instruction(instr: &Instruction, parts: &Vec<Partition>) -> (r: Result<
    Vec<Partition>,
    PlanError,
>)
    ensures
        match r {
            Ok(out) => instruction_sem(*instr, parts_view(parts@)) == Ok::<Seq<Seq<Seq<i64>>>, PlanError>(parts_view(out@)),
            Err(e) => instruction_sem(*instr, parts_view(parts@)) == Err::<
                Seq<Seq<Seq<i64>>>,
                PlanError,
            >(e),
        },
{
    match instr {
        Instruction::Filter { .. } => Err(PlanError::Unsupported),
        Instruction::Write { .. } => Err(PlanError::Unsupported),
        Instruction::LocalAggregate { aggregations, group_by, .. } => {
            let ghost pv: Seq<Seq<Seq<i64>>> = parts_view(parts@);
            let mut out: Vec<Partition> = Vec::new();
            proof {
                assert(pv.skip(0) =~= pv);
            }
            let mut i: usize = 0;
            while i < parts.len()
                invariant
                    i <= parts.len(),
                    pv == parts_view(parts@),
                    out@.len() == i,
                    (*instr) matches Instruction::LocalAggregate { aggregations: a, group_by: g, .. }
                        && a == *aggregations && g == *group_by,
                    agg_parts_err(pv, group_by@, aggregations@) == agg_parts_err(
                        pv.skip(i as int),
                        group_by@,
                        aggregations@,
                    ),
                    forall|j: int|
                        0 <= j < i ==> out@[j]@ == crate::aggregate::aggregate_spec(
                            pv[j],
                            group_by@,
                            aggregations@,
                        ),
                decreases parts.len() - i,
            {
                proof {
                    assert(pv.skip(i as int)[0] == pv[i as int]);
                    assert(pv.skip(i as int).drop_first() =~= pv.skip(i + 1 as int));
                    assert(parts@[i as int]@ == pv[i as int]);
                }
                match local_aggregate(&parts[i], group_by, aggregations) {
                    Ok(p) => {
                        out.push(p);
                    },
                    Err(e) => {
                        proof {
                            assert(crate::aggregate::agg_part_err(
                                pv[i as int],
                                group_by@,
                                aggregations@,
                            ) == Some(e));
                            assert(agg_parts_err(pv.skip(i as int), group_by@, aggregations@)
                                == Some(e));
                        }
                        return Err(e);
                    },
                }
                i = i + 1;
            }
            proof {
                assert(pv.skip(pv.len() as int).len() == 0);
                assert(parts_view(out@) =~= aggregate_all(pv, group_by@, aggregations@));
            }
            Ok(out)
        },
    }
}

/// Pull a task stream to exhaustion against the reference engine: execute
/// the partition-movement stages natively and report `Unsupported` for the
/// stages that need collaborators.  The global limit stage's early
/// termination is observable through [`global_limit`], which reports how
/// many upstream partitions it pulled.
pub fn execute_stream(s: &TaskStream) -> (r: Result<Vec<Partition>, PlanError>)
    ensures
        match r {
            Ok(out) => stream_sem(*s) == Ok::<Seq<Seq<Seq<i64>>>, PlanError>(parts_view(out@)),
            Err(e) => stream_sem(*s) == Err::<Seq<Seq<Seq<i64>>>, PlanError>(e),
        },
    decreases *s,
{
    match s {
        TaskStream::PartitionRead { parts } => Ok(clone_partitions(parts)),
        TaskStream::ScanTasks { .. } => Err(PlanError::Unsupported),
        TaskStream::Pipeline { input, instruction } => match execute_stream(input) {
            Ok(parts) => apply_instruction(instruction, &parts),
            Err(e) => Err(e),
        },
        TaskStream::LocalLimit { input, limit } => match execute_stream(input) {
            Ok(parts) => Ok(local_limit(&parts, *limit)),
            Err(e) => Err(e),
        },
        TaskStream::GlobalLimit { input, limit, .. } => match execute_stream(input) {
            Ok(parts) => {
                let (out, _pulled) = global_limit(&parts, *limit);
                Ok(out)
            },
            Err(e) => Err(e),
        },
        TaskStream::Sort { input, .. } => match execute_stream(input) {
            Ok(_) => Err(PlanError::Unsupported),
            Err(e) => Err(e),
        },
        TaskStream::Split { input, output_num_partitions, .. } => match execute_stream(input) {
            Ok(parts) => {
                if *output_num_partitions >= 1 {
                    Ok(split(&parts, *output_num_partitions))
                } else {
                    Err(PlanError::Unsupported)
                }
            },
            Err(e) => Err(e),
        },
        TaskStream::FanoutRandom { input, num_partitions } => match execute_stream(input) {
            Ok(parts) => {
                if *num_partitions >= 1 {
                    Ok(fanout_random(&parts, *num_partitions))
                } else {
                    Err(PlanError::Unsupported)
                }
            },
            Err(e) => Err(e),
        },
        TaskStream::FanoutByHash { input, num_partitions, partition_by } => {
            match execute_stream(input) {
                Ok(parts) => {
                    if *num_partitions >= 1 {
                        fanout_by_hash(&parts, *num_partitions, partition_by)
                    } else {
                        Err(PlanError::Unsupported)
                    }
                },
                Err(e) => Err(e),
            }
        },
        TaskStream::ReduceMerge { input, fanout_width } => match execute_stream(input) {
            Ok(parts) => reduce_merge(&parts, *fanout_width),
            Err(e) => Err(e),
        },
        TaskStream::Coalesce { input, num_to, .. } => match execute_stream(input) {
            Ok(parts) => {
                if *num_to >= 1 {
                    Ok(coalesce(&parts, *num_to))
                } else {
                    Err(PlanError::Unsupported)
                }
            },
            Err(e) => Err(e),
        },
    }
}

/// Compile a plan against the staged partition cache and pull the resulting
/// stream to exhaustion with the reference engine.
pub fn run_physical_plan(plan: PhysicalPlan, psets: &PartitionCache) -> (r: Result<
    Vec<Partition>,
    PlanError,
>)
    ensures
        compile_ok(plan, psets.entries@) ==> match r {
            Ok(out) => plan_sem(plan, psets.entries@) == Ok::<Seq<Seq<Seq<i64>>>, PlanError>(parts_view(out@)),
            Err(e) => plan_sem(plan, psets.entries@) == Err::<Seq<Seq<Seq<i64>>>, PlanError>(e),
        },
        !compile_ok(plan, psets.entries@) ==> r == Err::<Vec<Partition>, PlanError>(
            compile_err(plan, psets.entries@),
        ),
{
    match plan.to_partition_tasks(psets) {
        Ok(stream) => execute_stream(&stream),
        Err(e) => Err(e),
    }
}

} // verus!
