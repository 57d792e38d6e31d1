//! Physical-plan layer of a distributed, columnar dataframe engine.
//!
//! A [`plan::PhysicalPlan`] is an immutable tree of partition-level
//! operators.  Compiling it yields a [`stream::TaskStream`]: a description of
//! partition-level work that an execution engine pulls one partition at a
//! time.  The partition-movement operators (split, coalesce, fan-out, merge,
//! two-phase limit) are implemented and verified here; expression kernels and
//! file input/output belong to collaborating layers and appear only as tagged
//! instructions.

pub mod aggregate;
pub mod compile;
pub mod engine;
pub mod error;
pub mod expr;
pub mod fanout;
pub mod hashing;
pub mod laws;
pub mod limit;
pub mod partition;
pub mod plan;
pub mod shuffle;
pub mod stream;

pub use error::PlanError;
