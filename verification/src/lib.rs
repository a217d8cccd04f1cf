//! A benchmarking harness for transactional key/value stores.
//!
//! The crate holds the parts of the harness that decide and compute; storage
//! engines, clocks, threads and files stay with the caller.
//!
//! - `decision`: the weighted coin that makes an operation a write or a read.
//! - `workload`: operations, transactions and the generator of workloads.
//! - `run`: the protocol that every backend adapter follows for one run.
//! - `sampler`: the state machine of the CPU sampler and its trace.
//! - `points` and `sweep`: the points of each sweep, and the driver that
//!   runs a benchmark at each of them.
//! - `report`: results and traces as delimited text.
//! - `decimal`, `command`, `mode`, `args`: decimal notation, the commands of
//!   the sampler, the modes of a database runner, command-line options.

pub mod args;
pub mod command;
pub mod decimal;
pub mod decision;
pub mod mode;
pub mod points;
pub mod report;
pub mod run;
pub mod sampler;
pub mod sweep;
pub mod workload;
