//! The per-path packet worker of an inter-blockchain relayer: the schedule of
//! pending packet messages for one directed channel end, the rules by which
//! commands change it, and the classification of the errors met on the way.
//!
//! `link` holds the units of work and the rules of scheduling, `relay_path`
//! the path with its two chains and its execution passes, `worker` the two
//! tasks that drive a path, `error` the errors and their dispositions,
//! `telemetry` the counters of a pass, and `commands` and `spawn` what the
//! relayer's commands decide before they reach a chain.

pub mod commands;
pub mod error;
pub mod event;
pub mod height;
pub mod link;
pub mod object;
pub mod relay_path;
pub mod spawn;
pub mod telemetry;
pub mod worker;
