//! Verified core of a Scalar execution node.

pub mod attempt_run;
pub mod block_executor;
pub mod block_output;
pub mod byte_set;
pub mod cluster;
pub mod config;
pub mod consensus;
pub mod context;
pub mod debug;
pub mod env;
pub mod fees;
pub mod hardfork;
pub mod insertion;
pub mod laws;
pub mod mode;
pub mod parallel;
pub mod primitives;
pub mod seth;
pub mod task;
pub mod task_run;
pub mod transaction;
