//! Laws of the node, stated over what goes into its operations and what comes out of them.

pub mod execution;
pub mod insertion;
pub mod mining;
pub mod next_block;
pub mod numbers;
pub mod plan;
pub mod receipts;
pub mod rules;
pub mod settlement;
