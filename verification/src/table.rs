//! The lookup tables of the datasets.

pub mod batch;
pub mod jump_cpg0016;
