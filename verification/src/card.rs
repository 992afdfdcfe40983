//! Records of the metadata table, one per image.

pub mod jump_cpg0016;
