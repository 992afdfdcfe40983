//! What the user asks for, and whether it can be carried out.

pub mod jump_cpg0016;
