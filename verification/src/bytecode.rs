//! The bytecode that the virtual machine runs.

pub mod instruction;
