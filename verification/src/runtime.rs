//! The runtime: values, their shared storage, and the virtual machine.

pub mod byteseq;
pub mod laws;
pub mod value;
pub mod vm;
