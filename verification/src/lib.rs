//! A small Go-subset toolchain: a lexer and parser for source files, a
//! bytecode instruction set, and a stack virtual machine with byte-oriented
//! strings, shared-storage slices, maps and buffered channels.

pub mod builtin;
pub mod cli;
pub mod config;
pub mod driver;
pub mod conversion;
pub mod package;
pub mod text;
pub mod runtime;
pub mod source;
pub mod bytecode;
pub mod frontend;
