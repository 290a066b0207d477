//! A small Forth workbench engine: data and return stacks, cell memory,
//! a dictionary of primitives and user words, a compiler to an opcode IR
//! and an iterative VM, all with machine-checked contracts.

pub mod text;
pub mod number;
pub mod types;
pub mod order;
pub mod dict;
pub mod model;
pub mod semantics;
pub mod machine;
pub use machine::Machine;
pub mod laws;
pub mod logs;
