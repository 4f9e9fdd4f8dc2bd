//! Code generation: the pieces of Rust source text that compiled queries are made of.

pub mod traversal_steps;
pub mod utils;
pub mod queries;
pub mod source_steps;
pub mod bool_ops;
pub mod statements;
pub mod return_values;
