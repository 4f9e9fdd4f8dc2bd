//! Verified core of the Helix graph database tooling: query-compiler helpers,
//! schema lookups, code generation fragments, shortest paths and CLI bookkeeping.

pub mod text;
pub mod cli;
pub mod engine;
pub mod generator;
pub mod analyzer;
