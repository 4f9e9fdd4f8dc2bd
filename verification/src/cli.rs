//! Bookkeeping of the command-line tool: credentials, local instances, and where a
//! project keeps its configuration.

pub mod credentials;
pub mod instances;
pub mod config;
pub mod toolchain;
pub mod files;
pub mod project;
