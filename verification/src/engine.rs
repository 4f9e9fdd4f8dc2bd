//! The graph engine: shortest paths over the out-edges of stored nodes.

pub mod paths;
