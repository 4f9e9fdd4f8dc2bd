//! Semantic analysis of Helix queries and schemas: the data it works on, the helpers that
//! check names and fields, the field tables built from schemas, the schema checks, the
//! checking of graph steps, and the checking of parameter types.

pub mod str_map;
pub mod types;
pub mod values;
pub mod utils;
pub mod schema_methods;
pub mod schema_laws;
pub mod graph_step_validation;
pub mod query_validation;
pub mod traversal_validation;
pub mod infer_expr_type;
pub mod return_values;
