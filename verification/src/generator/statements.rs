//! The statements of a generated query.

use vstd::prelude::*;
use super::bool_ops::BoExp;
use super::traversal_steps::Traversal;
use super::utils::GenRef;

verus! {

/// A statement of a generated query: a traversal, a variable, a literal, a list of
/// statements, a boolean expression, or nothing.
pub enum Statement {
    Traversal(Traversal),
    Identifier(GenRef<String>),
    Literal(GenRef<String>),
    Array(Vec<Statement>),
    BoExp(BoExp),
    Empty,
}

} // verus!
