//! What a generated query returns.

use vstd::prelude::*;
use super::traversal_steps::Traversal;
use super::utils::GeneratedValue;

verus! {

/// How a returned value is computed: a traversal, a variable, a value, a list or an
/// object of them (each key once, in the order it is first written).
pub enum ReturnValueExpr {
    Traversal(Traversal),
    Identifier(GeneratedValue),
    Value(GeneratedValue),
    Array(Vec<ReturnValueExpr>),
    Object(Vec<(String, ReturnValueExpr)>),
}

/// A value a query returns: under a name, as a list of items or as a single item; a
/// traversal with no name; an aggregation; a literal under its name; a list; an object.
pub enum ReturnValue {
    Named { name: GeneratedValue, value: ReturnValueExpr },
    SingleNamed { name: GeneratedValue, value: ReturnValueExpr },
    Unnamed { value: ReturnValueExpr },
    Aggregate { name: GeneratedValue, value: GeneratedValue },
    NamedLiteral { name: GeneratedValue, value: GeneratedValue },
    Literal { name: GeneratedValue, value: GeneratedValue },
    Array { values: Vec<ReturnValueExpr> },
    Object { values: Vec<(String, ReturnValueExpr)> },
}

} // verus!
