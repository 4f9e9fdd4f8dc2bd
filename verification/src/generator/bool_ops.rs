//! Boolean expressions of generated code.

use vstd::prelude::*;
use super::traversal_steps::{CodeFragment, Traversal};

verus! {

/// A boolean expression: a negation, a conjunction, a disjunction, whether a traversal
/// yields anything, a traversal that yields the value, nothing, or one already written
/// out as text.
pub enum BoExp {
    Written(CodeFragment),
    Not(Box<BoExp>),
    And(Vec<BoExp>),
    Or(Vec<BoExp>),
    Exists(Traversal),
    Expr(Traversal),
    Empty,
}

} // verus!
