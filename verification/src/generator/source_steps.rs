//! The steps a generated traversal starts from.

use vstd::prelude::*;
use super::bool_ops::BoExp;
use super::traversal_steps::CodeFragment;
use super::utils::{GenRef, GeneratedValue, VecData};

verus! {

/// The step a generated traversal starts from: a variable, the items of a type (all of
/// them, the one with an id, or the one whose indexed field holds a key), the item an
/// enclosing traversal is at, a vector search, a text search over the nodes of a type, or
/// a step already written out as text.
pub enum SourceStep {
    Written(CodeFragment),
    Identifier(GenRef<String>),
    NFromIndex { label: GenRef<String>, index: GenRef<String>, key: GeneratedValue },
    NFromID { id: GenRef<String>, label: GenRef<String> },
    NFromType { label: GenRef<String> },
    EFromID { id: GenRef<String>, label: GenRef<String> },
    EFromType { label: GenRef<String> },
    VFromID { id: GenRef<String>, label: GenRef<String> },
    VFromType { label: GenRef<String> },
    SearchVector { label: GenRef<String>, vec: VecData, k: GeneratedValue, pre_filter: Option<Vec<BoExp>> },
    SearchBM25 { type_arg: GenRef<String>, query: GeneratedValue, k: GeneratedValue },
    Anonymous,
}

} // verus!
