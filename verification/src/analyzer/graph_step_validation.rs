//! Checking a graph navigation step against the element kind it is applied to, and the
//! step of generated code it becomes.

use vstd::prelude::*;
use vstd::string::StringExecFns;
use crate::text::{integer_text, signed_to_string, unsigned_to_string};
use crate::generator::queries::Query as GeneratedQuery;
use crate::generator::traversal_steps::{
    In, InE, Out, OutE, SearchVectorStep, ShortestPath, ShouldCollect, Step, Traversal, step_code,
};
use crate::generator::utils::{
    embed_name, put, put_string, EmbedData, GenRef, GeneratedValue, Separator, VecData,
};
use super::schema_methods::{names_contain, DiagnosticView};
use super::str_map::{contains_name, StrMap};
use super::types::{
    type_view, Ctx, ErrorCode, EvaluatesToNumber, EvaluatesToNumberType, EvaluatesToString,
    EdgeSchema, GraphStep, GraphStepType, IdType, Loc, Query, SearchVector, ShortestPathStep, Type, TypeView,
    VectorData,
};
use super::utils::{
    base_type, gen_identifier_or_param, identifier_or_param, is_item_type, is_valid_identifier,
    item_kind, item_name, push_query_error, query_error, reserved_identifier, same_but_diagnostics,
    type_in_scope,
};

verus! {

/// The view of an optional type.
pub open spec fn opt_type_view(o: Option<Type>) -> Option<TypeView> {
    match o {
        Some(t) => Some(type_view(t)),
        None => None,
    }
}

/// Whether the context's diagnostics grew by `added`, and nothing else changed.
pub open spec fn reported(c0: Ctx, c1: Ctx, added: Seq<DiagnosticView>) -> bool {
    c1.diagnostics.deep_view() == c0.diagnostics.deep_view() + added && same_but_diagnostics(c0, c1)
}

/// Whether one step, with a period before it, was appended to the traversal.
pub open spec fn appended(t0: Traversal, t1: Traversal) -> bool {
    &&& t1.steps@.len() == t0.steps@.len() + 1
    &&& t1.steps@.drop_last() == t0.steps@
    &&& t1.steps@.last() is Period
    &&& t1.traversal_type == t0.traversal_type
    &&& t1.source_step == t0.source_step
}

/// The last step of a traversal.
pub open spec fn last_step(t: Traversal) -> Step {
    t.steps@.last().inner_spec()
}

/// Whether a reference is a literal with the given text.
pub open spec fn is_literal_of(g: GenRef<String>, text: Seq<char>) -> bool {
    g is Literal && g.inner_spec()@ == text
}

/// Whether a reference is what an id becomes (see `id_gen_ref`), by the views of its text.
pub open spec fn id_ref_matches(g: GenRef<String>, id: IdType) -> bool {
    match id {
        IdType::Literal { value, .. } => is_literal_of(g, value@),
        IdType::Identifier { value, .. } => g matches GenRef::Id(s) && s@ == value@,
        IdType::ByIndex { .. } => g is Unknown,
    }
}

/// Whether an optional reference is what an optional id becomes.
pub open spec fn opt_id_matches(o: Option<GenRef<String>>, id: Option<IdType>) -> bool {
    match (o, id) {
        (Some(g), Some(i)) => id_ref_matches(g, i),
        (None, None) => true,
        _ => false,
    }
}

/// Whether an optional reference is the literal of an optional name.
pub open spec fn opt_literal_matches(o: Option<GenRef<String>>, s: Option<String>) -> bool {
    match (o, s) {
        (Some(g), Some(t)) => is_literal_of(g, t@),
        (None, None) => true,
        _ => false,
    }
}

/// The name of a node or vector type, one or many.
pub open spec fn node_like_name(t: Type) -> Option<Seq<char>> {
    match t {
        Type::Nodes(Some(n)) => Some(n@),
        Type::Node(Some(n)) => Some(n@),
        Type::Vectors(Some(n)) => Some(n@),
        Type::Vector(Some(n)) => Some(n@),
        _ => None,
    }
}

/// The name of an edge type, one or many.
pub open spec fn edge_name(t: Type) -> Option<Seq<char>> {
    match t {
        Type::Edges(Some(n)) => Some(n@),
        Type::Edge(Some(n)) => Some(n@),
        _ => None,
    }
}

/// The name of a vector type, one or many.
pub open spec fn vector_name(t: Type) -> Option<Seq<char>> {
    match t {
        Type::Vectors(Some(n)) => Some(n@),
        Type::Vector(Some(n)) => Some(n@),
        _ => None,
    }
}

/// What stepping from nodes or vectors to their outgoing (or incoming) edges does: the
/// step is added and collected to a vector; the edge type must exist (E102) and start
/// (or end) at the current type (E207 going out, E102 coming in); the result is edges.
pub open spec fn to_edges_outcome(
    c0: Ctx,
    c1: Ctx,
    q: Query,
    loc: Loc,
    label: Seq<char>,
    node_label: Seq<char>,
    outgoing: bool,
    t0: Traversal,
    t1: Traversal,
    r: Option<Type>,
) -> bool {
    &&& appended(t0, t1)
    &&& t1.should_collect == ShouldCollect::ToVec
    &&& if outgoing {
        last_step(t1) matches Step::OutE(o) && is_literal_of(o.label, label)
    } else {
        last_step(t1) matches Step::InE(i) && is_literal_of(i.label, label)
    }
    &&& match c0.edge_map@.get(label) {
        None => r is None && reported(c0, c1, seq![query_error(loc, ErrorCode::E102, q, seq![label])]),
        Some(edge) => if (if outgoing {
            edge.2.1
        } else {
            edge.3.1
        }) == node_label {
            opt_type_view(r) == Some(TypeView::Edges(Some(label))) && reported(c0, c1, Seq::empty())
        } else {
            r is None && reported(
                c0,
                c1,
                seq![
                    if outgoing {
                        query_error(loc, ErrorCode::E207, q, seq![label, "node"@, node_label])
                    } else {
                        query_error(loc, ErrorCode::E102, q, seq![label])
                    },
                ],
            )
        },
    }
}

/// The text that names the kind of item an edge leads to in generated code.
pub open spec fn edge_type_code(to_node: bool) -> Seq<char> {
    if to_node {
        "EdgeType::Node"@
    } else {
        "EdgeType::Vec"@
    }
}

/// What stepping from nodes or vectors to the items at the other end of their outgoing
/// (or incoming) edges does. The edge type must exist and its far end must be a node or
/// vector type (E102, and nothing is added); then the step is added and collected to a
/// vector, and the edge must start (or end) at the current type (E207).
pub open spec fn to_nodes_outcome(
    c0: Ctx,
    c1: Ctx,
    q: Query,
    loc: Loc,
    label: Seq<char>,
    node_label: Seq<char>,
    outgoing: bool,
    t0: Traversal,
    t1: Traversal,
    r: Option<Type>,
) -> bool {
    match c0.edge_map@.get(label) {
        None => r is None && t1 == t0 && reported(
            c0,
            c1,
            seq![query_error(loc, ErrorCode::E102, q, seq![label])],
        ),
        Some(edge) => {
            let far = if outgoing {
                edge.3.1
            } else {
                edge.2.1
            };
            let near = if outgoing {
                edge.2.1
            } else {
                edge.3.1
            };
            let to_node = names_contain(c0.node_set@, far);
            if !to_node && !names_contain(c0.vector_set@, far) {
                r is None && t1 == t0 && reported(
                    c0,
                    c1,
                    seq![query_error(loc, ErrorCode::E102, q, seq![label])],
                )
            } else {
                &&& appended(t0, t1)
                &&& t1.should_collect == ShouldCollect::ToVec
                &&& if outgoing {
                    last_step(t1) matches Step::Out(o) && is_literal_of(o.label, label)
                        && o.edge_type is Ref && o.edge_type.inner_spec()@ == edge_type_code(
                        to_node,
                    )
                } else {
                    last_step(t1) matches Step::In(i) && is_literal_of(i.label, label)
                        && i.edge_type is Ref && i.edge_type.inner_spec()@ == edge_type_code(
                        to_node,
                    )
                }
                &&& if near == node_label {
                    opt_type_view(r) == Some(
                        if to_node {
                            TypeView::Nodes(Some(far))
                        } else {
                            TypeView::Vectors(Some(far))
                        },
                    ) && reported(c0, c1, Seq::empty())
                } else {
                    r is None && reported(
                        c0,
                        c1,
                        seq![query_error(loc, ErrorCode::E207, q, seq![label, "node"@, node_label])],
                    )
                }
            }
        },
    }
}

/// Whether a step moves to an edge's source or target, as a node or a vector.
pub open spec fn end_step(s: Step, from_end: bool, to_vectors: bool) -> bool {
    if from_end && !to_vectors {
        s is FromN
    } else if !from_end && !to_vectors {
        s is ToN
    } else if from_end {
        s is FromV
    } else {
        s is ToV
    }
}

/// What stepping from edges to their source (or target) nodes (or vectors) does: the step
/// is added; many edges collect to a vector, one edge to an object. When the edge type is
/// known, its end must be of the expected kind (`code`), and the result is that end,
/// many or one as the edges were.
pub open spec fn edge_end_outcome(
    c0: Ctx,
    c1: Ctx,
    q: Query,
    loc: Loc,
    cur_ty: Type,
    edge_type: Seq<char>,
    from_end: bool,
    to_vectors: bool,
    code: ErrorCode,
    t0: Traversal,
    t1: Traversal,
    r: Option<Type>,
) -> bool {
    &&& appended(t0, t1)
    &&& end_step(last_step(t1), from_end, to_vectors)
    &&& t1.should_collect == match cur_ty {
        Type::Edges(_) => ShouldCollect::ToVec,
        Type::Edge(_) => ShouldCollect::ToObj,
        _ => t0.should_collect,
    }
    &&& match c0.edge_map@.get(edge_type) {
        None => r is None && reported(c0, c1, Seq::empty()),
        Some(edge) => {
            let end = if from_end {
                edge.2.1
            } else {
                edge.3.1
            };
            let known = if to_vectors {
                names_contain(c0.vector_set@, end)
            } else {
                names_contain(c0.node_set@, end)
            };
            &&& reported(
                c0,
                c1,
                if known {
                    Seq::empty()
                } else {
                    seq![query_error(loc, code, q, seq![edge_type])]
                },
            )
            &&& opt_type_view(r) == match cur_ty {
                Type::Edges(_) => Some(
                    if to_vectors {
                        TypeView::Vectors(Some(end))
                    } else {
                        TypeView::Nodes(Some(end))
                    },
                ),
                Type::Edge(_) => Some(
                    if to_vectors {
                        TypeView::Vector(Some(end))
                    } else {
                        TypeView::Node(Some(end))
                    },
                ),
                _ => None,
            }
        },
    }
}

/// The message for a shortest-path step with neither end.
pub open spec fn shortest_path_message() -> Seq<char> {
    "ShortestPath requires at least one of 'from' or 'to' to be specified"@
}

/// What a shortest-path step does: it needs at least one end (E601, and nothing is added);
/// the step carries the label as a literal and the ends as references, collects to a
/// vector, and the result's type is unknown.
pub open spec fn shortest_path_outcome(
    c0: Ctx,
    c1: Ctx,
    q: Query,
    loc: Loc,
    sp: ShortestPathStep,
    t0: Traversal,
    t1: Traversal,
    r: Option<Type>,
) -> bool {
    if sp.from is None && sp.to is None {
        r is None && t1 == t0 && reported(
            c0,
            c1,
            seq![query_error(loc, ErrorCode::E601, q, seq![shortest_path_message()])],
        )
    } else {
        &&& appended(t0, t1)
        &&& t1.should_collect == ShouldCollect::ToVec
        &&& last_step(t1) matches Step::ShortestPath(p) && opt_literal_matches(p.label, sp.type_arg)
            && opt_id_matches(p.from, sp.from) && opt_id_matches(p.to, sp.to)
        &&& opt_type_view(r) == Some(TypeView::Unknown)
        &&& reported(c0, c1, Seq::empty())
    }
}

/// The first `n` texts, joined with `,`.
pub open spec fn strings_joined(v: Seq<String>, n: nat) -> Seq<char>
    decreases n,
{
    if n == 0 || n > v.len() {
        Seq::empty()
    } else if n == 1 {
        v[0]@
    } else {
        strings_joined(v, (n - 1) as nat) + ","@ + v[n - 1]@
    }
}

/// The decimal text of an integer argument; `None` for the other kinds.
pub open spec fn number_text(v: EvaluatesToNumberType) -> Option<Seq<char>> {
    match v {
        EvaluatesToNumberType::I8(x) => Some(integer_text(x as int)),
        EvaluatesToNumberType::I16(x) => Some(integer_text(x as int)),
        EvaluatesToNumberType::I32(x) => Some(integer_text(x as int)),
        EvaluatesToNumberType::I64(x) => Some(integer_text(x as int)),
        EvaluatesToNumberType::U8(x) => Some(integer_text(x as int)),
        EvaluatesToNumberType::U16(x) => Some(integer_text(x as int)),
        EvaluatesToNumberType::U32(x) => Some(integer_text(x as int)),
        EvaluatesToNumberType::U64(x) => Some(integer_text(x as int)),
        EvaluatesToNumberType::U128(x) => Some(integer_text(x as int)),
        _ => None,
    }
}

/// The arguments of a diagnostic about a missing or unusable argument of a vector search.
pub open spec fn search_arg_details(arg: Seq<char>) -> Seq<Seq<char>> {
    seq![arg, "SearchV"@, arg]
}

/// The diagnostics of a vector search, in order: a current type that is not plainly a
/// vector type (E603), an unknown vector type (E103), then those of the query vector (a
/// reserved name E105, an unbound name E301, none given E305), then those of the result
/// count (a reserved name E105, a float or none given E305).
pub open spec fn search_vector_errors(c0: Ctx, q: Query, sv: SearchVector, cur_ty: Type, scope: StrMap<Type>) -> Seq<
    DiagnosticView,
> {
    let e1 = if !(cur_ty is Vector || cur_ty is Vectors) {
        seq![query_error(sv.loc, ErrorCode::E603, q, seq![item_name(cur_ty), item_kind(cur_ty)])]
    } else {
        Seq::empty()
    };
    let e2 = match sv.vector_type {
        Some(ty) => if !names_contain(c0.vector_set@, ty@) {
            seq![query_error(sv.loc, ErrorCode::E103, q, seq![ty@])]
        } else {
            Seq::empty()
        },
        None => Seq::empty(),
    };
    let e3 = match sv.data {
        Some(VectorData::Identifier(i)) => (if reserved_identifier(i@) {
            seq![query_error(sv.loc, ErrorCode::E105, q, seq![i@])]
        } else {
            Seq::empty()
        }) + (if scope@.contains_key(i@) {
            Seq::empty()
        } else {
            seq![query_error(sv.loc, ErrorCode::E301, q, seq![i@])]
        }),
        None => seq![query_error(sv.loc, ErrorCode::E305, q, search_arg_details("vector_data"@))],
        _ => Seq::empty(),
    };
    let e4 = match sv.k {
        Some(k) => match k.value {
            EvaluatesToNumberType::Identifier(i) => if reserved_identifier(i@) {
                seq![query_error(sv.loc, ErrorCode::E105, q, seq![i@])]
            } else {
                Seq::empty()
            },
            EvaluatesToNumberType::F32 | EvaluatesToNumberType::F64 => seq![
                query_error(sv.loc, ErrorCode::E305, q, search_arg_details("k"@)),
            ],
            _ => Seq::empty(),
        },
        None => seq![query_error(sv.loc, ErrorCode::E305, q, search_arg_details("k"@))],
    };
    e1 + e2 + e3 + e4
}

/// Whether the query vector of a search step is what the search's data becomes: literal
/// components as a bracketed list, a variable read by reference, a text to embed as the
/// variable that will hold its embedding, and nothing as an unknown value.
pub open spec fn vec_matches(v: VecData, data: Option<VectorData>, q: Query, g0: GeneratedQuery) -> bool {
    match data {
        Some(VectorData::Vector(cs)) => v matches VecData::Standard(GeneratedValue::Literal(g)) && g
            is Ref && g.inner_spec()@ == "["@ + strings_joined(cs@, cs@.len()) + "]"@,
        Some(VectorData::Identifier(i)) => v matches VecData::Standard(val) && identifier_or_param(
            q,
            i@,
            true,
            val,
        ),
        Some(VectorData::Embed(_)) => v matches VecData::Hoisted(name) && name@ == embed_name(
            g0.hoisted_embedding_calls@.len(),
        ),
        None => v matches VecData::Standard(GeneratedValue::Unknown),
    }
}

/// Whether the result count of a search step is what the search's count becomes: an
/// integer as its decimal text, a variable read by value, anything else unknown.
pub open spec fn k_matches(k: GeneratedValue, count: Option<EvaluatesToNumber>, q: Query) -> bool {
    match count {
        Some(n) => match n.value {
            EvaluatesToNumberType::Identifier(i) => identifier_or_param(q, i@, false, k),
            _ => match number_text(n.value) {
                Some(text) => k matches GeneratedValue::Primitive(g) && g is Std && g.inner_spec()@
                    == text,
                None => k is Unknown,
            },
        },
        None => k is Unknown,
    }
}

/// The view of an optional name.
pub open spec fn opt_string_view(o: Option<String>) -> Option<Seq<char>> {
    match o {
        Some(s) => Some(s@),
        None => None,
    }
}

/// What a vector search does to the generated query: a text to embed is recorded as one
/// more embedding, with the query's model; otherwise the query is unchanged.
pub open spec fn embeds_outcome(data: Option<VectorData>, q: Query, g0: GeneratedQuery, g1: GeneratedQuery) -> bool {
    match data {
        Some(VectorData::Embed(e)) => {
            let calls = g1.hoisted_embedding_calls@;
            &&& calls.len() == g0.hoisted_embedding_calls@.len() + 1
            &&& calls.drop_last() == g0.hoisted_embedding_calls@
            &&& g1.name == g0.name
            &&& g1.embedding_model_to_use == g0.embedding_model_to_use
            &&& opt_string_view(calls.last().model_name) == opt_string_view(
                g0.embedding_model_to_use,
            )
            &&& match e.value {
                EvaluatesToString::Identifier(i) => identifier_or_param(q, i@, true, calls.last().data),
                EvaluatesToString::StringLiteral(s) => calls.last().data matches GeneratedValue::Literal(
                    g,
                ) && g is Ref && g.inner_spec()@ == s@,
            }
        },
        _ => g1 == g0,
    }
}

/// What a vector search on vectors does: the search step is added and collected to a
/// vector, its diagnostics are reported (see [`search_vector_errors`]), and the result is
/// vectors of the current vector type.
pub open spec fn search_vector_outcome(
    c0: Ctx,
    c1: Ctx,
    q: Query,
    sv: SearchVector,
    cur_ty: Type,
    vector_ty: Seq<char>,
    scope: StrMap<Type>,
    g0: GeneratedQuery,
    g1: GeneratedQuery,
    t0: Traversal,
    t1: Traversal,
    r: Option<Type>,
) -> bool {
    &&& appended(t0, t1)
    &&& t1.should_collect == ShouldCollect::ToVec
    &&& last_step(t1) matches Step::SearchVector(s) && vec_matches(s.vec, sv.data, q, g0) && k_matches(
        s.k,
        sv.k,
        q,
    )
    &&& opt_type_view(r) == Some(TypeView::Vectors(Some(vector_ty)))
    &&& reported(c0, c1, search_vector_errors(c0, q, sv, cur_ty, scope))
    &&& embeds_outcome(sv.data, q, g0, g1)
}

/// What a step that does not apply to the current type does: it is reported (E601) with
/// its source text, and nothing else changes.
pub open spec fn illegal_outcome(c0: Ctx, c1: Ctx, q: Query, gs: GraphStep, t0: Traversal, t1: Traversal, r: Option<Type>) -> bool {
    r is None && t1 == t0 && reported(c0, c1, seq![query_error(gs.loc, ErrorCode::E601, q, seq![gs.span@])])
}

/// What applying a graph step to a traversal whose elements have type `cur_ty` does, by the
/// step and the type under any `Anonymous` wrappers.
pub open spec fn graph_step_outcome(
    c0: Ctx,
    c1: Ctx,
    gs: GraphStep,
    cur_ty: Type,
    q: Query,
    scope: StrMap<Type>,
    t0: Traversal,
    t1: Traversal,
    g0: GeneratedQuery,
    g1: GeneratedQuery,
    r: Option<Type>,
) -> bool {
    let base = base_type(cur_ty);
    let same_query = g1 == g0;
    match gs.step {
        GraphStepType::OutE(label) => match node_like_name(base) {
            Some(nl) => same_query && to_edges_outcome(c0, c1, q, gs.loc, label@, nl, true, t0, t1, r),
            None => same_query && illegal_outcome(c0, c1, q, gs, t0, t1, r),
        },
        GraphStepType::InE(label) => match node_like_name(base) {
            Some(nl) => same_query && to_edges_outcome(c0, c1, q, gs.loc, label@, nl, false, t0, t1, r),
            None => same_query && illegal_outcome(c0, c1, q, gs, t0, t1, r),
        },
        GraphStepType::Out(label) => match node_like_name(base) {
            Some(nl) => same_query && to_nodes_outcome(c0, c1, q, gs.loc, label@, nl, true, t0, t1, r),
            None => same_query && illegal_outcome(c0, c1, q, gs, t0, t1, r),
        },
        GraphStepType::In(label) => match node_like_name(base) {
            Some(nl) => same_query && to_nodes_outcome(c0, c1, q, gs.loc, label@, nl, false, t0, t1, r),
            None => same_query && illegal_outcome(c0, c1, q, gs, t0, t1, r),
        },
        GraphStepType::FromN => match edge_name(base) {
            Some(et) => same_query && edge_end_outcome(
                c0,
                c1,
                q,
                gs.loc,
                cur_ty,
                et,
                true,
                false,
                ErrorCode::E623,
                t0,
                t1,
                r,
            ),
            None => same_query && illegal_outcome(c0, c1, q, gs, t0, t1, r),
        },
        GraphStepType::ToN => match edge_name(base) {
            Some(et) => same_query && edge_end_outcome(
                c0,
                c1,
                q,
                gs.loc,
                cur_ty,
                et,
                false,
                false,
                ErrorCode::E624,
                t0,
                t1,
                r,
            ),
            None => same_query && illegal_outcome(c0, c1, q, gs, t0, t1, r),
        },
        GraphStepType::FromV => match edge_name(base) {
            Some(et) => same_query && edge_end_outcome(
                c0,
                c1,
                q,
                gs.loc,
                cur_ty,
                et,
                true,
                true,
                ErrorCode::E625,
                t0,
                t1,
                r,
            ),
            None => same_query && illegal_outcome(c0, c1, q, gs, t0, t1, r),
        },
        GraphStepType::ToV => match edge_name(base) {
            Some(et) => same_query && edge_end_outcome(
                c0,
                c1,
                q,
                gs.loc,
                cur_ty,
                et,
                false,
                true,
                ErrorCode::E626,
                t0,
                t1,
                r,
            ),
            None => same_query && illegal_outcome(c0, c1, q, gs, t0, t1, r),
        },
        GraphStepType::ShortestPath(sp) => if base is Nodes || base is Node {
            same_query && shortest_path_outcome(c0, c1, q, gs.loc, sp, t0, t1, r)
        } else {
            same_query && illegal_outcome(c0, c1, q, gs, t0, t1, r)
        },
        GraphStepType::SearchVector(sv) => match vector_name(base) {
            Some(vt) => search_vector_outcome(c0, c1, q, sv, cur_ty, vt, scope, g0, g1, t0, t1, r),
            None => same_query && illegal_outcome(c0, c1, q, gs, t0, t1, r),
        },
    }
}

/// Reports a query diagnostic with one value.
pub(crate) fn report1(ctx: &mut Ctx, q: &Query, loc: Loc, code: ErrorCode, a: &str)
    ensures
        reported(*old(ctx), *final(ctx), seq![query_error(loc, code, *q, seq![a@])]),
{
    let ghost before = ctx.diagnostics.deep_view();
    let details = vec![a.to_owned()];
    proof {
        assert(details.deep_view() =~= seq![a@]);
    }
    push_query_error(ctx, q, loc, code, details);
    proof {
        assert(ctx.diagnostics.deep_view() =~= before + seq![query_error(loc, code, *q, seq![a@])]);
    }
}

/// Reports a query diagnostic with two values.
fn report2(ctx: &mut Ctx, q: &Query, loc: Loc, code: ErrorCode, a: &str, b: &str)
    ensures
        reported(*old(ctx), *final(ctx), seq![query_error(loc, code, *q, seq![a@, b@])]),
{
    let ghost before = ctx.diagnostics.deep_view();
    let details = vec![a.to_owned(), b.to_owned()];
    proof {
        assert(details.deep_view() =~= seq![a@, b@]);
    }
    push_query_error(ctx, q, loc, code, details);
    proof {
        assert(ctx.diagnostics.deep_view() =~= before + seq![query_error(loc, code, *q, seq![a@, b@])]);
    }
}

/// Reports a query diagnostic with three values.
pub(crate) fn report3(ctx: &mut Ctx, q: &Query, loc: Loc, code: ErrorCode, a: &str, b: &str, c: &str)
    ensures
        reported(*old(ctx), *final(ctx), seq![query_error(loc, code, *q, seq![a@, b@, c@])]),
{
    let ghost before = ctx.diagnostics.deep_view();
    let details = vec![a.to_owned(), b.to_owned(), c.to_owned()];
    proof {
        assert(details.deep_view() =~= seq![a@, b@, c@]);
    }
    push_query_error(ctx, q, loc, code, details);
    proof {
        assert(ctx.diagnostics.deep_view() =~= before + seq![
            query_error(loc, code, *q, seq![a@, b@, c@]),
        ]);
    }
}

fn node_like_label(t: &Type) -> (r: Option<&String>)
    ensures
        match r {
            Some(s) => node_like_name(*t) == Some(s@),
            None => node_like_name(*t) is None,
        },
{
    match t {
        Type::Nodes(Some(n)) => Some(n),
        Type::Node(Some(n)) => Some(n),
        Type::Vectors(Some(n)) => Some(n),
        Type::Vector(Some(n)) => Some(n),
        _ => None,
    }
}

fn edge_label(t: &Type) -> (r: Option<&String>)
    ensures
        match r {
            Some(s) => edge_name(*t) == Some(s@),
            None => edge_name(*t) is None,
        },
{
    match t {
        Type::Edges(Some(n)) => Some(n),
        Type::Edge(Some(n)) => Some(n),
        _ => None,
    }
}

fn vector_label(t: &Type) -> (r: Option<&String>)
    ensures
        match r {
            Some(s) => vector_name(*t) == Some(s@),
            None => vector_name(*t) is None,
        },
{
    match t {
        Type::Vectors(Some(n)) => Some(n),
        Type::Vector(Some(n)) => Some(n),
        _ => None,
    }
}

/// Appends a step, with a period before it.
fn push_step(traversal: &mut Traversal, step: Step)
    ensures
        appended(*old(traversal), *final(traversal)),
        last_step(*final(traversal)) == step,
        final(traversal).should_collect == old(traversal).should_collect,
{
    let ghost before = traversal.steps@;
    traversal.steps.push(Separator::Period(step));
    proof {
        assert(traversal.steps@.drop_last() =~= before);
    }
}

fn step_to_edges(
    ctx: &mut Ctx,
    q: &Query,
    loc: Loc,
    label: &String,
    node_label: &String,
    outgoing: bool,
    traversal: &mut Traversal,
) -> (r: Option<Type>)
    ensures
        to_edges_outcome(
            *old(ctx),
            *final(ctx),
            *q,
            loc,
            label@,
            node_label@,
            outgoing,
            *old(traversal),
            *final(traversal),
            r,
        ),
{
    if outgoing {
        push_step(traversal, Step::OutE(OutE { label: GenRef::Literal(label.clone()) }));
    } else {
        push_step(traversal, Step::InE(InE { label: GenRef::Literal(label.clone()) }));
    }
    traversal.should_collect = ShouldCollect::ToVec;
    let end_matches: Option<bool> = match ctx.edge_map.get(label.as_str()) {
        Some(e) => Some(
            if outgoing {
                e.from.1 == *node_label
            } else {
                e.to.1 == *node_label
            },
        ),
        None => None,
    };
    match end_matches {
        None => {
            report1(ctx, q, loc, ErrorCode::E102, label.as_str());
            None
        },
        Some(true) => {
            proof {
                assert(ctx.diagnostics.deep_view() =~= ctx.diagnostics.deep_view() + Seq::empty());
            }
            Some(Type::Edges(Some(label.clone())))
        },
        Some(false) => {
            if outgoing {
                report3(ctx, q, loc, ErrorCode::E207, label.as_str(), "node", node_label.as_str());
            } else {
                report1(ctx, q, loc, ErrorCode::E102, label.as_str());
            }
            None
        },
    }
}

fn step_to_nodes(
    ctx: &mut Ctx,
    q: &Query,
    loc: Loc,
    label: &String,
    node_label: &String,
    outgoing: bool,
    traversal: &mut Traversal,
) -> (r: Option<Type>)
    ensures
        to_nodes_outcome(
            *old(ctx),
            *final(ctx),
            *q,
            loc,
            label@,
            node_label@,
            outgoing,
            *old(traversal),
            *final(traversal),
            r,
        ),
{
    let info: Option<(bool, bool, bool, String)> = match ctx.edge_map.get(label.as_str()) {
        Some(e) => {
            let far = if outgoing {
                &e.to.1
            } else {
                &e.from.1
            };
            let near = if outgoing {
                &e.from.1
            } else {
                &e.to.1
            };
            let in_nodes = contains_name(&ctx.node_set, far.as_str());
            let in_vectors = contains_name(&ctx.vector_set, far.as_str());
            Some((in_nodes, in_vectors, *near == *node_label, far.clone()))
        },
        None => None,
    };
    match info {
        None => {
            report1(ctx, q, loc, ErrorCode::E102, label.as_str());
            None
        },
        Some((in_nodes, in_vectors, near_matches, far)) => {
            if !in_nodes && !in_vectors {
                report1(ctx, q, loc, ErrorCode::E102, label.as_str());
                return None;
            }
            let edge_type = if in_nodes {
                String::from_str("EdgeType::Node")
            } else {
                String::from_str("EdgeType::Vec")
            };
            if outgoing {
                push_step(
                    traversal,
                    Step::Out(Out { label: GenRef::Literal(label.clone()), edge_type: GenRef::Ref(edge_type) }),
                );
            } else {
                push_step(
                    traversal,
                    Step::In(In { label: GenRef::Literal(label.clone()), edge_type: GenRef::Ref(edge_type) }),
                );
            }
            traversal.should_collect = ShouldCollect::ToVec;
            if near_matches {
                proof {
                    assert(ctx.diagnostics.deep_view() =~= ctx.diagnostics.deep_view() + Seq::empty());
                }
                if in_nodes {
                    Some(Type::Nodes(Some(far)))
                } else {
                    Some(Type::Vectors(Some(far)))
                }
            } else {
                report3(ctx, q, loc, ErrorCode::E207, label.as_str(), "node", node_label.as_str());
                None
            }
        },
    }
}

fn step_edge_end(
    ctx: &mut Ctx,
    q: &Query,
    loc: Loc,
    cur_ty: &Type,
    edge_type: &String,
    from_end: bool,
    to_vectors: bool,
    code: ErrorCode,
    traversal: &mut Traversal,
) -> (r: Option<Type>)
    ensures
        edge_end_outcome(
            *old(ctx),
            *final(ctx),
            *q,
            loc,
            *cur_ty,
            edge_type@,
            from_end,
            to_vectors,
            code,
            *old(traversal),
            *final(traversal),
            r,
        ),
{
    let info: Option<(bool, String)> = match ctx.edge_map.get(edge_type.as_str()) {
        Some(es) => {
            let end = if from_end {
                &es.from.1
            } else {
                &es.to.1
            };
            let known = if to_vectors {
                contains_name(&ctx.vector_set, end.as_str())
            } else {
                contains_name(&ctx.node_set, end.as_str())
            };
            Some((known, end.clone()))
        },
        None => None,
    };
    let ghost d0 = ctx.diagnostics.deep_view();
    let new_ty = match info {
        Some((known, end)) => {
            if !known {
                report1(ctx, q, loc, code, edge_type.as_str());
            } else {
                proof {
                    assert(ctx.diagnostics.deep_view() =~= d0 + Seq::empty());
                }
            }
            match cur_ty {
                Type::Edges(_) => Some(
                    if to_vectors {
                        Type::Vectors(Some(end))
                    } else {
                        Type::Nodes(Some(end))
                    },
                ),
                Type::Edge(_) => Some(
                    if to_vectors {
                        Type::Vector(Some(end))
                    } else {
                        Type::Node(Some(end))
                    },
                ),
                _ => None,
            }
        },
        None => {
            proof {
                assert(ctx.diagnostics.deep_view() =~= d0 + Seq::empty());
            }
            None
        },
    };
    let step = if from_end && !to_vectors {
        Step::FromN
    } else if !from_end && !to_vectors {
        Step::ToN
    } else if from_end {
        Step::FromV
    } else {
        Step::ToV
    };
    push_step(traversal, step);
    match cur_ty {
        Type::Edges(_) => traversal.should_collect = ShouldCollect::ToVec,
        Type::Edge(_) => traversal.should_collect = ShouldCollect::ToObj,
        _ => {},
    }
    new_ty
}

/// The reference an id becomes.
fn id_ref(id: &IdType) -> (r: GenRef<String>)
    ensures
        id_ref_matches(r, *id),
{
    match id {
        IdType::Literal { value, loc } => GenRef::from(IdType::Literal { value: value.clone(), loc: *loc }),
        IdType::Identifier { value, loc } => GenRef::from(
            IdType::Identifier { value: value.clone(), loc: *loc },
        ),
        IdType::ByIndex { .. } => GenRef::Unknown,
    }
}

fn step_shortest_path(
    ctx: &mut Ctx,
    q: &Query,
    loc: Loc,
    sp: &ShortestPathStep,
    traversal: &mut Traversal,
) -> (r: Option<Type>)
    ensures
        shortest_path_outcome(*old(ctx), *final(ctx), *q, loc, *sp, *old(traversal), *final(traversal), r),
{
    if sp.from.is_none() && sp.to.is_none() {
        report1(
            ctx,
            q,
            loc,
            ErrorCode::E601,
            "ShortestPath requires at least one of 'from' or 'to' to be specified",
        );
        return None;
    }
    let label = match &sp.type_arg {
        Some(t) => Some(GenRef::Literal(t.clone())),
        None => None,
    };
    let from = match &sp.from {
        Some(f) => Some(id_ref(f)),
        None => None,
    };
    let to = match &sp.to {
        Some(t) => Some(id_ref(t)),
        None => None,
    };
    push_step(traversal, Step::ShortestPath(ShortestPath { label, from, to }));
    traversal.should_collect = ShouldCollect::ToVec;
    proof {
        assert(ctx.diagnostics.deep_view() =~= ctx.diagnostics.deep_view() + Seq::empty());
    }
    Some(Type::Unknown)
}

/// The literal components of a query vector, as a bracketed list.
fn bracketed(cs: &Vec<String>) -> (r: String)
    ensures
        r@ == "["@ + strings_joined(cs@, cs@.len()) + "]"@,
{
    let mut s = String::from_str("[");
    let ghost start = s@;
    let mut i: usize = 0;
    while i < cs.len()
        invariant
            i <= cs@.len(),
            s@ == start + strings_joined(cs@, i as nat),
        decreases cs.len() - i,
    {
        if i > 0 {
            put(&mut s, ",");
        }
        put_string(&mut s, &cs[i]);
        proof {
            if i == 0 {
                assert(s@ =~= start + cs@[0]@);
            } else {
                assert(s@ =~= start + (strings_joined(cs@, i as nat) + ","@ + cs@[i as int]@));
            }
        }
        i = i + 1;
    }
    put(&mut s, "]");
    s
}

/// The query vector of a vector search, with its diagnostics and any embedding it records.
pub(crate) fn search_vector_data(
    ctx: &mut Ctx,
    q: &Query,
    sv: &SearchVector,
    scope: &StrMap<Type>,
    gen_query: &mut GeneratedQuery,
) -> (r: VecData)
    ensures
        vec_matches(r, sv.data, *q, *old(gen_query)),
        embeds_outcome(sv.data, *q, *old(gen_query), *final(gen_query)),
        reported(
            *old(ctx),
            *final(ctx),
            match sv.data {
                Some(VectorData::Identifier(i)) => (if reserved_identifier(i@) {
                    seq![query_error(sv.loc, ErrorCode::E105, *q, seq![i@])]
                } else {
                    Seq::empty()
                }) + (if scope@.contains_key(i@) {
                    Seq::empty()
                } else {
                    seq![query_error(sv.loc, ErrorCode::E301, *q, seq![i@])]
                }),
                None => seq![
                    query_error(sv.loc, ErrorCode::E305, *q, search_arg_details("vector_data"@)),
                ],
                _ => Seq::empty(),
            },
        ),
{
    let ghost d0 = ctx.diagnostics.deep_view();
    match &sv.data {
        Some(VectorData::Vector(v)) => {
            proof {
                assert(ctx.diagnostics.deep_view() =~= d0 + Seq::empty());
            }
            VecData::Standard(GeneratedValue::Literal(GenRef::Ref(bracketed(v))))
        },
        Some(VectorData::Identifier(i)) => {
            is_valid_identifier(ctx, q, sv.loc, i.as_str());
            let _ = type_in_scope(ctx, q, sv.loc, scope, i.as_str());
            let value = gen_identifier_or_param(q, i.as_str(), true, false);
            proof {
                let e1: Seq<DiagnosticView> = if reserved_identifier(i@) {
                    seq![query_error(sv.loc, ErrorCode::E105, *q, seq![i@])]
                } else {
                    Seq::empty()
                };
                let e2: Seq<DiagnosticView> = if scope@.contains_key(i@) {
                    Seq::empty()
                } else {
                    seq![query_error(sv.loc, ErrorCode::E301, *q, seq![i@])]
                };
                assert(ctx.diagnostics.deep_view() =~= d0 + (e1 + e2));
            }
            VecData::Standard(value)
        },
        Some(VectorData::Embed(e)) => {
            let data = match &e.value {
                EvaluatesToString::Identifier(i) => gen_identifier_or_param(q, i.as_str(), true, false),
                EvaluatesToString::StringLiteral(s) => GeneratedValue::Literal(GenRef::Ref(s.clone())),
            };
            let model_name = match &gen_query.embedding_model_to_use {
                Some(m) => Some(m.clone()),
                None => None,
            };
            let ghost calls0 = gen_query.hoisted_embedding_calls@;
            let name = gen_query.add_hoisted_embed(EmbedData { data, model_name });
            proof {
                assert(gen_query.hoisted_embedding_calls@.drop_last() =~= calls0);
                assert(ctx.diagnostics.deep_view() =~= d0 + Seq::empty());
            }
            VecData::Hoisted(name)
        },
        None => {
            report_bad_argument(ctx, q, sv.loc, "vector_data");
            VecData::Standard(GeneratedValue::Unknown)
        },
    }
}

/// The value of an integer argument.
pub(crate) fn number_value(v: &EvaluatesToNumberType) -> (r: GeneratedValue)
    requires
        number_text(*v) is Some,
    ensures
        r matches GeneratedValue::Primitive(g) && g is Std && g.inner_spec()@ == number_text(
            *v,
        )->0,
{
    let text = match v {
        EvaluatesToNumberType::I8(x) => signed_to_string(*x as i128),
        EvaluatesToNumberType::I16(x) => signed_to_string(*x as i128),
        EvaluatesToNumberType::I32(x) => signed_to_string(*x as i128),
        EvaluatesToNumberType::I64(x) => signed_to_string(*x as i128),
        EvaluatesToNumberType::U8(x) => unsigned_to_string(*x as u128),
        EvaluatesToNumberType::U16(x) => unsigned_to_string(*x as u128),
        EvaluatesToNumberType::U32(x) => unsigned_to_string(*x as u128),
        EvaluatesToNumberType::U64(x) => unsigned_to_string(*x as u128),
        EvaluatesToNumberType::U128(x) => unsigned_to_string(*x),
        _ => String::new(),
    };
    GeneratedValue::Primitive(GenRef::Std(text))
}

/// Reports a missing or unusable argument of a vector search (E305).
fn report_bad_argument(ctx: &mut Ctx, q: &Query, loc: Loc, arg: &str)
    ensures
        reported(
            *old(ctx),
            *final(ctx),
            seq![query_error(loc, ErrorCode::E305, *q, search_arg_details(arg@))],
        ),
{
    report3(ctx, q, loc, ErrorCode::E305, arg, "SearchV", arg);
}

/// The result count of a vector search, with its diagnostics.
pub(crate) fn search_vector_count(ctx: &mut Ctx, q: &Query, sv: &SearchVector) -> (r: GeneratedValue)
    ensures
        k_matches(r, sv.k, *q),
        reported(
            *old(ctx),
            *final(ctx),
            match sv.k {
                Some(k) => match k.value {
                    EvaluatesToNumberType::Identifier(i) => if reserved_identifier(i@) {
                        seq![query_error(sv.loc, ErrorCode::E105, *q, seq![i@])]
                    } else {
                        Seq::empty()
                    },
                    EvaluatesToNumberType::F32 | EvaluatesToNumberType::F64 => seq![
                        query_error(sv.loc, ErrorCode::E305, *q, search_arg_details("k"@)),
                    ],
                    _ => Seq::empty(),
                },
                None => seq![query_error(sv.loc, ErrorCode::E305, *q, search_arg_details("k"@))],
            },
        ),
{
    let ghost d0 = ctx.diagnostics.deep_view();
    match &sv.k {
        Some(k) => match &k.value {
            EvaluatesToNumberType::Identifier(i) => {
                is_valid_identifier(ctx, q, sv.loc, i.as_str());
                proof {
                    if !reserved_identifier(i@) {
                        assert(ctx.diagnostics.deep_view() =~= d0 + Seq::empty());
                    } else {
                        assert(ctx.diagnostics.deep_view() =~= d0 + seq![
                            query_error(sv.loc, ErrorCode::E105, *q, seq![i@]),
                        ]);
                    }
                }
                gen_identifier_or_param(q, i.as_str(), false, true)
            },
            EvaluatesToNumberType::F32 | EvaluatesToNumberType::F64 => {
                report_bad_argument(ctx, q, sv.loc, "k");
                GeneratedValue::Unknown
            },
            v => {
                proof {
                    assert(ctx.diagnostics.deep_view() =~= d0 + Seq::empty());
                }
                number_value(v)
            },
        },
        None => {
            report_bad_argument(ctx, q, sv.loc, "k");
            GeneratedValue::Unknown
        },
    }
}

fn step_search_vector(
    ctx: &mut Ctx,
    q: &Query,
    sv: &SearchVector,
    cur_ty: &Type,
    vector_ty: &String,
    scope: &StrMap<Type>,
    traversal: &mut Traversal,
    gen_query: &mut GeneratedQuery,
) -> (r: Option<Type>)
    requires
        vector_name(base_type(*cur_ty)) is Some,
    ensures
        search_vector_outcome(
            *old(ctx),
            *final(ctx),
            *q,
            *sv,
            *cur_ty,
            vector_ty@,
            *scope,
            *old(gen_query),
            *final(gen_query),
            *old(traversal),
            *final(traversal),
            r,
        ),
{
    let ghost c0 = *ctx;
    let plain = match cur_ty {
        Type::Vector(_) | Type::Vectors(_) => true,
        _ => false,
    };
    if !plain {
        proof {
            assert(is_item_type(base_type(*cur_ty)));
        }
        let name = cur_ty.get_type_name();
        report2(ctx, q, sv.loc, ErrorCode::E603, name.as_str(), cur_ty.kind_str());
    }
    let ghost d1 = ctx.diagnostics.deep_view();
    match &sv.vector_type {
        Some(ty) => {
            if !contains_name(&ctx.vector_set, ty.as_str()) {
                report1(ctx, q, sv.loc, ErrorCode::E103, ty.as_str());
            }
        },
        None => {},
    }
    let ghost d2 = ctx.diagnostics.deep_view();
    let vec = search_vector_data(ctx, q, sv, scope, gen_query);
    let ghost d3 = ctx.diagnostics.deep_view();
    let k = search_vector_count(ctx, q, sv);
    push_step(traversal, Step::SearchVector(SearchVectorStep { vec, k }));
    traversal.should_collect = ShouldCollect::ToVec;
    proof {
        assert(ctx.diagnostics.deep_view() =~= c0.diagnostics.deep_view() + search_vector_errors(
            c0,
            *q,
            *sv,
            *cur_ty,
            *scope,
        ));
    }
    Some(Type::Vectors(Some(vector_ty.clone())))
}

/// Checks that a graph navigation step applies to a traversal whose elements have type
/// `cur_ty`, adds the step to the generated traversal, and returns the type of the
/// elements after it (see [`graph_step_outcome`]).
pub fn apply_graph_step(
    ctx: &mut Ctx,
    gs: &GraphStep,
    cur_ty: &Type,
    original_query: &Query,
    traversal: &mut Traversal,
    scope: &mut StrMap<Type>,
    gen_query: &mut GeneratedQuery,
) -> (r: Option<Type>)
    ensures
        graph_step_outcome(
            *old(ctx),
            *final(ctx),
            *gs,
            *cur_ty,
            *original_query,
            *old(scope),
            *old(traversal),
            *final(traversal),
            *old(gen_query),
            *final(gen_query),
            r,
        ),
        *final(scope) == *old(scope),
{
    let base = cur_ty.base();
    let q = original_query;
    match &gs.step {
        GraphStepType::OutE(label) => match node_like_label(base) {
            Some(nl) => step_to_edges(ctx, q, gs.loc, label, nl, true, traversal),
            None => step_illegal(ctx, q, gs),
        },
        GraphStepType::InE(label) => match node_like_label(base) {
            Some(nl) => step_to_edges(ctx, q, gs.loc, label, nl, false, traversal),
            None => step_illegal(ctx, q, gs),
        },
        GraphStepType::Out(label) => match node_like_label(base) {
            Some(nl) => step_to_nodes(ctx, q, gs.loc, label, nl, true, traversal),
            None => step_illegal(ctx, q, gs),
        },
        GraphStepType::In(label) => match node_like_label(base) {
            Some(nl) => step_to_nodes(ctx, q, gs.loc, label, nl, false, traversal),
            None => step_illegal(ctx, q, gs),
        },
        GraphStepType::FromN => match edge_label(base) {
            Some(et) => step_edge_end(ctx, q, gs.loc, cur_ty, et, true, false, ErrorCode::E623, traversal),
            None => step_illegal(ctx, q, gs),
        },
        GraphStepType::ToN => match edge_label(base) {
            Some(et) => step_edge_end(ctx, q, gs.loc, cur_ty, et, false, false, ErrorCode::E624, traversal),
            None => step_illegal(ctx, q, gs),
        },
        GraphStepType::FromV => match edge_label(base) {
            Some(et) => step_edge_end(ctx, q, gs.loc, cur_ty, et, true, true, ErrorCode::E625, traversal),
            None => step_illegal(ctx, q, gs),
        },
        GraphStepType::ToV => match edge_label(base) {
            Some(et) => step_edge_end(ctx, q, gs.loc, cur_ty, et, false, true, ErrorCode::E626, traversal),
            None => step_illegal(ctx, q, gs),
        },
        GraphStepType::ShortestPath(sp) => match base {
            Type::Nodes(_) | Type::Node(_) => step_shortest_path(ctx, q, gs.loc, sp, traversal),
            _ => step_illegal(ctx, q, gs),
        },
        GraphStepType::SearchVector(sv) => match vector_label(base) {
            Some(vt) => step_search_vector(ctx, q, sv, cur_ty, vt, scope, traversal, gen_query),
            None => step_illegal(ctx, q, gs),
        },
    }
}

/// Reports a step that does not apply to the current type (E601).
fn step_illegal(ctx: &mut Ctx, q: &Query, gs: &GraphStep) -> (r: Option<Type>)
    ensures
        r is None,
        reported(*old(ctx), *final(ctx), seq![query_error(gs.loc, ErrorCode::E601, *q, seq![gs.span@])]),
{
    report1(ctx, q, gs.loc, ErrorCode::E601, gs.span.as_str());
    None
}


/// A graph step changes nothing in the context but its diagnostics, and only adds
/// diagnostics.
pub(crate) proof fn lemma_graph_step_keeps(
    c0: Ctx,
    c1: Ctx,
    gs: GraphStep,
    cur_ty: Type,
    q: Query,
    scope: StrMap<Type>,
    t0: Traversal,
    t1: Traversal,
    g0: GeneratedQuery,
    g1: GeneratedQuery,
    r: Option<Type>,
)
    requires
        graph_step_outcome(c0, c1, gs, cur_ty, q, scope, t0, t1, g0, g1, r),
    ensures
        super::traversal_validation::keeps(c0, c1),
{
}


/// Law: stepping from nodes or vectors of a type `n` to their outgoing (OutE) or incoming
/// (InE) edges of a declared edge type that starts (going out) or ends (coming in) at `n`
/// gives edges of that type and reports nothing; an undeclared edge type gives nothing
/// and one E102; an edge type that does not start at `n` gives nothing and E207 going
/// out, one that does not end at `n` nothing and E102 coming in.
pub proof fn law_edge_steps(
    c0: Ctx,
    c1: Ctx,
    gs: GraphStep,
    cur_ty: Type,
    q: Query,
    scope: StrMap<Type>,
    t0: Traversal,
    t1: Traversal,
    g0: GeneratedQuery,
    g1: GeneratedQuery,
    r: Option<Type>,
    label: String,
    n: Seq<char>,
    e: EdgeSchema,
)
    requires
        graph_step_outcome(c0, c1, gs, cur_ty, q, scope, t0, t1, g0, g1, r),
        gs.step == GraphStepType::OutE(label) || gs.step == GraphStepType::InE(label),
        node_like_name(base_type(cur_ty)) == Some(n),
    ensures
        c0.edge_map@.contains_key(label@) && c0.edge_map@[label@] == e.deep_view() && (if gs.step is OutE {
            e.from.1@
        } else {
            e.to.1@
        }) == n ==> opt_type_view(r) == Some(TypeView::Edges(Some(label@))) && c1.diagnostics.deep_view()
            == c0.diagnostics.deep_view(),
        !c0.edge_map@.contains_key(label@) ==> r is None && c1.diagnostics.deep_view()
            == c0.diagnostics.deep_view().push(query_error(gs.loc, ErrorCode::E102, q, seq![label@])),
        c0.edge_map@.contains_key(label@) && c0.edge_map@[label@] == e.deep_view() && gs.step is OutE
            && e.from.1@ != n ==> r is None && c1.diagnostics.deep_view() == c0.diagnostics.deep_view().push(
            query_error(gs.loc, ErrorCode::E207, q, seq![label@, "node"@, n]),
        ),
        c0.edge_map@.contains_key(label@) && c0.edge_map@[label@] == e.deep_view() && gs.step is InE
            && e.to.1@ != n ==> r is None && c1.diagnostics.deep_view() == c0.diagnostics.deep_view().push(
            query_error(gs.loc, ErrorCode::E102, q, seq![label@]),
        ),
        t1.steps@.len() == t0.steps@.len() + 1,
        t1.steps@.drop_last() == t0.steps@,
        gs.step is OutE ==> step_code(last_step(t1)) == "out_e(\""@ + label@ + "\")"@,
        gs.step is InE ==> step_code(last_step(t1)) == "in_e(\""@ + label@ + "\")"@,
{
    assert(c0.diagnostics.deep_view() + Seq::<DiagnosticView>::empty() =~= c0.diagnostics.deep_view());
    reveal_strlit("out_e(");
    reveal_strlit("in_e(");
    reveal_strlit(")");
    reveal_strlit("\"");
    reveal_strlit("out_e(\"");
    reveal_strlit("in_e(\"");
    reveal_strlit("\")");
    assert(("out_e("@ + ("\""@ + label@ + "\""@)) + ")"@ =~= "out_e(\""@ + label@ + "\")"@);
    assert(("in_e("@ + ("\""@ + label@ + "\""@)) + ")"@ =~= "in_e(\""@ + label@ + "\")"@);
    assert(c0.diagnostics.deep_view() + seq![query_error(gs.loc, ErrorCode::E102, q, seq![label@])]
        =~= c0.diagnostics.deep_view().push(query_error(gs.loc, ErrorCode::E102, q, seq![label@])));
    assert(c0.diagnostics.deep_view() + seq![query_error(gs.loc, ErrorCode::E207, q, seq![label@, "node"@, n])]
        =~= c0.diagnostics.deep_view().push(query_error(gs.loc, ErrorCode::E207, q, seq![label@, "node"@, n])));
}

/// Law: stepping from nodes or vectors of a type `n` to the items at the far end of their
/// outgoing (Out) or incoming (In) edges of a declared edge type whose near end (its
/// start going out, its end coming in) is `n` and whose far end is a declared node type
/// gives nodes of the far end's type and reports nothing.
pub proof fn law_node_steps(
    c0: Ctx,
    c1: Ctx,
    gs: GraphStep,
    cur_ty: Type,
    q: Query,
    scope: StrMap<Type>,
    t0: Traversal,
    t1: Traversal,
    g0: GeneratedQuery,
    g1: GeneratedQuery,
    r: Option<Type>,
    label: String,
    n: Seq<char>,
    e: EdgeSchema,
)
    requires
        graph_step_outcome(c0, c1, gs, cur_ty, q, scope, t0, t1, g0, g1, r),
        gs.step == GraphStepType::Out(label) || gs.step == GraphStepType::In(label),
        node_like_name(base_type(cur_ty)) == Some(n),
        c0.edge_map@.contains_key(label@),
        c0.edge_map@[label@] == e.deep_view(),
        (if gs.step is Out {
            e.from.1@
        } else {
            e.to.1@
        }) == n,
        names_contain(c0.node_set@, if gs.step is Out {
            e.to.1@
        } else {
            e.from.1@
        }),
    ensures
        opt_type_view(r) == Some(TypeView::Nodes(Some(if gs.step is Out {
            e.to.1@
        } else {
            e.from.1@
        }))),
        c1.diagnostics.deep_view() == c0.diagnostics.deep_view(),
{
    assert(c0.diagnostics.deep_view() + Seq::<DiagnosticView>::empty() =~= c0.diagnostics.deep_view());
}


/// Law: stepping from edges of a declared type to their start (FromN, FromV) or end
/// (ToN, ToV) gives the node (or vector) type at that end of the edge type, many from
/// many edges and one from one edge; when that end is not a declared node (or vector)
/// type, one diagnostic is reported (E623, E624, E625, E626 for the four steps), otherwise
/// none.
pub proof fn law_edge_end_steps(
    c0: Ctx,
    c1: Ctx,
    gs: GraphStep,
    cur_ty: Type,
    q: Query,
    scope: StrMap<Type>,
    t0: Traversal,
    t1: Traversal,
    g0: GeneratedQuery,
    g1: GeneratedQuery,
    r: Option<Type>,
    l: String,
    e: EdgeSchema,
)
    requires
        graph_step_outcome(c0, c1, gs, cur_ty, q, scope, t0, t1, g0, g1, r),
        cur_ty == Type::Edges(Some(l)) || cur_ty == Type::Edge(Some(l)),
        gs.step is FromN || gs.step is ToN || gs.step is FromV || gs.step is ToV,
        c0.edge_map@.contains_key(l@),
        c0.edge_map@[l@] == e.deep_view(),
    ensures
        ({
            let from_end = gs.step is FromN || gs.step is FromV;
            let to_vectors = gs.step is FromV || gs.step is ToV;
            let end = if from_end {
                e.from.1@
            } else {
                e.to.1@
            };
            let known = if to_vectors {
                names_contain(c0.vector_set@, end)
            } else {
                names_contain(c0.node_set@, end)
            };
            let code = if gs.step is FromN {
                ErrorCode::E623
            } else if gs.step is ToN {
                ErrorCode::E624
            } else if gs.step is FromV {
                ErrorCode::E625
            } else {
                ErrorCode::E626
            };
            &&& known ==> c1.diagnostics.deep_view() == c0.diagnostics.deep_view()
            &&& !known ==> c1.diagnostics.deep_view() == c0.diagnostics.deep_view().push(
                query_error(gs.loc, code, q, seq![l@]),
            )
            &&& cur_ty is Edges ==> opt_type_view(r) == Some(
                if to_vectors {
                    TypeView::Vectors(Some(end))
                } else {
                    TypeView::Nodes(Some(end))
                },
            )
            &&& cur_ty is Edge ==> opt_type_view(r) == Some(
                if to_vectors {
                    TypeView::Vector(Some(end))
                } else {
                    TypeView::Node(Some(end))
                },
            )
        }),
{
    assert(c0.diagnostics.deep_view() + Seq::<DiagnosticView>::empty() =~= c0.diagnostics.deep_view());
    let code = if gs.step is FromN {
        ErrorCode::E623
    } else if gs.step is ToN {
        ErrorCode::E624
    } else if gs.step is FromV {
        ErrorCode::E625
    } else {
        ErrorCode::E626
    };
    assert(c0.diagnostics.deep_view() + seq![query_error(gs.loc, code, q, seq![l@])]
        =~= c0.diagnostics.deep_view().push(query_error(gs.loc, code, q, seq![l@])));
}

} // verus!
