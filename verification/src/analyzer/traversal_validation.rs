//! Checking where a traversal starts, and the step of generated code it starts from.

use vstd::prelude::*;
use crate::generator::queries::Query as GeneratedQuery;
use crate::text::{integer_text, signed_to_string};
use crate::generator::source_steps::SourceStep;
use crate::generator::bool_ops::BoExp;
use crate::generator::statements::Statement;
use crate::generator::traversal_steps::{
    AggregateBy, CodeFragment, GroupBy as GeneratedGroupBy, ShouldCollect, Step as GeneratedStep,
    Traversal as GeneratedTraversal, TraversalType, Where, WhereRef,
};
use crate::generator::utils::{GenRef, GeneratedValue, Separator};
use super::graph_step_validation::{
    embeds_outcome, k_matches, report1, report3, reported, search_arg_details, search_vector_count,
    search_vector_data, vec_matches,
};
use super::schema_methods::{names_contain, DiagnosticView};
use super::str_map::{contains_name, DeepCopy, StrMap};
use super::types::{
    name_view, type_view, Ctx, ErrorCode, EvaluatesToNumberType, FieldPrefix, IdType, Loc,
    Query, SearchVector, BM25Search, StartNode, Type, TypeView, Value, ValueType, VectorData, Expression,
    ExpressionType, FieldType, StepType, Traversal, FieldTypeView,
};
use super::graph_step_validation::{apply_graph_step, graph_step_outcome, opt_type_view};
use super::infer_expr_type::infer_expr_type;
use crate::generator::utils::{put, put_string};
use vstd::pervasive::arbitrary;
use super::values::{
    field_accepts, field_accepts_value, field_kind, field_kind_of, literal_code, literal_code_of,
    value_kind, value_kind_of, value_text, value_text_of,
};
use super::utils::{push_query_error, same_but_diagnostics};
use super::utils::{
    gen_identifier_or_param, identifier_or_param, is_valid_identifier, item_kind, param_index, query_error,
    reserved_identifier, type_in_scope, DEFAULT_VAR_NAME,
};

verus! {

/// How a traversal starts: the type it starts with and, where the start decides them, the
/// step the generated traversal starts from, how it is driven, and how its result is
/// collected.
pub struct TraversalStart {
    pub ty: Type,
    pub source_step: Option<Separator<SourceStep>>,
    pub traversal_type: Option<TraversalType>,
    pub should_collect: Option<ShouldCollect>,
}

/// The reference by which generated code reads an id held by a variable or a parameter
/// (see [`identifier_or_param`]).
pub open spec fn reads_id(q: Query, name: Seq<char>, g: GenRef<String>) -> bool {
    match param_index(q.parameters@, name) {
        Some(_) => identifier_or_param(q, name, true, GeneratedValue::Parameter(g)),
        None => identifier_or_param(q, name, true, GeneratedValue::Identifier(g)),
    }
}

/// The diagnostics of an id: for one held by a variable, a reserved name (E105), then an
/// unbound one (E301); none for a literal id.
pub open spec fn id_errors(q: Query, scope: StrMap<Type>, id: IdType) -> Seq<DiagnosticView> {
    match id {
        IdType::Identifier { value, loc } => (if reserved_identifier(value@) {
            seq![query_error(loc, ErrorCode::E105, q, seq![value@])]
        } else {
            Seq::empty()
        }) + (if scope@.contains_key(value@) {
            Seq::empty()
        } else {
            seq![query_error(loc, ErrorCode::E301, q, seq![value@])]
        }),
        _ => Seq::empty(),
    }
}

/// The reference to an id in generated code: through its variable or parameter, or the
/// literal itself, as a borrowed reference for nodes (`literal_ref`) and as it stands for
/// edges and vectors.
pub open spec fn id_ref_matches(q: Query, id: IdType, literal_ref: bool, g: GenRef<String>) -> bool {
    match id {
        IdType::Identifier { value, .. } => reads_id(q, value@, g),
        IdType::Literal { value, .. } => if literal_ref {
            g == GenRef::Ref(value)
        } else {
            g == GenRef::Std(value)
        },
        IdType::ByIndex { .. } => false,
    }
}

/// The diagnostic for a type name that the schema does not declare, when it does not.
pub open spec fn type_errors(declared: bool, code: ErrorCode, loc: Loc, q: Query, name: Seq<char>) -> Seq<
    DiagnosticView,
> {
    if declared {
        Seq::empty()
    } else {
        seq![query_error(loc, code, q, seq![name])]
    }
}

/// The diagnostics of the query vector of a vector search.
pub open spec fn vector_data_errors(q: Query, sv: SearchVector, scope: StrMap<Type>) -> Seq<
    DiagnosticView,
> {
    match sv.data {
        Some(VectorData::Identifier(i)) => (if reserved_identifier(i@) {
            seq![query_error(sv.loc, ErrorCode::E105, q, seq![i@])]
        } else {
            Seq::empty()
        }) + (if scope@.contains_key(i@) {
            Seq::empty()
        } else {
            seq![query_error(sv.loc, ErrorCode::E301, q, seq![i@])]
        }),
        None => seq![query_error(sv.loc, ErrorCode::E305, q, search_arg_details("vector_data"@))],
        _ => Seq::empty(),
    }
}

/// The diagnostics of the result count of a vector search.
pub open spec fn vector_count_errors(q: Query, sv: SearchVector) -> Seq<DiagnosticView> {
    match sv.k {
        Some(k) => match k.value {
            EvaluatesToNumberType::Identifier(i) => if reserved_identifier(i@) {
                seq![query_error(sv.loc, ErrorCode::E105, q, seq![i@])]
            } else {
                Seq::empty()
            },
            EvaluatesToNumberType::F32 | EvaluatesToNumberType::F64 => seq![
                query_error(sv.loc, ErrorCode::E305, q, search_arg_details("k"@)),
            ],
            _ => Seq::empty(),
        },
        None => seq![query_error(sv.loc, ErrorCode::E305, q, search_arg_details("k"@))],
    }
}

/// Whether a start is one the checking handles: ids, where given, are a single id held by
/// a variable or written as a literal; a traversal that starts from the enclosing
/// traversal's item has an enclosing type; a vector search names its vector type.
pub open spec fn start_supported(start: StartNode, parent: Option<Type>) -> bool {
    match start {
        StartNode::Node { ids, .. } => node_ids_supported(ids),
        StartNode::Edge { ids, .. } => ids_supported(ids),
        StartNode::Vector { ids, .. } => ids_supported(ids),
        StartNode::Anonymous => parent is Some,
        StartNode::SearchVector(sv) => sv.vector_type is Some,
        _ => true,
    }
}

/// Whether ids, where given, are a single id held by a variable or written as a literal.
pub open spec fn ids_supported(ids: Option<Vec<IdType>>) -> bool {
    match ids {
        Some(v) => v@.len() == 1 && !(v@[0] is ByIndex),
        None => true,
    }
}

/// Whether node ids, where given, are a single id held by a variable, written as a
/// literal, or given by an indexed field named by a name and a key that is a variable or
/// a literal value.
pub open spec fn node_ids_supported(ids: Option<Vec<IdType>>) -> bool {
    match ids {
        Some(v) => v@.len() == 1 && match v@[0] {
            IdType::ByIndex { index, value, .. } => *index is Identifier && match *value {
                ValueType::Identifier { .. } => true,
                ValueType::Literal { value, .. } => !(value is Empty),
                _ => false,
            },
            _ => true,
        },
        None => true,
    }
}

/// The diagnostics of a start at the node of a type whose indexed field `index` holds
/// `key`: a reserved field name (E105); then an unknown type (E201), a field that is
/// missing or not indexed (E208), or a literal key that the field's type does not take
/// (E205); then a key variable that is reserved (E105) or unbound (E301).
pub open spec fn index_errors(
    c0: Ctx,
    q: Query,
    t: Seq<char>,
    index: Seq<char>,
    key: ValueType,
    loc: Loc,
    scope: StrMap<Type>,
) -> Seq<DiagnosticView> {
    let e0 = if reserved_identifier(index) {
        seq![query_error(loc, ErrorCode::E105, q, seq![index])]
    } else {
        Seq::empty()
    };
    let e1 = if !c0.node_fields@.contains_key(t) {
        seq![query_error(loc, ErrorCode::E201, q, seq![t])]
    } else if !c0.node_fields@[t].contains_key(index) || c0.node_fields@[t][index].0
        != FieldPrefix::Index {
        seq![query_error(loc, ErrorCode::E208, q, seq![index, t, t])]
    } else {
        let ft = c0.node_fields@[t][index].2;
        match key {
            ValueType::Literal { value, loc: vl } => if !field_accepts(ft, value) {
                seq![
                    query_error(
                        vl,
                        ErrorCode::E205,
                        q,
                        seq![value_text(value), value_kind(value), field_kind(ft), "node"@, t],
                    ),
                ]
            } else {
                Seq::empty()
            },
            _ => Seq::empty(),
        }
    };
    let e2 = match key {
        ValueType::Identifier { value, loc: kl } => if reserved_identifier(value@) {
            seq![query_error(kl, ErrorCode::E105, q, seq![value@])]
        } else if !scope@.contains_key(value@) {
            seq![query_error(kl, ErrorCode::E301, q, seq![value@])]
        } else {
            Seq::empty()
        },
        _ => Seq::empty(),
    };
    e0 + e1 + e2
}

/// The key of an index look-up in generated code: the variable or parameter that holds
/// it, or the literal's code.
pub open spec fn index_key_matches(q: Query, key: ValueType, g: GeneratedValue) -> bool {
    match key {
        ValueType::Identifier { value, .. } => identifier_or_param(q, value@, true, g),
        ValueType::Literal { value, .. } => g matches GeneratedValue::Primitive(GenRef::Ref(s))
            && s@ == literal_code(value),
        _ => false,
    }
}

/// What starting from the items of a node type gives: all of them, or the one with the
/// given id; an undeclared type is reported (E101).
pub open spec fn node_start(c0: Ctx, c1: Ctx, q: Query, t: String, ids: Option<Vec<IdType>>, loc: Loc, scope: StrMap<Type>, r: TraversalStart) -> bool {
    let e = type_errors(names_contain(c0.node_set@, t@), ErrorCode::E101, loc, q, t@);
    &&& r.traversal_type == Some(TraversalType::Ref)
    &&& match ids {
        None => {
            &&& reported(c0, c1, e)
            &&& type_view(r.ty) == TypeView::Nodes(Some(t@))
            &&& r.source_step == Some(Separator::Period(SourceStep::NFromType { label: GenRef::Literal(t) }))
            &&& r.should_collect is None
        },
        Some(v) => {
            &&& type_view(r.ty) == TypeView::Node(Some(t@))
            &&& r.should_collect == Some(ShouldCollect::ToObj)
            &&& match v@[0] {
                IdType::ByIndex { index, value, loc: il } => {
                    let iname = index->Identifier_value;
                    &&& reported(c0, c1, e + index_errors(c0, q, t@, iname@, *value, il, scope))
                    &&& r.source_step matches Some(
                        Separator::Period(SourceStep::NFromIndex { label, index: ig, key }),
                    ) && label == GenRef::Literal(t) && ig == GenRef::Literal(iname)
                        && index_key_matches(q, *value, key)
                },
                _ => {
                    &&& reported(c0, c1, e + id_errors(q, scope, v@[0]))
                    &&& r.source_step matches Some(
                        Separator::Period(SourceStep::NFromID { id, label }),
                    ) && label == GenRef::Literal(t) && id_ref_matches(q, v@[0], true, id)
                },
            }
        },
    }
}

/// What starting from the items of an edge type gives: all of them, or the one with the
/// given id; an undeclared type is reported (E102).
pub open spec fn edge_start(c0: Ctx, c1: Ctx, q: Query, t: String, ids: Option<Vec<IdType>>, loc: Loc, scope: StrMap<Type>, r: TraversalStart) -> bool {
    let e = type_errors(c0.edge_map@.contains_key(t@), ErrorCode::E102, loc, q, t@);
    &&& r.traversal_type == Some(TraversalType::Ref)
    &&& match ids {
        None => {
            &&& reported(c0, c1, e)
            &&& type_view(r.ty) == TypeView::Edges(Some(t@))
            &&& r.source_step == Some(Separator::Period(SourceStep::EFromType { label: GenRef::Literal(t) }))
            &&& r.should_collect is None
        },
        Some(v) => {
            &&& reported(c0, c1, e + id_errors(q, scope, v@[0]))
            &&& type_view(r.ty) == TypeView::Edge(Some(t@))
            &&& r.source_step matches Some(Separator::Period(SourceStep::EFromID { id, label }))
                && label == GenRef::Literal(t) && id_ref_matches(q, v@[0], false, id)
            &&& r.should_collect == Some(ShouldCollect::ToObj)
        },
    }
}

/// What starting from the items of a vector type gives: all of them, or the one with the
/// given id; an undeclared type is reported (E103).
pub open spec fn vector_start(c0: Ctx, c1: Ctx, q: Query, t: String, ids: Option<Vec<IdType>>, loc: Loc, scope: StrMap<Type>, r: TraversalStart) -> bool {
    let e = type_errors(names_contain(c0.vector_set@, t@), ErrorCode::E103, loc, q, t@);
    &&& r.traversal_type == Some(TraversalType::Ref)
    &&& match ids {
        None => {
            &&& reported(c0, c1, e)
            &&& type_view(r.ty) == TypeView::Vectors(Some(t@))
            &&& r.source_step == Some(Separator::Period(SourceStep::VFromType { label: GenRef::Literal(t) }))
            &&& r.should_collect is None
        },
        Some(v) => {
            &&& reported(c0, c1, e + id_errors(q, scope, v@[0]))
            &&& type_view(r.ty) == TypeView::Vector(Some(t@))
            &&& r.source_step matches Some(Separator::Period(SourceStep::VFromID { id, label }))
                && label == GenRef::Literal(t) && id_ref_matches(q, v@[0], false, id)
            &&& r.should_collect == Some(ShouldCollect::ToObj)
        },
    }
}

/// What starting from a variable gives: its type, read from the variable; a reserved
/// name (E105) or an unbound one (E301) is reported and gives an unknown type, with the
/// generated traversal left as it was.
pub open spec fn variable_start(c0: Ctx, c1: Ctx, q: Query, name: String, loc: Loc, scope: StrMap<Type>, r: TraversalStart) -> bool {
    &&& r.should_collect is None
    &&& if reserved_identifier(name@) {
        &&& reported(c0, c1, seq![query_error(loc, ErrorCode::E105, q, seq![name@])])
        &&& r.ty is Unknown && r.source_step is None && r.traversal_type is None
    } else if scope@.contains_key(name@) {
        &&& reported(c0, c1, Seq::empty())
        &&& type_view(r.ty) == scope@[name@]
        &&& r.traversal_type == Some(TraversalType::FromVar(GenRef::Std(name)))
        &&& r.source_step == Some(Separator::Empty(SourceStep::Identifier(GenRef::Std(name))))
    } else {
        &&& reported(c0, c1, seq![query_error(loc, ErrorCode::E301, q, seq![name@])])
        &&& r.ty is Unknown && r.source_step is None && r.traversal_type is None
    }
}

/// What starting from a vector search gives: the vectors of its type, collected into a
/// list; an undeclared vector type (E103) and the problems of the query vector and of the
/// result count are reported, and an embedding to compute is recorded in the query.
pub open spec fn search_start(c0: Ctx, c1: Ctx, q: Query, sv: SearchVector, scope: StrMap<Type>, g0: crate::generator::queries::Query, g1: crate::generator::queries::Query, r: TraversalStart) -> bool {
    let t = sv.vector_type->0;
    let e = type_errors(names_contain(c0.vector_set@, t@), ErrorCode::E103, sv.loc, q, t@);
    &&& reported(c0, c1, e + vector_data_errors(q, sv, scope) + vector_count_errors(q, sv))
    &&& embeds_outcome(sv.data, q, g0, g1)
    &&& type_view(r.ty) == TypeView::Vectors(name_view(sv.vector_type))
    &&& r.traversal_type == Some(TraversalType::Ref)
    &&& r.should_collect == Some(ShouldCollect::ToVec)
    &&& r.source_step matches Some(Separator::Period(SourceStep::SearchVector { label, vec, k, pre_filter }))
        && label == GenRef::Literal(t) && vec_matches(vec, sv.data, q, g0) && k_matches(k, sv.k, q)
        && pre_filter is None
}

/// The diagnostics of the text a search over nodes looks for: a reserved variable name
/// (E105), then an unbound one (E301); nothing given, or an object, E305.
pub open spec fn bm25_data_errors(q: Query, b: BM25Search, scope: StrMap<Type>) -> Seq<DiagnosticView> {
    match b.data {
        Some(ValueType::Literal { .. }) => Seq::empty(),
        Some(ValueType::Identifier { value, .. }) => (if reserved_identifier(value@) {
            seq![query_error(b.loc, ErrorCode::E105, q, seq![value@])]
        } else {
            Seq::<DiagnosticView>::empty()
        }) + if scope@.contains_key(value@) {
            Seq::<DiagnosticView>::empty()
        } else {
            seq![query_error(b.loc, ErrorCode::E301, q, seq![value@])]
        },
        _ => seq![query_error(b.loc, ErrorCode::E305, q, search_arg_details("vector_data"@))],
    }
}

/// The diagnostics of the result count of a search over nodes: a reserved variable name
/// (E105), or a floating-point count (E305).
pub open spec fn bm25_count_errors(q: Query, b: BM25Search) -> Seq<DiagnosticView> {
    match b.k {
        Some(k) => match k.value {
            EvaluatesToNumberType::Identifier(i) => if reserved_identifier(i@) {
                seq![query_error(b.loc, ErrorCode::E105, q, seq![i@])]
            } else {
                Seq::empty()
            },
            EvaluatesToNumberType::F32 | EvaluatesToNumberType::F64 => seq![
                query_error(b.loc, ErrorCode::E305, q, seq!["k"@, "SearchBM25"@, "k"@]),
            ],
            _ => Seq::empty(),
        },
        None => Seq::empty(),
    }
}

/// The text a search over nodes looks for in generated code: a literal's text, a bound
/// variable or parameter read by reference, anything else unknown.
pub open spec fn bm25_query_matches(v: GeneratedValue, data: Option<ValueType>, q: Query, scope: StrMap<Type>) -> bool {
    match data {
        Some(ValueType::Literal { value, .. }) => v matches GeneratedValue::Literal(GenRef::Std(s)) && s@
            == value_text(value),
        Some(ValueType::Identifier { value, .. }) => if scope@.contains_key(value@) {
            identifier_or_param(q, value@, true, v)
        } else {
            v is Unknown
        },
        _ => v is Unknown,
    }
}

/// What checking the start of a traversal gives (`loc` is the traversal's position).
pub open spec fn start_outcome(
    c0: Ctx,
    c1: Ctx,
    q: Query,
    start: StartNode,
    loc: Loc,
    scope: StrMap<Type>,
    parent: Option<TypeView>,
    g0: crate::generator::queries::Query,
    g1: crate::generator::queries::Query,
    r: TraversalStart,
) -> bool {
    match start {
        StartNode::Node { node_type, ids } => g1 == g0 && node_start(c0, c1, q, node_type, ids, loc, scope, r),
        StartNode::Edge { edge_type, ids } => g1 == g0 && edge_start(c0, c1, q, edge_type, ids, loc, scope, r),
        StartNode::Vector { vector_type, ids } => g1 == g0 && vector_start(c0, c1, q, vector_type, ids, loc, scope, r),
        StartNode::Identifier(name) => g1 == g0 && variable_start(c0, c1, q, name, loc, scope, r),
        StartNode::Anonymous => {
            &&& g1 == g0
            &&& reported(c0, c1, Seq::empty())
            &&& type_view(r.ty) == parent->0
            &&& r.traversal_type matches Some(TraversalType::FromVar(GenRef::Std(v))) && v@ == DEFAULT_VAR_NAME@
            &&& r.source_step == Some(Separator::Empty(SourceStep::Anonymous))
            &&& r.should_collect is None
        },
        StartNode::SearchVector(sv) => search_start(c0, c1, q, sv, scope, g0, g1, r),
    }
}

/// The reference to a start's single id in generated code, with the id's diagnostics.
fn start_id(ctx: &mut Ctx, q: &Query, scope: &StrMap<Type>, id: &IdType, literal_ref: bool) -> (r: GenRef<String>)
    requires
        !(*id is ByIndex),
    ensures
        reported(*old(ctx), *final(ctx), id_errors(*q, *scope, *id)),
        id_ref_matches(*q, *id, literal_ref, r),
{
    let ghost d0 = ctx.diagnostics.deep_view();
    match id {
        IdType::Identifier { value, loc } => {
            is_valid_identifier(ctx, q, *loc, value.as_str());
            let _ = type_in_scope(ctx, q, *loc, scope, value.as_str());
            proof {
                let e1: Seq<DiagnosticView> = if reserved_identifier(value@) {
                    seq![query_error(*loc, ErrorCode::E105, *q, seq![value@])]
                } else {
                    Seq::empty()
                };
                let e2: Seq<DiagnosticView> = if scope@.contains_key(value@) {
                    Seq::empty()
                } else {
                    seq![query_error(*loc, ErrorCode::E301, *q, seq![value@])]
                };
                assert(ctx.diagnostics.deep_view() =~= d0 + (e1 + e2));
            }
            let v = gen_identifier_or_param(q, value.as_str(), true, false);
            match v {
                GeneratedValue::Parameter(g) => g,
                GeneratedValue::Identifier(g) => g,
                _ => GenRef::Unknown,
            }
        },
        IdType::Literal { value, .. } => {
            proof {
                assert(ctx.diagnostics.deep_view() =~= d0 + Seq::empty());
            }
            if literal_ref {
                GenRef::Ref(value.clone())
            } else {
                GenRef::Std(value.clone())
            }
        },
        IdType::ByIndex { .. } => GenRef::Unknown,
    }
}

/// The field name and the key of a start at the node whose indexed field holds a key,
/// with their diagnostics (see [`index_errors`]).
fn start_by_index(
    ctx: &mut Ctx,
    q: &Query,
    scope: &StrMap<Type>,
    node_type: &String,
    index: &IdType,
    value: &ValueType,
    loc: Loc,
) -> (r: (GenRef<String>, GeneratedValue))
    requires
        *index is Identifier,
        match *value {
            ValueType::Identifier { .. } => true,
            ValueType::Literal { value, .. } => !(value is Empty),
            _ => false,
        },
    ensures
        reported(
            *old(ctx),
            *final(ctx),
            index_errors(*old(ctx), *q, node_type@, index->Identifier_value@, *value, loc, *scope),
        ),
        r.0 == GenRef::Literal(index->Identifier_value),
        index_key_matches(*q, *value, r.1),
{
    let ghost c0 = *ctx;
    let iname: &String = match index {
        IdType::Identifier { value, .. } => value,
        _ => node_type,
    };
    let t = node_type.as_str();
    let ghost e0: Seq<DiagnosticView> = if reserved_identifier(iname@) {
        seq![query_error(loc, ErrorCode::E105, *q, seq![iname@])]
    } else {
        Seq::empty()
    };
    is_valid_identifier(ctx, q, loc, iname.as_str());
    proof {
        assert(ctx.diagnostics.deep_view() =~= c0.diagnostics.deep_view() + e0);
    }
    let ghost c1 = *ctx;
    let has_type = ctx.node_fields.contains_key(t);
    let mut field: Option<(FieldPrefix, super::types::FieldType)> = None;
    if has_type {
        match ctx.node_fields.get(t) {
            Some(fs) => match fs.get(iname.as_str()) {
                Some(f) => {
                    field = Some((f.prefix, f.field_type.deep_copy()));
                },
                None => {},
            },
            None => {},
        }
    }
    if !has_type {
        report1(ctx, q, loc, ErrorCode::E201, t);
    } else {
        match &field {
            Some((prefix, ft)) => {
                if *prefix != FieldPrefix::Index {
                    report3(ctx, q, loc, ErrorCode::E208, iname.as_str(), t, t);
                } else {
                    match value {
                        ValueType::Literal { value: v, loc: vl } => {
                            if !field_accepts_value(ft, v) {
                                let details = vec![
                                    value_text_of(v),
                                    value_kind_of(v),
                                    field_kind_of(ft),
                                    String::from_str("node"),
                                    node_type.clone(),
                                ];
                                proof {
                                    assert(details.deep_view() =~= seq![value_text(*v), value_kind(*v), field_kind(c0.node_fields@[t@][iname@].2), "node"@, t@]);
                                }
                                push_query_error(ctx, q, *vl, ErrorCode::E205, details);
                            } else {
                                proof {
                                    assert(ctx.diagnostics.deep_view() =~= c1.diagnostics.deep_view() + Seq::empty());
                                }
                            }
                        },
                        _ => {
                            proof {
                                assert(ctx.diagnostics.deep_view() =~= c1.diagnostics.deep_view() + Seq::empty());
                            }
                        },
                    }
                }
            },
            None => {
                report3(ctx, q, loc, ErrorCode::E208, iname.as_str(), t, t);
            },
        }
    }
    let key = match value {
        ValueType::Identifier { value: kv, loc: kl } => {
            if is_valid_identifier(ctx, q, *kl, kv.as_str()) && !scope.contains_key(kv.as_str()) {
                report1(ctx, q, *kl, ErrorCode::E301, kv.as_str());
            }
            gen_identifier_or_param(q, kv.as_str(), true, false)
        },
        ValueType::Literal { value: v, .. } => {
            let c = literal_code_of(v);
            GeneratedValue::Primitive(GenRef::Ref(c))
        },
        _ => GeneratedValue::Unknown,
    };
    proof {
        let ie = index_errors(c0, *q, t@, iname@, *value, loc, *scope);
        assert(ctx.diagnostics.deep_view() =~= c0.diagnostics.deep_view() + ie);
    }
    (GenRef::Literal(iname.clone()), key)
}

/// Whether adding `a` and then `b` to the diagnostics adds `a + b`.
pub(crate) proof fn lemma_reported_twice(c0: Ctx, c1: Ctx, c2: Ctx, a: Seq<DiagnosticView>, b: Seq<DiagnosticView>)
    requires
        reported(c0, c1, a),
        reported(c1, c2, b),
    ensures
        reported(c0, c2, a + b),
{
    assert(c2.diagnostics.deep_view() =~= c0.diagnostics.deep_view() + (a + b));
}

/// Checks where a traversal starts: that the type it starts from is declared, that the
/// variables it reads are bound, and the arguments of a vector search; and gives the type
/// it starts with and the step the generated traversal starts from
/// (see [`start_outcome`]). `loc` is the traversal's position, `parent_ty` the type of
/// the enclosing traversal, if any.
pub fn validate_start_node(
    ctx: &mut Ctx,
    start: &StartNode,
    loc: Loc,
    scope: &StrMap<Type>,
    original_query: &Query,
    parent_ty: Option<Type>,
    gen_query: &mut GeneratedQuery,
) -> (r: TraversalStart)
    requires
        start_supported(*start, parent_ty),
    ensures
        start_outcome(
            *old(ctx),
            *final(ctx),
            *original_query,
            *start,
            loc,
            *scope,
            super::graph_step_validation::opt_type_view(parent_ty),
            *old(gen_query),
            *final(gen_query),
            r,
        ),
{
    let ghost c0 = *ctx;
    let q = original_query;
    match start {
        StartNode::Node { node_type, ids } => {
            if !contains_name(&ctx.node_set, node_type.as_str()) {
                report1(ctx, q, loc, ErrorCode::E101, node_type.as_str());
            } else {
                proof {
                    assert(ctx.diagnostics.deep_view() =~= c0.diagnostics.deep_view() + Seq::empty());
                }
            }
            let ghost c1 = *ctx;
            match ids {
                None => TraversalStart {
                    ty: Type::Nodes(Some(node_type.clone())),
                    source_step: Some(
                        Separator::Period(SourceStep::NFromType { label: GenRef::Literal(node_type.clone()) }),
                    ),
                    traversal_type: Some(TraversalType::Ref),
                    should_collect: None,
                },
                Some(v) => {
                    if let IdType::ByIndex { index, value, loc: il } = &v[0] {
                        let (ig, key) = start_by_index(ctx, q, scope, node_type, index, value, *il);
                        proof {
                            lemma_reported_twice(c0, c1, *ctx, type_errors(names_contain(c0.node_set@, node_type@), ErrorCode::E101, loc, *q, node_type@), index_errors(c1, *q, node_type@, index->Identifier_value@, **value, *il, *scope));
                        }
                        return TraversalStart {
                            ty: Type::Node(Some(node_type.clone())),
                            source_step: Some(
                                Separator::Period(SourceStep::NFromIndex { label: GenRef::Literal(node_type.clone()), index: ig, key }),
                            ),
                            traversal_type: Some(TraversalType::Ref),
                            should_collect: Some(ShouldCollect::ToObj),
                        };
                    }
                    let id = start_id(ctx, q, scope, &v[0], true);
                    proof {
                        lemma_reported_twice(c0, c1, *ctx, type_errors(names_contain(c0.node_set@, node_type@), ErrorCode::E101, loc, *q, node_type@), id_errors(*q, *scope, v@[0]));
                    }
                    TraversalStart {
                        ty: Type::Node(Some(node_type.clone())),
                        source_step: Some(
                            Separator::Period(SourceStep::NFromID { id, label: GenRef::Literal(node_type.clone()) }),
                        ),
                        traversal_type: Some(TraversalType::Ref),
                        should_collect: Some(ShouldCollect::ToObj),
                    }
                },
            }
        },
        StartNode::Edge { edge_type, ids } => {
            if !ctx.edge_map.contains_key(edge_type.as_str()) {
                report1(ctx, q, loc, ErrorCode::E102, edge_type.as_str());
            } else {
                proof {
                    assert(ctx.diagnostics.deep_view() =~= c0.diagnostics.deep_view() + Seq::empty());
                }
            }
            let ghost c1 = *ctx;
            match ids {
                None => TraversalStart {
                    ty: Type::Edges(Some(edge_type.clone())),
                    source_step: Some(
                        Separator::Period(SourceStep::EFromType { label: GenRef::Literal(edge_type.clone()) }),
                    ),
                    traversal_type: Some(TraversalType::Ref),
                    should_collect: None,
                },
                Some(v) => {
                    let id = start_id(ctx, q, scope, &v[0], false);
                    proof {
                        lemma_reported_twice(c0, c1, *ctx, type_errors(c0.edge_map@.contains_key(edge_type@), ErrorCode::E102, loc, *q, edge_type@), id_errors(*q, *scope, v@[0]));
                    }
                    TraversalStart {
                        ty: Type::Edge(Some(edge_type.clone())),
                        source_step: Some(
                            Separator::Period(SourceStep::EFromID { id, label: GenRef::Literal(edge_type.clone()) }),
                        ),
                        traversal_type: Some(TraversalType::Ref),
                        should_collect: Some(ShouldCollect::ToObj),
                    }
                },
            }
        },
        StartNode::Vector { vector_type, ids } => {
            if !contains_name(&ctx.vector_set, vector_type.as_str()) {
                report1(ctx, q, loc, ErrorCode::E103, vector_type.as_str());
            } else {
                proof {
                    assert(ctx.diagnostics.deep_view() =~= c0.diagnostics.deep_view() + Seq::empty());
                }
            }
            let ghost c1 = *ctx;
            match ids {
                None => TraversalStart {
                    ty: Type::Vectors(Some(vector_type.clone())),
                    source_step: Some(
                        Separator::Period(SourceStep::VFromType { label: GenRef::Literal(vector_type.clone()) }),
                    ),
                    traversal_type: Some(TraversalType::Ref),
                    should_collect: None,
                },
                Some(v) => {
                    let id = start_id(ctx, q, scope, &v[0], false);
                    proof {
                        lemma_reported_twice(c0, c1, *ctx, type_errors(names_contain(c0.vector_set@, vector_type@), ErrorCode::E103, loc, *q, vector_type@), id_errors(*q, *scope, v@[0]));
                    }
                    TraversalStart {
                        ty: Type::Vector(Some(vector_type.clone())),
                        source_step: Some(
                            Separator::Period(SourceStep::VFromID { id, label: GenRef::Literal(vector_type.clone()) }),
                        ),
                        traversal_type: Some(TraversalType::Ref),
                        should_collect: Some(ShouldCollect::ToObj),
                    }
                },
            }
        },
        StartNode::Identifier(name) => {
            if is_valid_identifier(ctx, q, loc, name.as_str()) {
                match scope.get(name.as_str()) {
                    Some(t) => {
                        proof {
                            assert(ctx.diagnostics.deep_view() =~= c0.diagnostics.deep_view() + Seq::empty());
                        }
                        TraversalStart {
                            ty: t.deep_copy(),
                            source_step: Some(Separator::Empty(SourceStep::Identifier(GenRef::Std(name.clone())))),
                            traversal_type: Some(TraversalType::FromVar(GenRef::Std(name.clone()))),
                            should_collect: None,
                        }
                    },
                    None => {
                        report1(ctx, q, loc, ErrorCode::E301, name.as_str());
                        TraversalStart { ty: Type::Unknown, source_step: None, traversal_type: None, should_collect: None }
                    },
                }
            } else {
                proof {
                    assert(ctx.diagnostics.deep_view() =~= c0.diagnostics.deep_view() + seq![
                        query_error(loc, ErrorCode::E105, *q, seq![name@]),
                    ]);
                }
                TraversalStart { ty: Type::Unknown, source_step: None, traversal_type: None, should_collect: None }
            }
        },
        StartNode::Anonymous => {
            proof {
                assert(ctx.diagnostics.deep_view() =~= c0.diagnostics.deep_view() + Seq::empty());
            }
            let ty = match parent_ty {
                Some(p) => p,
                None => Type::Unknown,
            };
            TraversalStart {
                ty,
                source_step: Some(Separator::Empty(SourceStep::Anonymous)),
                traversal_type: Some(TraversalType::FromVar(GenRef::Std(DEFAULT_VAR_NAME.to_owned()))),
                should_collect: None,
            }
        },
        StartNode::SearchVector(sv) => {
            let t = match &sv.vector_type {
                Some(t) => t,
                None => {
                    return TraversalStart { ty: Type::Unknown, source_step: None, traversal_type: None, should_collect: None };
                },
            };
            if !contains_name(&ctx.vector_set, t.as_str()) {
                report1(ctx, q, sv.loc, ErrorCode::E103, t.as_str());
            } else {
                proof {
                    assert(ctx.diagnostics.deep_view() =~= c0.diagnostics.deep_view() + Seq::empty());
                }
            }
            let ghost c1 = *ctx;
            let vec = search_vector_data(ctx, q, sv, scope, gen_query);
            let ghost c2 = *ctx;
            let k = search_vector_count(ctx, q, sv);
            proof {
                let e = type_errors(names_contain(c0.vector_set@, t@), ErrorCode::E103, sv.loc, *q, t@);
                lemma_reported_twice(c0, c1, c2, e, vector_data_errors(*q, *sv, *scope));
                lemma_reported_twice(c0, c2, *ctx, e + vector_data_errors(*q, *sv, *scope), vector_count_errors(*q, *sv));
            }
            TraversalStart {
                ty: Type::Vectors(Some(t.clone())),
                source_step: Some(
                    Separator::Period(SourceStep::SearchVector { label: GenRef::Literal(t.clone()), vec, k, pre_filter: None }),
                ),
                traversal_type: Some(TraversalType::Ref),
                should_collect: Some(ShouldCollect::ToVec),
            }
        },
    }
}


// ---------------------------------------------------------------------------------------
// Traversals and the expressions inside them
// ---------------------------------------------------------------------------------------

/// Whether a generated traversal is the one that checking a traversal starts from: from
/// the graph, with an empty source step, no steps, collected into a list.
pub open spec fn is_default_traversal(t: GeneratedTraversal) -> bool {
    &&& t.traversal_type == TraversalType::Ref
    &&& t.source_step matches Separator::Empty(SourceStep::Written(c)) && c.code@.len() == 0
    &&& t.steps@.len() == 0
    &&& t.should_collect == ShouldCollect::ToVec
}

/// The generated traversal with what the start of a traversal decides put in.
pub open spec fn with_start(t: GeneratedTraversal, st: TraversalStart) -> GeneratedTraversal {
    GeneratedTraversal {
        traversal_type: match st.traversal_type {
            Some(x) => x,
            None => t.traversal_type,
        },
        source_step: match st.source_step {
            Some(x) => x,
            None => t.source_step,
        },
        steps: t.steps,
        should_collect: match st.should_collect {
            Some(x) => x,
            None => t.should_collect,
        },
    }
}

/// Whether `t1` is `t0` with the given steps and way of collecting.
pub open spec fn reshaped(
    t0: GeneratedTraversal,
    t1: GeneratedTraversal,
    steps: Seq<Separator<GeneratedStep>>,
    collect: ShouldCollect,
) -> bool {
    &&& t1.traversal_type == t0.traversal_type
    &&& t1.source_step == t0.source_step
    &&& t1.steps@ == steps
    &&& t1.should_collect == collect
}

/// The steps without their last one, if any.
pub open spec fn popped(s: Seq<Separator<GeneratedStep>>) -> Seq<Separator<GeneratedStep>> {
    if s.len() > 0 {
        s.drop_last()
    } else {
        s
    }
}

/// The code that names a property in a grouping or an aggregation.
pub open spec fn quoted_property(p: Seq<char>) -> Seq<char> {
    "\""@ + p + "\".to_string()"@
}

/// Whether the references name the properties, in order (see [`quoted_property`]).
pub open spec fn properties_match(gs: Seq<GenRef<String>>, ps: Seq<String>) -> bool {
    &&& gs.len() == ps.len()
    &&& forall|i: int|
        0 <= i < gs.len() ==> (#[trigger] gs[i] matches GenRef::Std(s) && s@ == quoted_property(
            ps[i]@,
        ))
}

/// The single-item form of a type: many nodes, edges or vectors become one.
pub open spec fn into_single(t: Type) -> Type {
    match t {
        Type::Nodes(n) => Type::Node(n),
        Type::Edges(n) => Type::Edge(n),
        Type::Vectors(n) => Type::Vector(n),
        _ => t,
    }
}

/// The traversal collected into nothing.
pub open spec fn uncollected(t: GeneratedTraversal) -> GeneratedTraversal {
    GeneratedTraversal {
        traversal_type: t.traversal_type,
        source_step: t.source_step,
        steps: t.steps,
        should_collect: ShouldCollect::No,
    }
}

/// The condition a filter step gets from a statement: a traversal's value, or a boolean
/// expression in which a traversal whose existence is asked (alone or negated) collects
/// nothing.
pub open spec fn where_expr(st: Statement) -> BoExp {
    match st {
        Statement::Traversal(t) => BoExp::Expr(t),
        Statement::BoExp(b) => match b {
            BoExp::Not(inner) => match *inner {
                BoExp::Exists(t) => BoExp::Not(Box::new(BoExp::Exists(uncollected(t)))),
                _ => BoExp::Not(inner),
            },
            BoExp::Exists(t) => BoExp::Exists(uncollected(t)),
            _ => b,
        },
        _ => BoExp::Empty,
    }
}

/// The member a boolean expression gives to a conjunction or a disjunction: a traversal
/// whose existence is asked collects nothing, and a negated one loses its negation.
pub open spec fn bool_item(b: BoExp) -> BoExp {
    match b {
        BoExp::Exists(t) => BoExp::Exists(uncollected(t)),
        BoExp::Not(inner) => match *inner {
            BoExp::Exists(t) => BoExp::Exists(uncollected(t)),
            _ => BoExp::Not(inner),
        },
        _ => b,
    }
}

/// The condition a search's pre-filter gets from a statement: a traversal's value, or a
/// boolean expression in which a traversal whose existence is asked collects nothing.
pub open spec fn prefilter_expr(st: Statement) -> BoExp {
    match st {
        Statement::Traversal(t) => BoExp::Expr(t),
        Statement::BoExp(b) => match b {
            BoExp::Exists(t) => BoExp::Exists(uncollected(t)),
            _ => b,
        },
        _ => BoExp::Empty,
    }
}

/// Whether a generated traversal is a search's pre-filter for a statement: from each
/// found vector `v`, a filter on the statement's condition, collected into a list.
pub open spec fn is_prefilter(ft: GeneratedTraversal, st: Statement) -> bool {
    &&& ft.traversal_type matches TraversalType::NestedFrom(GenRef::Std(s)) && s@ == "v"@
    &&& ft.source_step == Separator::Empty(SourceStep::Anonymous)
    &&& ft.should_collect == ShouldCollect::ToVec
    &&& ft.steps@ == seq![
        Separator::Period(GeneratedStep::Where(Where::Ref(WhereRef { expr: prefilter_expr(st) }))),
    ]
}

/// The variable a traversal starts from, or `val` for one that starts elsewhere.
pub open spec fn source_variable_text(t: GeneratedTraversal) -> Seq<char> {
    match t.source_step.inner_spec() {
        SourceStep::Identifier(g) => if g.has_inner() {
            g.inner_spec()@
        } else {
            DEFAULT_VAR_NAME@
        },
        _ => DEFAULT_VAR_NAME@,
    }
}

/// The query marked as writing to the graph when the traversal does.
pub open spec fn marked_mut(g: GeneratedQuery, t: GeneratedTraversal) -> GeneratedQuery {
    GeneratedQuery {
        name: g.name,
        embedding_model_to_use: g.embedding_model_to_use,
        hoisted_embedding_calls: g.hoisted_embedding_calls,
        is_mut: g.is_mut || t.traversal_type is Mut || t.traversal_type is Update,
        return_values: g.return_values,
    }
}

/// The members of a conjunction, a disjunction or a list.
pub open spec fn members(e: Expression) -> Seq<Expression> {
    match e.expr {
        ExpressionType::And(xs) => xs@,
        ExpressionType::Or(xs) => xs@,
        ExpressionType::ArrayLiteral(xs) => xs@,
        _ => Seq::empty(),
    }
}

pub proof fn lemma_step_decreases(tr: Traversal, i: int)
    requires
        0 <= i < tr.steps@.len(),
    ensures
        decreases_to!(tr => tr.steps@[i].step),
{
    assert(decreases_to!(tr => tr.steps));
    assert(decreases_to!(tr.steps => tr.steps@));
    assert(decreases_to!(tr.steps@ => tr.steps@[i]));
    assert(decreases_to!(tr.steps@[i] => tr.steps@[i].step));
}

pub proof fn lemma_member_decreases(e: Expression, i: int)
    requires
        0 <= i < members(e).len(),
    ensures
        decreases_to!(e => members(e)[i]),
{
    assert(decreases_to!(e => e.expr));
    match e.expr {
        ExpressionType::And(xs) => {
            assert(decreases_to!(e.expr => xs));
            assert(decreases_to!(xs => xs@));
            assert(decreases_to!(xs@ => xs@[i]));
        },
        ExpressionType::Or(xs) => {
            assert(decreases_to!(e.expr => xs));
            assert(decreases_to!(xs => xs@));
            assert(decreases_to!(xs@ => xs@[i]));
        },
        ExpressionType::ArrayLiteral(xs) => {
            assert(decreases_to!(e.expr => xs));
            assert(decreases_to!(xs => xs@));
            assert(decreases_to!(xs@ => xs@[i]));
        },
        _ => {},
    }
}

/// The states that checking a traversal or an expression passes through: the context,
/// the generated query, the type and the generated traversal after each step or member,
/// the context after a member's own check, the result and the states of each expression
/// inside, what a combination or a list has gathered after each member, and how the
/// traversal started.
pub struct Trace {
    pub ctxs: Seq<Ctx>,
    pub mids: Seq<Ctx>,
    pub queries: Seq<GeneratedQuery>,
    pub types: Seq<Type>,
    pub travs: Seq<GeneratedTraversal>,
    pub results: Seq<(Type, Option<Statement>)>,
    pub bools: Seq<Seq<BoExp>>,
    pub stmts: Seq<Seq<Statement>>,
    pub inners: Seq<Option<Type>>,
    pub failed: Seq<bool>,
    pub start: TraversalStart,
    pub subs: Seq<Trace>,
}

/// What one step of a traversal does (`prev_count`: the step before is a count; `w`: the
/// states of a filter's condition, its result first).
pub open spec fn step_outcome(
    c0: Ctx,
    c1: Ctx,
    q: Query,
    scope: StrMap<Type>,
    prev_count: bool,
    s: StepType,
    ty0: Type,
    ty1: Type,
    t0: GeneratedTraversal,
    t1: GeneratedTraversal,
    g0: GeneratedQuery,
    g1: GeneratedQuery,
    w: Trace,
) -> bool
    decreases s, 0int,
{
    match s {
        StepType::Node(gs) => exists|r: Option<Type>|
            #[trigger] graph_step_outcome(c0, c1, gs, ty0, q, scope, t0, t1, g0, g1, r) && type_view(
                ty1,
            ) == match r {
                Some(t) => type_view(t),
                None => type_view(ty0),
            },
        StepType::Edge(gs) => exists|r: Option<Type>|
            #[trigger] graph_step_outcome(c0, c1, gs, ty0, q, scope, t0, t1, g0, g1, r) && type_view(
                ty1,
            ) == match r {
                Some(t) => type_view(t),
                None => type_view(ty0),
            },
        StepType::First => {
            &&& reported(c0, c1, Seq::empty())
            &&& g1 == g0
            &&& type_view(ty1) == type_view(into_single(ty0))
            &&& reshaped(t0, t1, t0.steps@, ShouldCollect::ToObj)
        },
        StepType::Count => {
            &&& reported(c0, c1, Seq::empty())
            &&& g1 == g0
            &&& type_view(ty1) == TypeView::Scalar(FieldTypeView::I64)
            &&& reshaped(t0, t1, t0.steps@.push(Separator::Period(GeneratedStep::Count)), ShouldCollect::No)
        },
        StepType::Aggregate(a) => {
            &&& reported(c0, c1, Seq::empty())
            &&& g1 == g0
            &&& ty1 is Aggregate
            &&& t1.steps@.len() > 0
            &&& reshaped(t0, t1, popped(t0.steps@).push(t1.steps@.last()), ShouldCollect::Try)
            &&& t1.steps@.last() matches Separator::Period(GeneratedStep::AggregateBy(ab))
                && ab.should_count == prev_count && properties_match(ab.properties@, a.properties@)
        },
        StepType::GroupBy(gb) => {
            &&& reported(c0, c1, Seq::empty())
            &&& g1 == g0
            &&& ty1 is Aggregate
            &&& t1.steps@.len() > 0
            &&& reshaped(t0, t1, popped(t0.steps@).push(t1.steps@.last()), ShouldCollect::Try)
            &&& t1.steps@.last() matches Separator::Period(GeneratedStep::GroupBy(g))
                && g.should_count == prev_count && properties_match(g.properties@, gb.properties@)
        },
        StepType::AddEdge(add) => {
            &&& reported(c0, c1, match add.edge_type {
                Some(t) => type_errors(c0.edge_map@.contains_key(t@), ErrorCode::E102, add.loc, q, t@),
                None => Seq::empty(),
            })
            &&& g1 == g0
            &&& t1 == t0
            &&& type_view(ty1) == TypeView::Edges(name_view(add.edge_type))
        },
        StepType::Where(e) => {
            let r = w.results[0];
            &&& expr_outcome(c0, c1, *e, scope, q, Some(type_view(ty0)), g0, g1, r, w.subs[0])
            &&& type_view(ty1) == type_view(ty0)
            &&& r.1 is Some
            &&& reshaped(
                t0,
                t1,
                t0.steps@.push(
                    Separator::Period(
                        GeneratedStep::Where(Where::Ref(WhereRef { expr: where_expr(r.1->0) })),
                    ),
                ),
                t0.should_collect,
            )
        },
        _ => false,
    }
}

/// Whether the step at position `k` follows a count.
pub open spec fn follows_count(tr: Traversal, k: int) -> bool {
    k > 0 && tr.steps@[k - 1].step is Count
}

/// What the first `k` steps of a traversal do: step `i` leads from the states at `i` to
/// those at `i + 1`.
pub open spec fn steps_prefix(q: Query, scope: StrMap<Type>, tr: Traversal, k: int, w: Trace) -> bool
    decreases tr, k,
{
    if k <= 0 {
        true
    } else if k <= tr.steps@.len() {
        proof {
            lemma_step_decreases(tr, k - 1);
        }
        &&& steps_prefix(q, scope, tr, k - 1, w)
        &&& step_outcome(
            w.ctxs[k - 1],
            w.ctxs[k],
            q,
            scope,
            follows_count(tr, k - 1),
            tr.steps@[k - 1].step,
            w.types[k - 1],
            w.types[k],
            w.travs[k - 1],
            w.travs[k],
            w.queries[k - 1],
            w.queries[k],
            w.subs[k - 1],
        )
    } else {
        false
    }
}

/// What checking a traversal gives: its start, then each of its steps, in order; the
/// query is marked as writing when the traversal does.
pub open spec fn traversal_outcome(
    c0: Ctx,
    c1: Ctx,
    q: Query,
    scope: StrMap<Type>,
    parent: Option<TypeView>,
    tr: Traversal,
    t0: GeneratedTraversal,
    t1: GeneratedTraversal,
    g0: GeneratedQuery,
    g1: GeneratedQuery,
    ty: Type,
    w: Trace,
) -> bool
    decreases tr, tr.steps@.len() + 1,
{
    let n = tr.steps@.len() as int;
    &&& start_outcome(c0, w.ctxs[0], q, tr.start, tr.loc, scope, parent, g0, w.queries[0], w.start)
    &&& w.types[0] == w.start.ty
    &&& w.travs[0] == with_start(t0, w.start)
    &&& steps_prefix(q, scope, tr, n, w)
    &&& c1 == w.ctxs[n]
    &&& type_view(ty) == type_view(w.types[n])
    &&& t1 == w.travs[n]
    &&& g1 == marked_mut(w.queries[n], t1)
}

/// What an element of a conjunction or a disjunction adds: its boolean expression, a
/// traversal's value, or, for anything else, nothing and a diagnostic (E306).
pub open spec fn bool_member_outcome(
    cx: Ctx,
    ck: Ctx,
    q: Query,
    loc: Loc,
    rx: (Type, Option<Statement>),
    bm: Seq<BoExp>,
    bs: Seq<BoExp>,
) -> bool {
    match rx.1 {
        Some(Statement::BoExp(b)) => reported(cx, ck, Seq::empty()) && bs == bm.push(bool_item(b)),
        Some(Statement::Traversal(t)) => reported(cx, ck, Seq::empty()) && bs == bm.push(BoExp::Expr(t)),
        Some(_) => reported(cx, ck, seq![query_error(loc, ErrorCode::E306, q, seq![item_kind(rx.0)])])
            && bs == bm.push(BoExp::Empty),
        None => false,
    }
}

/// What the first `k` members of a conjunction or a disjunction give: member `i` leads
/// from the states at `i` to those at `i + 1`.
pub open spec fn bool_members(
    q: Query,
    scope: StrMap<Type>,
    parent: Option<TypeView>,
    e: Expression,
    k: int,
    w: Trace,
) -> bool
    decreases e, k,
{
    if k <= 0 {
        true
    } else if k <= members(e).len() {
        proof {
            lemma_member_decreases(e, k - 1);
        }
        &&& bool_members(q, scope, parent, e, k - 1, w)
        &&& expr_outcome(
            w.ctxs[k - 1],
            w.mids[k - 1],
            members(e)[k - 1],
            scope,
            q,
            parent,
            w.queries[k - 1],
            w.queries[k],
            w.results[k - 1],
            w.subs[k - 1],
        )
        &&& bool_member_outcome(
            w.mids[k - 1],
            w.ctxs[k],
            q,
            members(e)[k - 1].loc,
            w.results[k - 1],
            w.bools[k - 1],
            w.bools[k],
        )
    } else {
        false
    }
}

/// What an element of a list adds: its statement, after checking that its type is the
/// list's (E306); a missing statement (E306) ends the list.
pub open spec fn array_member_outcome(
    cx: Ctx,
    ck: Ctx,
    q: Query,
    loc: Loc,
    rx: (Type, Option<Statement>),
    im: Option<Type>,
    sm: Seq<Statement>,
    inner: Option<Type>,
    stmts: Seq<Statement>,
    failed: bool,
) -> bool {
    let mismatch: Seq<DiagnosticView> = if im is Some && type_view(im->0) != type_view(rx.0) {
        seq![query_error(loc, ErrorCode::E306, q, seq![item_kind(rx.0)])]
    } else {
        Seq::empty()
    };
    &&& opt_type_view(inner) == if im is Some {
        opt_type_view(im)
    } else {
        Some(type_view(rx.0))
    }
    &&& match rx.1 {
        Some(st) => reported(cx, ck, mismatch) && stmts == sm.push(st) && !failed,
        None => reported(
            cx,
            ck,
            mismatch + seq![query_error(loc, ErrorCode::E306, q, seq![item_kind(rx.0)])],
        ) && stmts == sm && failed,
    }
}

/// What the first `k` members of a list give: the list's type so far, the statements, and
/// whether a member had no statement (after which no member is checked).
pub open spec fn array_members(
    q: Query,
    scope: StrMap<Type>,
    parent: Option<TypeView>,
    e: Expression,
    k: int,
    w: Trace,
) -> bool
    decreases e, k,
{
    if k <= 0 {
        true
    } else if k <= members(e).len() {
        proof {
            lemma_member_decreases(e, k - 1);
        }
        &&& array_members(q, scope, parent, e, k - 1, w)
        &&& if w.failed[k - 1] {
            &&& w.ctxs[k] == w.ctxs[k - 1]
            &&& w.queries[k] == w.queries[k - 1]
            &&& opt_type_view(w.inners[k]) == opt_type_view(w.inners[k - 1])
            &&& w.stmts[k] == w.stmts[k - 1]
            &&& w.failed[k]
        } else {
            &&& expr_outcome(
                w.ctxs[k - 1],
                w.mids[k - 1],
                members(e)[k - 1],
                scope,
                q,
                parent,
                w.queries[k - 1],
                w.queries[k],
                w.results[k - 1],
                w.subs[k - 1],
            )
            &&& array_member_outcome(
                w.mids[k - 1],
                w.ctxs[k],
                q,
                members(e)[k - 1].loc,
                w.results[k - 1],
                w.inners[k - 1],
                w.stmts[k - 1],
                w.inners[k],
                w.stmts[k],
                w.failed[k],
            )
        }
    } else {
        false
    }
}

/// What checking the members of a conjunction or a disjunction gives, from the states
/// at the start (`c0`, `g0`, nothing gathered) to those after the last member.
pub open spec fn combined(
    c0: Ctx,
    c1: Ctx,
    q: Query,
    scope: StrMap<Type>,
    parent: Option<TypeView>,
    e: Expression,
    g0: GeneratedQuery,
    g1: GeneratedQuery,
    w: Trace,
) -> bool
    decreases e, members(e).len() + 1,
{
    let n = members(e).len() as int;
    &&& w.ctxs[0] == c0 && w.queries[0] == g0 && w.bools[0] == Seq::<BoExp>::empty()
    &&& bool_members(q, scope, parent, e, n, w)
    &&& c1 == w.ctxs[n] && g1 == w.queries[n]
}

/// What checking the members of a list gives, from the states at the start (`c0`, `g0`,
/// no type, no statement, nothing failed) to those after the last member.
pub open spec fn listed(
    c0: Ctx,
    c1: Ctx,
    q: Query,
    scope: StrMap<Type>,
    parent: Option<TypeView>,
    e: Expression,
    g0: GeneratedQuery,
    g1: GeneratedQuery,
    w: Trace,
) -> bool
    decreases e, members(e).len() + 1,
{
    let n = members(e).len() as int;
    &&& w.ctxs[0] == c0 && w.queries[0] == g0 && w.inners[0] is None
    &&& w.stmts[0] == Seq::<Statement>::empty() && !w.failed[0]
    &&& array_members(q, scope, parent, e, n, w)
    &&& c1 == w.ctxs[n] && g1 == w.queries[n]
}

/// What inferring the type of an expression gives: its type, the statement to generate
/// from it, the diagnostics it reports and what it records in the query (see the cases;
/// `w` holds the states that checking the expressions inside passes through).
pub open spec fn expr_outcome(
    c0: Ctx,
    c1: Ctx,
    e: Expression,
    scope: StrMap<Type>,
    q: Query,
    parent: Option<TypeView>,
    g0: GeneratedQuery,
    g1: GeneratedQuery,
    r: (Type, Option<Statement>),
    w: Trace,
) -> bool
    decreases e, members(e).len() + 2,
{
    match e.expr {
        ExpressionType::Identifier(n) => {
            let e105: Seq<DiagnosticView> = if reserved_identifier(n@) {
                seq![query_error(e.loc, ErrorCode::E105, q, seq![n@])]
            } else {
                Seq::empty()
            };
            &&& g1 == g0
            &&& if scope@.contains_key(n@) {
                &&& reported(c0, c1, e105)
                &&& type_view(r.0) == scope@[n@]
                &&& r.1 == Some(Statement::Identifier(GenRef::Std(n)))
            } else {
                &&& reported(c0, c1, e105 + seq![query_error(e.loc, ErrorCode::E301, q, seq![n@])])
                &&& r.0 is Unknown
                &&& r.1 is None
            }
        },
        ExpressionType::IntegerLiteral(i) => {
            &&& g1 == g0
            &&& reported(c0, c1, Seq::empty())
            &&& type_view(r.0) == TypeView::Scalar(FieldTypeView::I32)
            &&& r.1 matches Some(Statement::Literal(GenRef::Literal(s))) && s@ == integer_text(i as int)
        },
        ExpressionType::StringLiteral(s) => {
            &&& g1 == g0
            &&& reported(c0, c1, Seq::empty())
            &&& type_view(r.0) == TypeView::Scalar(FieldTypeView::String)
            &&& r.1 == Some(Statement::Literal(GenRef::Literal(s)))
        },
        ExpressionType::BooleanLiteral(b) => {
            &&& g1 == g0
            &&& reported(c0, c1, Seq::empty())
            &&& r.0 is Boolean
            &&& r.1 matches Some(Statement::Literal(GenRef::Literal(s))) && s@ == if b {
                "true"@
            } else {
                "false"@
            }
        },
        ExpressionType::Empty => {
            &&& g1 == g0
            &&& reported(c0, c1, Seq::empty())
            &&& r.0 is Unknown
            &&& r.1 == Some(Statement::Empty)
        },
        ExpressionType::Traversal(tr) => {
            &&& is_default_traversal(w.travs[0])
            &&& traversal_outcome(c0, c1, q, scope, parent, *tr, w.travs[0], w.travs[1], g0, g1, r.0, w.subs[0])
            &&& r.1 == Some(Statement::Traversal(w.travs[1]))
        },
        ExpressionType::Exists(x) => {
            let rx = w.results[0];
            &&& expr_outcome(c0, c1, *x, scope, q, parent, g0, g1, rx, w.subs[0])
            &&& r.0 is Boolean
            &&& rx.1 matches Some(Statement::Traversal(t1))
            &&& r.1 matches Some(Statement::BoExp(BoExp::Exists(t2)))
            &&& t2.steps == t1.steps
            &&& t2.source_step == t1.source_step
            &&& t2.should_collect == ShouldCollect::No
            &&& t2.traversal_type matches TraversalType::FromVar(GenRef::Std(v))
            &&& v@ == source_variable_text(t1)
        },
        ExpressionType::Not(x) => {
            let rx = w.results[0];
            let cm = w.mids[0];
            &&& expr_outcome(c0, cm, *x, scope, q, parent, g0, g1, rx, w.subs[0])
            &&& match rx.1 {
                Some(Statement::BoExp(b)) => reported(cm, c1, Seq::empty()) && r.0 is Boolean && r.1
                    == Some(Statement::BoExp(BoExp::Not(Box::new(b)))),
                Some(_) => reported(
                    cm,
                    c1,
                    seq![query_error(x.loc, ErrorCode::E306, q, seq![item_kind(rx.0)])],
                ) && r.0 is Unknown && r.1 is None,
                None => false,
            }
        },
        ExpressionType::And(_) => {
            &&& combined(c0, c1, q, scope, parent, e, g0, g1, w)
            &&& r.0 is Boolean
            &&& r.1 matches Some(Statement::BoExp(BoExp::And(v))) && v@ == w.bools[members(e).len() as int]
        },
        ExpressionType::Or(_) => {
            &&& combined(c0, c1, q, scope, parent, e, g0, g1, w)
            &&& r.0 is Boolean
            &&& r.1 matches Some(Statement::BoExp(BoExp::Or(v))) && v@ == w.bools[members(e).len() as int]
        },
        ExpressionType::ArrayLiteral(_) => {
            let n = members(e).len() as int;
            &&& listed(c0, c1, q, scope, parent, e, g0, g1, w)
            &&& if w.failed[n] {
                r.0 is Unknown && r.1 == Some(Statement::Empty)
            } else {
                &&& w.inners[n] is Some
                &&& type_view(r.0) == TypeView::Array(Box::new(type_view(w.inners[n]->0)))
                &&& r.1 matches Some(Statement::Array(v)) && v@ == w.stmts[n]
            }
        },
        ExpressionType::SearchVector(sv) => {
            let t = sv.vector_type->0;
            let e103 = type_errors(names_contain(c0.vector_set@, t@), ErrorCode::E103, sv.loc, q, t@);
            let cv = w.mids[0];
            let gv = w.queries[0];
            &&& reported(c0, cv, e103 + vector_data_errors(q, sv, scope) + vector_count_errors(q, sv))
            &&& embeds_outcome(sv.data, q, g0, gv)
            &&& type_view(r.0) == TypeView::Vectors(name_view(sv.vector_type))
            &&& r.1 matches Some(Statement::Traversal(gt))
            &&& gt.traversal_type == TraversalType::Ref
            &&& gt.steps@.len() == 0
            &&& gt.should_collect == ShouldCollect::ToVec
            &&& gt.source_step matches Separator::Period(SourceStep::SearchVector { label, vec, k, pre_filter })
            &&& label == GenRef::Literal(t)
            &&& vec_matches(vec, sv.data, q, g0)
            &&& k_matches(k, sv.k, q)
            &&& match sv.pre_filter {
                None => pre_filter is None && c1 == cv && g1 == gv,
                Some(p) => {
                    let rp = w.results[0];
                    &&& expr_outcome(cv, c1, *p, scope, q, Some(TypeView::Vector(name_view(sv.vector_type))), gv, g1, rp, w.subs[0])
                    &&& rp.1 is Some
                    &&& pre_filter matches Some(v) && v@.len() == 1 && (v@[0] matches BoExp::Expr(ft)
                        && is_prefilter(ft, rp.1->0))
                },
            }
        },
        ExpressionType::BM25Search(b) => {
            let t = b.type_arg->0;
            let e101 = type_errors(names_contain(c0.node_set@, t@), ErrorCode::E101, b.loc, q, t@);
            &&& g1 == g0
            &&& reported(c0, c1, e101 + bm25_data_errors(q, b, scope) + bm25_count_errors(q, b))
            &&& type_view(r.0) == TypeView::Nodes(Some(t@))
            &&& r.1 matches Some(Statement::Traversal(gt)) && gt.traversal_type == TraversalType::Ref
                && gt.steps@.len() == 0 && gt.should_collect == ShouldCollect::ToVec && (
            gt.source_step matches Separator::Period(SourceStep::SearchBM25 { type_arg, query, k })
                && type_arg == GenRef::Literal(t) && bm25_query_matches(query, b.data, q, scope)
                && k_matches(k, b.k, q))
        },
        _ => false,
    }
}


// ---------------------------------------------------------------------------------------
// The expressions and traversals that the checks handle
// ---------------------------------------------------------------------------------------

/// Whether an expression gives a boolean expression: a conjunction, a disjunction, an
/// existence question, or the negation of one of these.
pub open spec fn yields_boexp(e: Expression) -> bool
    decreases e,
{
    match e.expr {
        ExpressionType::And(_) => true,
        ExpressionType::Or(_) => true,
        ExpressionType::Exists(_) => true,
        ExpressionType::Not(x) => yields_boexp(*x),
        _ => false,
    }
}

/// Whether an expression gives a traversal: a traversal, a vector search or a text search.
pub open spec fn yields_traversal(e: Expression) -> bool {
    e.expr is Traversal || e.expr is SearchVector || e.expr is BM25Search
}

/// Whether an expression gives a statement: a variable must be bound, and a negation
/// must negate a boolean expression.
pub open spec fn yields_some(e: Expression, scope: StrMap<Type>) -> bool {
    match e.expr {
        ExpressionType::Identifier(n) => scope@.contains_key(n@),
        ExpressionType::Not(x) => yields_boexp(*x),
        _ => true,
    }
}

/// Whether a start is handled, given whether there is an enclosing traversal.
pub open spec fn start_ok(start: StartNode, has_parent: bool) -> bool {
    match start {
        StartNode::Anonymous => has_parent,
        _ => start_supported(start, None),
    }
}

/// Whether the first `k` members of a conjunction, a disjunction or a list are handled
/// (and, with `need_some`, each gives a statement).
pub open spec fn members_ok(e: Expression, k: int, scope: StrMap<Type>, has_parent: bool, need_some: bool) -> bool
    decreases e, k,
{
    if k <= 0 {
        true
    } else if k <= members(e).len() {
        proof {
            lemma_member_decreases(e, k - 1);
        }
        &&& members_ok(e, k - 1, scope, has_parent, need_some)
        &&& expr_ok(members(e)[k - 1], scope, has_parent)
        &&& need_some ==> yields_some(members(e)[k - 1], scope)
    } else {
        false
    }
}

/// Whether an expression is one the checks handle: variables, string, integer and boolean
/// literals, non-empty lists, traversals, existence questions about traversals,
/// negations and combinations of expressions that give statements, vector searches that
/// name their type and their result count (and whose pre-filter, if any, is a traversal or
/// a boolean expression), text searches that
/// name their node type and their result count, and nothing.
pub open spec fn expr_ok(e: Expression, scope: StrMap<Type>, has_parent: bool) -> bool
    decreases e, members(e).len() + 1,
{
    match e.expr {
        ExpressionType::Identifier(_) => true,
        ExpressionType::StringLiteral(_) => true,
        ExpressionType::IntegerLiteral(_) => true,
        ExpressionType::BooleanLiteral(_) => true,
        ExpressionType::Empty => true,
        ExpressionType::Traversal(tr) => trav_ok(*tr, scope, has_parent),
        ExpressionType::Exists(x) => yields_traversal(*x) && expr_ok(*x, scope, has_parent),
        ExpressionType::Not(x) => expr_ok(*x, scope, has_parent) && yields_some(*x, scope),
        ExpressionType::And(_) => members_ok(e, members(e).len() as int, scope, has_parent, true),
        ExpressionType::Or(_) => members_ok(e, members(e).len() as int, scope, has_parent, true),
        ExpressionType::ArrayLiteral(_) => members(e).len() > 0 && members_ok(
            e,
            members(e).len() as int,
            scope,
            has_parent,
            false,
        ),
        ExpressionType::SearchVector(sv) => sv.vector_type is Some && sv.k is Some && match sv.pre_filter {
            Some(p) => expr_ok(*p, scope, true) && (yields_traversal(*p) || yields_boexp(*p)),
            None => true,
        },
        ExpressionType::BM25Search(b) => b.type_arg is Some && b.k is Some,
        _ => false,
    }
}

/// Whether a traversal is one the checks handle: its start is, and each of its steps.
pub open spec fn trav_ok(tr: Traversal, scope: StrMap<Type>, has_parent: bool) -> bool
    decreases tr, tr.steps@.len() + 1,
{
    start_ok(tr.start, has_parent) && steps_ok(tr, tr.steps@.len() as int, scope)
}

/// Whether the first `k` steps of a traversal are handled.
pub open spec fn steps_ok(tr: Traversal, k: int, scope: StrMap<Type>) -> bool
    decreases tr, k,
{
    if k <= 0 {
        true
    } else if k <= tr.steps@.len() {
        proof {
            lemma_step_decreases(tr, k - 1);
        }
        steps_ok(tr, k - 1, scope) && step_ok(tr.steps@[k - 1].step, scope)
    } else {
        false
    }
}

/// Whether a step is one the checks handle: graph steps, taking the first item, counting,
/// grouping, aggregating, adding an edge, and filters on a traversal or a boolean
/// expression.
pub open spec fn step_ok(s: StepType, scope: StrMap<Type>) -> bool
    decreases s, 0int,
{
    match s {
        StepType::Node(_) => true,
        StepType::Edge(_) => true,
        StepType::First => true,
        StepType::Count => true,
        StepType::Aggregate(_) => true,
        StepType::GroupBy(_) => true,
        StepType::AddEdge(_) => true,
        StepType::Where(e) => expr_ok(*e, scope, true) && (yields_traversal(*e) || yields_boexp(*e)),
        _ => false,
    }
}

proof fn lemma_steps_ok(tr: Traversal, k: int, scope: StrMap<Type>, j: int)
    requires
        steps_ok(tr, k, scope),
        0 <= j < k,
    ensures
        step_ok(tr.steps@[j].step, scope),
    decreases k,
{
    if j < k - 1 {
        lemma_steps_ok(tr, k - 1, scope, j);
    }
}

pub(crate) proof fn lemma_members_ok(e: Expression, k: int, scope: StrMap<Type>, has_parent: bool, need_some: bool, j: int)
    requires
        members_ok(e, k, scope, has_parent, need_some),
        0 <= j < k,
    ensures
        expr_ok(members(e)[j], scope, has_parent),
        need_some ==> yields_some(members(e)[j], scope),
    decreases k,
{
    if j < k - 1 {
        lemma_members_ok(e, k - 1, scope, has_parent, need_some, j);
    }
}


// ---------------------------------------------------------------------------------------
// Checking a traversal
// ---------------------------------------------------------------------------------------

/// The states of a traversal's check with one more step's states appended.
pub open spec fn step_pushed(
    w: Trace,
    c: Ctx,
    ty: Type,
    t: GeneratedTraversal,
    g: GeneratedQuery,
    sub: Trace,
) -> Trace {
    Trace {
        ctxs: w.ctxs.push(c),
        mids: w.mids,
        queries: w.queries.push(g),
        types: w.types.push(ty),
        travs: w.travs.push(t),
        results: w.results,
        bools: w.bools,
        stmts: w.stmts,
        inners: w.inners,
        failed: w.failed,
        start: w.start,
        subs: w.subs.push(sub),
    }
}

/// Appending the states of a further step keeps what the steps so far did.
proof fn lemma_steps_prefix_push(
    q: Query,
    scope: StrMap<Type>,
    tr: Traversal,
    k: int,
    w: Trace,
    c: Ctx,
    ty: Type,
    t: GeneratedTraversal,
    g: GeneratedQuery,
    sub: Trace,
)
    requires
        0 <= k,
        steps_prefix(q, scope, tr, k, w),
        w.ctxs.len() == k + 1,
        w.types.len() == k + 1,
        w.travs.len() == k + 1,
        w.queries.len() == k + 1,
        w.subs.len() == k,
    ensures
        steps_prefix(q, scope, tr, k, step_pushed(w, c, ty, t, g, sub)),
{
    lemma_steps_prefix_stable(q, scope, tr, k, w, step_pushed(w, c, ty, t, g, sub));
}

proof fn lemma_steps_prefix_stable(q: Query, scope: StrMap<Type>, tr: Traversal, k: int, w: Trace, w2: Trace)
    requires
        steps_prefix(q, scope, tr, k, w),
        forall|j: int| 0 <= j <= k ==> #[trigger] w2.ctxs[j] == w.ctxs[j],
        forall|j: int| 0 <= j <= k ==> #[trigger] w2.types[j] == w.types[j],
        forall|j: int| 0 <= j <= k ==> #[trigger] w2.travs[j] == w.travs[j],
        forall|j: int| 0 <= j <= k ==> #[trigger] w2.queries[j] == w.queries[j],
        forall|j: int| 0 <= j < k ==> #[trigger] w2.subs[j] == w.subs[j],
    ensures
        steps_prefix(q, scope, tr, k, w2),
    decreases k,
{
    if k > 0 {
        lemma_steps_prefix_stable(q, scope, tr, k - 1, w, w2);
        assert(w2.ctxs[k - 1] == w.ctxs[k - 1] && w2.ctxs[k] == w.ctxs[k]);
        assert(w2.types[k - 1] == w.types[k - 1] && w2.types[k] == w.types[k]);
        assert(w2.travs[k - 1] == w.travs[k - 1] && w2.travs[k] == w.travs[k]);
        assert(w2.queries[k - 1] == w.queries[k - 1] && w2.queries[k] == w.queries[k]);
        assert(w2.subs[k - 1] == w.subs[k - 1]);
    }
}

/// Nothing reported leaves the context as it was.
pub(crate) proof fn lemma_nothing_reported(c: Ctx)
    ensures
        reported(c, c, Seq::empty()),
{
    assert(c.diagnostics.deep_view() =~= c.diagnostics.deep_view() + Seq::<DiagnosticView>::empty());
}

/// A trace that holds only the traversals, the intermediate contexts, the results and the
/// states of the expressions inside an expression.
pub open spec fn nested(
    travs: Seq<GeneratedTraversal>,
    mids: Seq<Ctx>,
    results: Seq<(Type, Option<Statement>)>,
    subs: Seq<Trace>,
) -> Trace {
    Trace {
        ctxs: Seq::empty(),
        mids,
        queries: Seq::empty(),
        types: Seq::empty(),
        travs,
        results,
        bools: Seq::empty(),
        stmts: Seq::empty(),
        inners: Seq::empty(),
        failed: Seq::empty(),
        start: arbitrary(),
        subs,
    }
}

impl Type {
    /// The single-item form of this type: many nodes, edges or vectors become one.
    pub fn into_single(self) -> (r: Type)
        ensures
            r == into_single(self),
    {
        match self {
            Type::Nodes(n) => Type::Node(n),
            Type::Edges(n) => Type::Edge(n),
            Type::Vectors(n) => Type::Vector(n),
            t => t,
        }
    }
}

/// Copies an optional type.
pub(crate) fn copy_opt_type(o: &Option<Type>) -> (r: Option<Type>)
    ensures
        opt_type_view(r) == opt_type_view(*o),
        r is Some <==> o is Some,
{
    match o {
        Some(t) => Some(t.deep_copy()),
        None => None,
    }
}

/// Copies an optional name.
pub(crate) fn copy_opt_name(o: &Option<String>) -> (r: Option<String>)
    ensures
        name_view(r) == name_view(*o),
{
    match o {
        Some(t) => Some(t.clone()),
        None => None,
    }
}

/// The references that name the properties in a grouping or an aggregation.
fn quoted_properties(ps: &Vec<String>) -> (r: Vec<GenRef<String>>)
    ensures
        properties_match(r@, ps@),
{
    let mut out: Vec<GenRef<String>> = Vec::new();
    let mut i: usize = 0;
    while i < ps.len()
        invariant
            i <= ps@.len(),
            out@.len() == i,
            forall|j: int|
                0 <= j < i ==> (#[trigger] out@[j] matches GenRef::Std(s) && s@ == quoted_property(
                    ps@[j]@,
                )),
        decreases ps.len() - i,
    {
        let mut s = String::new();
        put(&mut s, "\"");
        put_string(&mut s, &ps[i]);
        put(&mut s, "\".to_string()");
        proof {
            reveal_strlit("\"");
            reveal_strlit("\".to_string()");
            assert(s@ =~= quoted_property(ps@[i as int]@));
        }
        out.push(GenRef::Std(s));
        i = i + 1;
    }
    out
}

/// The condition a filter step gets from a statement (see [`where_expr`]).
fn where_condition(st: Statement) -> (r: BoExp)
    ensures
        r == where_expr(st),
{
    match st {
        Statement::Traversal(t) => BoExp::Expr(t),
        Statement::BoExp(b) => match b {
            BoExp::Not(inner) => match *inner {
                BoExp::Exists(mut t) => {
                    t.should_collect = ShouldCollect::No;
                    BoExp::Not(Box::new(BoExp::Exists(t)))
                },
                other => BoExp::Not(Box::new(other)),
            },
            BoExp::Exists(mut t) => {
                t.should_collect = ShouldCollect::No;
                BoExp::Exists(t)
            },
            other => other,
        },
        _ => BoExp::Empty,
    }
}

/// Checks a traversal: its start (see [`validate_start_node`]), then each of its steps in
/// order, writing the generated traversal; the query is marked as writing to the graph
/// when the traversal does. Gives the type the traversal ends with (see
/// [`traversal_outcome`]). `parent_ty` is the type of the enclosing traversal, if any.
pub fn validate_traversal(
    ctx: &mut Ctx,
    tr: &Traversal,
    scope: &mut StrMap<Type>,
    original_query: &Query,
    parent_ty: Option<Type>,
    gen_traversal: &mut GeneratedTraversal,
    gen_query: &mut GeneratedQuery,
) -> (r: Type)
    requires
        trav_ok(*tr, *old(scope), parent_ty is Some),
    ensures
        exists|w: Trace|
            traversal_outcome(
                *old(ctx),
                *final(ctx),
                *original_query,
                *old(scope),
                opt_type_view(parent_ty),
                *tr,
                *old(gen_traversal),
                *final(gen_traversal),
                *old(gen_query),
                *final(gen_query),
                r,
                w,
            ),
        *final(scope) == *old(scope),
    decreases *tr, 0int,
{
    let ghost c0 = *ctx;
    let ghost g0 = *gen_query;
    let ghost t0 = *gen_traversal;
    let ghost scope0 = *scope;
    let ghost pv = opt_type_view(parent_ty);
    let q = original_query;
    let st = validate_start_node(ctx, &tr.start, tr.loc, scope, q, parent_ty, gen_query);
    let ghost stg = st;
    let ghost cs = *ctx;
    let ghost gs = *gen_query;
    let TraversalStart { ty, source_step, traversal_type, should_collect } = st;
    if let Some(x) = traversal_type {
        gen_traversal.traversal_type = x;
    }
    if let Some(x) = source_step {
        gen_traversal.source_step = x;
    }
    if let Some(x) = should_collect {
        gen_traversal.should_collect = x;
    }
    let mut cur_ty = ty;
    let ghost mut w = Trace {
        ctxs: seq![*ctx],
        mids: Seq::empty(),
        queries: seq![*gen_query],
        types: seq![cur_ty],
        travs: seq![*gen_traversal],
        results: Seq::empty(),
        bools: Seq::empty(),
        stmts: Seq::empty(),
        inners: Seq::empty(),
        failed: Seq::empty(),
        start: stg,
        subs: Seq::empty(),
    };
    assert(w.travs[0] == with_start(t0, stg));
    let n = tr.steps.len();
    let mut i: usize = 0;
    while i < n
        invariant
            n == tr.steps@.len(),
            0 <= i <= n,
            steps_ok(*tr, n as int, scope0),
            *scope == scope0,
            w.ctxs.len() == i + 1,
            w.types.len() == i + 1,
            w.travs.len() == i + 1,
            w.queries.len() == i + 1,
            w.subs.len() == i,
            w.ctxs[i as int] == *ctx,
            w.types[i as int] == cur_ty,
            w.travs[i as int] == *gen_traversal,
            w.queries[i as int] == *gen_query,
            start_outcome(c0, cs, *q, tr.start, tr.loc, scope0, pv, g0, gs, stg),
            w.ctxs[0] == cs,
            w.queries[0] == gs,
            w.start == stg,
            w.types[0] == stg.ty,
            w.travs[0] == with_start(t0, stg),
            steps_prefix(*q, scope0, *tr, i as int, w),
        decreases n - i,
    {
        proof {
            lemma_steps_ok(*tr, n as int, scope0, i as int);
            lemma_step_decreases(*tr, i as int);
        }
        let ghost ci = *ctx;
        let ghost gi = *gen_query;
        let ghost ti = *gen_traversal;
        let ghost tyi = cur_ty;
        let prev_count = i > 0 && matches!(tr.steps[i - 1].step, StepType::Count);
        let ghost mut sub = w;
        match &tr.steps[i].step {
            StepType::Node(gs_) => {
                let r = apply_graph_step(ctx, gs_, &cur_ty, q, gen_traversal, scope, gen_query);
                proof {
                    assert(graph_step_outcome(ci, *ctx, *gs_, tyi, *q, scope0, ti, *gen_traversal, gi, *gen_query, r));
                }
                if let Some(t) = r {
                    cur_ty = t;
                }
            },
            StepType::Edge(gs_) => {
                let r = apply_graph_step(ctx, gs_, &cur_ty, q, gen_traversal, scope, gen_query);
                proof {
                    assert(graph_step_outcome(ci, *ctx, *gs_, tyi, *q, scope0, ti, *gen_traversal, gi, *gen_query, r));
                }
                if let Some(t) = r {
                    cur_ty = t;
                }
            },
            StepType::First => {
                cur_ty = cur_ty.into_single();
                gen_traversal.should_collect = ShouldCollect::ToObj;
                proof {
                    lemma_nothing_reported(*ctx);
                }
            },
            StepType::Count => {
                cur_ty = Type::Scalar(FieldType::I64);
                gen_traversal.steps.push(Separator::Period(GeneratedStep::Count));
                gen_traversal.should_collect = ShouldCollect::No;
                proof {
                    lemma_nothing_reported(*ctx);
                }
            },
            StepType::Aggregate(a) => {
                let properties = quoted_properties(&a.properties);
                let _ = gen_traversal.steps.pop();
                cur_ty = Type::Aggregate;
                gen_traversal.should_collect = ShouldCollect::Try;
                gen_traversal.steps.push(
                    Separator::Period(GeneratedStep::AggregateBy(AggregateBy { should_count: prev_count, properties })),
                );
                proof {
                    lemma_nothing_reported(*ctx);
                    assert(gen_traversal.steps@ =~= popped(ti.steps@).push(gen_traversal.steps@.last()));
                }
            },
            StepType::GroupBy(gb) => {
                let properties = quoted_properties(&gb.properties);
                let _ = gen_traversal.steps.pop();
                cur_ty = Type::Aggregate;
                gen_traversal.should_collect = ShouldCollect::Try;
                gen_traversal.steps.push(
                    Separator::Period(GeneratedStep::GroupBy(GeneratedGroupBy { should_count: prev_count, properties })),
                );
                proof {
                    lemma_nothing_reported(*ctx);
                    assert(gen_traversal.steps@ =~= popped(ti.steps@).push(gen_traversal.steps@.last()));
                }
            },
            StepType::AddEdge(add) => {
                match &add.edge_type {
                    Some(t) => {
                        if !ctx.edge_map.contains_key(t.as_str()) {
                            report1(ctx, q, add.loc, ErrorCode::E102, t.as_str());
                        } else {
                            proof {
                                lemma_nothing_reported(*ctx);
                            }
                        }
                    },
                    None => {
                        proof {
                            lemma_nothing_reported(*ctx);
                        }
                    },
                }
                cur_ty = Type::Edges(copy_opt_name(&add.edge_type));
            },
            StepType::Where(e) => {
                assert(decreases_to!(tr.steps@[i as int].step => **e));
                let parent = cur_ty.deep_copy();
                let (t, stmt) = infer_expr_type(ctx, e, scope, q, Some(parent), gen_query);
                let ghost rr = (t, stmt);
                proof {
                    let ws = choose|ws: Trace|
                        expr_outcome(ci, *ctx, **e, scope0, *q, Some(type_view(tyi)), gi, *gen_query, rr, ws);
                    sub = nested(Seq::empty(), Seq::empty(), seq![rr], seq![ws]);
                }
                let cond = where_condition(stmt.unwrap());
                gen_traversal.steps.push(Separator::Period(GeneratedStep::Where(Where::Ref(WhereRef { expr: cond }))));
            },
            _ => {
                proof {
                    assert(false);
                }
            },
        }
        proof {
            let w2 = step_pushed(w, *ctx, cur_ty, *gen_traversal, *gen_query, sub);
            lemma_steps_prefix_push(*q, scope0, *tr, i as int, w, *ctx, cur_ty, *gen_traversal, *gen_query, sub);
            assert(w2.subs[i as int] == sub);
            assert(step_outcome(ci, *ctx, *q, scope0, follows_count(*tr, i as int), tr.steps@[i as int].step, tyi, cur_ty, ti, *gen_traversal, gi, *gen_query, sub));
            assert(steps_prefix(*q, scope0, *tr, i as int + 1, w2));
            w = w2;
        }
        i = i + 1;
    }
    match gen_traversal.traversal_type {
        TraversalType::Mut => {
            gen_query.is_mut = true;
        },
        TraversalType::Update(_) => {
            gen_query.is_mut = true;
        },
        _ => {},
    }
    proof {
        assert(traversal_outcome(c0, *ctx, *q, scope0, pv, *tr, t0, *gen_traversal, g0, *gen_query, cur_ty, w));
    }
    cur_ty
}


// ---------------------------------------------------------------------------------------
// What checking keeps
// ---------------------------------------------------------------------------------------

/// Whether `c1` is `c0` with diagnostics added after those already there and nothing
/// else changed.
pub open spec fn keeps(c0: Ctx, c1: Ctx) -> bool {
    &&& same_but_diagnostics(c0, c1)
    &&& c1.diagnostics.deep_view().len() >= c0.diagnostics.deep_view().len()
    &&& forall|i: int|
        0 <= i < c0.diagnostics.deep_view().len() ==> #[trigger] c1.diagnostics.deep_view()[i]
            == c0.diagnostics.deep_view()[i]
}

proof fn lemma_keeps_trans(c0: Ctx, c1: Ctx, c2: Ctx)
    requires
        keeps(c0, c1),
        keeps(c1, c2),
    ensures
        keeps(c0, c2),
{
    assert forall|i: int| 0 <= i < c0.diagnostics.deep_view().len() implies #[trigger] c2.diagnostics.deep_view()[i]
        == c0.diagnostics.deep_view()[i] by {
        assert(c2.diagnostics.deep_view()[i] == c1.diagnostics.deep_view()[i]);
    }
}

proof fn lemma_reported_keeps(c0: Ctx, c1: Ctx, a: Seq<DiagnosticView>)
    requires
        reported(c0, c1, a),
    ensures
        keeps(c0, c1),
{
}

proof fn lemma_step_keeps(
    c0: Ctx,
    c1: Ctx,
    q: Query,
    scope: StrMap<Type>,
    prev_count: bool,
    s: StepType,
    ty0: Type,
    ty1: Type,
    t0: GeneratedTraversal,
    t1: GeneratedTraversal,
    g0: GeneratedQuery,
    g1: GeneratedQuery,
    w: Trace,
)
    requires
        step_outcome(c0, c1, q, scope, prev_count, s, ty0, ty1, t0, t1, g0, g1, w),
    ensures
        keeps(c0, c1),
    decreases s, 0int,
{
    match s {
        StepType::Node(gs) => {
            let r = choose|r: Option<Type>| #[trigger] graph_step_outcome(c0, c1, gs, ty0, q, scope, t0, t1, g0, g1, r);
            super::graph_step_validation::lemma_graph_step_keeps(c0, c1, gs, ty0, q, scope, t0, t1, g0, g1, r);
        },
        StepType::Edge(gs) => {
            let r = choose|r: Option<Type>| #[trigger] graph_step_outcome(c0, c1, gs, ty0, q, scope, t0, t1, g0, g1, r);
            super::graph_step_validation::lemma_graph_step_keeps(c0, c1, gs, ty0, q, scope, t0, t1, g0, g1, r);
        },
        StepType::Where(e) => {
            law_expression_keeps_context(c0, c1, *e, scope, q, Some(type_view(ty0)), g0, g1, w.results[0], w.subs[0]);
        },
        _ => {},
    }
}

proof fn lemma_steps_keeps(q: Query, scope: StrMap<Type>, tr: Traversal, k: int, w: Trace)
    requires
        0 <= k,
        steps_prefix(q, scope, tr, k, w),
    ensures
        keeps(w.ctxs[0], w.ctxs[k]),
    decreases tr, k,
{
    if k > 0 {
        lemma_step_decreases(tr, k - 1);
        lemma_steps_keeps(q, scope, tr, k - 1, w);
        lemma_step_keeps(
            w.ctxs[k - 1],
            w.ctxs[k],
            q,
            scope,
            follows_count(tr, k - 1),
            tr.steps@[k - 1].step,
            w.types[k - 1],
            w.types[k],
            w.travs[k - 1],
            w.travs[k],
            w.queries[k - 1],
            w.queries[k],
            w.subs[k - 1],
        );
        lemma_keeps_trans(w.ctxs[0], w.ctxs[k - 1], w.ctxs[k]);
    }
}

/// Law: checking a traversal changes nothing in the analysis context but its
/// diagnostics, and only adds diagnostics after those already reported.
pub proof fn law_traversal_keeps_context(
    c0: Ctx,
    c1: Ctx,
    q: Query,
    scope: StrMap<Type>,
    parent: Option<TypeView>,
    tr: Traversal,
    t0: GeneratedTraversal,
    t1: GeneratedTraversal,
    g0: GeneratedQuery,
    g1: GeneratedQuery,
    ty: Type,
    w: Trace,
)
    requires
        traversal_outcome(c0, c1, q, scope, parent, tr, t0, t1, g0, g1, ty, w),
    ensures
        keeps(c0, c1),
    decreases tr, tr.steps@.len() + 1,
{
    lemma_start_keeps(c0, w.ctxs[0], q, tr.start, tr.loc, scope, parent, g0, w.queries[0], w.start);
    lemma_steps_keeps(q, scope, tr, tr.steps@.len() as int, w);
    lemma_keeps_trans(c0, w.ctxs[0], c1);
}

proof fn lemma_start_keeps(
    c0: Ctx,
    c1: Ctx,
    q: Query,
    start: StartNode,
    loc: Loc,
    scope: StrMap<Type>,
    parent: Option<TypeView>,
    g0: GeneratedQuery,
    g1: GeneratedQuery,
    r: TraversalStart,
)
    requires
        start_outcome(c0, c1, q, start, loc, scope, parent, g0, g1, r),
    ensures
        keeps(c0, c1),
{
}

proof fn lemma_bool_members_keeps(
    q: Query,
    scope: StrMap<Type>,
    parent: Option<TypeView>,
    e: Expression,
    k: int,
    w: Trace,
)
    requires
        0 <= k,
        bool_members(q, scope, parent, e, k, w),
    ensures
        keeps(w.ctxs[0], w.ctxs[k]),
    decreases e, k,
{
    if k > 0 {
        lemma_member_decreases(e, k - 1);
        lemma_bool_members_keeps(q, scope, parent, e, k - 1, w);
        law_expression_keeps_context(
            w.ctxs[k - 1],
            w.mids[k - 1],
            members(e)[k - 1],
            scope,
            q,
            parent,
            w.queries[k - 1],
            w.queries[k],
            w.results[k - 1],
            w.subs[k - 1],
        );
        lemma_keeps_trans(w.ctxs[0], w.ctxs[k - 1], w.mids[k - 1]);
        lemma_keeps_trans(w.ctxs[0], w.mids[k - 1], w.ctxs[k]);
    }
}

proof fn lemma_array_members_keeps(
    q: Query,
    scope: StrMap<Type>,
    parent: Option<TypeView>,
    e: Expression,
    k: int,
    w: Trace,
)
    requires
        0 <= k,
        array_members(q, scope, parent, e, k, w),
    ensures
        keeps(w.ctxs[0], w.ctxs[k]),
    decreases e, k,
{
    if k > 0 {
        lemma_member_decreases(e, k - 1);
        lemma_array_members_keeps(q, scope, parent, e, k - 1, w);
        if !w.failed[k - 1] {
            law_expression_keeps_context(
                w.ctxs[k - 1],
                w.mids[k - 1],
                members(e)[k - 1],
                scope,
                q,
                parent,
                w.queries[k - 1],
                w.queries[k],
                w.results[k - 1],
                w.subs[k - 1],
            );
            lemma_keeps_trans(w.ctxs[0], w.ctxs[k - 1], w.mids[k - 1]);
            lemma_keeps_trans(w.ctxs[0], w.mids[k - 1], w.ctxs[k]);
        }
    }
}

/// Law: inferring the type of an expression changes nothing in the analysis context but
/// its diagnostics, and only adds diagnostics after those already reported.
pub proof fn law_expression_keeps_context(
    c0: Ctx,
    c1: Ctx,
    e: Expression,
    scope: StrMap<Type>,
    q: Query,
    parent: Option<TypeView>,
    g0: GeneratedQuery,
    g1: GeneratedQuery,
    r: (Type, Option<Statement>),
    w: Trace,
)
    requires
        expr_outcome(c0, c1, e, scope, q, parent, g0, g1, r, w),
    ensures
        keeps(c0, c1),
    decreases e, members(e).len() + 2,
{
    match e.expr {
        ExpressionType::Traversal(tr) => {
            law_traversal_keeps_context(c0, c1, q, scope, parent, *tr, w.travs[0], w.travs[1], g0, g1, r.0, w.subs[0]);
        },
        ExpressionType::Exists(x) => {
            law_expression_keeps_context(c0, c1, *x, scope, q, parent, g0, g1, w.results[0], w.subs[0]);
        },
        ExpressionType::Not(x) => {
            law_expression_keeps_context(c0, w.mids[0], *x, scope, q, parent, g0, g1, w.results[0], w.subs[0]);
            lemma_keeps_trans(c0, w.mids[0], c1);
        },
        ExpressionType::And(_) => {
            reveal_with_fuel(expr_outcome, 2);
            lemma_bool_members_keeps(q, scope, parent, e, members(e).len() as int, w);
        },
        ExpressionType::Or(_) => {
            reveal_with_fuel(expr_outcome, 2);
            lemma_bool_members_keeps(q, scope, parent, e, members(e).len() as int, w);
        },
        ExpressionType::ArrayLiteral(_) => {
            reveal_with_fuel(expr_outcome, 2);
            lemma_array_members_keeps(q, scope, parent, e, members(e).len() as int, w);
        },
        ExpressionType::SearchVector(sv) => {
            if let Some(p) = sv.pre_filter {
                law_expression_keeps_context(
                    w.mids[0],
                    c1,
                    *p,
                    scope,
                    q,
                    Some(TypeView::Vector(name_view(sv.vector_type))),
                    w.queries[0],
                    g1,
                    w.results[0],
                    w.subs[0],
                );
                lemma_keeps_trans(c0, w.mids[0], c1);
            }
        },
        _ => {},
    }
}


} // verus!
