//! Checks on a query's parameters.

use vstd::prelude::*;
use vstd::pervasive::arbitrary;
use super::schema_methods::{names_contain, DiagnosticView};
use super::str_map::contains_name;
use super::types::{Ctx, ErrorCode, FieldType, Parameter, Query};
use super::utils::{is_valid_identifier, push_query_error, query_error, reserved_identifier, same_but_diagnostics};

verus! {

/// The diagnostics for one parameter: a parameter whose type is a name must use a name
/// that is not reserved (E105) and that the schema declares as a node, edge or vector
/// type (E209, with the type name and the parameter's name).
pub open spec fn param_type_errors(c: Ctx, q: Query, p: Parameter) -> Seq<DiagnosticView> {
    match p.param_type.1 {
        FieldType::Identifier(id) => if reserved_identifier(id@) {
            seq![query_error(p.param_type.0, ErrorCode::E105, q, seq![id@])]
        } else if !names_contain(c.node_set@, id@) && !c.edge_map@.contains_key(id@)
            && !names_contain(c.vector_set@, id@) {
            seq![query_error(p.param_type.0, ErrorCode::E209, q, seq![id@, p.name.1@])]
        } else {
            Seq::empty()
        },
        _ => Seq::empty(),
    }
}

/// The diagnostics for the first parameters of a query, in order.
pub open spec fn params_type_errors(c: Ctx, q: Query, ps: Seq<Parameter>) -> Seq<DiagnosticView>
    decreases ps.len(),
{
    if ps.len() == 0 {
        Seq::empty()
    } else {
        params_type_errors(c, q, ps.drop_last()) + param_type_errors(c, q, ps.last())
    }
}

fn check_parameter_type(ctx: &mut Ctx, q: &Query, p: &Parameter)
    ensures
        final(ctx).diagnostics.deep_view() == old(ctx).diagnostics.deep_view() + param_type_errors(
            *old(ctx),
            *q,
            *p,
        ),
        same_but_diagnostics(*old(ctx), *final(ctx)),
{
    let ghost before = ctx.diagnostics.deep_view();
    match &p.param_type.1 {
        FieldType::Identifier(id) => {
            if is_valid_identifier(ctx, q, p.param_type.0, id.as_str()) {
                if !contains_name(&ctx.node_set, id.as_str()) && !ctx.edge_map.contains_key(
                    id.as_str(),
                ) && !contains_name(&ctx.vector_set, id.as_str()) {
                    let details = vec![id.clone(), p.name.1.clone()];
                    proof {
                        assert(details.deep_view() =~= seq![id@, p.name.1@]);
                    }
                    push_query_error(ctx, q, p.param_type.0, ErrorCode::E209, details);
                }
            }
            proof {
                assert(ctx.diagnostics.deep_view() =~= before + param_type_errors(*old(ctx), *q, *p));
            }
        },
        _ => {
            proof {
                assert(ctx.diagnostics.deep_view() =~= before + Seq::empty());
            }
        },
    }
}

/// Checks the declared types of a query's parameters, in order (see [`param_type_errors`]).
pub fn validate_parameter_types(ctx: &mut Ctx, original_query: &Query)
    ensures
        final(ctx).diagnostics.deep_view() == old(ctx).diagnostics.deep_view() + params_type_errors(
            *old(ctx),
            *original_query,
            original_query.parameters@,
        ),
        same_but_diagnostics(*old(ctx), *final(ctx)),
{
    let ghost start = *ctx;
    let ps = &original_query.parameters;
    let mut i: usize = 0;
    while i < ps.len()
        invariant
            i <= ps@.len(),
            *ps == original_query.parameters,
            same_but_diagnostics(start, *ctx),
            ctx.diagnostics.deep_view() == start.diagnostics.deep_view() + params_type_errors(
                start,
                *original_query,
                ps@.take(i as int),
            ),
        decreases ps.len() - i,
    {
        let ghost mid = *ctx;
        check_parameter_type(ctx, original_query, &ps[i]);
        proof {
            assert(ps@.take(i as int + 1).drop_last() =~= ps@.take(i as int));
            assert(param_type_errors(mid, *original_query, ps@[i as int]) == param_type_errors(
                start,
                *original_query,
                ps@[i as int],
            ));
            assert(ctx.diagnostics.deep_view() =~= start.diagnostics.deep_view()
                + params_type_errors(start, *original_query, ps@.take(i as int + 1)));
        }
        i = i + 1;
    }
    proof {
        assert(ps@.take(ps@.len() as int) =~= ps@);
    }
}


/// Whether the schema declares a name as a node, an edge or a vector type.
pub open spec fn declared_item_type(c: Ctx, name: Seq<char>) -> bool {
    names_contain(c.node_set@, name) || c.edge_map@.contains_key(name) || names_contain(c.vector_set@, name)
}

/// Law: a parameter whose type is a name that is not reserved gets exactly one
/// diagnostic, E209 with the type name and the parameter's name, when the schema declares
/// the name as none of a node, an edge or a vector type, and none when it declares it as
/// any of them (a vector type included); a parameter whose type is not a name gets none.
pub proof fn law_parameter_type(c: Ctx, q: Query, p: Parameter, id: String)
    ensures
        !(p.param_type.1 is Identifier) ==> param_type_errors(c, q, p) == Seq::<DiagnosticView>::empty(),
        p.param_type.1 == FieldType::Identifier(id) && !reserved_identifier(id@) && declared_item_type(c, id@)
            ==> param_type_errors(c, q, p) == Seq::<DiagnosticView>::empty(),
        p.param_type.1 == FieldType::Identifier(id) && !reserved_identifier(id@) && !declared_item_type(c, id@)
            ==> param_type_errors(c, q, p) == seq![
            query_error(p.param_type.0, ErrorCode::E209, q, seq![id@, p.name.1@]),
        ],
{
}

/// Law: checking a query's parameters adds no diagnostic when each parameter's type is
/// either not a name, or a name that is not reserved and that the schema declares as a
/// node, an edge or a vector type.
pub proof fn law_declared_parameter_types(c: Ctx, q: Query, ps: Seq<Parameter>)
    requires
        forall|i: int|
            0 <= i < ps.len() ==> ((#[trigger] ps[i]).param_type.1 matches FieldType::Identifier(id) ==> (
            !reserved_identifier(id@) && declared_item_type(c, id@))),
    ensures
        params_type_errors(c, q, ps) == Seq::<DiagnosticView>::empty(),
    decreases ps.len(),
{
    if ps.len() > 0 {
        law_declared_parameter_types(c, q, ps.drop_last());
        match ps.last().param_type.1 {
            FieldType::Identifier(id) => law_parameter_type(c, q, ps.last(), id),
            _ => law_parameter_type(c, q, ps.last(), arbitrary()),
        }
        assert(ps[ps.len() - 1] == ps.last());
        assert(params_type_errors(c, q, ps) =~= Seq::<DiagnosticView>::empty());
    }
}

} // verus!
