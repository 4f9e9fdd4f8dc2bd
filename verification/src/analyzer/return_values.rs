//! What a query returns: checking its return expressions and building the values the
//! generated query returns.

use vstd::prelude::*;
use vstd::pervasive::arbitrary;
use crate::generator::queries::Query as GeneratedQuery;
use crate::generator::return_values::{ReturnValue, ReturnValueExpr};
use crate::generator::source_steps::SourceStep;
use crate::generator::statements::Statement;
use crate::generator::traversal_steps::ShouldCollect;
use crate::generator::utils::{GenRef, GeneratedValue};
use super::graph_step_validation::{report1, reported};
use super::infer_expr_type::infer_expr_type;
use super::schema_methods::DiagnosticView;
use super::str_map::StrMap;
use super::traversal_validation::{expr_ok, expr_outcome, lemma_nothing_reported, lemma_reported_twice, Trace};
use super::types::{type_view, Ctx, ErrorCode, Loc, Query, ReturnType, Type, TypeView};
use super::utils::{gen_identifier_or_param, identifier_or_param, is_valid_identifier, query_error, reserved_identifier};

verus! {

/// The diagnostic of a reserved name (E105), if it is one.
pub open spec fn reserved_errors(loc: Loc, q: Query, n: Seq<char>) -> Seq<DiagnosticView> {
    if reserved_identifier(n) {
        seq![query_error(loc, ErrorCode::E105, q, seq![n])]
    } else {
        Seq::empty()
    }
}

/// The diagnostic of a name the scope does not bind (E301), if it is one.
pub open spec fn unbound_errors(loc: Loc, q: Query, scope: StrMap<Type>, n: Seq<char>) -> Seq<DiagnosticView> {
    if scope@.contains_key(n) {
        Seq::empty()
    } else {
        seq![query_error(loc, ErrorCode::E301, q, seq![n])]
    }
}

/// Whether a statement can be returned: a traversal (one that starts from a variable
/// collects its items into a list or takes one), a variable, or a literal.
pub open spec fn returnable_statement(st: Option<Statement>) -> bool {
    match st {
        Some(Statement::Traversal(t)) => match t.source_step.inner_spec() {
            SourceStep::Identifier(v) => v.has_inner() && (t.should_collect is ToVec
                || t.should_collect is ToObj),
            _ => true,
        },
        Some(Statement::Identifier(id)) => id.has_inner(),
        Some(Statement::Literal(_)) => true,
        _ => false,
    }
}

/// Whether an expression is one the checks handle and every way of inferring it gives a
/// statement that can be returned (or, with `empty_ok`, nothing to return).
pub open spec fn returnable(e: super::types::Expression, scope: StrMap<Type>, q: Query, empty_ok: bool) -> bool {
    &&& expr_ok(e, scope, false)
    &&& forall|c0: Ctx, c1: Ctx, g0: GeneratedQuery, g1: GeneratedQuery, r: (Type, Option<Statement>), w: Trace|
        #[trigger] expr_outcome(c0, c1, e, scope, q, None, g0, g1, r, w) ==> returnable_statement(r.1) || (
        empty_ok && r.1 == Some(Statement::Empty))
}

/// The number of parts of a returned list or object.
pub open spec fn part_count(rt: ReturnType) -> nat {
    match rt {
        ReturnType::Array(xs) => xs@.len(),
        ReturnType::Object(kvs) => kvs@.len(),
        _ => 0,
    }
}

/// The part at position `i` of a returned list or object.
pub open spec fn part_at(rt: ReturnType, i: int) -> ReturnType {
    match rt {
        ReturnType::Array(xs) => xs@[i],
        ReturnType::Object(kvs) => kvs@[i].1,
        _ => ReturnType::Empty,
    }
}

pub proof fn lemma_part_decreases(rt: ReturnType, i: int)
    requires
        0 <= i < part_count(rt),
    ensures
        decreases_to!(rt => part_at(rt, i)),
{
    match rt {
        ReturnType::Array(xs) => {
            assert(decreases_to!(rt => xs));
            assert(decreases_to!(xs => xs@));
            assert(decreases_to!(xs@ => xs@[i]));
        },
        ReturnType::Object(kvs) => {
            assert(decreases_to!(rt => kvs));
            assert(decreases_to!(kvs => kvs@));
            assert(decreases_to!(kvs@ => kvs@[i]));
            assert(decreases_to!(kvs@[i] => kvs@[i].1));
        },
        _ => {},
    }
}

/// Whether a returned value is one the checks handle: its expressions are returnable
/// (see [`returnable`]), and a list or an object has parts.
pub open spec fn return_ok(rt: ReturnType, scope: StrMap<Type>, q: Query) -> bool
    decreases rt, part_count(rt) + 1,
{
    match rt {
        ReturnType::Expression(e) => returnable(e, scope, q, false),
        ReturnType::Array(_) => parts_ok(rt, part_count(rt) as int, scope, q),
        ReturnType::Object(_) => parts_ok(rt, part_count(rt) as int, scope, q),
        ReturnType::Empty => false,
    }
}

/// Whether the first `k` parts of a list or an object are handled.
pub open spec fn parts_ok(rt: ReturnType, k: int, scope: StrMap<Type>, q: Query) -> bool
    decreases rt, k,
{
    if k <= 0 {
        true
    } else if k <= part_count(rt) {
        proof {
            lemma_part_decreases(rt, k - 1);
        }
        parts_ok(rt, k - 1, scope, q) && return_ok(part_at(rt, k - 1), scope, q)
    } else {
        false
    }
}

proof fn lemma_parts_ok(rt: ReturnType, k: int, scope: StrMap<Type>, q: Query, j: int)
    requires
        parts_ok(rt, k, scope, q),
        0 <= j < k,
    ensures
        return_ok(part_at(rt, j), scope, q),
    decreases k,
{
    if j < k - 1 {
        lemma_parts_ok(rt, k - 1, scope, q, j);
    }
}

/// The states that checking a returned value passes through: the context, the query and
/// the values gathered after each part, the context after an expression was inferred,
/// the expression's result and states, and the states of each part.
pub struct ReturnTrace {
    pub ctxs: Seq<Ctx>,
    pub mids: Seq<Ctx>,
    pub queries: Seq<GeneratedQuery>,
    pub results: Seq<(Type, Option<Statement>)>,
    pub exprs: Seq<Trace>,
    pub values: Seq<Seq<ReturnValueExpr>>,
    pub parts: Seq<ReturnTrace>,
}

/// What an inferred statement becomes as a part of a returned value (from the context
/// `cm` after inference to `c1`): a traversal as it is, after checking the name of the
/// variable it starts from (E105); a variable read by its name, after checking the name
/// (E105) and that it is bound (E301); a literal as its value.
pub open spec fn returned_expr(
    cm: Ctx,
    c1: Ctx,
    q: Query,
    scope: StrMap<Type>,
    loc: Loc,
    st: Option<Statement>,
    r: ReturnValueExpr,
) -> bool {
    match st {
        Some(Statement::Traversal(t)) => r == ReturnValueExpr::Traversal(t) && match t.source_step.inner_spec() {
            SourceStep::Identifier(v) => reported(cm, c1, reserved_errors(loc, q, v.inner_spec()@)),
            _ => c1 == cm,
        },
        Some(Statement::Identifier(id)) => {
            let n = id.inner_spec()@;
            &&& reported(cm, c1, reserved_errors(loc, q, n) + unbound_errors(loc, q, scope, n))
            &&& r matches ReturnValueExpr::Identifier(v) && identifier_or_param(q, n, false, v)
        },
        Some(Statement::Literal(l)) => c1 == cm && r == ReturnValueExpr::Value(GeneratedValue::Literal(l)),
        _ => false,
    }
}

/// The place of a key among an object's entries, if it is there.
pub open spec fn key_position(es: Seq<(String, ReturnValueExpr)>, k: Seq<char>) -> Option<int> {
    if exists|i: int| 0 <= i < es.len() && #[trigger] es[i].0@ == k {
        Some(choose|i: int| 0 <= i < es.len() && #[trigger] es[i].0@ == k)
    } else {
        None
    }
}

/// The entries of an object built from the first `k` of its keys and their values: each
/// key once, where it first comes, with the value of its last occurrence.
pub open spec fn object_entries(kvs: Seq<(String, ReturnType)>, vals: Seq<ReturnValueExpr>, k: int) -> Seq<
    (String, ReturnValueExpr),
>
    decreases k,
{
    if k <= 0 {
        Seq::empty()
    } else {
        let prev = object_entries(kvs, vals, k - 1);
        let key = kvs[k - 1].0;
        match key_position(prev, key@) {
            Some(i) => prev.update(i, (prev[i].0, vals[k - 1])),
            None => prev.push((key, vals[k - 1])),
        }
    }
}

proof fn lemma_object_entries_prefix(kvs: Seq<(String, ReturnType)>, a: Seq<ReturnValueExpr>, b: Seq<ReturnValueExpr>, k: int)
    requires
        0 <= k <= a.len(),
        a.len() <= b.len(),
        forall|j: int| 0 <= j < a.len() ==> #[trigger] b[j] == a[j],
    ensures
        object_entries(kvs, b, k) == object_entries(kvs, a, k),
    decreases k,
{
    if k > 0 {
        lemma_object_entries_prefix(kvs, a, b, k - 1);
        assert(b[k - 1] == a[k - 1]);
    }
}

/// What checking a part of a returned value gives: for an expression, its inferred
/// statement made a returned part (see [`returned_expr`]); for a list or an object, its
/// parts in order, an object's under their keys (see [`object_entries`]).
pub open spec fn return_object_outcome(
    c0: Ctx,
    c1: Ctx,
    q: Query,
    scope: StrMap<Type>,
    rt: ReturnType,
    g0: GeneratedQuery,
    g1: GeneratedQuery,
    r: ReturnValueExpr,
    w: ReturnTrace,
) -> bool
    decreases rt, part_count(rt) + 1,
{
    let n = part_count(rt) as int;
    match rt {
        ReturnType::Expression(e) => {
            &&& expr_outcome(c0, w.mids[0], e, scope, q, None, g0, g1, w.results[0], w.exprs[0])
            &&& returned_expr(w.mids[0], c1, q, scope, e.loc, w.results[0].1, r)
        },
        ReturnType::Array(_) => {
            &&& w.ctxs[0] == c0 && w.queries[0] == g0 && w.values[0] == Seq::<ReturnValueExpr>::empty()
            &&& return_parts(q, scope, rt, n, w)
            &&& c1 == w.ctxs[n] && g1 == w.queries[n]
            &&& r matches ReturnValueExpr::Array(v) && v@ == w.values[n]
        },
        ReturnType::Object(kvs) => {
            &&& w.ctxs[0] == c0 && w.queries[0] == g0 && w.values[0] == Seq::<ReturnValueExpr>::empty()
            &&& return_parts(q, scope, rt, n, w)
            &&& c1 == w.ctxs[n] && g1 == w.queries[n]
            &&& r matches ReturnValueExpr::Object(v) && v@ == object_entries(kvs@, w.values[n], n)
        },
        ReturnType::Empty => false,
    }
}

/// What the first `k` parts of a list or an object give: part `i` leads from the states
/// at `i` to those at `i + 1` and adds its value.
pub open spec fn return_parts(q: Query, scope: StrMap<Type>, rt: ReturnType, k: int, w: ReturnTrace) -> bool
    decreases rt, k,
{
    if k <= 0 {
        true
    } else if k <= part_count(rt) {
        proof {
            lemma_part_decreases(rt, k - 1);
        }
        &&& return_parts(q, scope, rt, k - 1, w)
        &&& w.values[k] == w.values[k - 1].push(w.values[k].last())
        &&& return_object_outcome(
            w.ctxs[k - 1],
            w.ctxs[k],
            q,
            scope,
            part_at(rt, k - 1),
            w.queries[k - 1],
            w.queries[k],
            w.values[k].last(),
            w.parts[k - 1],
        )
    } else {
        false
    }
}

proof fn lemma_return_parts_stable(q: Query, scope: StrMap<Type>, rt: ReturnType, k: int, w: ReturnTrace, w2: ReturnTrace)
    requires
        return_parts(q, scope, rt, k, w),
        forall|j: int| 0 <= j <= k ==> #[trigger] w2.ctxs[j] == w.ctxs[j],
        forall|j: int| 0 <= j <= k ==> #[trigger] w2.queries[j] == w.queries[j],
        forall|j: int| 0 <= j <= k ==> #[trigger] w2.values[j] == w.values[j],
        forall|j: int| 0 <= j < k ==> #[trigger] w2.parts[j] == w.parts[j],
    ensures
        return_parts(q, scope, rt, k, w2),
    decreases k,
{
    if k > 0 {
        lemma_return_parts_stable(q, scope, rt, k - 1, w, w2);
        assert(w2.ctxs[k - 1] == w.ctxs[k - 1] && w2.ctxs[k] == w.ctxs[k]);
        assert(w2.queries[k - 1] == w.queries[k - 1] && w2.queries[k] == w.queries[k]);
        assert(w2.values[k - 1] == w.values[k - 1] && w2.values[k] == w.values[k]);
        assert(w2.parts[k - 1] == w.parts[k - 1]);
    }
}

/// Makes an inferred statement a part of a returned value (see [`returned_expr`]).
fn returned_part(ctx: &mut Ctx, q: &Query, scope: &StrMap<Type>, loc: Loc, st: Option<Statement>) -> (r: ReturnValueExpr)
    requires
        returnable_statement(st),
    ensures
        returned_expr(*old(ctx), *final(ctx), *q, *scope, loc, st, r),
{
    let ghost c0 = *ctx;
    match st {
        Some(Statement::Traversal(t)) => {
            match t.source_step.inner() {
                SourceStep::Identifier(v) => {
                    is_valid_identifier(ctx, q, loc, v.inner().as_str());
                    proof {
                        assert(ctx.diagnostics.deep_view() =~= c0.diagnostics.deep_view() + reserved_errors(loc, *q, v.inner_spec()@));
                    }
                },
                _ => {},
            }
            ReturnValueExpr::Traversal(t)
        },
        Some(Statement::Identifier(id)) => {
            let name = id.inner();
            is_valid_identifier(ctx, q, loc, name.as_str());
            let ghost c1 = *ctx;
            proof {
                assert(ctx.diagnostics.deep_view() =~= c0.diagnostics.deep_view() + reserved_errors(loc, *q, name@));
            }
            match scope.get(name.as_str()) {
                Some(_) => {
                    proof {
                        lemma_nothing_reported(*ctx);
                        lemma_reported_twice(c0, c1, *ctx, reserved_errors(loc, *q, name@), Seq::empty());
                    }
                },
                None => {
                    report1(ctx, q, loc, ErrorCode::E301, name.as_str());
                    proof {
                        lemma_reported_twice(c0, c1, *ctx, reserved_errors(loc, *q, name@), unbound_errors(loc, *q, *scope, name@));
                    }
                },
            }
            let value = gen_identifier_or_param(q, name.as_str(), false, true);
            ReturnValueExpr::Identifier(value)
        },
        Some(Statement::Literal(l)) => ReturnValueExpr::Value(GeneratedValue::Literal(l)),
        _ => {
            proof {
                assert(false);
            }
            ReturnValueExpr::Array(Vec::new())
        },
    }
}

/// Checks a part of a returned value and builds it: an expression's type is inferred and
/// its statement made a returned part; a list's or an object's parts are checked in order
/// (see [`return_object_outcome`]).
pub fn process_return_object(
    ctx: &mut Ctx,
    original_query: &Query,
    scope: &mut StrMap<Type>,
    return_type: &ReturnType,
    query: &mut GeneratedQuery,
) -> (r: ReturnValueExpr)
    requires
        return_ok(*return_type, *old(scope), *original_query),
    ensures
        exists|w: ReturnTrace|
            return_object_outcome(
                *old(ctx),
                *final(ctx),
                *original_query,
                *old(scope),
                *return_type,
                *old(query),
                *final(query),
                r,
                w,
            ),
        *final(scope) == *old(scope),
    decreases *return_type,
{
    let ghost c0 = *ctx;
    let ghost g0 = *query;
    let ghost scope0 = *scope;
    let q = original_query;
    match return_type {
        ReturnType::Expression(e) => {
            let (t, stmt) = infer_expr_type(ctx, e, scope, q, None, query);
            let ghost rx = (t, stmt);
            let ghost cm = *ctx;
            let ghost wx = choose|wx: Trace| expr_outcome(c0, cm, *e, scope0, *q, None, g0, *query, rx, wx);
            let r = returned_part(ctx, q, scope, e.loc, stmt);
            proof {
                let w = ReturnTrace {
                    ctxs: Seq::empty(),
                    mids: seq![cm],
                    queries: Seq::empty(),
                    results: seq![rx],
                    exprs: seq![wx],
                    values: Seq::empty(),
                    parts: Seq::empty(),
                };
                assert(return_object_outcome(c0, *ctx, *q, scope0, *return_type, g0, *query, r, w));
            }
            r
        },
        ReturnType::Array(xs) => {
            let ghost w0 = ReturnTrace {
                ctxs: seq![*ctx],
                mids: Seq::empty(),
                queries: seq![*query],
                results: Seq::empty(),
                exprs: Seq::empty(),
                values: seq![Seq::<ReturnValueExpr>::empty()],
                parts: Seq::empty(),
            };
            let ghost mut w = w0;
            let mut values: Vec<ReturnValueExpr> = Vec::new();
            let mut i: usize = 0;
            while i < xs.len()
                invariant
                    *return_type == ReturnType::Array(*xs),
                    parts_ok(*return_type, xs@.len() as int, scope0, *q),
                    *scope == scope0,
                    0 <= i <= xs@.len(),
                    w.ctxs.len() == i + 1,
                    w.queries.len() == i + 1,
                    w.values.len() == i + 1,
                    w.parts.len() == i,
                    w.ctxs[0] == c0,
                    w.queries[0] == g0,
                    w.values[0] == Seq::<ReturnValueExpr>::empty(),
                    w.ctxs[i as int] == *ctx,
                    w.queries[i as int] == *query,
                    w.values[i as int] == values@,
                    return_parts(*q, scope0, *return_type, i as int, w),
                decreases xs@.len() - i,
            {
                proof {
                    lemma_parts_ok(*return_type, xs@.len() as int, scope0, *q, i as int);
                    lemma_part_decreases(*return_type, i as int);
                }
                let ghost ci = *ctx;
                let ghost gi = *query;
                let v = process_return_object(ctx, q, scope, &xs[i], query);
                let ghost wv = choose|wv: ReturnTrace|
                    return_object_outcome(ci, *ctx, *q, scope0, xs@[i as int], gi, *query, v, wv);
                values.push(v);
                proof {
                    let w2 = ReturnTrace {
                        ctxs: w.ctxs.push(*ctx),
                        mids: w.mids,
                        queries: w.queries.push(*query),
                        results: w.results,
                        exprs: w.exprs,
                        values: w.values.push(values@),
                        parts: w.parts.push(wv),
                    };
                    lemma_return_parts_stable(*q, scope0, *return_type, i as int, w, w2);
                    assert(w2.values[i as int + 1].last() == v);
                    assert(w2.values[i as int + 1] =~= w2.values[i as int].push(v));
                    assert(return_parts(*q, scope0, *return_type, i as int + 1, w2));
                    w = w2;
                }
                i = i + 1;
            }
            let r = ReturnValueExpr::Array(values);
            proof {
                assert(return_object_outcome(c0, *ctx, *q, scope0, *return_type, g0, *query, r, w));
            }
            r
        },
        ReturnType::Object(kvs) => {
            let ghost w0 = ReturnTrace {
                ctxs: seq![*ctx],
                mids: Seq::empty(),
                queries: seq![*query],
                results: Seq::empty(),
                exprs: Seq::empty(),
                values: seq![Seq::<ReturnValueExpr>::empty()],
                parts: Seq::empty(),
            };
            let ghost mut w = w0;
            let ghost mut vals: Seq<ReturnValueExpr> = Seq::empty();
            let mut values: Vec<(String, ReturnValueExpr)> = Vec::new();
            let mut i: usize = 0;
            while i < kvs.len()
                invariant
                    *return_type == ReturnType::Object(*kvs),
                    parts_ok(*return_type, kvs@.len() as int, scope0, *q),
                    *scope == scope0,
                    0 <= i <= kvs@.len(),
                    w.ctxs.len() == i + 1,
                    w.queries.len() == i + 1,
                    w.values.len() == i + 1,
                    w.parts.len() == i,
                    w.ctxs[0] == c0,
                    w.queries[0] == g0,
                    w.values[0] == Seq::<ReturnValueExpr>::empty(),
                    w.ctxs[i as int] == *ctx,
                    w.queries[i as int] == *query,
                    w.values[i as int] == vals,
                    vals.len() == i,
                    values@ == object_entries(kvs@, vals, i as int),
                    forall|a: int, b: int| 0 <= a < b < values@.len() ==> #[trigger] values@[a].0@ != #[trigger] values@[b].0@,
                    return_parts(*q, scope0, *return_type, i as int, w),
                decreases kvs@.len() - i,
            {
                proof {
                    lemma_parts_ok(*return_type, kvs@.len() as int, scope0, *q, i as int);
                    lemma_part_decreases(*return_type, i as int);
                }
                let ghost ci = *ctx;
                let ghost gi = *query;
                let v = process_return_object(ctx, q, scope, &kvs[i].1, query);
                let ghost wv = choose|wv: ReturnTrace|
                    return_object_outcome(ci, *ctx, *q, scope0, kvs@[i as int].1, gi, *query, v, wv);
                let ghost vg = v;
                let ghost prev = values@;
                let mut pos: usize = 0;
                let mut found = false;
                while pos < values.len()
                    invariant
                        values@ == prev,
                        i < kvs@.len(),
                        pos <= prev.len(),
                        forall|t: int| 0 <= t < pos ==> #[trigger] prev[t].0@ != kvs@[i as int].0@,
                    ensures
                        pos <= prev.len(),
                        forall|t: int| 0 <= t < pos ==> #[trigger] prev[t].0@ != kvs@[i as int].0@,
                        pos < prev.len() ==> prev[pos as int].0@ == kvs@[i as int].0@,
                    decreases values.len() - pos,
                {
                    if values[pos].0 == kvs[i].0 {
                        break;
                    }
                    pos = pos + 1;
                }
                if pos < values.len() {
                    let key = values[pos].0.clone();
                    values.set(pos, (key, v));
                    proof {
                        assert(key_position(prev, kvs@[i as int].0@) == Some(pos as int));
                    }
                } else {
                    values.push((kvs[i].0.clone(), v));
                    proof {
                        assert(key_position(prev, kvs@[i as int].0@) is None);
                    }
                }
                proof {
                    assert(object_entries(kvs@, vals.push(vg), i as int) == object_entries(kvs@, vals, i as int)) by {
                        lemma_object_entries_prefix(kvs@, vals, vals.push(vg), i as int);
                    }
                    vals = vals.push(vg);
                    let w2 = ReturnTrace {
                        ctxs: w.ctxs.push(*ctx),
                        mids: w.mids,
                        queries: w.queries.push(*query),
                        results: w.results,
                        exprs: w.exprs,
                        values: w.values.push(vals),
                        parts: w.parts.push(wv),
                    };
                    lemma_return_parts_stable(*q, scope0, *return_type, i as int, w, w2);
                    assert(w2.values[i as int + 1] =~= w2.values[i as int].push(vg));
                    assert(return_parts(*q, scope0, *return_type, i as int + 1, w2));
                    w = w2;
                }
                i = i + 1;
            }
            let r = ReturnValueExpr::Object(values);
            proof {
                assert(return_object_outcome(c0, *ctx, *q, scope0, *return_type, g0, *query, r, w));
            }
            r
        },
        ReturnType::Empty => {
            proof {
                assert(false);
            }
            ReturnValueExpr::Array(Vec::new())
        },
    }
}


/// Whether `g1` is `g0` with only its returned values changed, to `values`.
pub open spec fn returns_now(g0: GeneratedQuery, g1: GeneratedQuery, values: Seq<ReturnValue>) -> bool {
    &&& g1.name == g0.name
    &&& g1.embedding_model_to_use == g0.embedding_model_to_use
    &&& g1.hoisted_embedding_calls == g0.hoisted_embedding_calls
    &&& g1.is_mut == g0.is_mut
    &&& g1.return_values@ == values
}

/// The value a query returns for an inferred statement (from the context `cm` after
/// inference to `c1`): a traversal from a variable under the variable's name, as a list
/// or as a single item by how it collects, after checking the name (E105); any other
/// traversal with no name; a variable under its name, after checking the name (E105) and
/// that it is bound (E301), as an aggregation, a literal, a single item or a list by its
/// type; a literal under its own text.
pub open spec fn returned_value(
    cm: Ctx,
    c1: Ctx,
    q: Query,
    scope: StrMap<Type>,
    loc: Loc,
    st: Option<Statement>,
    rv: ReturnValue,
) -> bool {
    match st {
        Some(Statement::Traversal(t)) => match t.source_step.inner_spec() {
            SourceStep::Identifier(v) => {
                let name = GeneratedValue::Literal(GenRef::Literal(v.inner_spec()));
                &&& reported(cm, c1, reserved_errors(loc, q, v.inner_spec()@))
                &&& rv == if t.should_collect is ToVec {
                    ReturnValue::Named { name, value: ReturnValueExpr::Traversal(t) }
                } else {
                    ReturnValue::SingleNamed { name, value: ReturnValueExpr::Traversal(t) }
                }
            },
            _ => c1 == cm && rv == ReturnValue::Unnamed { value: ReturnValueExpr::Traversal(t) },
        },
        Some(Statement::Identifier(id)) => {
            let n = id.inner_spec()@;
            let name = GeneratedValue::Literal(GenRef::Literal(id.inner_spec()));
            let kind = if scope@.contains_key(n) {
                scope@[n]
            } else {
                TypeView::Unknown
            };
            &&& reported(cm, c1, reserved_errors(loc, q, n) + unbound_errors(loc, q, scope, n))
            &&& match rv {
                ReturnValue::Aggregate { name: an, value } => kind is Aggregate && an
                    == GeneratedValue::Aggregate(GenRef::Literal(id.inner_spec())) && identifier_or_param(
                    q,
                    n,
                    false,
                    value,
                ),
                ReturnValue::NamedLiteral { name: nn, value } => (kind is Scalar || kind is Boolean)
                    && nn == name && identifier_or_param(q, n, false, value),
                ReturnValue::SingleNamed { name: nn, value: ReturnValueExpr::Identifier(value) } => (
                kind is Node || kind is Vector || kind is Edge) && nn == name && identifier_or_param(
                    q,
                    n,
                    false,
                    value,
                ),
                ReturnValue::Named { name: nn, value: ReturnValueExpr::Identifier(value) } => !(
                kind is Aggregate || kind is Scalar || kind is Boolean || kind is Node || kind is Vector
                    || kind is Edge) && nn == name && identifier_or_param(q, n, false, value),
                _ => false,
            }
        },
        Some(Statement::Literal(l)) => c1 == cm && rv == ReturnValue::Literal {
            name: GeneratedValue::Literal(l),
            value: GeneratedValue::Literal(l),
        },
        _ => false,
    }
}

/// Whether a return clause is one the checks handle (see [`returnable`] and
/// [`return_ok`]); an expression may also give nothing to return.
pub open spec fn return_clause_ok(ret: ReturnType, scope: StrMap<Type>, q: Query) -> bool {
    match ret {
        ReturnType::Expression(e) => returnable(e, scope, q, true),
        ReturnType::Empty => true,
        _ => return_ok(ret, scope, q),
    }
}

/// What checking a return clause does to the generated query: an expression adds the
/// value returned for its statement (see [`returned_value`]), or clears the returned
/// values when it gives nothing; a list or an object adds its parts (see
/// [`return_object_outcome`]); an empty clause changes nothing.
pub open spec fn return_outcome(
    c0: Ctx,
    c1: Ctx,
    q: Query,
    scope: StrMap<Type>,
    ret: ReturnType,
    g0: GeneratedQuery,
    g1: GeneratedQuery,
    w: ReturnTrace,
) -> bool {
    match ret {
        ReturnType::Expression(e) => {
            let rx = w.results[0];
            let cm = w.mids[0];
            let gm = w.queries[0];
            &&& expr_outcome(c0, cm, e, scope, q, None, g0, gm, rx, w.exprs[0])
            &&& if rx.1 == Some(Statement::Empty) {
                c1 == cm && returns_now(gm, g1, Seq::empty())
            } else {
                exists|rv: ReturnValue|
                    #[trigger] returned_value(cm, c1, q, scope, e.loc, rx.1, rv) && returns_now(
                        gm,
                        g1,
                        gm.return_values@.push(rv),
                    )
            }
        },
        ReturnType::Array(_) => exists|gm: GeneratedQuery, v: Vec<ReturnValueExpr>|
            #[trigger] return_object_outcome(c0, c1, q, scope, ret, g0, gm, ReturnValueExpr::Array(v), w)
                && returns_now(gm, g1, gm.return_values@.push(ReturnValue::Array { values: v })),
        ReturnType::Object(_) => exists|gm: GeneratedQuery, v: Vec<(String, ReturnValueExpr)>|
            #[trigger] return_object_outcome(c0, c1, q, scope, ret, g0, gm, ReturnValueExpr::Object(v), w)
                && returns_now(gm, g1, gm.return_values@.push(ReturnValue::Object { values: v })),
        ReturnType::Empty => c1 == c0 && g1 == g0,
    }
}

/// Copies a reference of generated code.
fn copy_ref(g: &GenRef<String>) -> (r: GenRef<String>)
    ensures
        r == *g,
{
    match g {
        GenRef::Literal(t) => GenRef::Literal(t.clone()),
        GenRef::Mut(t) => GenRef::Mut(t.clone()),
        GenRef::Ref(t) => GenRef::Ref(t.clone()),
        GenRef::RefLT(l, t) => GenRef::RefLT(l.clone(), t.clone()),
        GenRef::DeRef(t) => GenRef::DeRef(t.clone()),
        GenRef::MutRef(t) => GenRef::MutRef(t.clone()),
        GenRef::MutRefLT(l, t) => GenRef::MutRefLT(l.clone(), t.clone()),
        GenRef::MutDeRef(t) => GenRef::MutDeRef(t.clone()),
        GenRef::RefLiteral(t) => GenRef::RefLiteral(t.clone()),
        GenRef::Unknown => GenRef::Unknown,
        GenRef::Std(t) => GenRef::Std(t.clone()),
        GenRef::Id(t) => GenRef::Id(t.clone()),
    }
}

/// The value a query returns for an inferred statement (see [`returned_value`]).
fn returned_value_of(ctx: &mut Ctx, q: &Query, scope: &StrMap<Type>, loc: Loc, st: Option<Statement>) -> (rv: ReturnValue)
    requires
        returnable_statement(st),
    ensures
        returned_value(*old(ctx), *final(ctx), *q, *scope, loc, st, rv),
{
    let ghost c0 = *ctx;
    match st {
        Some(Statement::Traversal(t)) => {
            let source = match t.source_step.inner() {
                SourceStep::Identifier(v) => {
                    is_valid_identifier(ctx, q, loc, v.inner().as_str());
                    proof {
                        assert(ctx.diagnostics.deep_view() =~= c0.diagnostics.deep_view() + reserved_errors(loc, *q, v.inner_spec()@));
                    }
                    Some(v.inner().clone())
                },
                _ => None,
            };
            match source {
                Some(v) => {
                    let name = GeneratedValue::Literal(GenRef::Literal(v));
                    match t.should_collect {
                        ShouldCollect::ToVec => ReturnValue::Named { name, value: ReturnValueExpr::Traversal(t) },
                        _ => ReturnValue::SingleNamed { name, value: ReturnValueExpr::Traversal(t) },
                    }
                },
                None => ReturnValue::Unnamed { value: ReturnValueExpr::Traversal(t) },
            }
        },
        Some(Statement::Identifier(id)) => {
            let n = id.inner();
            is_valid_identifier(ctx, q, loc, n.as_str());
            let ghost c1 = *ctx;
            proof {
                assert(ctx.diagnostics.deep_view() =~= c0.diagnostics.deep_view() + reserved_errors(loc, *q, n@));
            }
            let kind: u8 = match scope.get(n.as_str()) {
                Some(t) => {
                    proof {
                        lemma_nothing_reported(*ctx);
                        lemma_reported_twice(c0, c1, *ctx, reserved_errors(loc, *q, n@), Seq::empty());
                    }
                    match t {
                        Type::Aggregate => 0,
                        Type::Scalar(_) => 1,
                        Type::Boolean => 1,
                        Type::Node(_) => 2,
                        Type::Vector(_) => 2,
                        Type::Edge(_) => 2,
                        _ => 3,
                    }
                },
                None => {
                    report1(ctx, q, loc, ErrorCode::E301, n.as_str());
                    proof {
                        lemma_reported_twice(c0, c1, *ctx, reserved_errors(loc, *q, n@), unbound_errors(loc, *q, *scope, n@));
                    }
                    3
                },
            };
            let value = gen_identifier_or_param(q, n.as_str(), false, true);
            if kind == 0 {
                ReturnValue::Aggregate { name: GeneratedValue::Aggregate(GenRef::Literal(n.clone())), value }
            } else if kind == 1 {
                ReturnValue::NamedLiteral { name: GeneratedValue::Literal(GenRef::Literal(n.clone())), value }
            } else if kind == 2 {
                ReturnValue::SingleNamed {
                    name: GeneratedValue::Literal(GenRef::Literal(n.clone())),
                    value: ReturnValueExpr::Identifier(value),
                }
            } else {
                ReturnValue::Named {
                    name: GeneratedValue::Literal(GenRef::Literal(n.clone())),
                    value: ReturnValueExpr::Identifier(value),
                }
            }
        },
        Some(Statement::Literal(l)) => ReturnValue::Literal {
            name: GeneratedValue::Literal(copy_ref(&l)),
            value: GeneratedValue::Literal(l),
        },
        _ => {
            proof {
                assert(false);
            }
            ReturnValue::Array { values: Vec::new() }
        },
    }
}

/// Checks a return clause and adds what it returns to the generated query (see
/// [`return_outcome`]).
pub fn analyze_return_expr(
    ctx: &mut Ctx,
    original_query: &Query,
    scope: &mut StrMap<Type>,
    query: &mut GeneratedQuery,
    ret: &ReturnType,
)
    requires
        return_clause_ok(*ret, *old(scope), *original_query),
    ensures
        exists|w: ReturnTrace|
            return_outcome(
                *old(ctx),
                *final(ctx),
                *original_query,
                *old(scope),
                *ret,
                *old(query),
                *final(query),
                w,
            ),
        *final(scope) == *old(scope),
{
    let ghost c0 = *ctx;
    let ghost g0 = *query;
    let ghost scope0 = *scope;
    let q = original_query;
    match ret {
        ReturnType::Expression(e) => {
            let (t, stmt) = infer_expr_type(ctx, e, scope, q, None, query);
            let ghost rx = (t, stmt);
            let ghost cm = *ctx;
            let ghost gm = *query;
            let ghost wx = choose|wx: Trace| expr_outcome(c0, cm, *e, scope0, *q, None, g0, gm, rx, wx);
            let ghost w = ReturnTrace {
                ctxs: Seq::empty(),
                mids: seq![cm],
                queries: seq![gm],
                results: seq![rx],
                exprs: seq![wx],
                values: Seq::empty(),
                parts: Seq::empty(),
            };
            match stmt {
                Some(Statement::Empty) => {
                    query.return_values = Vec::new();
                    proof {
                        assert(return_outcome(c0, *ctx, *q, scope0, *ret, g0, *query, w));
                    }
                },
                _ => {
                    let rv = returned_value_of(ctx, q, scope, e.loc, stmt);
                    let ghost rvg = rv;
                    query.return_values.push(rv);
                    proof {
                        assert(returned_value(cm, *ctx, *q, scope0, e.loc, rx.1, rvg));
                        assert(returns_now(gm, *query, gm.return_values@.push(rvg)));
                        assert(rx.1 != Some(Statement::Empty));
                        assert(expr_outcome(c0, cm, *e, scope0, *q, None, g0, gm, rx, wx));
                        assert(w.results[0] == rx && w.mids[0] == cm && w.queries[0] == gm && w.exprs[0] == wx);
                        assert(return_outcome(c0, *ctx, *q, scope0, *ret, g0, *query, w));
                    }
                },
            }
        },
        ReturnType::Array(_) => {
            let v = process_return_object(ctx, q, scope, ret, query);
            let ghost gm = *query;
            let ghost w = choose|w: ReturnTrace| return_object_outcome(c0, *ctx, *q, scope0, *ret, g0, gm, v, w);
            match v {
                ReturnValueExpr::Array(values) => {
                    let ghost vs = values;
                    query.return_values.push(ReturnValue::Array { values });
                    proof {
                        assert(return_object_outcome(c0, *ctx, *q, scope0, *ret, g0, gm, ReturnValueExpr::Array(vs), w));
                        assert(return_outcome(c0, *ctx, *q, scope0, *ret, g0, *query, w));
                    }
                },
                _ => {
                    proof {
                        assert(false);
                    }
                },
            }
        },
        ReturnType::Object(_) => {
            let v = process_return_object(ctx, q, scope, ret, query);
            let ghost gm = *query;
            let ghost w = choose|w: ReturnTrace| return_object_outcome(c0, *ctx, *q, scope0, *ret, g0, gm, v, w);
            match v {
                ReturnValueExpr::Object(values) => {
                    let ghost vs = values;
                    query.return_values.push(ReturnValue::Object { values });
                    proof {
                        assert(return_object_outcome(c0, *ctx, *q, scope0, *ret, g0, gm, ReturnValueExpr::Object(vs), w));
                        assert(return_outcome(c0, *ctx, *q, scope0, *ret, g0, *query, w));
                    }
                },
                _ => {
                    proof {
                        assert(false);
                    }
                },
            }
        },
        ReturnType::Empty => {
            proof {
                let w: ReturnTrace = arbitrary();
                assert(return_outcome(c0, *ctx, *q, scope0, *ret, g0, *query, w));
            }
        },
    }
}


/// Law: returning a variable bound to a single node, edge or vector gives it as a single
/// item under its name; one bound to many nodes, edges or vectors, or of an unknown type,
/// as a list under its name; an aggregation as an aggregation; a scalar or a boolean as a
/// literal under its name. The value is read by the variable's name (or its parameter).
pub proof fn law_returned_variables(
    cm: Ctx,
    c1: Ctx,
    q: Query,
    scope: StrMap<Type>,
    loc: Loc,
    id: GenRef<String>,
    rv: ReturnValue,
    t: Type,
)
    requires
        returned_value(cm, c1, q, scope, loc, Some(Statement::Identifier(id)), rv),
        scope@.contains_key(id.inner_spec()@),
        scope@[id.inner_spec()@] == type_view(t),
    ensures
        (t is Node || t is Edge || t is Vector) ==> (rv matches ReturnValue::SingleNamed {
            name: GeneratedValue::Literal(GenRef::Literal(nm)),
            value: ReturnValueExpr::Identifier(v),
        } && nm@ == id.inner_spec()@ && identifier_or_param(q, nm@, false, v)),
        (t is Nodes || t is Edges || t is Vectors || t is Unknown || t is Array || t is Anonymous || t is Count)
            ==> (rv matches ReturnValue::Named {
            name: GeneratedValue::Literal(GenRef::Literal(nm)),
            value: ReturnValueExpr::Identifier(v),
        } && nm@ == id.inner_spec()@ && identifier_or_param(q, nm@, false, v)),
        t is Aggregate ==> rv is Aggregate,
        (t is Scalar || t is Boolean) ==> rv is NamedLiteral,
{
}


/// Law: returning a traversal that starts from a variable gives it under the variable's
/// name, as a list when it collects its items into a list and as a single item when it
/// takes one; any other traversal is returned with no name; a literal is returned under
/// its own text as its own value. Only a traversal from a variable may check the
/// variable's name; the others report nothing.
pub proof fn law_returned_statements(
    cm: Ctx,
    c1: Ctx,
    q: Query,
    scope: StrMap<Type>,
    loc: Loc,
    st: Statement,
    rv: ReturnValue,
)
    requires
        returned_value(cm, c1, q, scope, loc, Some(st), rv),
    ensures
        st matches Statement::Traversal(t) ==> (t.source_step.inner_spec() matches SourceStep::Identifier(v) ==> (
            t.should_collect is ToVec ==> rv == (ReturnValue::Named {
                name: GeneratedValue::Literal(GenRef::Literal(v.inner_spec())),
                value: ReturnValueExpr::Traversal(t),
            }))),
        st matches Statement::Traversal(t) ==> (t.source_step.inner_spec() matches SourceStep::Identifier(v) ==> (
            t.should_collect is ToObj ==> rv == (ReturnValue::SingleNamed {
                name: GeneratedValue::Literal(GenRef::Literal(v.inner_spec())),
                value: ReturnValueExpr::Traversal(t),
            }))),
        st matches Statement::Traversal(t) ==> (!(t.source_step.inner_spec() is Identifier) ==> rv
            == (ReturnValue::Unnamed { value: ReturnValueExpr::Traversal(t) }) && c1 == cm),
        st matches Statement::Literal(l) ==> (rv == (ReturnValue::Literal {
            name: GeneratedValue::Literal(l),
            value: GeneratedValue::Literal(l),
        }) && c1 == cm),
{
}

} // verus!
