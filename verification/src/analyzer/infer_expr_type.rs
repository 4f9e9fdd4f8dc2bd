//! Inferring the type of an expression, and the statement to generate from it.

use vstd::prelude::*;
use crate::generator::queries::Query as GeneratedQuery;
use crate::generator::source_steps::SourceStep;
use crate::generator::bool_ops::BoExp;
use crate::generator::statements::Statement;
use crate::generator::traversal_steps::{
    ShouldCollect, Step as GeneratedStep, Traversal as GeneratedTraversal, TraversalType, Where, WhereRef,
};
use crate::generator::utils::{GenRef, GeneratedValue, Separator};
use crate::text::signed_to_string;
use vstd::pervasive::arbitrary;
use super::graph_step_validation::{
    k_matches, number_value, opt_type_view, report1, report3, reported, search_arg_details, search_vector_count,
    search_vector_data,
};
use super::schema_methods::{names_contain, DiagnosticView};
use super::str_map::{contains_name, DeepCopy, StrMap};
use super::traversal_validation::{
    array_members, copy_opt_name, prefilter_expr, bm25_count_errors, bm25_data_errors, bm25_query_matches, bool_item, bool_members, copy_opt_type, expr_ok, expr_outcome, lemma_member_decreases,
    lemma_members_ok, lemma_nothing_reported, members, members_ok, nested, source_variable_text,
    traversal_outcome, type_errors, validate_traversal, yields_traversal, vector_count_errors, vector_data_errors, yields_boexp,
    yields_some, Trace,
};
use super::types::{
    type_view, BM25Search, Ctx, ErrorCode, EvaluatesToNumberType, Expression, ExpressionType, FieldType, Query, Type,
    ValueType,
};
use super::values::value_text_of;
use super::utils::{
    gen_identifier_or_param, is_in_scope, is_valid_identifier, item_kind, query_error, reserved_identifier,
    DEFAULT_VAR_NAME,
};
use super::types::same_type;

verus! {

/// The member a boolean expression gives to a conjunction or a disjunction (see
/// [`bool_item`]).
fn combination_item(b: BoExp) -> (r: BoExp)
    ensures
        r == bool_item(b),
{
    match b {
        BoExp::Exists(mut t) => {
            t.should_collect = ShouldCollect::No;
            BoExp::Exists(t)
        },
        BoExp::Not(inner) => match *inner {
            BoExp::Exists(mut t) => {
                t.should_collect = ShouldCollect::No;
                BoExp::Exists(t)
            },
            other => BoExp::Not(Box::new(other)),
        },
        other => other,
    }
}

/// The condition a search's pre-filter gets from a statement (see [`prefilter_expr`]).
fn prefilter_condition(st: Statement) -> (r: BoExp)
    ensures
        r == prefilter_expr(st),
{
    match st {
        Statement::Traversal(t) => BoExp::Expr(t),
        Statement::BoExp(b) => match b {
            BoExp::Exists(mut t) => {
                t.should_collect = ShouldCollect::No;
                BoExp::Exists(t)
            },
            other => other,
        },
        _ => BoExp::Empty,
    }
}

/// The variable a generated traversal starts from (see [`source_variable_text`]).
fn source_variable(t: &GeneratedTraversal) -> (r: String)
    ensures
        r@ == source_variable_text(*t),
{
    match t.source_step.inner() {
        SourceStep::Identifier(g) => match g {
            GenRef::Unknown => DEFAULT_VAR_NAME.to_owned(),
            GenRef::Id(_) => DEFAULT_VAR_NAME.to_owned(),
            _ => g.inner().clone(),
        },
        _ => DEFAULT_VAR_NAME.to_owned(),
    }
}

/// The states of a combination's check with one more member's states appended.
pub open spec fn member_pushed(
    w: Trace,
    c: Ctx,
    cx: Ctx,
    g: GeneratedQuery,
    rx: (Type, Option<Statement>),
    wx: Trace,
    bs: Seq<BoExp>,
) -> Trace {
    Trace {
        ctxs: w.ctxs.push(c),
        mids: w.mids.push(cx),
        queries: w.queries.push(g),
        types: w.types,
        travs: w.travs,
        results: w.results.push(rx),
        bools: w.bools.push(bs),
        stmts: w.stmts,
        inners: w.inners,
        failed: w.failed,
        start: w.start,
        subs: w.subs.push(wx),
    }
}

/// The states of a list's check with one more member's states appended.
pub open spec fn element_pushed(
    w: Trace,
    c: Ctx,
    cx: Ctx,
    g: GeneratedQuery,
    rx: (Type, Option<Statement>),
    wx: Trace,
    inner: Option<Type>,
    stmts: Seq<Statement>,
    failed: bool,
) -> Trace {
    Trace {
        ctxs: w.ctxs.push(c),
        mids: w.mids.push(cx),
        queries: w.queries.push(g),
        types: w.types,
        travs: w.travs,
        results: w.results.push(rx),
        bools: w.bools,
        stmts: w.stmts.push(stmts),
        inners: w.inners.push(inner),
        failed: w.failed.push(failed),
        start: w.start,
        subs: w.subs.push(wx),
    }
}

proof fn lemma_bool_members_stable(
    q: Query,
    scope: StrMap<Type>,
    parent: Option<super::types::TypeView>,
    e: Expression,
    k: int,
    w: Trace,
    w2: Trace,
)
    requires
        bool_members(q, scope, parent, e, k, w),
        forall|j: int| 0 <= j <= k ==> #[trigger] w2.ctxs[j] == w.ctxs[j],
        forall|j: int| 0 <= j <= k ==> #[trigger] w2.queries[j] == w.queries[j],
        forall|j: int| 0 <= j <= k ==> #[trigger] w2.bools[j] == w.bools[j],
        forall|j: int| 0 <= j < k ==> #[trigger] w2.mids[j] == w.mids[j],
        forall|j: int| 0 <= j < k ==> #[trigger] w2.results[j] == w.results[j],
        forall|j: int| 0 <= j < k ==> #[trigger] w2.subs[j] == w.subs[j],
    ensures
        bool_members(q, scope, parent, e, k, w2),
    decreases k,
{
    if k > 0 {
        lemma_bool_members_stable(q, scope, parent, e, k - 1, w, w2);
        assert(w2.ctxs[k - 1] == w.ctxs[k - 1] && w2.ctxs[k] == w.ctxs[k]);
        assert(w2.queries[k - 1] == w.queries[k - 1] && w2.queries[k] == w.queries[k]);
        assert(w2.bools[k - 1] == w.bools[k - 1] && w2.bools[k] == w.bools[k]);
        assert(w2.mids[k - 1] == w.mids[k - 1]);
        assert(w2.results[k - 1] == w.results[k - 1]);
        assert(w2.subs[k - 1] == w.subs[k - 1]);
    }
}

proof fn lemma_array_members_stable(
    q: Query,
    scope: StrMap<Type>,
    parent: Option<super::types::TypeView>,
    e: Expression,
    k: int,
    w: Trace,
    w2: Trace,
)
    requires
        array_members(q, scope, parent, e, k, w),
        forall|j: int| 0 <= j <= k ==> #[trigger] w2.ctxs[j] == w.ctxs[j],
        forall|j: int| 0 <= j <= k ==> #[trigger] w2.queries[j] == w.queries[j],
        forall|j: int| 0 <= j <= k ==> #[trigger] w2.inners[j] == w.inners[j],
        forall|j: int| 0 <= j <= k ==> #[trigger] w2.stmts[j] == w.stmts[j],
        forall|j: int| 0 <= j <= k ==> #[trigger] w2.failed[j] == w.failed[j],
        forall|j: int| 0 <= j < k ==> #[trigger] w2.mids[j] == w.mids[j],
        forall|j: int| 0 <= j < k ==> #[trigger] w2.results[j] == w.results[j],
        forall|j: int| 0 <= j < k ==> #[trigger] w2.subs[j] == w.subs[j],
    ensures
        array_members(q, scope, parent, e, k, w2),
    decreases k,
{
    if k > 0 {
        lemma_array_members_stable(q, scope, parent, e, k - 1, w, w2);
        assert(w2.ctxs[k - 1] == w.ctxs[k - 1] && w2.ctxs[k] == w.ctxs[k]);
        assert(w2.queries[k - 1] == w.queries[k - 1] && w2.queries[k] == w.queries[k]);
        assert(w2.inners[k - 1] == w.inners[k - 1] && w2.inners[k] == w.inners[k]);
        assert(w2.stmts[k - 1] == w.stmts[k - 1] && w2.stmts[k] == w.stmts[k]);
        assert(w2.failed[k - 1] == w.failed[k - 1] && w2.failed[k] == w.failed[k]);
        assert(w2.mids[k - 1] == w.mids[k - 1]);
        assert(w2.results[k - 1] == w.results[k - 1]);
        assert(w2.subs[k - 1] == w.subs[k - 1]);
    }
}

/// Checks the members of a conjunction or a disjunction, in order, and gives the boolean
/// expressions they contribute (see [`super::traversal_validation::combined`]).
fn infer_bool_members(
    ctx: &mut Ctx,
    e: &Expression,
    xs: &Vec<Expression>,
    scope: &mut StrMap<Type>,
    q: &Query,
    parent_ty: &Option<Type>,
    gen_query: &mut GeneratedQuery,
) -> (bs: Vec<BoExp>)
    requires
        members(*e) == xs@,
        members_ok(*e, xs@.len() as int, *old(scope), parent_ty is Some, true),
    ensures
        exists|w: Trace|
            super::traversal_validation::combined(
                *old(ctx),
                *final(ctx),
                *q,
                *old(scope),
                opt_type_view(*parent_ty),
                *e,
                *old(gen_query),
                *final(gen_query),
                w,
            ) && bs@ == w.bools[xs@.len() as int],
        *final(scope) == *old(scope),
    decreases *e, 0int,
{
    let ghost c0 = *ctx;
    let ghost g0 = *gen_query;
    let ghost scope0 = *scope;
    let ghost pv = opt_type_view(*parent_ty);
    let mut bs: Vec<BoExp> = Vec::new();
    let ghost mut w = Trace {
        ctxs: seq![*ctx],
        mids: Seq::empty(),
        queries: seq![*gen_query],
        types: Seq::empty(),
        travs: Seq::empty(),
        results: Seq::empty(),
        bools: seq![Seq::<BoExp>::empty()],
        stmts: Seq::empty(),
        inners: Seq::empty(),
        failed: Seq::empty(),
        start: arbitrary(),
        subs: Seq::empty(),
    };
    let mut i: usize = 0;
    while i < xs.len()
        invariant
            members(*e) == xs@,
            members_ok(*e, xs@.len() as int, scope0, parent_ty is Some, true),
            *scope == scope0,
            pv == opt_type_view(*parent_ty),
            0 <= i <= xs@.len(),
            w.ctxs.len() == i + 1,
            w.queries.len() == i + 1,
            w.bools.len() == i + 1,
            w.mids.len() == i,
            w.results.len() == i,
            w.subs.len() == i,
            w.ctxs[0] == c0,
            w.queries[0] == g0,
            w.bools[0] == Seq::<BoExp>::empty(),
            w.ctxs[i as int] == *ctx,
            w.queries[i as int] == *gen_query,
            w.bools[i as int] == bs@,
            bool_members(*q, scope0, pv, *e, i as int, w),
        decreases xs@.len() - i,
    {
        proof {
            lemma_members_ok(*e, xs@.len() as int, scope0, parent_ty is Some, true, i as int);
            lemma_member_decreases(*e, i as int);
        }
        let ghost ci = *ctx;
        let ghost gi = *gen_query;
        let (ty, stmt) = infer_expr_type(ctx, &xs[i], scope, q, copy_opt_type(parent_ty), gen_query);
        let ghost rx = (ty, stmt);
        let ghost cx = *ctx;
        let ghost wx = choose|wx: Trace| expr_outcome(ci, cx, xs@[i as int], scope0, *q, pv, gi, *gen_query, rx, wx);
        match stmt {
            Some(Statement::BoExp(b)) => {
                bs.push(combination_item(b));
                proof {
                    lemma_nothing_reported(*ctx);
                }
            },
            Some(Statement::Traversal(t)) => {
                bs.push(BoExp::Expr(t));
                proof {
                    lemma_nothing_reported(*ctx);
                }
            },
            _ => {
                report1(ctx, q, xs[i].loc, ErrorCode::E306, ty.kind_str());
                bs.push(BoExp::Empty);
            },
        }
        proof {
            let w2 = member_pushed(w, *ctx, cx, *gen_query, rx, wx, bs@);
            lemma_bool_members_stable(*q, scope0, pv, *e, i as int, w, w2);
            assert(w2.results[i as int] == rx && w2.subs[i as int] == wx && w2.mids[i as int] == cx);
            assert(bool_members(*q, scope0, pv, *e, i as int + 1, w2));
            w = w2;
        }
        i = i + 1;
    }
    proof {
        assert(super::traversal_validation::combined(c0, *ctx, *q, scope0, pv, *e, g0, *gen_query, w));
    }
    bs
}

/// Checks the members of a list, in order, until one gives no statement; gives the list's
/// type so far, the statements, and whether a member gave none (see
/// [`super::traversal_validation::listed`]).
fn infer_array_members(
    ctx: &mut Ctx,
    e: &Expression,
    xs: &Vec<Expression>,
    scope: &mut StrMap<Type>,
    q: &Query,
    parent_ty: &Option<Type>,
    gen_query: &mut GeneratedQuery,
) -> (r: (Option<Type>, Vec<Statement>, bool))
    requires
        members(*e) == xs@,
        members_ok(*e, xs@.len() as int, *old(scope), parent_ty is Some, false),
    ensures
        exists|w: Trace|
            super::traversal_validation::listed(
                *old(ctx),
                *final(ctx),
                *q,
                *old(scope),
                opt_type_view(*parent_ty),
                *e,
                *old(gen_query),
                *final(gen_query),
                w,
            ) && opt_type_view(r.0) == opt_type_view(w.inners[xs@.len() as int]) && r.1@ == w.stmts[xs@.len() as int]
                && r.2 == w.failed[xs@.len() as int],
        *final(scope) == *old(scope),
    decreases *e, 0int,
{
    let ghost c0 = *ctx;
    let ghost g0 = *gen_query;
    let ghost scope0 = *scope;
    let ghost pv = opt_type_view(*parent_ty);
    let mut inner: Option<Type> = None;
    let mut stmts: Vec<Statement> = Vec::new();
    let mut failed = false;
    let ghost mut w = Trace {
        ctxs: seq![*ctx],
        mids: Seq::empty(),
        queries: seq![*gen_query],
        types: Seq::empty(),
        travs: Seq::empty(),
        results: Seq::empty(),
        bools: Seq::empty(),
        stmts: seq![Seq::<Statement>::empty()],
        inners: seq![None],
        failed: seq![false],
        start: arbitrary(),
        subs: Seq::empty(),
    };
    let mut i: usize = 0;
    while i < xs.len()
        invariant
            members(*e) == xs@,
            members_ok(*e, xs@.len() as int, scope0, parent_ty is Some, false),
            *scope == scope0,
            pv == opt_type_view(*parent_ty),
            0 <= i <= xs@.len(),
            w.ctxs.len() == i + 1,
            w.queries.len() == i + 1,
            w.inners.len() == i + 1,
            w.stmts.len() == i + 1,
            w.failed.len() == i + 1,
            w.mids.len() == i,
            w.results.len() == i,
            w.subs.len() == i,
            w.ctxs[0] == c0,
            w.queries[0] == g0,
            w.inners[0] is None,
            w.stmts[0] == Seq::<Statement>::empty(),
            !w.failed[0],
            w.ctxs[i as int] == *ctx,
            w.queries[i as int] == *gen_query,
            opt_type_view(w.inners[i as int]) == opt_type_view(inner),
            w.stmts[i as int] == stmts@,
            w.failed[i as int] == failed,
            array_members(*q, scope0, pv, *e, i as int, w),
        decreases xs@.len() - i,
    {
        proof {
            lemma_members_ok(*e, xs@.len() as int, scope0, parent_ty is Some, false, i as int);
            lemma_member_decreases(*e, i as int);
        }
        let ghost ci = *ctx;
        let ghost gi = *gen_query;
        let ghost im = w.inners[i as int];
        if failed {
            proof {
                let w2 = element_pushed(w, *ctx, *ctx, *gen_query, arbitrary(), arbitrary(), im, stmts@, true);
                lemma_array_members_stable(*q, scope0, pv, *e, i as int, w, w2);
                assert(array_members(*q, scope0, pv, *e, i as int + 1, w2));
                w = w2;
            }
        } else {
            let (ty, stmt) = infer_expr_type(ctx, &xs[i], scope, q, copy_opt_type(parent_ty), gen_query);
            let ghost rx = (ty, stmt);
            let ghost cx = *ctx;
            let ghost wx = choose|wx: Trace| expr_outcome(ci, cx, xs@[i as int], scope0, *q, pv, gi, *gen_query, rx, wx);
            let kind = ty.kind_str();
            let mut mismatch = false;
            match &inner {
                Some(it) => {
                    if !same_type(it, &ty) {
                        report1(ctx, q, xs[i].loc, ErrorCode::E306, kind);
                        mismatch = true;
                    } else {
                        proof {
                            lemma_nothing_reported(*ctx);
                        }
                    }
                },
                None => {
                    inner = Some(ty);
                    proof {
                        lemma_nothing_reported(*ctx);
                    }
                },
            }
            let ghost cm = *ctx;
            let ghost mis: Seq<DiagnosticView> = if mismatch {
                seq![query_error(xs@[i as int].loc, ErrorCode::E306, *q, seq![item_kind(rx.0)])]
            } else {
                Seq::empty()
            };
            match stmt {
                Some(s) => {
                    stmts.push(s);
                    proof {
                        assert(mis =~= mis + Seq::<DiagnosticView>::empty());
                    }
                },
                None => {
                    report1(ctx, q, xs[i].loc, ErrorCode::E306, kind);
                    failed = true;
                    proof {
                        super::traversal_validation::lemma_reported_twice(cx, cm, *ctx, mis, seq![query_error(xs@[i as int].loc, ErrorCode::E306, *q, seq![item_kind(rx.0)])]);
                    }
                },
            }
            proof {
                let w2 = element_pushed(w, *ctx, cx, *gen_query, rx, wx, inner, stmts@, failed);
                lemma_array_members_stable(*q, scope0, pv, *e, i as int, w, w2);
                assert(w2.results[i as int] == rx && w2.subs[i as int] == wx && w2.mids[i as int] == cx);
                assert(array_members(*q, scope0, pv, *e, i as int + 1, w2));
                w = w2;
            }
        }
        i = i + 1;
    }
    proof {
        assert(super::traversal_validation::listed(c0, *ctx, *q, scope0, pv, *e, g0, *gen_query, w));
    }
    (inner, stmts, failed)
}

/// The text a search over nodes looks for, with its diagnostics (see
/// [`bm25_query_matches`]).
fn bm25_query(ctx: &mut Ctx, q: &Query, b: &BM25Search, scope: &StrMap<Type>) -> (r: GeneratedValue)
    ensures
        bm25_query_matches(r, b.data, *q, *scope),
        reported(*old(ctx), *final(ctx), bm25_data_errors(*q, *b, *scope)),
{
    let ghost c0 = *ctx;
    match &b.data {
        Some(ValueType::Literal { value, .. }) => {
            proof {
                lemma_nothing_reported(*ctx);
            }
            GeneratedValue::Literal(GenRef::Std(value_text_of(value)))
        },
        Some(ValueType::Identifier { value: i, .. }) => {
            is_valid_identifier(ctx, q, b.loc, i.as_str());
            let ghost c1 = *ctx;
            let ghost e105: Seq<DiagnosticView> = if reserved_identifier(i@) {
                seq![query_error(b.loc, ErrorCode::E105, *q, seq![i@])]
            } else {
                Seq::empty()
            };
            proof {
                assert(ctx.diagnostics.deep_view() =~= c0.diagnostics.deep_view() + e105);
            }
            if is_in_scope(scope, i.as_str()) {
                proof {
                    lemma_nothing_reported(*ctx);
                    super::traversal_validation::lemma_reported_twice(c0, c1, *ctx, e105, Seq::empty());
                }
                gen_identifier_or_param(q, i.as_str(), true, false)
            } else {
                report1(ctx, q, b.loc, ErrorCode::E301, i.as_str());
                proof {
                    super::traversal_validation::lemma_reported_twice(c0, c1, *ctx, e105, seq![query_error(b.loc, ErrorCode::E301, *q, seq![i@])]);
                }
                GeneratedValue::Unknown
            }
        },
        _ => {
            report3(ctx, q, b.loc, ErrorCode::E305, "vector_data", "SearchV", "vector_data");
            proof {
                reveal_strlit("vector_data");
                reveal_strlit("SearchV");
                assert(seq!["vector_data"@, "SearchV"@, "vector_data"@] =~= search_arg_details("vector_data"@));
            }
            GeneratedValue::Unknown
        },
    }
}

/// The result count of a search over nodes, with its diagnostics.
fn bm25_count(ctx: &mut Ctx, q: &Query, b: &BM25Search) -> (r: GeneratedValue)
    requires
        b.k is Some,
    ensures
        k_matches(r, b.k, *q),
        reported(*old(ctx), *final(ctx), bm25_count_errors(*q, *b)),
{
    let ghost d0 = ctx.diagnostics.deep_view();
    match &b.k {
        Some(k) => match &k.value {
            EvaluatesToNumberType::Identifier(i) => {
                is_valid_identifier(ctx, q, b.loc, i.as_str());
                proof {
                    if !reserved_identifier(i@) {
                        assert(ctx.diagnostics.deep_view() =~= d0 + Seq::empty());
                    } else {
                        assert(ctx.diagnostics.deep_view() =~= d0 + seq![
                            query_error(b.loc, ErrorCode::E105, *q, seq![i@]),
                        ]);
                    }
                }
                gen_identifier_or_param(q, i.as_str(), false, false)
            },
            EvaluatesToNumberType::F32 | EvaluatesToNumberType::F64 => {
                report3(ctx, q, b.loc, ErrorCode::E305, "k", "SearchBM25", "k");
                proof {
                    reveal_strlit("k");
                    reveal_strlit("SearchBM25");
                }
                GeneratedValue::Unknown
            },
            v => {
                proof {
                    assert(ctx.diagnostics.deep_view() =~= d0 + Seq::empty());
                }
                number_value(v)
            },
        },
        None => {
            proof {
                assert(false);
            }
            GeneratedValue::Unknown
        },
    }
}

/// Infers the type of an expression and the statement to generate from it, reporting what
/// is wrong with it and recording in the query what it needs (see [`expr_outcome`]).
/// `parent_ty` is the type of the enclosing traversal, if any.
pub fn infer_expr_type(
    ctx: &mut Ctx,
    expression: &Expression,
    scope: &mut StrMap<Type>,
    original_query: &Query,
    parent_ty: Option<Type>,
    gen_query: &mut GeneratedQuery,
) -> (r: (Type, Option<Statement>))
    requires
        expr_ok(*expression, *old(scope), parent_ty is Some),
    ensures
        exists|w: Trace|
            expr_outcome(
                *old(ctx),
                *final(ctx),
                *expression,
                *old(scope),
                *original_query,
                opt_type_view(parent_ty),
                *old(gen_query),
                *final(gen_query),
                r,
                w,
            ),
        *final(scope) == *old(scope),
        yields_some(*expression, *old(scope)) ==> r.1 is Some,
        yields_boexp(*expression) ==> r.1 matches Some(Statement::BoExp(_)),
        yields_traversal(*expression) ==> r.1 matches Some(Statement::Traversal(_)),
    decreases *expression, 1int,
{
    let ghost c0 = *ctx;
    let ghost g0 = *gen_query;
    let ghost scope0 = *scope;
    let ghost pv = opt_type_view(parent_ty);
    let ghost e = *expression;
    let q = original_query;
    match &expression.expr {
        ExpressionType::Identifier(name) => {
            let loc = expression.loc;
            is_valid_identifier(ctx, q, loc, name.as_str());
            let ghost c1 = *ctx;
            let ghost e105: Seq<DiagnosticView> = if reserved_identifier(name@) {
                seq![query_error(loc, ErrorCode::E105, *q, seq![name@])]
            } else {
                Seq::empty()
            };
            proof {
                assert(ctx.diagnostics.deep_view() =~= c0.diagnostics.deep_view() + e105);
            }
            match scope.get(name.as_str()) {
                Some(t) => {
                    let r = (t.deep_copy(), Some(Statement::Identifier(GenRef::Std(name.clone()))));
                    proof {
                        assert(expr_outcome(c0, *ctx, e, scope0, *q, pv, g0, *gen_query, r, arbitrary()));
                    }
                    r
                },
                None => {
                    report1(ctx, q, loc, ErrorCode::E301, name.as_str());
                    proof {
                        super::traversal_validation::lemma_reported_twice(c0, c1, *ctx, e105, seq![query_error(loc, ErrorCode::E301, *q, seq![name@])]);
                        assert(expr_outcome(c0, *ctx, e, scope0, *q, pv, g0, *gen_query, (Type::Unknown, None), arbitrary()));
                    }
                    (Type::Unknown, None)
                },
            }
        },
        ExpressionType::IntegerLiteral(i) => {
            let r = (Type::Scalar(FieldType::I32), Some(Statement::Literal(GenRef::Literal(signed_to_string(*i as i128)))));
            proof {
                lemma_nothing_reported(*ctx);
                assert(expr_outcome(c0, *ctx, e, scope0, *q, pv, g0, *gen_query, r, arbitrary()));
            }
            r
        },
        ExpressionType::StringLiteral(s) => {
            let r = (Type::Scalar(FieldType::String), Some(Statement::Literal(GenRef::Literal(s.clone()))));
            proof {
                lemma_nothing_reported(*ctx);
                assert(expr_outcome(c0, *ctx, e, scope0, *q, pv, g0, *gen_query, r, arbitrary()));
            }
            r
        },
        ExpressionType::BooleanLiteral(b) => {
            let text = if *b {
                "true".to_owned()
            } else {
                "false".to_owned()
            };
            proof {
                reveal_strlit("true");
                reveal_strlit("false");
            }
            let r = (Type::Boolean, Some(Statement::Literal(GenRef::Literal(text))));
            proof {
                lemma_nothing_reported(*ctx);
                assert(expr_outcome(c0, *ctx, e, scope0, *q, pv, g0, *gen_query, r, arbitrary()));
            }
            r
        },
        ExpressionType::Empty => {
            proof {
                lemma_nothing_reported(*ctx);
                assert(expr_outcome(c0, *ctx, e, scope0, *q, pv, g0, *gen_query, (Type::Unknown, Some(Statement::Empty)), arbitrary()));
            }
            (Type::Unknown, Some(Statement::Empty))
        },
        ExpressionType::Traversal(tr) => {
            let mut gt = GeneratedTraversal::default();
            let ghost gt0 = gt;
            let ty = validate_traversal(ctx, tr, scope, q, parent_ty, &mut gt, gen_query);
            proof {
                let wt = choose|wt: Trace| traversal_outcome(c0, *ctx, *q, scope0, pv, **tr, gt0, gt, g0, *gen_query, ty, wt);
                let w = nested(seq![gt0, gt], Seq::empty(), Seq::empty(), seq![wt]);
                assert(expr_outcome(c0, *ctx, e, scope0, *q, pv, g0, *gen_query, (ty, Some(Statement::Traversal(gt))), w));
            }
            (ty, Some(Statement::Traversal(gt)))
        },
        ExpressionType::Exists(x) => {
            let (t, stmt) = infer_expr_type(ctx, x, scope, q, parent_ty, gen_query);
            let ghost rx = (t, stmt);
            let ghost wx = choose|wx: Trace| expr_outcome(c0, *ctx, **x, scope0, *q, pv, g0, *gen_query, rx, wx);
            match stmt {
                Some(Statement::Traversal(mut tr)) => {
                    let ghost t1 = tr;
                    let v = source_variable(&tr);
                    tr.traversal_type = TraversalType::FromVar(GenRef::Std(v));
                    tr.should_collect = ShouldCollect::No;
                    let r = (Type::Boolean, Some(Statement::BoExp(BoExp::Exists(tr))));
                    proof {
                        let w = nested(Seq::empty(), Seq::empty(), seq![rx], seq![wx]);
                        assert(expr_outcome(c0, *ctx, e, scope0, *q, pv, g0, *gen_query, r, w));
                    }
                    r
                },
                _ => {
                    proof {
                        assert(false);
                    }
                    (Type::Unknown, None)
                },
            }
        },
        ExpressionType::Not(x) => {
            let (t, stmt) = infer_expr_type(ctx, x, scope, q, parent_ty, gen_query);
            let ghost rx = (t, stmt);
            let ghost cm = *ctx;
            let ghost wx = choose|wx: Trace| expr_outcome(c0, cm, **x, scope0, *q, pv, g0, *gen_query, rx, wx);
            let ghost w = nested(Seq::empty(), seq![cm], seq![rx], seq![wx]);
            match stmt {
                Some(Statement::BoExp(b)) => {
                    let r = (Type::Boolean, Some(Statement::BoExp(BoExp::Not(Box::new(b)))));
                    proof {
                        lemma_nothing_reported(*ctx);
                        assert(expr_outcome(c0, *ctx, e, scope0, *q, pv, g0, *gen_query, r, w));
                    }
                    r
                },
                _ => {
                    report1(ctx, q, x.loc, ErrorCode::E306, t.kind_str());
                    proof {
                        assert(expr_outcome(c0, *ctx, e, scope0, *q, pv, g0, *gen_query, (Type::Unknown, None), w));
                    }
                    (Type::Unknown, None)
                },
            }
        },
        ExpressionType::And(xs) => {
            let bs = infer_bool_members(ctx, expression, xs, scope, q, &parent_ty, gen_query);
            let r = (Type::Boolean, Some(Statement::BoExp(BoExp::And(bs))));
            proof {
                let w = choose|w: Trace|
                    super::traversal_validation::combined(c0, *ctx, *q, scope0, pv, e, g0, *gen_query, w)
                        && bs@ == w.bools[xs@.len() as int];
                assert(expr_outcome(c0, *ctx, e, scope0, *q, pv, g0, *gen_query, r, w));
            }
            r
        },
        ExpressionType::Or(xs) => {
            let bs = infer_bool_members(ctx, expression, xs, scope, q, &parent_ty, gen_query);
            let r = (Type::Boolean, Some(Statement::BoExp(BoExp::Or(bs))));
            proof {
                let w = choose|w: Trace|
                    super::traversal_validation::combined(c0, *ctx, *q, scope0, pv, e, g0, *gen_query, w)
                        && bs@ == w.bools[xs@.len() as int];
                assert(expr_outcome(c0, *ctx, e, scope0, *q, pv, g0, *gen_query, r, w));
            }
            r
        },
        ExpressionType::ArrayLiteral(xs) => {
            let (inner, stmts, failed) = infer_array_members(ctx, expression, xs, scope, q, &parent_ty, gen_query);
            let ghost w = choose|w: Trace|
                super::traversal_validation::listed(c0, *ctx, *q, scope0, pv, e, g0, *gen_query, w)
                    && opt_type_view(inner) == opt_type_view(w.inners[xs@.len() as int])
                    && stmts@ == w.stmts[xs@.len() as int] && failed == w.failed[xs@.len() as int];
            if failed {
                proof {
                    assert(expr_outcome(c0, *ctx, e, scope0, *q, pv, g0, *gen_query, (Type::Unknown, Some(Statement::Empty)), w));
                }
                (Type::Unknown, Some(Statement::Empty))
            } else {
                match inner {
                    Some(it) => {
                        let r = (Type::Array(Box::new(it)), Some(Statement::Array(stmts)));
                        proof {
                            assert(expr_outcome(c0, *ctx, e, scope0, *q, pv, g0, *gen_query, r, w));
                        }
                        r
                    },
                    None => {
                        proof {
                            assert(false);
                        }
                        (Type::Unknown, None)
                    },
                }
            }
        },
        ExpressionType::SearchVector(sv) => {
            let t = match &sv.vector_type {
                Some(t) => t,
                None => {
                    proof {
                        assert(false);
                    }
                    return (Type::Unknown, None);
                },
            };
            if !contains_name(&ctx.vector_set, t.as_str()) {
                report1(ctx, q, sv.loc, ErrorCode::E103, t.as_str());
            } else {
                proof {
                    lemma_nothing_reported(*ctx);
                }
            }
            let ghost c1 = *ctx;
            let vec = search_vector_data(ctx, q, sv, scope, gen_query);
            let ghost c2 = *ctx;
            let k = search_vector_count(ctx, q, sv);
            proof {
                let e103 = type_errors(names_contain(c0.vector_set@, t@), ErrorCode::E103, sv.loc, *q, t@);
                super::traversal_validation::lemma_reported_twice(c0, c1, c2, e103, vector_data_errors(*q, *sv, scope0));
                super::traversal_validation::lemma_reported_twice(c0, c2, *ctx, e103 + vector_data_errors(*q, *sv, scope0), vector_count_errors(*q, *sv));
            }
            let ghost cv = *ctx;
            let ghost gv = *gen_query;
            let ghost mut w = Trace {
                ctxs: Seq::empty(),
                mids: seq![cv],
                queries: seq![gv],
                types: Seq::empty(),
                travs: Seq::empty(),
                results: Seq::empty(),
                bools: Seq::empty(),
                stmts: Seq::empty(),
                inners: Seq::empty(),
                failed: Seq::empty(),
                start: arbitrary(),
                subs: Seq::empty(),
            };
            let pre_filter = match &sv.pre_filter {
                Some(p) => {
                    let parent = Type::Vector(copy_opt_name(&sv.vector_type));
                    let (pt, stmt) = infer_expr_type(ctx, p, scope, q, Some(parent), gen_query);
                    let ghost rp = (pt, stmt);
                    proof {
                        let wp = choose|wp: Trace|
                            expr_outcome(cv, *ctx, **p, scope0, *q, Some(super::types::TypeView::Vector(super::types::name_view(sv.vector_type))), gv, *gen_query, rp, wp);
                        w = Trace { results: seq![rp], subs: seq![wp], ..w };
                    }
                    let cond = prefilter_condition(stmt.unwrap());
                    let mut steps = Vec::new();
                    steps.push(Separator::Period(GeneratedStep::Where(Where::Ref(WhereRef { expr: cond }))));
                    let ft = GeneratedTraversal {
                        traversal_type: TraversalType::NestedFrom(GenRef::Std("v".to_owned())),
                        source_step: Separator::Empty(SourceStep::Anonymous),
                        steps,
                        should_collect: ShouldCollect::ToVec,
                    };
                    proof {
                        reveal_strlit("v");
                        assert(ft.steps@ =~= seq![
                            Separator::Period(GeneratedStep::Where(Where::Ref(WhereRef { expr: prefilter_expr(rp.1->0) }))),
                        ]);
                    }
                    let mut v = Vec::new();
                    v.push(BoExp::Expr(ft));
                    Some(v)
                },
                None => None,
            };
            let gt = GeneratedTraversal {
                traversal_type: TraversalType::Ref,
                source_step: Separator::Period(SourceStep::SearchVector { label: GenRef::Literal(t.clone()), vec, k, pre_filter }),
                steps: Vec::new(),
                should_collect: ShouldCollect::ToVec,
            };
            let r = (Type::Vectors(Some(t.clone())), Some(Statement::Traversal(gt)));
            proof {
                assert(expr_outcome(c0, *ctx, e, scope0, *q, pv, g0, *gen_query, r, w));
            }
            r
        },
        ExpressionType::BM25Search(b) => {
            let t = match &b.type_arg {
                Some(t) => t,
                None => {
                    proof {
                        assert(false);
                    }
                    return (Type::Unknown, None);
                },
            };
            if !contains_name(&ctx.node_set, t.as_str()) {
                report1(ctx, q, b.loc, ErrorCode::E101, t.as_str());
            } else {
                proof {
                    lemma_nothing_reported(*ctx);
                }
            }
            let ghost c1 = *ctx;
            let query_value = bm25_query(ctx, q, b, scope);
            let ghost c2 = *ctx;
            let k = bm25_count(ctx, q, b);
            proof {
                let e101 = type_errors(names_contain(c0.node_set@, t@), ErrorCode::E101, b.loc, *q, t@);
                super::traversal_validation::lemma_reported_twice(c0, c1, c2, e101, bm25_data_errors(*q, *b, scope0));
                super::traversal_validation::lemma_reported_twice(c0, c2, *ctx, e101 + bm25_data_errors(*q, *b, scope0), bm25_count_errors(*q, *b));
            }
            let gt = GeneratedTraversal {
                traversal_type: TraversalType::Ref,
                source_step: Separator::Period(SourceStep::SearchBM25 { type_arg: GenRef::Literal(t.clone()), query: query_value, k }),
                steps: Vec::new(),
                should_collect: ShouldCollect::ToVec,
            };
            let r = (Type::Nodes(Some(t.clone())), Some(Statement::Traversal(gt)));
            proof {
                assert(expr_outcome(c0, *ctx, e, scope0, *q, pv, g0, *gen_query, r, arbitrary()));
            }
            r
        },
        _ => {
            proof {
                assert(false);
            }
            (Type::Unknown, None)
        },
    }
}

} // verus!
