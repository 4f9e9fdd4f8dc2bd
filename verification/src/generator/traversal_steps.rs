//! Traversals and their steps, and the Rust source text they become.

use vstd::prelude::*;
use vstd::string::StringExecFns;
use super::utils::{
    put, put_string, gen_ref_code, properties_code, properties_render, value_code, value_renders,
    vec_data_code, vec_data_renders, write_properties, GenRef, GeneratedValue, Order, Separator,
    VecData,
};

use super::source_steps::SourceStep;
use super::bool_ops::BoExp;

verus! {

/// A piece of source text produced by an earlier stage of code generation (a source
/// step, a boolean expression, an operator or a remapping), carried as its text.
pub struct CodeFragment {
    pub code: String,
}

/// Where a traversal starts.
pub enum TraversalType {
    FromVar(GenRef<String>),
    Ref,
    Mut,
    Nested(GenRef<String>),
    NestedFrom(GenRef<String>),
    Empty,
    Update(Option<Vec<(String, GeneratedValue)>>),
}

/// The debugging name of a traversal's start.
pub open spec fn traversal_type_debug(t: TraversalType) -> Seq<char> {
    match t {
        TraversalType::FromVar(_) => "FromVar"@,
        TraversalType::Ref => "Ref"@,
        TraversalType::Nested(_) => "Nested"@,
        _ => "other"@,
    }
}

impl TraversalType {
    /// The debugging name of the start: `FromVar`, `Ref`, `Nested`, or `other`.
    pub fn debug_string(&self) -> (r: String)
        ensures
            r@ == traversal_type_debug(*self),
    {
        match self {
            TraversalType::FromVar(_) => String::from_str("FromVar"),
            TraversalType::Ref => String::from_str("Ref"),
            TraversalType::Nested(_) => String::from_str("Nested"),
            _ => String::from_str("other"),
        }
    }
}

/// How the result of a traversal is collected.
pub enum ShouldCollect {
    ToVec,
    ToObj,
    No,
    Try,
    ToValue,
}

/// The source text that collects a traversal's result.
pub open spec fn should_collect_code(c: ShouldCollect) -> Seq<char> {
    match c {
        ShouldCollect::ToVec => ".collect_to::<Vec<_>>()"@,
        ShouldCollect::ToObj => ".collect_to_obj()"@,
        ShouldCollect::Try => "?"@,
        ShouldCollect::No => Seq::empty(),
        ShouldCollect::ToValue => ".collect_to_value()"@,
    }
}

impl ShouldCollect {
    /// The source text that collects the result.
    pub fn to_code(&self) -> (r: String)
        ensures
            r@ == should_collect_code(*self),
    {
        match self {
            ShouldCollect::ToVec => String::from_str(".collect_to::<Vec<_>>()"),
            ShouldCollect::ToObj => String::from_str(".collect_to_obj()"),
            ShouldCollect::Try => String::from_str("?"),
            ShouldCollect::No => String::new(),
            ShouldCollect::ToValue => String::from_str(".collect_to_value()"),
        }
    }
}

/// A traversal: where it starts, its source step, its steps, and how it is collected.
pub struct Traversal {
    pub traversal_type: TraversalType,
    pub source_step: Separator<SourceStep>,
    pub steps: Vec<Separator<Step>>,
    pub should_collect: ShouldCollect,
}

/// One step of a traversal.
pub enum Step {
    Out(Out),
    In(In),
    OutE(OutE),
    InE(InE),
    FromN,
    ToN,
    FromV,
    ToV,
    Count,
    Where(Where),
    Range(Range),
    OrderBy(OrderBy),
    Dedup,
    BoolOp(CodeFragment),
    PropertyFetch(GenRef<String>),
    Remapping(CodeFragment),
    ShortestPath(ShortestPath),
    SearchVector(SearchVectorStep),
    GroupBy(GroupBy),
    AggregateBy(AggregateBy),
}

/// Outgoing neighbours along edges of a label.
pub struct Out {
    pub label: GenRef<String>,
    pub edge_type: GenRef<String>,
}

/// Incoming neighbours along edges of a label.
pub struct In {
    pub label: GenRef<String>,
    pub edge_type: GenRef<String>,
}

/// Outgoing edges of a label.
pub struct OutE {
    pub label: GenRef<String>,
}

/// Incoming edges of a label.
pub struct InE {
    pub label: GenRef<String>,
}

/// A filter.
pub enum Where {
    Ref(WhereRef),
}

/// A filter on a boolean expression.
pub struct WhereRef {
    pub expr: BoExp,
}

/// A slice of the results.
pub struct Range {
    pub start: GeneratedValue,
    pub end: GeneratedValue,
}

/// A sort on a property.
pub struct OrderBy {
    pub property: GenRef<String>,
    pub order: Order,
}

/// A grouping on properties.
pub struct GroupBy {
    pub should_count: bool,
    pub properties: Vec<GenRef<String>>,
}

/// An aggregation on properties.
pub struct AggregateBy {
    pub should_count: bool,
    pub properties: Vec<GenRef<String>>,
}

/// A shortest-path step, with an optional edge label and optional ends.
pub struct ShortestPath {
    pub label: Option<GenRef<String>>,
    pub from: Option<GenRef<String>>,
    pub to: Option<GenRef<String>>,
}

/// A brute-force vector search.
pub struct SearchVectorStep {
    pub vec: VecData,
    pub k: GeneratedValue,
}

/// The text of a boolean as Rust source.
pub open spec fn bool_code(b: bool) -> Seq<char> {
    if b {
        "true"@
    } else {
        "false"@
    }
}

/// The codes of the first `n` references, joined with `,`.
pub open spec fn refs_joined(v: Seq<GenRef<String>>, n: nat) -> Seq<char>
    decreases n,
{
    if n == 0 || n > v.len() {
        Seq::empty()
    } else if n == 1 {
        gen_ref_code(v[0])
    } else {
        refs_joined(v, (n - 1) as nat) + ","@ + gen_ref_code(v[n - 1])
    }
}

/// The text of an optional shortest-path argument: `None`, or `prefix` and the code in `Some(..)`.
pub open spec fn optional_ref_code(o: Option<GenRef<String>>, prefix: Seq<char>) -> Seq<char> {
    match o {
        Some(g) => "Some("@ + prefix + gen_ref_code(g) + ")"@,
        None => "None"@,
    }
}

/// The text that opens a filter, before its expression.
pub open spec fn filter_open() -> Seq<char> {
    "filter_ref(|val, txn|{\n                if let Ok(val) = val { \n                    Ok("@
}

/// The text that closes a filter, after its expression.
pub open spec fn filter_close() -> Seq<char> {
    ")\n                } else {\n                    Ok(false)\n                }\n            })"@
}

/// Whether a step can be written out: the values inside it can.
pub open spec fn step_renders(s: Step) -> bool
    decreases s, 0nat,
{
    match s {
        Step::Range(r) => value_renders(r.start) && value_renders(r.end),
        Step::Where(Where::Ref(wr)) => wr.expr is Written,
        Step::SearchVector(sv) => vec_data_renders(sv.vec) && value_renders(sv.k),
        _ => true,
    }
}

/// The source text of a step.
pub open spec fn step_code(s: Step) -> Seq<char>
    decreases s, 0nat,
{
    match s {
        Step::Count => "count_to_val()"@,
        Step::Dedup => "dedup()"@,
        Step::FromN => "from_n()"@,
        Step::FromV => "from_v()"@,
        Step::ToN => "to_n()"@,
        Step::ToV => "to_v()"@,
        Step::PropertyFetch(p) => "check_property("@ + gen_ref_code(p) + ")"@,
        Step::Out(o) => "out("@ + gen_ref_code(o.label) + ","@ + gen_ref_code(o.edge_type) + ")"@,
        Step::In(i) => "in_("@ + gen_ref_code(i.label) + ","@ + gen_ref_code(i.edge_type) + ")"@,
        Step::OutE(o) => "out_e("@ + gen_ref_code(o.label) + ")"@,
        Step::InE(i) => "in_e("@ + gen_ref_code(i.label) + ")"@,
        Step::Where(Where::Ref(wr)) => filter_open() + written_code(wr.expr) + filter_close(),
        Step::Range(r) => "range("@ + value_code(r.start) + ", "@ + value_code(r.end) + ")"@,
        Step::OrderBy(ob) => match ob.order {
            Order::Asc => "order_by_asc("@ + gen_ref_code(ob.property) + ")"@,
            Order::Desc => "order_by_desc("@ + gen_ref_code(ob.property) + ")"@,
        },
        Step::BoolOp(b) => b.code@,
        Step::Remapping(r) => r.code@,
        Step::ShortestPath(sp) => "shortest_path("@ + optional_ref_code(sp.label, Seq::empty())
            + ", "@ + optional_ref_code(sp.from, "&"@) + ", "@ + optional_ref_code(sp.to, "&"@)
            + ")"@,
        Step::SearchVector(sv) => "brute_force_search_v("@ + vec_data_code(sv.vec) + ", "@
            + value_code(sv.k) + ")"@,
        Step::GroupBy(g) => "group_by(&["@ + refs_joined(g.properties@, g.properties@.len())
            + "], "@ + bool_code(g.should_count) + ")"@,
        Step::AggregateBy(a) => "aggregate_by(&["@ + refs_joined(
            a.properties@,
            a.properties@.len(),
        ) + "], "@ + bool_code(a.should_count) + ")"@,
    }
}

/// The debugging text of a step.
pub open spec fn step_debug(s: Step) -> Seq<char> {
    match s {
        Step::Count => "Count"@,
        Step::Dedup => "Dedup"@,
        Step::FromN => "FromN"@,
        Step::ToN => "ToN"@,
        Step::PropertyFetch(p) => "check_property("@ + gen_ref_code(p) + ")"@,
        Step::FromV => "FromV"@,
        Step::ToV => "ToV"@,
        Step::Out(_) => "Out"@,
        Step::In(_) => "In"@,
        Step::OutE(_) => "OutE"@,
        Step::InE(_) => "InE"@,
        Step::Where(_) => "Where"@,
        Step::Range(_) => "Range"@,
        Step::OrderBy(_) => "OrderBy"@,
        Step::BoolOp(_) => "Bool"@,
        Step::Remapping(_) => "Remapping"@,
        Step::ShortestPath(_) => "ShortestPath"@,
        Step::SearchVector(_) => "SearchVector"@,
        Step::GroupBy(_) => "GroupBy"@,
        Step::AggregateBy(_) => "AggregateBy"@,
    }
}

/// Whether the first `n` separated steps can be written out.
pub open spec fn steps_render(s: Seq<Separator<Step>>, n: nat) -> bool
    decreases s, n,
{
    if n == 0 || n > s.len() {
        true
    } else {
        steps_render(s, (n - 1) as nat) && step_renders(s[n - 1].inner_spec())
    }
}

/// The text of the first `n` separated steps, each on a line of its own.
pub open spec fn steps_code(s: Seq<Separator<Step>>, n: nat) -> Seq<char>
    decreases s, n,
{
    if n == 0 || n > s.len() {
        Seq::empty()
    } else {
        steps_code(s, (n - 1) as nat) + "\n"@ + s[n - 1].wrap_spec(step_code(s[n - 1].inner_spec()))
    }
}

/// Whether a nested traversal names a non-empty variable.
pub open spec fn names_variable(g: GenRef<String>) -> bool {
    g.has_inner() && g.inner_spec()@.len() > 0
}

/// Whether a traversal can be written out: it has a start (nested ones name a
/// non-empty variable), and the values inside it can be written out.
pub open spec fn traversal_renders(t: Traversal) -> bool
    decreases t, 1nat,
{
    &&& match t.traversal_type {
        TraversalType::Empty => false,
        TraversalType::Nested(g) => names_variable(g),
        TraversalType::NestedFrom(g) => names_variable(g),
        TraversalType::Update(props) => properties_render(props) && t.source_step.inner_spec() is Written,
        TraversalType::FromVar(_) => t.source_step.inner_spec() is Written,
        TraversalType::Ref => t.source_step.inner_spec() is Written,
        TraversalType::Mut => t.source_step.inner_spec() is Written,
    }
    &&& steps_render(t.steps@, t.steps@.len())
}

/// The source step of a traversal with its separator.
pub open spec fn source_code(t: Traversal) -> Seq<char> {
    t.source_step.wrap_spec(source_text(t.source_step.inner_spec()))
}

/// The text of a source step written out (empty for one that is not).
pub open spec fn source_text(s: SourceStep) -> Seq<char> {
    match s {
        SourceStep::Written(c) => c.code@,
        _ => Seq::empty(),
    }
}

/// The text of a boolean expression written out (empty for one that is not).
pub open spec fn written_code(b: BoExp) -> Seq<char> {
    match b {
        BoExp::Written(c) => c.code@,
        _ => Seq::empty(),
    }
}

/// The source text of a traversal.
pub open spec fn traversal_code(t: Traversal) -> Seq<char>
    decreases t, 1nat,
{
    let steps = steps_code(t.steps@, t.steps@.len());
    let body = match t.traversal_type {
        TraversalType::FromVar(var) => "G::new_from(Arc::clone(&db), &txn, "@ + gen_ref_code(var)
            + ".clone())"@ + source_code(t) + steps,
        TraversalType::Ref => "G::new(Arc::clone(&db), &txn)"@ + source_code(t) + steps,
        TraversalType::Mut => "G::new_mut(Arc::clone(&db), &mut txn)"@ + source_code(t) + steps,
        TraversalType::Nested(nested) => gen_ref_code(nested) + steps,
        TraversalType::NestedFrom(nested) => "G::new_from(Arc::clone(&db), &txn, vec!["@
            + gen_ref_code(nested) + ".clone()])"@ + steps,
        TraversalType::Empty => Seq::empty(),
        TraversalType::Update(props) => "{"@ + "let update_tr = G::new(Arc::clone(&db), &txn)"@
            + source_code(t) + steps + "\n    .collect_to::<Vec<_>>();"@
            + "G::new_mut_from(Arc::clone(&db), &mut txn, update_tr)"@ + "\n    .update("@
            + properties_code(props) + ")"@ + "\n    .collect_to_obj()"@ + "}"@,
    };
    body + should_collect_code(t.should_collect)
}

impl Step {
    /// The source text of the step.
    pub fn to_code(&self) -> (r: String)
        requires
            step_renders(*self),
        ensures
            r@ == step_code(*self),
        decreases *self, 0nat,
    {
        match self {
            Step::Count => String::from_str("count_to_val()"),
            Step::Dedup => String::from_str("dedup()"),
            Step::FromN => String::from_str("from_n()"),
            Step::FromV => String::from_str("from_v()"),
            Step::ToN => String::from_str("to_n()"),
            Step::ToV => String::from_str("to_v()"),
            Step::PropertyFetch(p) => {
                let mut s = String::from_str("check_property(");
                let c = p.to_code();
                put_string(&mut s, &c);
                put(&mut s, ")");
                s
            },
            Step::Out(o) => {
                let mut s = String::from_str("out(");
                let a = o.label.to_code();
                let b = o.edge_type.to_code();
                put_string(&mut s, &a);
                put(&mut s, ",");
                put_string(&mut s, &b);
                put(&mut s, ")");
                s
            },
            Step::In(i) => {
                let mut s = String::from_str("in_(");
                let a = i.label.to_code();
                let b = i.edge_type.to_code();
                put_string(&mut s, &a);
                put(&mut s, ",");
                put_string(&mut s, &b);
                put(&mut s, ")");
                s
            },
            Step::OutE(o) => {
                let mut s = String::from_str("out_e(");
                let a = o.label.to_code();
                put_string(&mut s, &a);
                put(&mut s, ")");
                s
            },
            Step::InE(i) => {
                let mut s = String::from_str("in_e(");
                let a = i.label.to_code();
                put_string(&mut s, &a);
                put(&mut s, ")");
                s
            },
            Step::Where(Where::Ref(wr)) => {
                let mut s = String::from_str(
                    "filter_ref(|val, txn|{\n                if let Ok(val) = val { \n                    Ok(",
                );
                match &wr.expr {
                    BoExp::Written(c) => put_string(&mut s, &c.code),
                    _ => {},
                }
                put(
                    &mut s,
                    ")\n                } else {\n                    Ok(false)\n                }\n            })",
                );
                s
            },
            Step::Range(r) => {
                let mut s = String::from_str("range(");
                let a = r.start.to_code();
                let b = r.end.to_code();
                put_string(&mut s, &a);
                put(&mut s, ", ");
                put_string(&mut s, &b);
                put(&mut s, ")");
                s
            },
            Step::OrderBy(ob) => {
                let mut s = match ob.order {
                    Order::Asc => String::from_str("order_by_asc("),
                    Order::Desc => String::from_str("order_by_desc("),
                };
                let c = ob.property.to_code();
                put_string(&mut s, &c);
                put(&mut s, ")");
                s
            },
            Step::BoolOp(b) => b.code.clone(),
            Step::Remapping(r) => r.code.clone(),
            Step::ShortestPath(sp) => {
                let mut s = String::from_str("shortest_path(");
                let a = optional_ref(&sp.label, "");
                proof {
                    reveal_strlit("");
                }
                let b = optional_ref(&sp.from, "&");
                let c = optional_ref(&sp.to, "&");
                put_string(&mut s, &a);
                put(&mut s, ", ");
                put_string(&mut s, &b);
                put(&mut s, ", ");
                put_string(&mut s, &c);
                put(&mut s, ")");
                s
            },
            Step::SearchVector(sv) => {
                let mut s = String::from_str("brute_force_search_v(");
                let a = sv.vec.to_code();
                let b = sv.k.to_code();
                put_string(&mut s, &a);
                put(&mut s, ", ");
                put_string(&mut s, &b);
                put(&mut s, ")");
                s
            },
            Step::GroupBy(g) => grouping("group_by(&[", &g.properties, g.should_count),
            Step::AggregateBy(a) => grouping("aggregate_by(&[", &a.properties, a.should_count),
        }
    }

    /// The debugging text of the step.
    pub fn debug_string(&self) -> (r: String)
        ensures
            r@ == step_debug(*self),
    {
        match self {
            Step::Count => String::from_str("Count"),
            Step::Dedup => String::from_str("Dedup"),
            Step::FromN => String::from_str("FromN"),
            Step::ToN => String::from_str("ToN"),
            Step::PropertyFetch(p) => {
                let mut s = String::from_str("check_property(");
                let c = p.to_code();
                put_string(&mut s, &c);
                put(&mut s, ")");
                s
            },
            Step::FromV => String::from_str("FromV"),
            Step::ToV => String::from_str("ToV"),
            Step::Out(_) => String::from_str("Out"),
            Step::In(_) => String::from_str("In"),
            Step::OutE(_) => String::from_str("OutE"),
            Step::InE(_) => String::from_str("InE"),
            Step::Where(_) => String::from_str("Where"),
            Step::Range(_) => String::from_str("Range"),
            Step::OrderBy(_) => String::from_str("OrderBy"),
            Step::BoolOp(_) => String::from_str("Bool"),
            Step::Remapping(_) => String::from_str("Remapping"),
            Step::ShortestPath(_) => String::from_str("ShortestPath"),
            Step::SearchVector(_) => String::from_str("SearchVector"),
            Step::GroupBy(_) => String::from_str("GroupBy"),
            Step::AggregateBy(_) => String::from_str("AggregateBy"),
        }
    }
}

/// `None`, or the reference's code after `prefix` inside `Some(..)`.
fn optional_ref(o: &Option<GenRef<String>>, prefix: &str) -> (r: String)
    ensures
        r@ == optional_ref_code(*o, prefix@),
{
    match o {
        Some(g) => {
            let mut s = String::from_str("Some(");
            put(&mut s, prefix);
            let c = g.to_code();
            put_string(&mut s, &c);
            put(&mut s, ")");
            s
        },
        None => String::from_str("None"),
    }
}

/// A grouping or aggregation call: the opening text, the joined property codes,
/// `], `, the counting flag and `)`.
fn grouping(open: &str, properties: &Vec<GenRef<String>>, should_count: bool) -> (r: String)
    ensures
        r@ == open@ + refs_joined(properties@, properties@.len()) + "], "@ + bool_code(
            should_count,
        ) + ")"@,
{
    let mut s = String::from_str(open);
    let ghost start = s@;
    let mut i: usize = 0;
    while i < properties.len()
        invariant
            i <= properties@.len(),
            s@ == start + refs_joined(properties@, i as nat),
        decreases properties.len() - i,
    {
        if i > 0 {
            put(&mut s, ",");
        }
        let c = properties[i].to_code();
        put_string(&mut s, &c);
        proof {
            if i == 0 {
                assert(s@ =~= start + gen_ref_code(properties@[0]));
            } else {
                assert(s@ =~= start + (refs_joined(properties@, i as nat) + ","@ + gen_ref_code(
                    properties@[i as int],
                )));
            }
        }
        i = i + 1;
    }
    put(&mut s, "], ");
    if should_count {
        put(&mut s, "true");
    } else {
        put(&mut s, "false");
    }
    put(&mut s, ")");
    s
}

proof fn lemma_steps_render_prefix(s: Seq<Separator<Step>>, n: nat, m: nat)
    requires
        steps_render(s, n),
        m <= n <= s.len(),
    ensures
        steps_render(s, m),
        0 < m ==> step_renders(s[m - 1].inner_spec()),
    decreases n,
{
    if m < n {
        lemma_steps_render_prefix(s, (n - 1) as nat, m);
    }
}

/// Appends each step, on a line of its own with its separator.
fn put_steps(s: &mut String, steps: &Vec<Separator<Step>>)
    requires
        steps_render(steps@, steps@.len()),
    ensures
        final(s)@ == old(s)@ + steps_code(steps@, steps@.len()),
    decreases steps@, 0nat,
{
    let ghost start = s@;
    let mut i: usize = 0;
    while i < steps.len()
        invariant
            i <= steps@.len(),
            steps_render(steps@, steps@.len()),
            s@ == start + steps_code(steps@, i as nat),
        decreases steps.len() - i,
    {
        proof {
            lemma_steps_render_prefix(steps@, steps@.len(), (i + 1) as nat);
        }
        let sep = &steps[i];
        let c = sep.inner().to_code();
        let w = sep.wrap(&c);
        put(s, "\n");
        put_string(s, &w);
        proof {
            assert(s@ =~= start + (steps_code(steps@, i as nat) + "\n"@ + steps@[i as int].wrap_spec(
                step_code(steps@[i as int].inner_spec()),
            )));
        }
        i = i + 1;
    }
}

impl Traversal {
    /// The source text of the traversal.
    pub fn to_code(&self) -> (r: String)
        requires
            traversal_renders(*self),
        ensures
            r@ == traversal_code(*self),
        decreases *self, 1nat,
    {
        let mut s = String::new();
        match &self.traversal_type {
            TraversalType::FromVar(var) => {
                put(&mut s, "G::new_from(Arc::clone(&db), &txn, ");
                let c = var.to_code();
                put_string(&mut s, &c);
                put(&mut s, ".clone())");
                self.put_source(&mut s);
                put_steps(&mut s, &self.steps);
            },
            TraversalType::Ref => {
                put(&mut s, "G::new(Arc::clone(&db), &txn)");
                self.put_source(&mut s);
                put_steps(&mut s, &self.steps);
            },
            TraversalType::Mut => {
                put(&mut s, "G::new_mut(Arc::clone(&db), &mut txn)");
                self.put_source(&mut s);
                put_steps(&mut s, &self.steps);
            },
            TraversalType::Nested(nested) => {
                let c = nested.to_code();
                put_string(&mut s, &c);
                put_steps(&mut s, &self.steps);
            },
            TraversalType::NestedFrom(nested) => {
                put(&mut s, "G::new_from(Arc::clone(&db), &txn, vec![");
                let c = nested.to_code();
                put_string(&mut s, &c);
                put(&mut s, ".clone()])");
                put_steps(&mut s, &self.steps);
            },
            TraversalType::Empty => {},
            TraversalType::Update(properties) => {
                put(&mut s, "{");
                put(&mut s, "let update_tr = G::new(Arc::clone(&db), &txn)");
                self.put_source(&mut s);
                put_steps(&mut s, &self.steps);
                put(&mut s, "\n    .collect_to::<Vec<_>>();");
                put(&mut s, "G::new_mut_from(Arc::clone(&db), &mut txn, update_tr)");
                put(&mut s, "\n    .update(");
                let p = write_properties(properties);
                put_string(&mut s, &p);
                put(&mut s, ")");
                put(&mut s, "\n    .collect_to_obj()");
                put(&mut s, "}");
            },
        }
        let c = self.should_collect.to_code();
        put_string(&mut s, &c);
        proof {
            assert(s@ =~= traversal_code(*self));
        }
        s
    }

    /// Appends the source step with its separator.
    fn put_source(&self, s: &mut String)
        ensures
            final(s)@ == old(s)@ + source_code(*self),
    {
        let text = match self.source_step.inner() {
            SourceStep::Written(c) => c.code.clone(),
            _ => String::new(),
        };
        let w = self.source_step.wrap(&text);
        put_string(s, &w);
    }
}

impl Default for Traversal {
    /// A traversal from the graph with no source step and no steps, collected to a vector.
    fn default() -> (r: Self)
        ensures
            r.traversal_type == TraversalType::Ref,
            r.source_step is Empty,
            r.source_step.inner_spec() matches SourceStep::Written(c) && c.code@.len() == 0,
            r.steps@ == Seq::<Separator<Step>>::empty(),
            r.should_collect == ShouldCollect::ToVec,
    {
        Traversal {
            traversal_type: TraversalType::Ref,
            source_step: Separator::Empty(SourceStep::Written(CodeFragment { code: String::new() })),
            steps: Vec::new(),
            should_collect: ShouldCollect::ToVec,
        }
    }
}


/// The text of one end of a shortest path: `None` when not given, else `Some(&` and the
/// reference's code and `)`.
pub open spec fn path_end_text(o: Option<GenRef<String>>) -> Seq<char> {
    match o {
        Some(g) => "Some(&"@ + gen_ref_code(g) + ")"@,
        None => "None"@,
    }
}

/// Law: the text of a shortest-path step is `shortest_path(` with the label (`None`, or
/// `Some(` and its code and `)`), the start and the end, each given end written as a
/// reference (`Some(&` and its code and `)`), separated by `, ` and closed by `)`.
pub proof fn law_shortest_path_code(sp: ShortestPath)
    ensures
        step_code(Step::ShortestPath(sp)) == "shortest_path("@ + (match sp.label {
            Some(g) => "Some("@ + gen_ref_code(g) + ")"@,
            None => "None"@,
        }) + ", "@ + path_end_text(sp.from) + ", "@ + path_end_text(sp.to) + ")"@,
{
    reveal_strlit("Some(");
    reveal_strlit("&");
    reveal_strlit("Some(&");
    assert("Some("@ + "&"@ =~= "Some(&"@);
    let l: Seq<char> = match sp.label {
        Some(g) => "Some("@ + gen_ref_code(g) + ")"@,
        None => "None"@,
    };
    assert(optional_ref_code(sp.label, Seq::empty()) =~= l);
    match sp.from {
        Some(g) => assert(optional_ref_code(sp.from, "&"@) =~= path_end_text(sp.from)),
        None => {},
    }
    match sp.to {
        Some(g) => assert(optional_ref_code(sp.to, "&"@) =~= path_end_text(sp.to)),
        None => {},
    }
}

} // verus!
