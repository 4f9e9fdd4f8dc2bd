//! Schema checks, and the field tables that the analyzer builds from the schemas.

use vstd::prelude::*;
use vstd::string::StringExecFns;
use std::collections::HashMap;
use crate::text::{lowercase_of, str_eq, to_lowercase};
use crate::generator::utils::{put, put_string};
use super::str_map::{contains_name, DeepCopy, StrMap};
use super::types::{
    field_type_view, Ctx, Diagnostic, EdgeSchema, ErrorCode, Field, FieldLookup, FieldPrefix,
    FieldType, FieldTypeView, Loc, NodeSchema, Schema, Source, VectorSchema,
};
use super::utils::same_but_diagnostics;

verus! {

broadcast use vstd::std_specs::hash::group_hash_axioms;

/// The view of a field.
pub type FieldView = (FieldPrefix, Seq<char>, FieldTypeView, Loc);

/// The view of a fields table: for each type name, its fields by name.
pub type LookupView = Map<Seq<char>, Map<Seq<char>, FieldView>>;

/// The view of a diagnostic.
pub type DiagnosticView = (Loc, ErrorCode, Option<Seq<char>>, Seq<Seq<char>>, Option<Seq<char>>);

/// The fields tables of each schema version: nodes, edges and vectors.
pub struct SchemaVersionMap(pub HashMap<usize, (FieldLookup, FieldLookup, FieldLookup)>);

/// The view of the fields tables of one version.
pub open spec fn tables_view(t: (FieldLookup, FieldLookup, FieldLookup)) -> (LookupView, LookupView, LookupView) {
    (t.0@, t.1@, t.2@)
}

impl View for SchemaVersionMap {
    type V = Map<usize, (LookupView, LookupView, LookupView)>;

    open spec fn view(&self) -> Map<usize, (LookupView, LookupView, LookupView)> {
        self.0@.map_values(|t: (FieldLookup, FieldLookup, FieldLookup)| tables_view(t))
    }
}

/// Whether `k` is the highest version in the map.
pub open spec fn is_latest<X>(m: Map<usize, X>, k: usize) -> bool {
    m.dom().contains(k) && forall|j: usize| #[trigger] m.dom().contains(j) ==> j <= k
}

/// The highest key of a map of versions, if it has any.
fn highest_version(m: &HashMap<usize, (FieldLookup, FieldLookup, FieldLookup)>) -> (r: Option<usize>)
    ensures
        match r {
            Some(k) => m@.dom().contains(k) && forall|j: usize| #[trigger] m@.dom().contains(j) ==> j <= k,
            None => m@.dom() == Set::<usize>::empty(),
        },
{
    let mut best: Option<usize> = None;
    for k in it: m.keys()
        invariant
            it.seq().unref().to_set() == m@.dom(),
            match best {
                Some(b) => m@.dom().contains(b) && forall|j: int| 0 <= j < it.index() ==> *it.seq()[j] <= b,
                None => it.index() == 0,
            },
    {
        match best {
            Some(b) => {
                if *k > b {
                    best = Some(*k);
                }
            },
            None => {
                best = Some(*k);
            },
        }
    }
    proof {
        if best is None {
            assert(m@.dom().len() == 0);
            m@.dom().lemma_len0_is_empty();
        }
    }
    best
}

impl SchemaVersionMap {
    /// The fields tables of the highest version, or empty tables when there is none.
    pub fn get_latest(&self) -> (r: (FieldLookup, FieldLookup, FieldLookup))
        ensures
            self@.dom() == Set::<usize>::empty() ==> {
                &&& r.0@ == LookupView::empty()
                &&& r.1@ == LookupView::empty()
                &&& r.2@ == LookupView::empty()
            },
            self@.dom() != Set::<usize>::empty() ==> exists|k: usize| is_latest(self@, k),
            forall|k: usize| is_latest(self@, k) ==> (r.0@, r.1@, r.2@) == self@[k],
    {
        match highest_version(&self.0) {
            None => {
                proof {
                    assert(self@.dom() =~= Set::<usize>::empty());
                }
                (StrMap::new(), StrMap::new(), StrMap::new())
            },
            Some(best) => {
                proof {
                    assert(is_latest(self@, best));
                    assert forall|v: usize| is_latest(self@, v) implies v == best by {
                        assert(self@.dom().contains(best));
                    }
                }
                match self.0.get(&best) {
                    Some(entry) => (entry.0.deep_copy(), entry.1.deep_copy(), entry.2.deep_copy()),
                    None => {
                        proof {
                            assert(false);
                        }
                        (StrMap::new(), StrMap::new(), StrMap::new())
                    },
                }
            },
        }
    }

    /// The tables by version.
    pub fn inner(&self) -> (r: &HashMap<usize, (FieldLookup, FieldLookup, FieldLookup)>)
        ensures
            *r == self.0,
    {
        &self.0
    }
}

/// A field that every item of a kind has, with no prefix and no position.
pub open spec fn builtin_field(name: Seq<char>, t: FieldTypeView) -> FieldView {
    (FieldPrefix::Empty, name, t, Loc { start: 0, end: 0 })
}

/// The declared fields by name; a later field of the same name replaces an earlier one.
pub open spec fn fields_view(fs: Seq<Field>) -> Map<Seq<char>, FieldView>
    decreases fs.len(),
{
    if fs.len() == 0 {
        Map::empty()
    } else {
        fields_view(fs.drop_last()).insert(fs.last().name@, fs.last().deep_view())
    }
}

/// A node's fields: its declared ones, with `id` and `label` set to the built-in fields.
pub open spec fn node_props(n: NodeSchema) -> Map<Seq<char>, FieldView> {
    fields_view(n.fields@).insert("id"@, builtin_field("id"@, FieldTypeView::Uuid)).insert(
        "label"@,
        builtin_field("label"@, FieldTypeView::String),
    )
}

/// An edge's fields: its declared properties, with `id`, `label`, `from_node` and
/// `to_node` set to the built-in fields.
pub open spec fn edge_props(e: EdgeSchema) -> Map<Seq<char>, FieldView> {
    let declared = match e.properties {
        Some(p) => fields_view(p@),
        None => Map::empty(),
    };
    declared.insert("id"@, builtin_field("id"@, FieldTypeView::Uuid)).insert(
        "label"@,
        builtin_field("label"@, FieldTypeView::String),
    ).insert("from_node"@, builtin_field("from_node"@, FieldTypeView::Uuid)).insert(
        "to_node"@,
        builtin_field("to_node"@, FieldTypeView::Uuid),
    )
}

/// A vector's fields: its declared ones, with `id`, `label`, `data` and `score` set to
/// the built-in fields.
pub open spec fn vector_props(v: VectorSchema) -> Map<Seq<char>, FieldView> {
    fields_view(v.fields@).insert("id"@, builtin_field("id"@, FieldTypeView::Uuid)).insert(
        "label"@,
        builtin_field("label"@, FieldTypeView::String),
    ).insert(
        "data"@,
        builtin_field("data"@, FieldTypeView::Array(Box::new(FieldTypeView::F64))),
    ).insert("score"@, builtin_field("score"@, FieldTypeView::F64))
}

/// The fields table of the nodes; a later node of the same name replaces an earlier one.
pub open spec fn nodes_lookup(ns: Seq<NodeSchema>) -> LookupView
    decreases ns.len(),
{
    if ns.len() == 0 {
        Map::empty()
    } else {
        nodes_lookup(ns.drop_last()).insert(ns.last().name.1@, node_props(ns.last()))
    }
}

/// The fields table of the edges.
pub open spec fn edges_lookup(es: Seq<EdgeSchema>) -> LookupView
    decreases es.len(),
{
    if es.len() == 0 {
        Map::empty()
    } else {
        edges_lookup(es.drop_last()).insert(es.last().name.1@, edge_props(es.last()))
    }
}

/// The fields table of the vectors.
pub open spec fn vectors_lookup(vs: Seq<VectorSchema>) -> LookupView
    decreases vs.len(),
{
    if vs.len() == 0 {
        Map::empty()
    } else {
        vectors_lookup(vs.drop_last()).insert(vs.last().name@, vector_props(vs.last()))
    }
}

/// The fields tables of each schema version; a later schema of the same version replaces
/// an earlier one.
pub open spec fn versions_lookup(ss: Seq<Schema>) -> Map<usize, (LookupView, LookupView, LookupView)>
    decreases ss.len(),
{
    if ss.len() == 0 {
        Map::empty()
    } else {
        let s = ss.last();
        versions_lookup(ss.drop_last()).insert(
            s.version.1,
            (
                nodes_lookup(s.node_schemas@),
                edges_lookup(s.edge_schemas@),
                vectors_lookup(s.vector_schemas@),
            ),
        )
    }
}

/// A built-in field.
fn make_builtin(name: &str, t: FieldType) -> (r: Field)
    ensures
        r.deep_view() == builtin_field(name@, field_type_view(t)),
{
    Field {
        prefix: FieldPrefix::Empty,
        name: name.to_owned(),
        field_type: t,
        loc: Loc::empty(),
    }
}

/// The declared fields by name.
fn field_map(fields: &Vec<Field>) -> (r: StrMap<Field>)
    ensures
        r@ == fields_view(fields@),
{
    let mut m: StrMap<Field> = StrMap::new();
    let mut i: usize = 0;
    while i < fields.len()
        invariant
            i <= fields@.len(),
            m@ == fields_view(fields@.take(i as int)),
        decreases fields.len() - i,
    {
        m.insert(fields[i].name.clone(), fields[i].deep_copy());
        proof {
            assert(fields@.take(i as int + 1).drop_last() =~= fields@.take(i as int));
        }
        i = i + 1;
    }
    proof {
        assert(fields@.take(fields@.len() as int) =~= fields@);
    }
    m
}

fn node_field_map(n: &NodeSchema) -> (r: StrMap<Field>)
    ensures
        r@ == node_props(*n),
{
    let mut props = field_map(&n.fields);
    props.insert(String::from_str("id"), make_builtin("id", FieldType::Uuid));
    props.insert(String::from_str("label"), make_builtin("label", FieldType::String));
    props
}

fn edge_field_map(e: &EdgeSchema) -> (r: StrMap<Field>)
    ensures
        r@ == edge_props(*e),
{
    let mut props = match &e.properties {
        Some(p) => field_map(p),
        None => StrMap::new(),
    };
    props.insert(String::from_str("id"), make_builtin("id", FieldType::Uuid));
    props.insert(String::from_str("label"), make_builtin("label", FieldType::String));
    props.insert(String::from_str("from_node"), make_builtin("from_node", FieldType::Uuid));
    props.insert(String::from_str("to_node"), make_builtin("to_node", FieldType::Uuid));
    props
}

fn vector_field_map(v: &VectorSchema) -> (r: StrMap<Field>)
    ensures
        r@ == vector_props(*v),
{
    let mut props = field_map(&v.fields);
    props.insert(String::from_str("id"), make_builtin("id", FieldType::Uuid));
    props.insert(String::from_str("label"), make_builtin("label", FieldType::String));
    proof {
        assert(field_type_view(FieldType::F64) == FieldTypeView::F64);
    }
    props.insert(
        String::from_str("data"),
        make_builtin("data", FieldType::Array(Box::new(FieldType::F64))),
    );
    props.insert(String::from_str("score"), make_builtin("score", FieldType::F64));
    props
}

fn nodes_field_lookup(ns: &Vec<NodeSchema>) -> (r: FieldLookup)
    ensures
        r@ == nodes_lookup(ns@),
{
    let mut m: FieldLookup = StrMap::new();
    let mut i: usize = 0;
    while i < ns.len()
        invariant
            i <= ns@.len(),
            m@ == nodes_lookup(ns@.take(i as int)),
        decreases ns.len() - i,
    {
        m.insert(ns[i].name.1.clone(), node_field_map(&ns[i]));
        proof {
            assert(ns@.take(i as int + 1).drop_last() =~= ns@.take(i as int));
        }
        i = i + 1;
    }
    proof {
        assert(ns@.take(ns@.len() as int) =~= ns@);
    }
    m
}

fn edges_field_lookup(es: &Vec<EdgeSchema>) -> (r: FieldLookup)
    ensures
        r@ == edges_lookup(es@),
{
    let mut m: FieldLookup = StrMap::new();
    let mut i: usize = 0;
    while i < es.len()
        invariant
            i <= es@.len(),
            m@ == edges_lookup(es@.take(i as int)),
        decreases es.len() - i,
    {
        m.insert(es[i].name.1.clone(), edge_field_map(&es[i]));
        proof {
            assert(es@.take(i as int + 1).drop_last() =~= es@.take(i as int));
        }
        i = i + 1;
    }
    proof {
        assert(es@.take(es@.len() as int) =~= es@);
    }
    m
}

fn vectors_field_lookup(vs: &Vec<VectorSchema>) -> (r: FieldLookup)
    ensures
        r@ == vectors_lookup(vs@),
{
    let mut m: FieldLookup = StrMap::new();
    let mut i: usize = 0;
    while i < vs.len()
        invariant
            i <= vs@.len(),
            m@ == vectors_lookup(vs@.take(i as int)),
        decreases vs.len() - i,
    {
        m.insert(vs[i].name.clone(), vector_field_map(&vs[i]));
        proof {
            assert(vs@.take(i as int + 1).drop_last() =~= vs@.take(i as int));
        }
        i = i + 1;
    }
    proof {
        assert(vs@.take(vs@.len() as int) =~= vs@);
    }
    m
}

/// The fields tables of every schema version (see [`versions_lookup`]).
pub fn build_field_lookups(src: &Source) -> (r: SchemaVersionMap)
    ensures
        r@ == versions_lookup(src.schemas@),
{
    let mut m: HashMap<usize, (FieldLookup, FieldLookup, FieldLookup)> = HashMap::new();
    proof {
        assert(SchemaVersionMap(m)@ =~= versions_lookup(src.schemas@.take(0)));
    }
    let mut i: usize = 0;
    while i < src.schemas.len()
        invariant
            i <= src.schemas@.len(),
            SchemaVersionMap(m)@ == versions_lookup(src.schemas@.take(i as int)),
        decreases src.schemas.len() - i,
    {
        let s = &src.schemas[i];
        let nodes = nodes_field_lookup(&s.node_schemas);
        let edges = edges_field_lookup(&s.edge_schemas);
        let vectors = vectors_field_lookup(&s.vector_schemas);
        let ghost before = SchemaVersionMap(m)@;
        let ghost entry = (nodes, edges, vectors);
        m.insert(s.version.1, (nodes, edges, vectors));
        proof {
            assert(SchemaVersionMap(m)@ =~= before.insert(s.version.1, tables_view(entry)));
            assert(src.schemas@.take(i as int + 1).drop_last() =~= src.schemas@.take(i as int));
        }
        i = i + 1;
    }
    proof {
        assert(src.schemas@.take(src.schemas@.len() as int) =~= src.schemas@);
    }
    SchemaVersionMap(m)
}

/// Every node of every schema version has the built-in `id` and `label` fields, whatever
/// fields it declares.
pub proof fn law_node_builtin_fields(src: Source, version: usize, node: Seq<char>)
    requires
        versions_lookup(src.schemas@).contains_key(version),
        versions_lookup(src.schemas@)[version].0.contains_key(node),
    ensures
        versions_lookup(src.schemas@)[version].0[node]["id"@] == builtin_field(
            "id"@,
            FieldTypeView::Uuid,
        ),
        versions_lookup(src.schemas@)[version].0[node]["label"@] == builtin_field(
            "label"@,
            FieldTypeView::String,
        ),
{
    lemma_versions_lookup_nodes(src.schemas@, version, node);
}

proof fn lemma_nodes_lookup_props(ns: Seq<NodeSchema>, node: Seq<char>)
    requires
        nodes_lookup(ns).contains_key(node),
    ensures
        exists|i: int| 0 <= i < ns.len() && nodes_lookup(ns)[node] == #[trigger] node_props(ns[i]),
    decreases ns.len(),
{
    if ns.last().name.1@ != node {
        lemma_nodes_lookup_props(ns.drop_last(), node);
        let i = choose|i: int|
            0 <= i < ns.len() - 1 && nodes_lookup(ns.drop_last())[node] == #[trigger] node_props(
                ns.drop_last()[i],
            );
        assert(ns.drop_last()[i] == ns[i]);
    } else {
        assert(nodes_lookup(ns)[node] == node_props(ns[ns.len() - 1]));
    }
}

proof fn lemma_versions_lookup_nodes(ss: Seq<Schema>, version: usize, node: Seq<char>)
    requires
        versions_lookup(ss).contains_key(version),
        versions_lookup(ss)[version].0.contains_key(node),
    ensures
        versions_lookup(ss)[version].0[node]["id"@] == builtin_field("id"@, FieldTypeView::Uuid),
        versions_lookup(ss)[version].0[node]["label"@] == builtin_field(
            "label"@,
            FieldTypeView::String,
        ),
    decreases ss.len(),
{
    if ss.last().version.1 != version {
        lemma_versions_lookup_nodes(ss.drop_last(), version, node);
    } else {
        let ns = ss.last().node_schemas@;
        lemma_nodes_lookup_props(ns, node);
        let i = choose|i: int| 0 <= i < ns.len() && nodes_lookup(ns)[node] == #[trigger] node_props(
            ns[i],
        );
        reveal_strlit("id");
        reveal_strlit("label");
        assert(node_props(ns[i])["id"@] == builtin_field("id"@, FieldTypeView::Uuid));
    }
}

/// Every edge of every schema version has the built-in `id`, `label`, `from_node` and
/// `to_node` fields, whatever properties it declares.
pub proof fn law_edge_builtin_fields(src: Source, version: usize, edge: Seq<char>)
    requires
        versions_lookup(src.schemas@).contains_key(version),
        versions_lookup(src.schemas@)[version].1.contains_key(edge),
    ensures
        ({
            let fields = versions_lookup(src.schemas@)[version].1[edge];
            &&& fields["id"@] == builtin_field("id"@, FieldTypeView::Uuid)
            &&& fields["label"@] == builtin_field("label"@, FieldTypeView::String)
            &&& fields["from_node"@] == builtin_field("from_node"@, FieldTypeView::Uuid)
            &&& fields["to_node"@] == builtin_field("to_node"@, FieldTypeView::Uuid)
        }),
{
    lemma_versions_lookup_edges(src.schemas@, version, edge);
}

/// Every vector of every schema version has the built-in `id`, `label`, `data` and
/// `score` fields, whatever fields it declares.
pub proof fn law_vector_builtin_fields(src: Source, version: usize, vector: Seq<char>)
    requires
        versions_lookup(src.schemas@).contains_key(version),
        versions_lookup(src.schemas@)[version].2.contains_key(vector),
    ensures
        ({
            let fields = versions_lookup(src.schemas@)[version].2[vector];
            &&& fields["id"@] == builtin_field("id"@, FieldTypeView::Uuid)
            &&& fields["label"@] == builtin_field("label"@, FieldTypeView::String)
            &&& fields["data"@] == builtin_field(
                "data"@,
                FieldTypeView::Array(Box::new(FieldTypeView::F64)),
            )
            &&& fields["score"@] == builtin_field("score"@, FieldTypeView::F64)
        }),
{
    lemma_versions_lookup_vectors(src.schemas@, version, vector);
}

proof fn lemma_edges_lookup_props(es: Seq<EdgeSchema>, name: Seq<char>)
    requires
        edges_lookup(es).contains_key(name),
    ensures
        exists|i: int| 0 <= i < es.len() && edges_lookup(es)[name] == #[trigger] edge_props(es[i]),
    decreases es.len(),
{
    if es.last().name.1@ != name {
        lemma_edges_lookup_props(es.drop_last(), name);
        let i = choose|i: int|
            0 <= i < es.len() - 1 && edges_lookup(es.drop_last())[name] == #[trigger] edge_props(
                es.drop_last()[i],
            );
        assert(es.drop_last()[i] == es[i]);
    } else {
        assert(edges_lookup(es)[name] == edge_props(es[es.len() - 1]));
    }
}

proof fn lemma_vectors_lookup_props(vs: Seq<VectorSchema>, name: Seq<char>)
    requires
        vectors_lookup(vs).contains_key(name),
    ensures
        exists|i: int| 0 <= i < vs.len() && vectors_lookup(vs)[name] == #[trigger] vector_props(vs[i]),
    decreases vs.len(),
{
    if vs.last().name@ != name {
        lemma_vectors_lookup_props(vs.drop_last(), name);
        let i = choose|i: int|
            0 <= i < vs.len() - 1 && vectors_lookup(vs.drop_last())[name] == #[trigger] vector_props(
                vs.drop_last()[i],
            );
        assert(vs.drop_last()[i] == vs[i]);
    } else {
        assert(vectors_lookup(vs)[name] == vector_props(vs[vs.len() - 1]));
    }
}

proof fn lemma_versions_lookup_edges(ss: Seq<Schema>, version: usize, edge: Seq<char>)
    requires
        versions_lookup(ss).contains_key(version),
        versions_lookup(ss)[version].1.contains_key(edge),
    ensures
        ({
            let fields = versions_lookup(ss)[version].1[edge];
            &&& fields["id"@] == builtin_field("id"@, FieldTypeView::Uuid)
            &&& fields["label"@] == builtin_field("label"@, FieldTypeView::String)
            &&& fields["from_node"@] == builtin_field("from_node"@, FieldTypeView::Uuid)
            &&& fields["to_node"@] == builtin_field("to_node"@, FieldTypeView::Uuid)
        }),
    decreases ss.len(),
{
    if ss.last().version.1 != version {
        lemma_versions_lookup_edges(ss.drop_last(), version, edge);
    } else {
        let es = ss.last().edge_schemas@;
        lemma_edges_lookup_props(es, edge);
        let i = choose|i: int| 0 <= i < es.len() && edges_lookup(es)[edge] == #[trigger] edge_props(
            es[i],
        );
        reveal_strlit("id");
        reveal_strlit("label");
        reveal_strlit("from_node");
        reveal_strlit("to_node");
    }
}

proof fn lemma_versions_lookup_vectors(ss: Seq<Schema>, version: usize, vector: Seq<char>)
    requires
        versions_lookup(ss).contains_key(version),
        versions_lookup(ss)[version].2.contains_key(vector),
    ensures
        ({
            let fields = versions_lookup(ss)[version].2[vector];
            &&& fields["id"@] == builtin_field("id"@, FieldTypeView::Uuid)
            &&& fields["label"@] == builtin_field("label"@, FieldTypeView::String)
            &&& fields["data"@] == builtin_field(
                "data"@,
                FieldTypeView::Array(Box::new(FieldTypeView::F64)),
            )
            &&& fields["score"@] == builtin_field("score"@, FieldTypeView::F64)
        }),
    decreases ss.len(),
{
    if ss.last().version.1 != version {
        lemma_versions_lookup_vectors(ss.drop_last(), version, vector);
    } else {
        let vs = ss.last().vector_schemas@;
        lemma_vectors_lookup_props(vs, vector);
        let i = choose|i: int| 0 <= i < vs.len() && vectors_lookup(vs)[vector] == #[trigger] vector_props(
            vs[i],
        );
        reveal_strlit("id");
        reveal_strlit("label");
        reveal_strlit("data");
        reveal_strlit("score");
        assert("label"@ != "score"@) by {
            assert("label"@[0] != "score"@[0]);
        }
        let p = vector_props(vs[i]);
        assert(p["score"@] == builtin_field("score"@, FieldTypeView::F64));
        assert(p["data"@] == builtin_field("data"@, FieldTypeView::Array(Box::new(FieldTypeView::F64))));
        assert(p["label"@] == builtin_field("label"@, FieldTypeView::String));
        assert("id"@.len() == 2 && "data"@.len() == 4 && "score"@.len() == 5 && "label"@.len() == 5);
        assert("id"@ != "data"@ && "id"@ != "score"@ && "id"@ != "label"@);
        assert(p["id"@] == builtin_field("id"@, FieldTypeView::Uuid));
    }
}

/// A diagnostic about the schema, with its message and hint.
pub open spec fn schema_error(loc: Loc, code: ErrorCode, message: Seq<char>, hint: Seq<char>) -> DiagnosticView {
    (loc, code, None, seq![message], Some(hint))
}

/// Reports a diagnostic about the schema.
fn push_schema_error(diags: &mut Vec<Diagnostic>, loc: Loc, code: ErrorCode, message: String, hint: String)
    ensures
        final(diags).deep_view() == old(diags).deep_view().push(
            schema_error(loc, code, message@, hint@),
        ),
{
    let ghost before = diags.deep_view();
    let ghost m = message@;
    let ghost h = hint@;
    let details = vec![message];
    proof {
        assert(details.deep_view() =~= seq![m]);
    }
    diags.push(Diagnostic { loc, code, query: None, details, hint: Some(hint) });
    proof {
        assert(diags.deep_view() =~= before.push(schema_error(loc, code, m, h)));
    }
}

/// The message for a name declared twice.
pub open spec fn duplicate_message(kind: Seq<char>, name: Seq<char>) -> Seq<char> {
    "duplicate "@ + kind + " definition `"@ + name + "`"@
}

/// The hint for a name declared twice.
pub open spec fn duplicate_hint(kind: Seq<char>) -> Seq<char> {
    "rename the "@ + kind + " or remove the duplicate definition"@
}

/// The diagnostics for names that repeat an earlier name in the list (E107), in order.
pub open spec fn duplicate_errors(names: Seq<(Loc, Seq<char>)>, kind: Seq<char>) -> Seq<
    DiagnosticView,
>
    decreases names.len(),
{
    if names.len() == 0 {
        Seq::empty()
    } else {
        let rest = duplicate_errors(names.drop_last(), kind);
        let (loc, name) = names.last();
        if exists|j: int| 0 <= j < names.len() - 1 && #[trigger] names[j].1 == name {
            rest.push(
                schema_error(loc, ErrorCode::E107, duplicate_message(kind, name), duplicate_hint(kind)),
            )
        } else {
            rest
        }
    }
}

/// The names of the nodes of a schema, with their positions.
pub open spec fn node_names(s: Schema) -> Seq<(Loc, Seq<char>)> {
    Seq::new(s.node_schemas@.len(), |i: int| (s.node_schemas@[i].name.0, s.node_schemas@[i].name.1@))
}

/// The names of the edges of a schema, with their positions.
pub open spec fn edge_names(s: Schema) -> Seq<(Loc, Seq<char>)> {
    Seq::new(s.edge_schemas@.len(), |i: int| (s.edge_schemas@[i].name.0, s.edge_schemas@[i].name.1@))
}

/// The names of the vectors of a schema, with their positions.
pub open spec fn vector_names(s: Schema) -> Seq<(Loc, Seq<char>)> {
    Seq::new(s.vector_schemas@.len(), |i: int| (s.vector_schemas@[i].loc, s.vector_schemas@[i].name@))
}

/// The diagnostics for the node, edge and vector names that a schema declares twice.
pub open spec fn schema_duplicate_errors(s: Schema) -> Seq<DiagnosticView> {
    duplicate_errors(node_names(s), "node"@) + duplicate_errors(edge_names(s), "edge"@)
        + duplicate_errors(vector_names(s), "vector"@)
}

/// Whether a name occurs among the first `i` names.
pub open spec fn named_before(nv: Seq<(Loc, Seq<char>)>, i: int, k: Seq<char>) -> bool {
    exists|j: int| 0 <= j < i && #[trigger] nv[j].1 == k
}

/// Whether a name occurs in a list of names.
pub open spec fn names_contain(names: Seq<String>, k: Seq<char>) -> bool {
    exists|t: int| 0 <= t < names.len() && #[trigger] names[t]@ == k
}

/// Reports each name that repeats an earlier one.
fn report_duplicates(names: &Vec<(Loc, String)>, kind: &str, diags: &mut Vec<Diagnostic>)
    ensures
        final(diags).deep_view() == old(diags).deep_view() + duplicate_errors(
            Seq::new(names@.len(), |i: int| (names@[i].0, names@[i].1@)),
            kind@,
        ),
{
    let ghost nv = Seq::new(names@.len(), |i: int| (names@[i].0, names@[i].1@));
    let ghost start = diags.deep_view();
    let mut seen: Vec<String> = Vec::new();
    let mut i: usize = 0;
    while i < names.len()
        invariant
            i <= names@.len(),
            nv == Seq::new(names@.len(), |i: int| (names@[i].0, names@[i].1@)),
            forall|k: Seq<char>| #[trigger] named_before(nv, i as int, k) == names_contain(seen@, k),
            diags.deep_view() == start + duplicate_errors(nv.take(i as int), kind@),
        decreases names.len() - i,
    {
        let name = &names[i].1;
        let ghost pre = nv.take(i as int + 1);
        proof {
            assert(pre.drop_last() =~= nv.take(i as int));
            assert(pre.last() == nv[i as int]);
        }
        if contains_name(&seen, name.as_str()) {
            let mut message = String::from_str("duplicate ");
            put(&mut message, kind);
            put(&mut message, " definition `");
            put_string(&mut message, name);
            put(&mut message, "`");
            let mut hint = String::from_str("rename the ");
            put(&mut hint, kind);
            put(&mut hint, " or remove the duplicate definition");
            proof {
                assert(names_contain(seen@, name@));
                assert(named_before(nv, i as int, nv[i as int].1));
                let j = choose|j: int| 0 <= j < i && #[trigger] nv[j].1 == nv[i as int].1;
                assert(pre[j].1 == pre.last().1);
                assert(message@ =~= duplicate_message(kind@, name@));
                assert(hint@ =~= duplicate_hint(kind@));
            }
            push_schema_error(diags, names[i].0, ErrorCode::E107, message, hint);
            proof {
                assert(diags.deep_view() =~= start + duplicate_errors(pre, kind@));
                assert forall|k: Seq<char>| #[trigger] named_before(nv, i as int + 1, k) == names_contain(
                    seen@,
                    k,
                ) by {
                    if named_before(nv, i as int + 1, k) {
                        let j = choose|j: int| 0 <= j < i + 1 && #[trigger] nv[j].1 == k;
                        if j < i {
                            assert(named_before(nv, i as int, k));
                        }
                    }
                    if names_contain(seen@, k) {
                        assert(named_before(nv, i as int, k));
                        let j = choose|j: int| 0 <= j < i && #[trigger] nv[j].1 == k;
                        assert(nv[j].1 == k);
                    }
                }
            }
        } else {
            proof {
                assert(!names_contain(seen@, name@));
                assert(!named_before(nv, i as int, nv[i as int].1));
                assert forall|j: int| 0 <= j < pre.len() - 1 implies #[trigger] pre[j].1
                    != pre.last().1 by {
                    if pre[j].1 == pre.last().1 {
                        assert(nv[j].1 == nv[i as int].1);
                    }
                }
                assert(duplicate_errors(pre, kind@) == duplicate_errors(nv.take(i as int), kind@));
            }
            let ghost old_seen = seen@;
            seen.push(name.clone());
            proof {
                assert forall|k: Seq<char>| #[trigger] named_before(nv, i as int + 1, k) == names_contain(
                    seen@,
                    k,
                ) by {
                    if named_before(nv, i as int + 1, k) {
                        let j = choose|j: int| 0 <= j < i + 1 && #[trigger] nv[j].1 == k;
                        if j == i {
                            assert(seen@[seen@.len() - 1]@ == k);
                        } else {
                            assert(named_before(nv, i as int, k));
                            assert(names_contain(old_seen, k));
                            let t = choose|t: int| 0 <= t < old_seen.len() && #[trigger] old_seen[t]@ == k;
                            assert(seen@[t]@ == k);
                        }
                    }
                    if names_contain(seen@, k) {
                        let t = choose|t: int| 0 <= t < seen@.len() && #[trigger] seen@[t]@ == k;
                        if t == seen@.len() - 1 {
                            assert(nv[i as int].1 == k);
                        } else {
                            assert(old_seen[t]@ == k);
                            assert(names_contain(old_seen, k));
                            assert(named_before(nv, i as int, k));
                            let j = choose|j: int| 0 <= j < i && #[trigger] nv[j].1 == k;
                            assert(nv[j].1 == k);
                        }
                    }
                }
            }
        }
        i = i + 1;
    }
    proof {
        assert(nv.take(names@.len() as int) =~= nv);
    }
}

/// The names and positions of the nodes, edges or vectors, as a list.
pub open spec fn names_view(names: Seq<(Loc, String)>) -> Seq<(Loc, Seq<char>)> {
    Seq::new(names.len(), |i: int| (names[i].0, names[i].1@))
}

fn node_name_list(ns: &Vec<NodeSchema>) -> (r: Vec<(Loc, String)>)
    ensures
        names_view(r@) == Seq::new(ns@.len(), |i: int| (ns@[i].name.0, ns@[i].name.1@)),
{
    let mut out: Vec<(Loc, String)> = Vec::new();
    let mut i: usize = 0;
    while i < ns.len()
        invariant
            i <= ns@.len(),
            out@.len() == i,
            forall|j: int| 0 <= j < i ==> #[trigger] out@[j].0 == ns@[j].name.0 && out@[j].1@ == ns@[j].name.1@,
        decreases ns.len() - i,
    {
        out.push((ns[i].name.0, ns[i].name.1.clone()));
        i = i + 1;
    }
    proof {
        assert(names_view(out@) =~= Seq::new(ns@.len(), |i: int| (ns@[i].name.0, ns@[i].name.1@)));
    }
    out
}

fn edge_name_list(es: &Vec<EdgeSchema>) -> (r: Vec<(Loc, String)>)
    ensures
        names_view(r@) == Seq::new(es@.len(), |i: int| (es@[i].name.0, es@[i].name.1@)),
{
    let mut out: Vec<(Loc, String)> = Vec::new();
    let mut i: usize = 0;
    while i < es.len()
        invariant
            i <= es@.len(),
            out@.len() == i,
            forall|j: int| 0 <= j < i ==> #[trigger] out@[j].0 == es@[j].name.0 && out@[j].1@ == es@[j].name.1@,
        decreases es.len() - i,
    {
        out.push((es[i].name.0, es[i].name.1.clone()));
        i = i + 1;
    }
    proof {
        assert(names_view(out@) =~= Seq::new(es@.len(), |i: int| (es@[i].name.0, es@[i].name.1@)));
    }
    out
}

fn vector_name_list(vs: &Vec<VectorSchema>) -> (r: Vec<(Loc, String)>)
    ensures
        names_view(r@) == Seq::new(vs@.len(), |i: int| (vs@[i].loc, vs@[i].name@)),
{
    let mut out: Vec<(Loc, String)> = Vec::new();
    let mut i: usize = 0;
    while i < vs.len()
        invariant
            i <= vs@.len(),
            out@.len() == i,
            forall|j: int| 0 <= j < i ==> #[trigger] out@[j].0 == vs@[j].loc && out@[j].1@ == vs@[j].name@,
        decreases vs.len() - i,
    {
        out.push((vs[i].loc, vs[i].name.clone()));
        i = i + 1;
    }
    proof {
        assert(names_view(out@) =~= Seq::new(vs@.len(), |i: int| (vs@[i].loc, vs@[i].name@)));
    }
    out
}

/// Reports every node, edge and vector name that the latest schema declares twice (E107),
/// at the repeated declaration.
pub fn check_duplicate_schema_definitions(ctx: &mut Ctx)
    ensures
        final(ctx).diagnostics.deep_view() == old(ctx).diagnostics.deep_view()
            + schema_duplicate_errors(old(ctx).schema),
        same_but_diagnostics(*old(ctx), *final(ctx)),
{
    let ghost start = ctx.diagnostics.deep_view();
    let nodes = node_name_list(&ctx.schema.node_schemas);
    report_duplicates(&nodes, "node", &mut ctx.diagnostics);
    let edges = edge_name_list(&ctx.schema.edge_schemas);
    report_duplicates(&edges, "edge", &mut ctx.diagnostics);
    let vectors = vector_name_list(&ctx.schema.vector_schemas);
    report_duplicates(&vectors, "vector", &mut ctx.diagnostics);
    proof {
        assert(Seq::new(nodes@.len(), |i: int| (nodes@[i].0, nodes@[i].1@)) == names_view(nodes@));
        assert(Seq::new(edges@.len(), |i: int| (edges@[i].0, edges@[i].1@)) == names_view(edges@));
        assert(Seq::new(vectors@.len(), |i: int| (vectors@[i].0, vectors@[i].1@)) == names_view(
            vectors@,
        ));
        assert(node_names(ctx.schema) =~= names_view(nodes@));
        assert(edge_names(ctx.schema) =~= names_view(edges@));
        assert(vector_names(ctx.schema) =~= names_view(vectors@));
        assert(ctx.diagnostics.deep_view() =~= start + schema_duplicate_errors(ctx.schema));
    }
}

/// The field names that schemas may not declare, compared in lower case.
pub open spec fn reserved_field_name(s: Seq<char>) -> bool {
    s == "id"@ || s == "label"@ || s == "to_node"@ || s == "from_node"@ || s == "data"@ || s
        == "score"@
}

fn is_reserved_field_name(s: &str) -> (r: bool)
    ensures
        r == reserved_field_name(s@),
{
    str_eq(s, "id") || str_eq(s, "label") || str_eq(s, "to_node") || str_eq(s, "from_node")
        || str_eq(s, "data") || str_eq(s, "score")
}

/// Whether a type may be declared for a schema field: not a type name nor an object,
/// and arrays only of such types.
pub open spec fn valid_field_type(t: FieldType) -> bool
    decreases t,
{
    match t {
        FieldType::Identifier(_) => false,
        FieldType::Object(_) => false,
        FieldType::Array(inner) => valid_field_type(*inner),
        _ => true,
    }
}

/// Whether a type may be declared for a schema field (see [`valid_field_type`]).
pub fn is_valid_schema_field_type(ft: &FieldType) -> (r: bool)
    ensures
        r == valid_field_type(*ft),
    decreases *ft,
{
    match ft {
        FieldType::Identifier(_) => false,
        FieldType::Object(_) => false,
        FieldType::Array(inner) => is_valid_schema_field_type(inner),
        _ => true,
    }
}

/// The diagnostics for one schema field: a reserved name (E204), then a type that
/// schemas may not use (E209).
pub open spec fn field_errors(f: Field) -> Seq<DiagnosticView> {
    let reserved = if reserved_field_name(lowercase_of(f.name@)) {
        seq![
            schema_error(
                f.loc,
                ErrorCode::E204,
                "field `"@ + f.name@ + "` is a reserved field name"@,
                "rename the field"@,
            ),
        ]
    } else {
        Seq::empty()
    };
    let invalid = if !valid_field_type(f.field_type) {
        seq![
            schema_error(
                f.loc,
                ErrorCode::E209,
                "invalid type in schema field: `"@ + f.name@ + "`"@,
                "use built-in types only (String, U32, etc.)"@,
            ),
        ]
    } else {
        Seq::empty()
    };
    reserved + invalid
}

/// The diagnostics for a list of schema fields, in order.
pub open spec fn fields_errors(fs: Seq<Field>) -> Seq<DiagnosticView>
    decreases fs.len(),
{
    if fs.len() == 0 {
        Seq::empty()
    } else {
        fields_errors(fs.drop_last()) + field_errors(fs.last())
    }
}

/// The diagnostic for an edge end that names neither a node nor a vector type (E106).
pub open spec fn end_errors(end: (Loc, String), nodes: Seq<String>, vectors: Seq<String>) -> Seq<
    DiagnosticView,
> {
    if !names_contain(nodes, end.1@) && !names_contain(vectors, end.1@) {
        seq![
            schema_error(
                end.0,
                ErrorCode::E106,
                "use of undeclared node or vector type `"@ + end.1@ + "` in schema"@,
                "declare `"@ + end.1@ + "` in the schema before using it in an edge"@,
            ),
        ]
    } else {
        Seq::empty()
    }
}

/// The diagnostics for an edge: its source end, its target end, then its properties.
pub open spec fn edge_errors(e: EdgeSchema, nodes: Seq<String>, vectors: Seq<String>) -> Seq<
    DiagnosticView,
> {
    end_errors(e.from, nodes, vectors) + end_errors(e.to, nodes, vectors) + match e.properties {
        Some(p) => fields_errors(p@),
        None => Seq::empty(),
    }
}

/// The diagnostics for a list of edges, in order.
pub open spec fn edges_errors(es: Seq<EdgeSchema>, nodes: Seq<String>, vectors: Seq<String>) -> Seq<
    DiagnosticView,
>
    decreases es.len(),
{
    if es.len() == 0 {
        Seq::empty()
    } else {
        edges_errors(es.drop_last(), nodes, vectors) + edge_errors(es.last(), nodes, vectors)
    }
}

/// The diagnostics for the fields of a list of nodes, in order.
pub open spec fn nodes_errors(ns: Seq<NodeSchema>) -> Seq<DiagnosticView>
    decreases ns.len(),
{
    if ns.len() == 0 {
        Seq::empty()
    } else {
        nodes_errors(ns.drop_last()) + fields_errors(ns.last().fields@)
    }
}

/// The diagnostics for the fields of a list of vectors, in order.
pub open spec fn vectors_errors(vs: Seq<VectorSchema>) -> Seq<DiagnosticView>
    decreases vs.len(),
{
    if vs.len() == 0 {
        Seq::empty()
    } else {
        vectors_errors(vs.drop_last()) + fields_errors(vs.last().fields@)
    }
}

/// Everything that checking the latest schema reports, in order: names declared twice,
/// then the edges, then the fields of the nodes, then the fields of the vectors.
pub open spec fn schema_errors(ctx: Ctx) -> Seq<DiagnosticView> {
    schema_duplicate_errors(ctx.schema) + edges_errors(
        ctx.schema.edge_schemas@,
        ctx.node_set@,
        ctx.vector_set@,
    ) + nodes_errors(ctx.schema.node_schemas@) + vectors_errors(ctx.schema.vector_schemas@)
}

fn check_field(f: &Field, diags: &mut Vec<Diagnostic>)
    ensures
        final(diags).deep_view() == old(diags).deep_view() + field_errors(*f),
{
    let ghost start = diags.deep_view();
    let lower = to_lowercase(f.name.as_str());
    if is_reserved_field_name(lower.as_str()) {
        let mut message = String::from_str("field `");
        put_string(&mut message, &f.name);
        put(&mut message, "` is a reserved field name");
        push_schema_error(diags, f.loc, ErrorCode::E204, message, String::from_str("rename the field"));
    }
    let ghost mid = diags.deep_view();
    if !is_valid_schema_field_type(&f.field_type) {
        let mut message = String::from_str("invalid type in schema field: `");
        put_string(&mut message, &f.name);
        put(&mut message, "`");
        push_schema_error(
            diags,
            f.loc,
            ErrorCode::E209,
            message,
            String::from_str("use built-in types only (String, U32, etc.)"),
        );
    }
    proof {
        assert(diags.deep_view() =~= start + field_errors(*f));
    }
}

fn check_fields(fs: &Vec<Field>, diags: &mut Vec<Diagnostic>)
    ensures
        final(diags).deep_view() == old(diags).deep_view() + fields_errors(fs@),
{
    let ghost start = diags.deep_view();
    let mut i: usize = 0;
    while i < fs.len()
        invariant
            i <= fs@.len(),
            diags.deep_view() == start + fields_errors(fs@.take(i as int)),
        decreases fs.len() - i,
    {
        check_field(&fs[i], diags);
        proof {
            assert(fs@.take(i as int + 1).drop_last() =~= fs@.take(i as int));
            assert(diags.deep_view() =~= start + fields_errors(fs@.take(i as int + 1)));
        }
        i = i + 1;
    }
    proof {
        assert(fs@.take(fs@.len() as int) =~= fs@);
    }
}

fn check_edge_end(
    end: &(Loc, String),
    nodes: &Vec<String>,
    vectors: &Vec<String>,
    diags: &mut Vec<Diagnostic>,
)
    ensures
        final(diags).deep_view() == old(diags).deep_view() + end_errors(*end, nodes@, vectors@),
{
    let ghost start = diags.deep_view();
    if !contains_name(nodes, end.1.as_str()) && !contains_name(vectors, end.1.as_str()) {
        let mut message = String::from_str("use of undeclared node or vector type `");
        put_string(&mut message, &end.1);
        put(&mut message, "` in schema");
        let mut hint = String::from_str("declare `");
        put_string(&mut hint, &end.1);
        put(&mut hint, "` in the schema before using it in an edge");
        push_schema_error(diags, end.0, ErrorCode::E106, message, hint);
    }
    proof {
        assert(diags.deep_view() =~= start + end_errors(*end, nodes@, vectors@));
    }
}

fn check_edge(e: &EdgeSchema, nodes: &Vec<String>, vectors: &Vec<String>, diags: &mut Vec<Diagnostic>)
    ensures
        final(diags).deep_view() == old(diags).deep_view() + edge_errors(*e, nodes@, vectors@),
{
    let ghost start = diags.deep_view();
    check_edge_end(&e.from, nodes, vectors, diags);
    check_edge_end(&e.to, nodes, vectors, diags);
    match &e.properties {
        Some(p) => check_fields(p, diags),
        None => {},
    }
    proof {
        assert(diags.deep_view() =~= start + edge_errors(*e, nodes@, vectors@));
    }
}

/// Whether two contexts agree on the schema, its names and its fields tables.
pub open spec fn same_inputs(a: Ctx, b: Ctx) -> bool {
    &&& a.schema == b.schema
    &&& a.node_set == b.node_set
    &&& a.vector_set == b.vector_set
    &&& a.edge_map == b.edge_map
    &&& a.node_fields == b.node_fields
    &&& a.edge_fields == b.edge_fields
    &&& a.vector_fields == b.vector_fields
}

/// Checks the latest schema (see [`schema_errors`]) and adds its edges, nodes and
/// vectors to the output.
pub fn check_schema(ctx: &mut Ctx)
    ensures
        final(ctx).diagnostics.deep_view() == old(ctx).diagnostics.deep_view() + schema_errors(
            *old(ctx),
        ),
        final(ctx).output.edges.deep_view() == old(ctx).output.edges.deep_view()
            + old(ctx).schema.edge_schemas.deep_view(),
        final(ctx).output.nodes.deep_view() == old(ctx).output.nodes.deep_view()
            + old(ctx).schema.node_schemas.deep_view(),
        final(ctx).output.vectors.deep_view() == old(ctx).output.vectors.deep_view()
            + old(ctx).schema.vector_schemas.deep_view(),
        same_inputs(*old(ctx), *final(ctx)),
{
    let ghost start = *ctx;
    check_duplicate_schema_definitions(ctx);
    let ghost d0 = ctx.diagnostics.deep_view();
    let mut i: usize = 0;
    while i < ctx.schema.edge_schemas.len()
        invariant
            i <= ctx.schema.edge_schemas@.len(),
            same_inputs(start, *ctx),
            ctx.diagnostics.deep_view() == d0 + edges_errors(
                ctx.schema.edge_schemas@.take(i as int),
                ctx.node_set@,
                ctx.vector_set@,
            ),
            ctx.output.edges.deep_view() == start.output.edges.deep_view()
                + start.schema.edge_schemas.deep_view().take(i as int),
            ctx.output.nodes == start.output.nodes,
            ctx.output.vectors == start.output.vectors,
        decreases ctx.schema.edge_schemas.len() - i,
    {
        check_edge(&ctx.schema.edge_schemas[i], &ctx.node_set, &ctx.vector_set, &mut ctx.diagnostics);
        let copy = ctx.schema.edge_schemas[i].deep_copy();
        let ghost before = ctx.output.edges.deep_view();
        let ghost copy_view = copy.deep_view();
        ctx.output.edges.push(copy);
        proof {
            assert(ctx.output.edges.deep_view() =~= before.push(copy_view));
            assert(copy_view == start.schema.edge_schemas.deep_view()[i as int]);
            let es = ctx.schema.edge_schemas@;
            assert(es.take(i as int + 1).drop_last() =~= es.take(i as int));
            assert(ctx.output.edges.deep_view() =~= start.output.edges.deep_view()
                + start.schema.edge_schemas.deep_view().take(i as int + 1));
        }
        i = i + 1;
    }
    let ghost d1 = ctx.diagnostics.deep_view();
    let mut i: usize = 0;
    while i < ctx.schema.node_schemas.len()
        invariant
            i <= ctx.schema.node_schemas@.len(),
            same_inputs(start, *ctx),
            ctx.diagnostics.deep_view() == d1 + nodes_errors(ctx.schema.node_schemas@.take(i as int)),
            ctx.output.nodes.deep_view() == start.output.nodes.deep_view()
                + start.schema.node_schemas.deep_view().take(i as int),
            ctx.output.edges.deep_view() == start.output.edges.deep_view()
                + start.schema.edge_schemas.deep_view(),
            ctx.output.vectors == start.output.vectors,
        decreases ctx.schema.node_schemas.len() - i,
    {
        check_fields(&ctx.schema.node_schemas[i].fields, &mut ctx.diagnostics);
        let copy = ctx.schema.node_schemas[i].deep_copy();
        let ghost before = ctx.output.nodes.deep_view();
        let ghost copy_view = copy.deep_view();
        ctx.output.nodes.push(copy);
        proof {
            assert(ctx.output.nodes.deep_view() =~= before.push(copy_view));
            assert(copy_view == start.schema.node_schemas.deep_view()[i as int]);
            let ns = ctx.schema.node_schemas@;
            assert(ns.take(i as int + 1).drop_last() =~= ns.take(i as int));
            assert(ctx.output.nodes.deep_view() =~= start.output.nodes.deep_view()
                + start.schema.node_schemas.deep_view().take(i as int + 1));
        }
        i = i + 1;
    }
    let ghost d2 = ctx.diagnostics.deep_view();
    let mut i: usize = 0;
    while i < ctx.schema.vector_schemas.len()
        invariant
            i <= ctx.schema.vector_schemas@.len(),
            same_inputs(start, *ctx),
            ctx.diagnostics.deep_view() == d2 + vectors_errors(
                ctx.schema.vector_schemas@.take(i as int),
            ),
            ctx.output.vectors.deep_view() == start.output.vectors.deep_view()
                + start.schema.vector_schemas.deep_view().take(i as int),
            ctx.output.nodes.deep_view() == start.output.nodes.deep_view()
                + start.schema.node_schemas.deep_view(),
            ctx.output.edges.deep_view() == start.output.edges.deep_view()
                + start.schema.edge_schemas.deep_view(),
        decreases ctx.schema.vector_schemas.len() - i,
    {
        check_fields(&ctx.schema.vector_schemas[i].fields, &mut ctx.diagnostics);
        let copy = ctx.schema.vector_schemas[i].deep_copy();
        let ghost before = ctx.output.vectors.deep_view();
        let ghost copy_view = copy.deep_view();
        ctx.output.vectors.push(copy);
        proof {
            assert(ctx.output.vectors.deep_view() =~= before.push(copy_view));
            assert(copy_view == start.schema.vector_schemas.deep_view()[i as int]);
            let vs = ctx.schema.vector_schemas@;
            assert(vs.take(i as int + 1).drop_last() =~= vs.take(i as int));
            assert(ctx.output.vectors.deep_view() =~= start.output.vectors.deep_view()
                + start.schema.vector_schemas.deep_view().take(i as int + 1));
        }
        i = i + 1;
    }
    proof {
        let es = start.schema.edge_schemas@;
        let ns = start.schema.node_schemas@;
        let vs = start.schema.vector_schemas@;
        assert(es.take(es.len() as int) =~= es);
        assert(ns.take(ns.len() as int) =~= ns);
        assert(vs.take(vs.len() as int) =~= vs);
        assert(start.schema.edge_schemas.deep_view().take(es.len() as int) =~= start.schema.edge_schemas.deep_view());
        assert(start.schema.node_schemas.deep_view().take(ns.len() as int) =~= start.schema.node_schemas.deep_view());
        assert(start.schema.vector_schemas.deep_view().take(vs.len() as int) =~= start.schema.vector_schemas.deep_view());
        assert(ctx.diagnostics.deep_view() =~= start.diagnostics.deep_view() + schema_errors(start));
    }
}


/// Law: a schema field type is invalid exactly when it is a type name or an object, or
/// a list of such; every built-in type (strings, booleans, integers, floats, ids, dates)
/// is valid, and a list is valid exactly when its items' type is.
pub proof fn law_schema_field_types(t: FieldType)
    ensures
        t is Identifier ==> !valid_field_type(t),
        t is Object ==> !valid_field_type(t),
        !(t is Identifier || t is Object || t is Array) ==> valid_field_type(t),
        valid_field_type(FieldType::Uuid),
        valid_field_type(FieldType::Date),
        valid_field_type(FieldType::String),
        valid_field_type(FieldType::Boolean),
        valid_field_type(FieldType::Array(Box::new(t))) == valid_field_type(t),
{
}

/// Law: a schema field whose name is not reserved gets a diagnostic exactly when its type
/// is invalid, and then only E209; a field of a built-in type (an id included) gets none.
pub proof fn law_field_type_diagnostics(f: Field)
    requires
        !reserved_field_name(lowercase_of(f.name@)),
    ensures
        field_errors(f).len() == 0 <==> valid_field_type(f.field_type),
        !valid_field_type(f.field_type) ==> field_errors(f).len() == 1 && field_errors(f)[0].1 == ErrorCode::E209,
        !(f.field_type is Identifier || f.field_type is Object || f.field_type is Array) ==> field_errors(f).len() == 0,
{
    law_schema_field_types(f.field_type);
}

} // verus!
