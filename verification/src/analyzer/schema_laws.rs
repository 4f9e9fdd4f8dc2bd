//! Laws of the fields tables and of the schema check, proved from the specifications that
//! `build_field_lookups` and `check_schema` meet.

use vstd::prelude::*;
use crate::text::lowercase_of;
use super::types::{Ctx, EdgeSchema, ErrorCode, Field, Loc, NodeSchema, Schema, Source, VectorSchema};
use super::schema_methods::{
    edge_errors, edge_names, edge_props, edges_errors, edges_lookup, end_errors, field_errors,
    fields_errors, fields_view, duplicate_errors, names_contain, node_names, node_props,
    nodes_errors, nodes_lookup, reserved_field_name, schema_duplicate_errors, schema_errors,
    valid_field_type, vector_names, vector_props, vectors_errors, vectors_lookup,
    versions_lookup, DiagnosticView, FieldView, LookupView,
};

verus! {

// ---------------------------------------------------------------------------------------
// The keys of the fields tables
// ---------------------------------------------------------------------------------------

/// The names of a list of fields.
pub open spec fn field_names(fs: Seq<Field>) -> Set<Seq<char>> {
    Set::new(|k: Seq<char>| exists|i: int| 0 <= i < fs.len() && #[trigger] fs[i].name@ == k)
}

/// The names of the properties an edge declares (none when it declares no properties).
pub open spec fn property_names(e: EdgeSchema) -> Set<Seq<char>> {
    match e.properties {
        Some(p) => field_names(p@),
        None => Set::empty(),
    }
}

proof fn lemma_fields_view_dom(fs: Seq<Field>)
    ensures
        fields_view(fs).dom() == field_names(fs),
    decreases fs.len(),
{
    if fs.len() > 0 {
        lemma_fields_view_dom(fs.drop_last());
        assert forall|k: Seq<char>|
            field_names(fs).contains(k) <==> fields_view(fs).dom().contains(k) by {
            if field_names(fs).contains(k) && k != fs.last().name@ {
                let i = choose|i: int| 0 <= i < fs.len() && #[trigger] fs[i].name@ == k;
                assert(fs.drop_last()[i] == fs[i]);
                assert(field_names(fs.drop_last()).contains(k));
            }
            if fields_view(fs).dom().contains(k) {
                if k == fs.last().name@ {
                    assert(fs[fs.len() - 1].name@ == k);
                } else {
                    assert(field_names(fs.drop_last()).contains(k));
                    let i = choose|i: int|
                        0 <= i < fs.len() - 1 && #[trigger] fs.drop_last()[i].name@ == k;
                    assert(fs[i] == fs.drop_last()[i]);
                }
            }
        }
    }
    assert(fields_view(fs).dom() =~= field_names(fs));
}

/// The fields table of a node, an edge or a vector has as keys exactly the names of its
/// declared fields together with its built-in fields: `id` and `label` for a node; those
/// and `from_node` and `to_node` for an edge; those and `data` and `score` for a vector.
pub proof fn law_field_table_keys(n: NodeSchema, e: EdgeSchema, v: VectorSchema)
    ensures
        node_props(n).dom() == field_names(n.fields@).insert("id"@).insert("label"@),
        edge_props(e).dom() == property_names(e).insert("id"@).insert("label"@).insert(
            "from_node"@,
        ).insert("to_node"@),
        vector_props(v).dom() == field_names(v.fields@).insert("id"@).insert("label"@).insert(
            "data"@,
        ).insert("score"@),
{
    lemma_fields_view_dom(n.fields@);
    lemma_fields_view_dom(v.fields@);
    match e.properties {
        Some(p) => lemma_fields_view_dom(p@),
        None => {},
    }
    assert(node_props(n).dom() =~= field_names(n.fields@).insert("id"@).insert("label"@));
    assert(edge_props(e).dom() =~= property_names(e).insert("id"@).insert("label"@).insert(
        "from_node"@,
    ).insert("to_node"@));
    assert(vector_props(v).dom() =~= field_names(v.fields@).insert("id"@).insert(
        "label"@,
    ).insert("data"@).insert("score"@));
}

/// A table keyed by name: each item, in order, sets the entry of its name.
pub open spec fn keyed<T>(
    items: Seq<T>,
    key: spec_fn(T) -> Seq<char>,
    val: spec_fn(T) -> Map<Seq<char>, FieldView>,
) -> LookupView
    decreases items.len(),
{
    if items.len() == 0 {
        Map::empty()
    } else {
        keyed(items.drop_last(), key, val).insert(key(items.last()), val(items.last()))
    }
}

/// The names of a list of items.
pub open spec fn key_set<T>(items: Seq<T>, key: spec_fn(T) -> Seq<char>) -> Set<Seq<char>> {
    Set::new(|k: Seq<char>| exists|i: int| 0 <= i < items.len() && #[trigger] key(items[i]) == k)
}

/// Whether item `i` is the last of the list with its name.
pub open spec fn last_named<T>(items: Seq<T>, key: spec_fn(T) -> Seq<char>, i: int) -> bool {
    &&& 0 <= i < items.len()
    &&& forall|j: int| i < j < items.len() ==> #[trigger] key(items[j]) != key(items[i])
}

proof fn lemma_keyed<T>(
    items: Seq<T>,
    key: spec_fn(T) -> Seq<char>,
    val: spec_fn(T) -> Map<Seq<char>, FieldView>,
)
    ensures
        keyed(items, key, val).dom() == key_set(items, key),
        forall|i: int|
            last_named(items, key, i) ==> #[trigger] keyed(items, key, val)[key(items[i])] == val(
                items[i],
            ),
    decreases items.len(),
{
    if items.len() > 0 {
        let rest = items.drop_last();
        lemma_keyed(rest, key, val);
        assert forall|k: Seq<char>|
            key_set(items, key).contains(k) <==> keyed(items, key, val).dom().contains(k) by {
            if key_set(items, key).contains(k) && k != key(items.last()) {
                let i = choose|i: int| 0 <= i < items.len() && #[trigger] key(items[i]) == k;
                assert(rest[i] == items[i]);
                assert(key_set(rest, key).contains(k));
            }
            if keyed(items, key, val).dom().contains(k) {
                if k == key(items.last()) {
                    assert(key(items[items.len() - 1]) == k);
                } else {
                    assert(key_set(rest, key).contains(k));
                    let i = choose|i: int| 0 <= i < rest.len() && #[trigger] key(rest[i]) == k;
                    assert(items[i] == rest[i]);
                }
            }
        }
        assert(keyed(items, key, val).dom() =~= key_set(items, key));
        assert forall|i: int| last_named(items, key, i) implies #[trigger] keyed(items, key, val)[key(
            items[i],
        )] == val(items[i]) by {
            if i < items.len() - 1 {
                assert(rest[i] == items[i]);
                assert forall|j: int| i < j < rest.len() implies #[trigger] key(rest[j]) != key(
                    rest[i],
                ) by {
                    assert(rest[j] == items[j]);
                }
                assert(last_named(rest, key, i));
                assert(key(items[items.len() - 1]) != key(items[i]));
            }
        }
    }
}

proof fn lemma_nodes_keyed(ns: Seq<NodeSchema>)
    ensures
        nodes_lookup(ns) == keyed(ns, |n: NodeSchema| n.name.1@, |n: NodeSchema| node_props(n)),
    decreases ns.len(),
{
    if ns.len() > 0 {
        lemma_nodes_keyed(ns.drop_last());
    }
}

proof fn lemma_edges_keyed(es: Seq<EdgeSchema>)
    ensures
        edges_lookup(es) == keyed(es, |e: EdgeSchema| e.name.1@, |e: EdgeSchema| edge_props(e)),
    decreases es.len(),
{
    if es.len() > 0 {
        lemma_edges_keyed(es.drop_last());
    }
}

proof fn lemma_vectors_keyed(vs: Seq<VectorSchema>)
    ensures
        vectors_lookup(vs) == keyed(vs, |v: VectorSchema| v.name@, |v: VectorSchema| vector_props(v)),
    decreases vs.len(),
{
    if vs.len() > 0 {
        lemma_vectors_keyed(vs.drop_last());
    }
}

/// The versions of a list of schemas.
pub open spec fn schema_versions(ss: Seq<Schema>) -> Set<usize> {
    Set::new(|v: usize| exists|i: int| 0 <= i < ss.len() && #[trigger] ss[i].version.1 == v)
}

/// Whether schema `i` is the last of the list with its version.
pub open spec fn last_of_version(ss: Seq<Schema>, i: int) -> bool {
    &&& 0 <= i < ss.len()
    &&& forall|j: int| i < j < ss.len() ==> #[trigger] ss[j].version.1 != ss[i].version.1
}

proof fn lemma_versions(ss: Seq<Schema>)
    ensures
        versions_lookup(ss).dom() == schema_versions(ss),
        forall|i: int|
            last_of_version(ss, i) ==> #[trigger] versions_lookup(ss)[ss[i].version.1] == (
                nodes_lookup(ss[i].node_schemas@),
                edges_lookup(ss[i].edge_schemas@),
                vectors_lookup(ss[i].vector_schemas@),
            ),
    decreases ss.len(),
{
    if ss.len() > 0 {
        let rest = ss.drop_last();
        lemma_versions(rest);
        assert forall|v: usize|
            schema_versions(ss).contains(v) <==> versions_lookup(ss).dom().contains(v) by {
            if schema_versions(ss).contains(v) && v != ss.last().version.1 {
                let i = choose|i: int| 0 <= i < ss.len() && #[trigger] ss[i].version.1 == v;
                assert(rest[i] == ss[i]);
                assert(schema_versions(rest).contains(v));
            }
            if versions_lookup(ss).dom().contains(v) {
                if v == ss.last().version.1 {
                    assert(ss[ss.len() - 1].version.1 == v);
                } else {
                    assert(schema_versions(rest).contains(v));
                    let i = choose|i: int| 0 <= i < rest.len() && #[trigger] rest[i].version.1 == v;
                    assert(ss[i] == rest[i]);
                }
            }
        }
        assert(versions_lookup(ss).dom() =~= schema_versions(ss));
        assert forall|i: int| last_of_version(ss, i) implies #[trigger] versions_lookup(
            ss,
        )[ss[i].version.1] == (
            nodes_lookup(ss[i].node_schemas@),
            edges_lookup(ss[i].edge_schemas@),
            vectors_lookup(ss[i].vector_schemas@),
        ) by {
            if i < ss.len() - 1 {
                assert(rest[i] == ss[i]);
                assert forall|j: int| i < j < rest.len() implies #[trigger] rest[j].version.1
                    != rest[i].version.1 by {
                    assert(rest[j] == ss[j]);
                }
                assert(last_of_version(rest, i));
                assert(ss[ss.len() - 1].version.1 != ss[i].version.1);
            }
        }
    }
}

/// The fields tables built from a list of schemas have one entry per schema version. The
/// entry of a version is built from the last schema of that version: in it, the nodes,
/// edges and vectors are keyed by exactly the names that schema declares, and each name
/// stands for the fields of the last item of that name.
pub proof fn law_field_tables(src: Source, i: int)
    requires
        last_of_version(src.schemas@, i),
    ensures
        ({
            let ss = src.schemas@;
            let s = ss[i];
            let ns = s.node_schemas@;
            let es = s.edge_schemas@;
            let vs = s.vector_schemas@;
            let node_key = |n: NodeSchema| n.name.1@;
            let edge_key = |e: EdgeSchema| e.name.1@;
            let vector_key = |v: VectorSchema| v.name@;
            &&& versions_lookup(ss).dom() == schema_versions(ss)
            &&& versions_lookup(ss)[s.version.1] == (
                nodes_lookup(ns),
                edges_lookup(es),
                vectors_lookup(vs),
            )
            &&& nodes_lookup(ns).dom() == key_set(ns, node_key)
            &&& edges_lookup(es).dom() == key_set(es, edge_key)
            &&& vectors_lookup(vs).dom() == key_set(vs, vector_key)
            &&& forall|k: int|
                last_named(ns, node_key, k) ==> #[trigger] nodes_lookup(ns)[ns[k].name.1@]
                    == node_props(ns[k])
            &&& forall|k: int|
                last_named(es, edge_key, k) ==> #[trigger] edges_lookup(es)[es[k].name.1@]
                    == edge_props(es[k])
            &&& forall|k: int|
                last_named(vs, vector_key, k) ==> #[trigger] vectors_lookup(vs)[vs[k].name@]
                    == vector_props(vs[k])
        }),
{
    let ss = src.schemas@;
    let s = ss[i];
    lemma_versions(ss);
    lemma_nodes_keyed(s.node_schemas@);
    lemma_edges_keyed(s.edge_schemas@);
    lemma_vectors_keyed(s.vector_schemas@);
    lemma_keyed(s.node_schemas@, |n: NodeSchema| n.name.1@, |n: NodeSchema| node_props(n));
    lemma_keyed(s.edge_schemas@, |e: EdgeSchema| e.name.1@, |e: EdgeSchema| edge_props(e));
    lemma_keyed(s.vector_schemas@, |v: VectorSchema| v.name@, |v: VectorSchema| vector_props(v));
}

// ---------------------------------------------------------------------------------------
// What the schema check reports, counted by code
// ---------------------------------------------------------------------------------------

/// How many diagnostics of a list carry a code.
pub open spec fn code_count(ds: Seq<DiagnosticView>, code: ErrorCode) -> nat
    decreases ds.len(),
{
    if ds.len() == 0 {
        0
    } else {
        code_count(ds.drop_last(), code) + if ds.last().1 == code {
            1nat
        } else {
            0nat
        }
    }
}

proof fn lemma_code_count_add(a: Seq<DiagnosticView>, b: Seq<DiagnosticView>, code: ErrorCode)
    ensures
        code_count(a + b, code) == code_count(a, code) + code_count(b, code),
    decreases b.len(),
{
    if b.len() == 0 {
        assert(a + b =~= a);
    } else {
        lemma_code_count_add(a, b.drop_last(), code);
        assert((a + b).drop_last() =~= a + b.drop_last());
    }
}

proof fn lemma_code_count_one(d: DiagnosticView, code: ErrorCode)
    ensures
        code_count(seq![d], code) == if d.1 == code {
            1nat
        } else {
            0nat
        },
{
    let s = seq![d];
    assert(s.drop_last() =~= Seq::<DiagnosticView>::empty());
    assert(code_count(s.drop_last(), code) == 0);
    assert(s.last() == d);
}

/// Whether a field's name, in lower case, is one the schemas may not declare.
pub open spec fn has_reserved_name(f: Field) -> bool {
    reserved_field_name(lowercase_of(f.name@))
}

/// Whether a field's type is one the schemas may not use.
pub open spec fn has_invalid_type(f: Field) -> bool {
    !valid_field_type(f.field_type)
}

/// [`has_reserved_name`] as a predicate.
pub open spec fn reserved_pred() -> spec_fn(Field) -> bool {
    |f: Field| has_reserved_name(f)
}

/// [`has_invalid_type`] as a predicate.
pub open spec fn invalid_type_pred() -> spec_fn(Field) -> bool {
    |f: Field| has_invalid_type(f)
}

/// The properties an edge declares, as a list.
pub open spec fn edge_fields(e: EdgeSchema) -> Seq<Field> {
    match e.properties {
        Some(p) => p@,
        None => Seq::empty(),
    }
}

/// The properties of a list of edges, one edge after the other.
pub open spec fn edges_fields(es: Seq<EdgeSchema>) -> Seq<Field>
    decreases es.len(),
{
    if es.len() == 0 {
        Seq::empty()
    } else {
        edges_fields(es.drop_last()) + edge_fields(es.last())
    }
}

/// The fields of a list of nodes, one node after the other.
pub open spec fn nodes_fields(ns: Seq<NodeSchema>) -> Seq<Field>
    decreases ns.len(),
{
    if ns.len() == 0 {
        Seq::empty()
    } else {
        nodes_fields(ns.drop_last()) + ns.last().fields@
    }
}

/// The fields of a list of vectors, one vector after the other.
pub open spec fn vectors_fields(vs: Seq<VectorSchema>) -> Seq<Field>
    decreases vs.len(),
{
    if vs.len() == 0 {
        Seq::empty()
    } else {
        vectors_fields(vs.drop_last()) + vs.last().fields@
    }
}

/// Every field a schema declares: the properties of its edges, the fields of its nodes,
/// then the fields of its vectors.
pub open spec fn schema_fields(s: Schema) -> Seq<Field> {
    edges_fields(s.edge_schemas@) + nodes_fields(s.node_schemas@) + vectors_fields(
        s.vector_schemas@,
    )
}

/// Whether an edge end names neither a node type nor a vector type.
pub open spec fn undeclared_end(end: (Loc, String), nodes: Seq<String>, vectors: Seq<String>) -> bool {
    !names_contain(nodes, end.1@) && !names_contain(vectors, end.1@)
}

/// How many ends of a list of edges name neither a node type nor a vector type.
pub open spec fn undeclared_ends(es: Seq<EdgeSchema>, nodes: Seq<String>, vectors: Seq<String>) -> nat
    decreases es.len(),
{
    if es.len() == 0 {
        0
    } else {
        let e = es.last();
        undeclared_ends(es.drop_last(), nodes, vectors) + (if undeclared_end(e.from, nodes, vectors) {
            1nat
        } else {
            0nat
        }) + (if undeclared_end(e.to, nodes, vectors) {
            1nat
        } else {
            0nat
        })
    }
}

/// How many names of a list repeat an earlier name of the list.
pub open spec fn repeated_names(names: Seq<(Loc, Seq<char>)>) -> nat
    decreases names.len(),
{
    if names.len() == 0 {
        0
    } else {
        repeated_names(names.drop_last()) + if exists|j: int|
            0 <= j < names.len() - 1 && #[trigger] names[j].1 == names.last().1 {
            1nat
        } else {
            0nat
        }
    }
}

/// What a list of fields contributes to the count of a code.
pub open spec fn fields_count(fs: Seq<Field>, code: ErrorCode) -> nat {
    (if code == ErrorCode::E204 {
        fs.filter(reserved_pred()).len()
    } else {
        0
    }) + (if code == ErrorCode::E209 {
        fs.filter(invalid_type_pred()).len()
    } else {
        0
    })
}

proof fn lemma_fields_count(fs: Seq<Field>, code: ErrorCode)
    ensures
        code_count(fields_errors(fs), code) == fields_count(fs, code),
    decreases fs.len(),
{
    reveal(Seq::filter);
    if fs.len() == 0 {
        assert(fs.filter(reserved_pred()) =~= Seq::<Field>::empty());
        assert(fs.filter(invalid_type_pred()) =~= Seq::<Field>::empty());
    } else {
        let f = fs.last();
        lemma_fields_count(fs.drop_last(), code);
        lemma_code_count_add(fields_errors(fs.drop_last()), field_errors(f), code);
        let reserved: Seq<DiagnosticView> = if has_reserved_name(f) {
            seq![field_errors(f)[0]]
        } else {
            Seq::empty()
        };
        let invalid: Seq<DiagnosticView> = if has_invalid_type(f) {
            seq![field_errors(f)[field_errors(f).len() - 1]]
        } else {
            Seq::empty()
        };
        assert(field_errors(f) =~= reserved + invalid);
        lemma_code_count_add(reserved, invalid, code);
        if has_reserved_name(f) {
            lemma_code_count_one(reserved[0], code);
            assert(reserved =~= seq![reserved[0]]);
        }
        if has_invalid_type(f) {
            lemma_code_count_one(invalid[0], code);
            assert(invalid =~= seq![invalid[0]]);
        }
    }
}

proof fn lemma_fields_count_add(a: Seq<Field>, b: Seq<Field>, code: ErrorCode)
    ensures
        fields_count(a + b, code) == fields_count(a, code) + fields_count(b, code),
{
    Seq::filter_distributes_over_add(a, b, reserved_pred());
    Seq::filter_distributes_over_add(a, b, invalid_type_pred());
}

/// What an edge end contributes to the count of a code.
pub open spec fn end_count(end: (Loc, String), nodes: Seq<String>, vectors: Seq<String>, code: ErrorCode) -> nat {
    if code == ErrorCode::E106 && undeclared_end(end, nodes, vectors) {
        1
    } else {
        0
    }
}

proof fn lemma_end_count(end: (Loc, String), nodes: Seq<String>, vectors: Seq<String>, code: ErrorCode)
    ensures
        code_count(end_errors(end, nodes, vectors), code) == end_count(end, nodes, vectors, code),
{
    if undeclared_end(end, nodes, vectors) {
        lemma_code_count_one(end_errors(end, nodes, vectors)[0], code);
        assert(end_errors(end, nodes, vectors) =~= seq![end_errors(end, nodes, vectors)[0]]);
    }
}

proof fn lemma_edges_count(es: Seq<EdgeSchema>, nodes: Seq<String>, vectors: Seq<String>, code: ErrorCode)
    ensures
        code_count(edges_errors(es, nodes, vectors), code) == fields_count(edges_fields(es), code)
            + if code == ErrorCode::E106 {
            undeclared_ends(es, nodes, vectors)
        } else {
            0
        },
    decreases es.len(),
{
    if es.len() == 0 {
        lemma_fields_count(Seq::empty(), code);
    } else {
        let e = es.last();
        let rest = es.drop_last();
        lemma_edges_count(rest, nodes, vectors, code);
        lemma_code_count_add(edges_errors(rest, nodes, vectors), edge_errors(e, nodes, vectors), code);
        let a = end_errors(e.from, nodes, vectors);
        let b = end_errors(e.to, nodes, vectors);
        let c = fields_errors(edge_fields(e));
        assert(fields_errors(Seq::<Field>::empty()) =~= Seq::<DiagnosticView>::empty());
        assert(edge_errors(e, nodes, vectors) =~= a + b + c);
        lemma_code_count_add(a + b, c, code);
        lemma_code_count_add(a, b, code);
        lemma_end_count(e.from, nodes, vectors, code);
        lemma_end_count(e.to, nodes, vectors, code);
        lemma_fields_count(edge_fields(e), code);
        lemma_fields_count_add(edges_fields(rest), edge_fields(e), code);
    }
}

proof fn lemma_nodes_count(ns: Seq<NodeSchema>, code: ErrorCode)
    ensures
        code_count(nodes_errors(ns), code) == fields_count(nodes_fields(ns), code),
    decreases ns.len(),
{
    if ns.len() == 0 {
        lemma_fields_count(Seq::empty(), code);
    } else {
        lemma_nodes_count(ns.drop_last(), code);
        lemma_code_count_add(nodes_errors(ns.drop_last()), fields_errors(ns.last().fields@), code);
        lemma_fields_count(ns.last().fields@, code);
        lemma_fields_count_add(nodes_fields(ns.drop_last()), ns.last().fields@, code);
    }
}

proof fn lemma_vectors_count(vs: Seq<VectorSchema>, code: ErrorCode)
    ensures
        code_count(vectors_errors(vs), code) == fields_count(vectors_fields(vs), code),
    decreases vs.len(),
{
    if vs.len() == 0 {
        lemma_fields_count(Seq::empty(), code);
    } else {
        lemma_vectors_count(vs.drop_last(), code);
        lemma_code_count_add(vectors_errors(vs.drop_last()), fields_errors(vs.last().fields@), code);
        lemma_fields_count(vs.last().fields@, code);
        lemma_fields_count_add(vectors_fields(vs.drop_last()), vs.last().fields@, code);
    }
}

proof fn lemma_duplicates_count(names: Seq<(Loc, Seq<char>)>, kind: Seq<char>, code: ErrorCode)
    ensures
        code_count(duplicate_errors(names, kind), code) == if code == ErrorCode::E107 {
            repeated_names(names)
        } else {
            0
        },
    decreases names.len(),
{
    if names.len() > 0 {
        let rest = duplicate_errors(names.drop_last(), kind);
        lemma_duplicates_count(names.drop_last(), kind, code);
        if exists|j: int| 0 <= j < names.len() - 1 && #[trigger] names[j].1 == names.last().1 {
            let d = duplicate_errors(names, kind).last();
            assert(duplicate_errors(names, kind) =~= rest + seq![d]);
            lemma_code_count_add(rest, seq![d], code);
            lemma_code_count_one(d, code);
        }
    }
}

/// The count of a code among the diagnostics that checking a schema reports.
pub open spec fn schema_count(ctx: Ctx, code: ErrorCode) -> nat {
    let s = ctx.schema;
    (if code == ErrorCode::E107 {
        repeated_names(node_names(s)) + repeated_names(edge_names(s)) + repeated_names(
            vector_names(s),
        )
    } else {
        0
    }) + (if code == ErrorCode::E106 {
        undeclared_ends(s.edge_schemas@, ctx.node_set@, ctx.vector_set@)
    } else {
        0
    }) + fields_count(schema_fields(s), code)
}

proof fn lemma_schema_count(ctx: Ctx, code: ErrorCode)
    ensures
        code_count(schema_errors(ctx), code) == schema_count(ctx, code),
{
    let s = ctx.schema;
    let d1 = duplicate_errors(node_names(s), "node"@);
    let d2 = duplicate_errors(edge_names(s), "edge"@);
    let d3 = duplicate_errors(vector_names(s), "vector"@);
    let e = edges_errors(s.edge_schemas@, ctx.node_set@, ctx.vector_set@);
    let n = nodes_errors(s.node_schemas@);
    let v = vectors_errors(s.vector_schemas@);
    lemma_duplicates_count(node_names(s), "node"@, code);
    lemma_duplicates_count(edge_names(s), "edge"@, code);
    lemma_duplicates_count(vector_names(s), "vector"@, code);
    lemma_code_count_add(d1, d2, code);
    lemma_code_count_add(d1 + d2, d3, code);
    lemma_code_count_add(schema_duplicate_errors(s), e, code);
    lemma_code_count_add(schema_duplicate_errors(s) + e, n, code);
    lemma_code_count_add(schema_duplicate_errors(s) + e + n, v, code);
    lemma_edges_count(s.edge_schemas@, ctx.node_set@, ctx.vector_set@, code);
    lemma_nodes_count(s.node_schemas@, code);
    lemma_vectors_count(s.vector_schemas@, code);
    let ef = edges_fields(s.edge_schemas@);
    let nf = nodes_fields(s.node_schemas@);
    let vf = vectors_fields(s.vector_schemas@);
    lemma_fields_count_add(ef, nf, code);
    lemma_fields_count_add(ef + nf, vf, code);
}

/// Checking the latest schema reports one E107 for each node, edge or vector name that
/// repeats an earlier name of its kind, one E106 for each edge end that names neither a
/// node type nor a vector type, one E204 for each field whose lower-cased name is
/// reserved, one E209 for each field whose type schemas may not use, and nothing else.
pub proof fn law_schema_error_counts(ctx: Ctx)
    ensures
        code_count(schema_errors(ctx), ErrorCode::E107) == repeated_names(node_names(ctx.schema))
            + repeated_names(edge_names(ctx.schema)) + repeated_names(vector_names(ctx.schema)),
        code_count(schema_errors(ctx), ErrorCode::E106) == undeclared_ends(
            ctx.schema.edge_schemas@,
            ctx.node_set@,
            ctx.vector_set@,
        ),
        code_count(schema_errors(ctx), ErrorCode::E204) == schema_fields(ctx.schema).filter(
            reserved_pred(),
        ).len(),
        code_count(schema_errors(ctx), ErrorCode::E209) == schema_fields(ctx.schema).filter(
            invalid_type_pred(),
        ).len(),
        forall|c: ErrorCode|
            c != ErrorCode::E107 && c != ErrorCode::E106 && c != ErrorCode::E204 && c
                != ErrorCode::E209 ==> #[trigger] code_count(schema_errors(ctx), c) == 0,
        code_count(schema_errors(ctx), ErrorCode::E107) + code_count(schema_errors(ctx), ErrorCode::E106)
            + code_count(schema_errors(ctx), ErrorCode::E204) + code_count(schema_errors(ctx), ErrorCode::E209)
            == schema_errors(ctx).len(),
{
    lemma_schema_count(ctx, ErrorCode::E107);
    lemma_schema_count(ctx, ErrorCode::E106);
    lemma_schema_count(ctx, ErrorCode::E204);
    lemma_schema_count(ctx, ErrorCode::E209);
    assert forall|c: ErrorCode|
        c != ErrorCode::E107 && c != ErrorCode::E106 && c != ErrorCode::E204 && c
            != ErrorCode::E209 implies #[trigger] code_count(schema_errors(ctx), c) == 0 by {
        lemma_schema_count(ctx, c);
    }
    lemma_counts_cover(schema_errors(ctx));
}

proof fn lemma_counts_cover(ds: Seq<DiagnosticView>)
    requires
        forall|c: ErrorCode|
            c != ErrorCode::E107 && c != ErrorCode::E106 && c != ErrorCode::E204 && c
                != ErrorCode::E209 ==> #[trigger] code_count(ds, c) == 0,
    ensures
        code_count(ds, ErrorCode::E107) + code_count(ds, ErrorCode::E106) + code_count(ds, ErrorCode::E204)
            + code_count(ds, ErrorCode::E209) == ds.len(),
    decreases ds.len(),
{
    if ds.len() > 0 {
        let c = ds.last().1;
        assert(code_count(ds, c) > 0);
        assert forall|c2: ErrorCode|
            c2 != ErrorCode::E107 && c2 != ErrorCode::E106 && c2 != ErrorCode::E204 && c2
                != ErrorCode::E209 implies #[trigger] code_count(ds.drop_last(), c2) == 0 by {
            assert(code_count(ds, c2) == 0);
        }
        lemma_counts_cover(ds.drop_last());
    }
}

} // verus!
