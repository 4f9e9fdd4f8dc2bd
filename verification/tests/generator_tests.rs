use helix_db::generator::bool_ops::BoExp;
use helix_db::generator::source_steps::SourceStep;
use helix_db::analyzer::types::{IdType, Loc, ValueType};
use helix_db::generator::queries::Query as GeneratedQuery;
use helix_db::generator::traversal_steps::{
    AggregateBy, CodeFragment, GroupBy, In, InE, OrderBy, Out, OutE, Range, SearchVectorStep,
    ShortestPath, ShouldCollect, Step, Traversal, TraversalType, Where, WhereRef,
};
use helix_db::generator::utils::{
    string_from_gen_ref, write_headers, write_properties, write_secondary_indices, EmbedData,
    GenRef, GeneratedType, GeneratedValue, Order, RustType, Separator, VecData,
};

fn std_ref(s: &str) -> GenRef<String> {
    GenRef::Std(s.to_string())
}

fn lit(s: &str) -> GenRef<String> {
    GenRef::Literal(s.to_string())
}

fn frag(s: &str) -> CodeFragment {
    CodeFragment { code: s.to_string() }
}

fn src(s: &str) -> SourceStep {
    SourceStep::Written(frag(s))
}

#[test]
fn gen_ref_source_text() {
    assert_eq!(lit("x").to_code(), "\"x\"");
    assert_eq!(std_ref("x").to_code(), "x");
    assert_eq!(GenRef::Mut("x".to_string()).to_code(), "mut x");
    assert_eq!(GenRef::Ref("x".to_string()).to_code(), "&x");
    assert_eq!(GenRef::RefLT("a".to_string(), "x".to_string()).to_code(), "&'a x");
    assert_eq!(GenRef::DeRef("x".to_string()).to_code(), "*x");
    assert_eq!(GenRef::MutRef("x".to_string()).to_code(), "& mut x");
    assert_eq!(GenRef::MutRefLT("a".to_string(), "x".to_string()).to_code(), "&'a mut x");
    assert_eq!(GenRef::MutDeRef("x".to_string()).to_code(), "mut *x");
    assert_eq!(GenRef::RefLiteral("x".to_string()).to_code(), "ref x");
    assert_eq!(GenRef::<String>::Unknown.to_code(), "");
    assert_eq!(GenRef::<String>::Id("x".to_string()).to_code(), "data.x");
}

#[test]
fn gen_ref_debug_text() {
    assert_eq!(lit("x").debug_string(), "Literal(x)");
    assert_eq!(GenRef::RefLT("a".to_string(), "x".to_string()).debug_string(), "RefLT(a, x)");
    assert_eq!(GenRef::<String>::Unknown.debug_string(), "Unknown");
    assert_eq!(GenRef::<String>::Id("x".to_string()).debug_string(), "String(x)");
}

#[test]
fn gen_ref_inner_value() {
    assert_eq!(GenRef::MutRefLT("a".to_string(), "x".to_string()).inner(), "x");
    assert_eq!(std_ref("y").inner(), "y");
}

#[test]
fn gen_ref_as_string() {
    assert_eq!(string_from_gen_ref(lit("a")), "\"a\"");
    assert_eq!(string_from_gen_ref(std_ref("a")), "\"a\"");
    assert_eq!(string_from_gen_ref(GenRef::Ref("a".to_string())), "\"a\"");
    assert_eq!(string_from_gen_ref(GenRef::Id("a".to_string())), "a");
    assert_eq!(
        string_from_gen_ref(GenRef::Unknown),
        "compile_error!(\"Unknown value in code generation\")"
    );
    assert_eq!(
        string_from_gen_ref(GenRef::Mut("a".to_string())),
        "compile_error!(\"Unsupported GenRef variant in code generation\")"
    );
}

#[test]
fn gen_ref_from_id() {
    let l: GenRef<String> = GenRef::from(IdType::Literal { value: "u1".to_string(), loc: Loc::empty() });
    assert_eq!(l.to_code(), "\"u1\"");
    let i: GenRef<String> =
        GenRef::from(IdType::Identifier { value: "user".to_string(), loc: Loc::empty() });
    assert_eq!(i.to_code(), "data.user");
    let b: GenRef<String> = GenRef::from(IdType::ByIndex {
        index: Box::new(IdType::Identifier { value: "email".to_string(), loc: Loc::empty() }),
        value: Box::new(ValueType::Identifier { value: "e".to_string(), loc: Loc::empty() }),
        loc: Loc::empty(),
    });
    assert_eq!(b.to_code(), "");
}

#[test]
fn embed_names_and_text() {
    assert_eq!(EmbedData::name_from_index(0), "__internal_embed_data_0");
    assert_eq!(EmbedData::name_from_index(12), "__internal_embed_data_12");
    let e = EmbedData {
        data: GeneratedValue::Identifier(GenRef::Ref("text".to_string())),
        model_name: Some("\"m\"".to_string()),
    };
    assert_eq!(e.to_code(), "embed_async!(db, &text, \"m\")");
    let e = EmbedData { data: GeneratedValue::Literal(lit("hi")), model_name: None };
    assert_eq!(e.to_code(), "embed_async!(db, \"hi\")");
}

#[test]
fn values_types_and_orders() {
    assert_eq!(GeneratedValue::Array(std_ref("a, b")).to_code(), "&[a, b]");
    assert_eq!(GeneratedValue::Primitive(std_ref("10")).to_code(), "10");
    assert_eq!(GeneratedValue::Unknown.to_code(), "");
    assert_eq!(GeneratedValue::Literal(lit("a")).debug_string(), "GV: Literal(\"a\")");
    assert_eq!(GeneratedValue::Array(lit("a")).debug_string(), "GV: Array(Literal(a))");
    assert_eq!(GeneratedValue::Unknown.debug_string(), "Unknown");
    assert_eq!(Order::Asc.to_code(), "Asc");
    assert_eq!(Order::Desc.to_code(), "Desc");
    assert_eq!(VecData::Hoisted("v".to_string()).to_code(), "&v");
    assert_eq!(
        VecData::Unknown.to_code(),
        "compile_error!(\"Unknown VecData in code generation\")"
    );
    let t = GeneratedType::Vec(Box::new(GeneratedType::RustType(RustType::Date)));
    assert_eq!(t.to_code(), "Vec<DateTime<Utc>>");
    assert_eq!(GeneratedType::Object(std_ref("User")).to_code(), "User");
}

#[test]
fn generated_value_inner_reference() {
    let v = GeneratedValue::Parameter(std_ref("data.x"));
    assert_eq!(v.inner().to_code(), "data.x");
}

#[test]
fn rust_types_in_rust_and_typescript() {
    assert_eq!(RustType::U64.to_code(), "u64");
    assert_eq!(RustType::Uuid.to_code(), "ID");
    assert_eq!(RustType::Bool.to_code(), "bool");
    assert_eq!(RustType::String.to_ts(), "string");
    assert_eq!(RustType::I32.to_ts(), "number");
    assert_eq!(RustType::F64.to_ts(), "number");
    assert_eq!(RustType::U128.to_ts(), "number");
    assert_eq!(RustType::Bool.to_ts(), "boolean");
    assert_eq!(RustType::Uuid.to_ts(), "string");
    assert_eq!(RustType::Date.to_ts(), "Date");
}

#[test]
fn separators_wrap_their_item() {
    let item = "x".to_string();
    assert_eq!(Separator::Comma(()).wrap(&item), ",\nx");
    assert_eq!(Separator::Semicolon(()).wrap(&item), "x;\n");
    assert_eq!(Separator::Period(()).wrap(&item), "\n.x");
    assert_eq!(Separator::Newline(()).wrap(&item), "\nx");
    assert_eq!(Separator::Empty(()).wrap(&item), "x");
    assert_eq!(*Separator::Newline(5u8).inner(), 5);
}

#[test]
fn properties_text() {
    assert_eq!(write_properties(&None), "None");
    assert_eq!(write_properties(&Some(vec![])), "Some(props! {  })");
    let props = vec![
        ("name".to_string(), GeneratedValue::Literal(lit("Alice"))),
        ("age".to_string(), GeneratedValue::Primitive(std_ref("30"))),
    ];
    assert_eq!(
        write_properties(&Some(props)),
        "Some(props! { \"name\" => \"Alice\", \"age\" => 30 })"
    );
}

#[test]
fn secondary_indices_text() {
    assert_eq!(write_secondary_indices(&None), "None");
    assert_eq!(write_secondary_indices(&Some(vec![])), "Some(&[])");
    assert_eq!(
        write_secondary_indices(&Some(vec!["email".to_string(), "name".to_string()])),
        "Some(&[\"email\", \"name\"])"
    );
}

#[test]
fn headers_text() {
    let h = write_headers();
    assert!(h.starts_with("\n// DEFAULT CODE\n"));
    assert!(h.contains("use heed3::RoTxn;"));
    assert!(h.contains("use chrono::{DateTime, Utc};"));
}

#[test]
fn collect_text() {
    assert_eq!(ShouldCollect::ToVec.to_code(), ".collect_to::<Vec<_>>()");
    assert_eq!(ShouldCollect::ToObj.to_code(), ".collect_to_obj()");
    assert_eq!(ShouldCollect::Try.to_code(), "?");
    assert_eq!(ShouldCollect::No.to_code(), "");
    assert_eq!(ShouldCollect::ToValue.to_code(), ".collect_to_value()");
}

#[test]
fn step_text() {
    assert_eq!(Step::Count.to_code(), "count_to_val()");
    assert_eq!(Step::Dedup.to_code(), "dedup()");
    assert_eq!(Step::FromN.to_code(), "from_n()");
    assert_eq!(Step::ToV.to_code(), "to_v()");
    assert_eq!(Step::PropertyFetch(lit("age")).to_code(), "check_property(\"age\")");
    let out = Step::Out(Out { label: lit("knows"), edge_type: GenRef::Ref("EdgeType::Node".to_string()) });
    assert_eq!(out.to_code(), "out(\"knows\",&EdgeType::Node)");
    let in_ = Step::In(In { label: lit("knows"), edge_type: GenRef::Ref("EdgeType::Vec".to_string()) });
    assert_eq!(in_.to_code(), "in_(\"knows\",&EdgeType::Vec)");
    assert_eq!(Step::OutE(OutE { label: lit("knows") }).to_code(), "out_e(\"knows\")");
    assert_eq!(Step::InE(InE { label: lit("knows") }).to_code(), "in_e(\"knows\")");
    let range = Step::Range(Range {
        start: GeneratedValue::Primitive(std_ref("0")),
        end: GeneratedValue::Primitive(std_ref("10")),
    });
    assert_eq!(range.to_code(), "range(0, 10)");
    let asc = Step::OrderBy(OrderBy { property: lit("age"), order: Order::Asc });
    assert_eq!(asc.to_code(), "order_by_asc(\"age\")");
    let desc = Step::OrderBy(OrderBy { property: lit("age"), order: Order::Desc });
    assert_eq!(desc.to_code(), "order_by_desc(\"age\")");
    assert_eq!(Step::BoolOp(frag("is_gt(5)")).to_code(), "is_gt(5)");
    assert_eq!(Step::Remapping(frag("map(|x| x)")).to_code(), "map(|x| x)");
}

#[test]
fn where_step_text() {
    let w = Step::Where(Where::Ref(WhereRef { expr: BoExp::Written(frag("val.check_property(\"a\")")) }));
    assert_eq!(
        w.to_code(),
        "filter_ref(|val, txn|{\n                if let Ok(val) = val { \n                    Ok(val.check_property(\"a\"))\n                } else {\n                    Ok(false)\n                }\n            })"
    );
}

#[test]
fn grouping_step_text() {
    let g = Step::GroupBy(GroupBy { should_count: true, properties: vec![lit("a"), lit("b")] });
    assert_eq!(g.to_code(), "group_by(&[\"a\",\"b\"], true)");
    let a = Step::AggregateBy(AggregateBy { should_count: false, properties: vec![lit("a")] });
    assert_eq!(a.to_code(), "aggregate_by(&[\"a\"], false)");
    let e = Step::GroupBy(GroupBy { should_count: false, properties: vec![] });
    assert_eq!(e.to_code(), "group_by(&[], false)");
}

#[test]
fn shortest_path_and_search_step_text() {
    let sp = Step::ShortestPath(ShortestPath {
        label: Some(lit("road")),
        from: None,
        to: Some(GenRef::Id("to".to_string())),
    });
    assert_eq!(sp.to_code(), "shortest_path(Some(\"road\"), None, Some(&data.to))");
    let sv = Step::SearchVector(SearchVectorStep {
        vec: VecData::Hoisted("__internal_embed_data_0".to_string()),
        k: GeneratedValue::Primitive(std_ref("10")),
    });
    assert_eq!(sv.to_code(), "brute_force_search_v(&__internal_embed_data_0, 10)");
}

#[test]
fn step_debug_text() {
    assert_eq!(Step::Count.debug_string(), "Count");
    assert_eq!(Step::BoolOp(frag("x")).debug_string(), "Bool");
    assert_eq!(Step::PropertyFetch(lit("a")).debug_string(), "check_property(\"a\")");
    assert_eq!(Step::OutE(OutE { label: lit("k") }).debug_string(), "OutE");
    assert_eq!(TraversalType::Ref.debug_string(), "Ref");
    assert_eq!(TraversalType::FromVar(std_ref("v")).debug_string(), "FromVar");
    assert_eq!(TraversalType::Nested(std_ref("v")).debug_string(), "Nested");
    assert_eq!(TraversalType::Mut.debug_string(), "other");
}

#[test]
fn default_traversal_text() {
    let t = Traversal::default();
    assert_eq!(t.to_code(), "G::new(Arc::clone(&db), &txn).collect_to::<Vec<_>>()");
}

#[test]
fn traversal_text() {
    let t = Traversal {
        traversal_type: TraversalType::Ref,
        source_step: Separator::Period(src("n_from_type(\"person\")")),
        steps: vec![
            Separator::Period(Step::Out(Out {
                label: lit("knows"),
                edge_type: GenRef::Ref("EdgeType::Node".to_string()),
            })),
            Separator::Period(Step::Count),
        ],
        should_collect: ShouldCollect::No,
    };
    assert_eq!(
        t.to_code(),
        "G::new(Arc::clone(&db), &txn)\n.n_from_type(\"person\")\n\n.out(\"knows\",&EdgeType::Node)\n\n.count_to_val()"
    );
}

#[test]
fn nested_and_variable_traversal_text() {
    let nested = Traversal {
        traversal_type: TraversalType::Nested(std_ref("val")),
        source_step: Separator::Empty(src("ignored")),
        steps: vec![Separator::Period(Step::Count)],
        should_collect: ShouldCollect::ToObj,
    };
    assert_eq!(nested.to_code(), "val\n\n.count_to_val().collect_to_obj()");
    let from = Traversal {
        traversal_type: TraversalType::NestedFrom(std_ref("user")),
        source_step: Separator::Empty(src("")),
        steps: vec![],
        should_collect: ShouldCollect::ToVec,
    };
    assert_eq!(
        from.to_code(),
        "G::new_from(Arc::clone(&db), &txn, vec![user.clone()]).collect_to::<Vec<_>>()"
    );
    let var = Traversal {
        traversal_type: TraversalType::FromVar(std_ref("users")),
        source_step: Separator::Empty(src("")),
        steps: vec![],
        should_collect: ShouldCollect::Try,
    };
    assert_eq!(var.to_code(), "G::new_from(Arc::clone(&db), &txn, users.clone())?");
    let m = Traversal {
        traversal_type: TraversalType::Mut,
        source_step: Separator::Period(src("n_from_id(&id)")),
        steps: vec![],
        should_collect: ShouldCollect::No,
    };
    assert_eq!(m.to_code(), "G::new_mut(Arc::clone(&db), &mut txn)\n.n_from_id(&id)");
}

#[test]
fn update_traversal_text() {
    let t = Traversal {
        traversal_type: TraversalType::Update(Some(vec![(
            "name".to_string(),
            GeneratedValue::Literal(lit("Bob")),
        )])),
        source_step: Separator::Period(src("n_from_id(&id)")),
        steps: vec![],
        should_collect: ShouldCollect::No,
    };
    assert_eq!(
        t.to_code(),
        "{let update_tr = G::new(Arc::clone(&db), &txn)\n.n_from_id(&id)\n    .collect_to::<Vec<_>>();G::new_mut_from(Arc::clone(&db), &mut txn, update_tr)\n    .update(Some(props! { \"name\" => \"Bob\" }))\n    .collect_to_obj()}"
    );
}

#[test]
fn traversal_inside_a_value() {
    let inner = Traversal {
        traversal_type: TraversalType::Nested(std_ref("val")),
        source_step: Separator::Empty(src("")),
        steps: vec![Separator::Period(Step::Count)],
        should_collect: ShouldCollect::No,
    };
    let v = GeneratedValue::Traversal(Box::new(inner));
    assert_eq!(v.to_code(), "val\n\n.count_to_val()");
    assert_eq!(v.debug_string(), "GV: Traversal(val\n\n.count_to_val())");
}

#[test]
fn hoisted_embeddings_are_named_by_position() {
    let mut q = GeneratedQuery {
        name: "search".to_string(),
        embedding_model_to_use: None,
        hoisted_embedding_calls: vec![],
        is_mut: false,
        return_values: vec![],
    };
    let a = q.add_hoisted_embed(EmbedData { data: GeneratedValue::Literal(lit("a")), model_name: None });
    let b = q.add_hoisted_embed(EmbedData { data: GeneratedValue::Literal(lit("b")), model_name: None });
    assert_eq!(a, "__internal_embed_data_0");
    assert_eq!(b, "__internal_embed_data_1");
    assert_eq!(q.hoisted_embedding_calls.len(), 2);
}
