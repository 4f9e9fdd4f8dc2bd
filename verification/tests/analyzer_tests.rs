use std::collections::HashMap;
use helix_db::analyzer::query_validation::validate_parameter_types;
use helix_db::analyzer::traversal_validation::{validate_start_node, validate_traversal};
use helix_db::analyzer::infer_expr_type::infer_expr_type;
use helix_db::analyzer::return_values::{analyze_return_expr, process_return_object};
use helix_db::analyzer::types::ReturnType;
use helix_db::generator::return_values::{ReturnValue, ReturnValueExpr};
use helix_db::analyzer::types::{
    AddEdge, Aggregate, BM25Search, EdgeConnection, Value, ValueType, Expression, ExpressionType, StepType, Traversal as ParsedTraversal,
    TraversalStep,
};
use helix_db::generator::bool_ops::BoExp;
use helix_db::generator::statements::Statement;
use helix_db::generator::traversal_steps::{Where, WhereRef};
use helix_db::analyzer::graph_step_validation::apply_graph_step;
use helix_db::analyzer::schema_methods::{
    build_field_lookups, check_duplicate_schema_definitions, check_schema,
    is_valid_schema_field_type, SchemaVersionMap,
};
use helix_db::analyzer::str_map::StrMap;
use helix_db::analyzer::types::{
    Ctx, EdgeSchema, Embed, ErrorCode, EvaluatesToNumber, EvaluatesToNumberType, EvaluatesToString,
    Field, FieldPrefix, FieldType, GraphStep, GraphStepType, IdType, Loc, NodeSchema, Output,
    Parameter, Query, Schema, SearchVector, ShortestPathStep, Source, StartNode, Type, VectorData,
    VectorSchema,
};
use helix_db::analyzer::utils::{
    field_exists_on_item_type, gen_id_access_or_param, gen_identifier_or_param,
    gen_property_access, get_field_type_from_item_fields, get_singular_type, is_in_scope,
    is_param, is_valid_identifier, type_in_scope, validate_field_name_existence_for_item_type,
    Variable, VariableAccess,
};
use helix_db::generator::queries::Query as GeneratedQuery;
use helix_db::generator::source_steps::SourceStep;
use helix_db::generator::traversal_steps::{ShouldCollect, Step, Traversal, TraversalType};
use helix_db::generator::utils::{GenRef, GeneratedValue, Separator};

fn at(start: usize) -> Loc {
    Loc { start, end: start + 1 }
}

fn field(name: &str, field_type: FieldType, start: usize) -> Field {
    Field { prefix: FieldPrefix::Empty, name: name.to_string(), field_type, loc: at(start) }
}

fn node(name: &str, fields: Vec<Field>) -> NodeSchema {
    NodeSchema { name: (at(0), name.to_string()), fields, loc: at(0) }
}

fn edge(name: &str, from: &str, to: &str, properties: Option<Vec<Field>>) -> EdgeSchema {
    EdgeSchema {
        name: (at(10), name.to_string()),
        from: (at(11), from.to_string()),
        to: (at(12), to.to_string()),
        properties,
        loc: at(10),
    }
}

fn vector(name: &str, fields: Vec<Field>) -> VectorSchema {
    VectorSchema { name: name.to_string(), fields, loc: at(20) }
}

/// Users follow users; users write posts; documents are vectors.
fn sample_schema(version: usize) -> Schema {
    Schema {
        version: (at(0), version),
        node_schemas: vec![
            node("User", vec![field("name", FieldType::String, 1), field("age", FieldType::U32, 2)]),
            node("Post", vec![field("title", FieldType::String, 3)]),
        ],
        edge_schemas: vec![
            edge("Follows", "User", "User", None),
            edge("Wrote", "User", "Post", Some(vec![field("at", FieldType::Date, 4)])),
            edge("Describes", "Doc", "Post", None),
        ],
        vector_schemas: vec![vector("Doc", vec![field("text", FieldType::String, 5)])],
        loc: at(0),
    }
}

fn ctx_for(schema: Schema) -> Ctx {
    let lookups = build_field_lookups(&Source { schemas: vec![sample_schema(1)] }).get_latest();
    let node_set = schema.node_schemas.iter().map(|n| n.name.1.clone()).collect();
    let vector_set = schema.vector_schemas.iter().map(|v| v.name.clone()).collect();
    let mut edge_map = StrMap::new();
    for e in &schema.edge_schemas {
        edge_map.insert(
            e.name.1.clone(),
            edge(&e.name.1, &e.from.1, &e.to.1, None),
        );
    }
    Ctx {
        schema,
        node_set,
        vector_set,
        edge_map,
        node_fields: lookups.0,
        edge_fields: lookups.1,
        vector_fields: lookups.2,
        diagnostics: vec![],
        output: Output { nodes: vec![], edges: vec![], vectors: vec![] },
    }
}

fn param(name: &str, is_optional: bool) -> Parameter {
    Parameter {
        name: (at(30), name.to_string()),
        param_type: (at(31), FieldType::String),
        is_optional,
        loc: at(30),
    }
}

fn query() -> Query {
    Query {
        name: "get_user".to_string(),
        parameters: vec![param("user_id", false), param("name", true)],
        loc: at(40),
    }
}

fn code_of(v: &GeneratedValue) -> String {
    v.to_code()
}

fn empty_traversal() -> Traversal {
    Traversal::default()
}

fn generated_query() -> GeneratedQuery {
    GeneratedQuery {
        name: "get_user".to_string(),
        embedding_model_to_use: Some("\"text-embedding-3-small\"".to_string()),
        hoisted_embedding_calls: vec![],
        is_mut: false,
        return_values: vec![],
    }
}

fn last_step_code(t: &Traversal) -> String {
    match t.steps.last() {
        Some(Separator::Period(s)) => s.to_code(),
        _ => panic!("expected a step after a period"),
    }
}

#[test]
fn reserved_names_are_not_identifiers() {
    let mut ctx = ctx_for(sample_schema(1));
    let q = query();
    assert!(!is_valid_identifier(&mut ctx, &q, at(5), "true"));
    assert!(!is_valid_identifier(&mut ctx, &q, at(6), "U128"));
    assert!(is_valid_identifier(&mut ctx, &q, at(7), "user"));
    assert_eq!(ctx.diagnostics.len(), 2);
    assert_eq!(ctx.diagnostics[0].code, ErrorCode::E105);
    assert_eq!(ctx.diagnostics[0].details, vec!["true".to_string()]);
    assert_eq!(ctx.diagnostics[0].query.as_deref(), Some("get_user"));
    assert_eq!(ctx.diagnostics[1].loc, at(6));
}

#[test]
fn parameters_are_found_by_name() {
    let q = query();
    assert!(is_param(&q, "name").unwrap().is_optional);
    assert!(!is_param(&q, "user_id").unwrap().is_optional);
    assert!(is_param(&q, "other").is_none());
}

#[test]
fn identifiers_and_parameters_become_code() {
    let q = query();
    let v = gen_identifier_or_param(&q, "user_id", true, false);
    assert!(matches!(v, GeneratedValue::Parameter(GenRef::Ref(_))));
    assert_eq!(code_of(&v), "&data.user_id");
    let v = gen_identifier_or_param(&q, "name", true, false);
    assert!(matches!(v, GeneratedValue::Parameter(GenRef::Std(_))));
    assert_eq!(
        code_of(&v),
        "data.name.as_ref().ok_or_else(|| GraphError::ParamNotFound(\"name\"))?"
    );
    let v = gen_identifier_or_param(&q, "user_id", false, true);
    assert_eq!(code_of(&v), "data.user_id.clone()");
    let v = gen_identifier_or_param(&q, "name", false, true);
    assert_eq!(
        code_of(&v),
        "data.name.as_ref().ok_or_else(|| GraphError::ParamNotFound(\"name\"))?.clone()"
    );
    let v = gen_identifier_or_param(&q, "users", true, false);
    assert!(matches!(v, GeneratedValue::Identifier(GenRef::Ref(_))));
    assert_eq!(code_of(&v), "&users");
    let v = gen_identifier_or_param(&q, "users", false, true);
    assert_eq!(code_of(&v), "users.clone()");
}

#[test]
fn id_access_becomes_code() {
    let q = query();
    let v = gen_id_access_or_param(&q, "user_id");
    assert!(matches!(v, GeneratedValue::Parameter(GenRef::DeRef(_))));
    assert_eq!(code_of(&v), "*data.user_id");
    let v = gen_id_access_or_param(&q, "name");
    assert_eq!(
        code_of(&v),
        "*data.name.as_ref().ok_or_else(|| GraphError::ParamNotFound(\"name\"))?"
    );
    let v = gen_id_access_or_param(&q, "user");
    assert!(matches!(v, GeneratedValue::Identifier(GenRef::Std(_))));
    assert_eq!(code_of(&v), "user.id()");
}

#[test]
fn names_in_scope() {
    let mut ctx = ctx_for(sample_schema(1));
    let q = query();
    let mut scope = StrMap::new();
    scope.insert("u".to_string(), Type::Node(Some("User".to_string())));
    assert!(is_in_scope(&scope, "u"));
    assert!(!is_in_scope(&scope, "v"));
    let t = type_in_scope(&mut ctx, &q, at(3), &scope, "u");
    assert!(matches!(t, Some(Type::Node(Some(ref n))) if n == "User"));
    assert!(ctx.diagnostics.is_empty());
    assert!(type_in_scope(&mut ctx, &q, at(4), &scope, "v").is_none());
    assert_eq!(ctx.diagnostics.len(), 1);
    assert_eq!(ctx.diagnostics[0].code, ErrorCode::E301);
    assert_eq!(ctx.diagnostics[0].details, vec!["v".to_string()]);
}

#[test]
fn item_types_know_their_fields() {
    let ctx = ctx_for(sample_schema(1));
    let user = Type::Node(Some("User".to_string()));
    assert!(user.item_fields_contains_key(&ctx, "name"));
    assert!(user.item_fields_contains_key(&ctx, "ID"));
    assert!(user.item_fields_contains_key(&ctx, "label"));
    assert!(!user.item_fields_contains_key(&ctx, "title"));
    assert!(!user.item_fields_contains_key(&ctx, "from_node"));
    let wrote = Type::Edges(Some("Wrote".to_string()));
    assert!(wrote.item_fields_contains_key(&ctx, "at"));
    assert!(wrote.item_fields_contains_key(&ctx, "from_node"));
    assert!(!wrote.item_fields_contains_key(&ctx, "data"));
    let doc = Type::Vector(Some("Doc".to_string()));
    assert!(doc.item_fields_contains_key(&ctx, "score"));
    assert!(doc.item_fields_contains_key(&ctx, "text"));
    let unknown = Type::Node(Some("Ghost".to_string()));
    assert!(unknown.item_fields_contains_key(&ctx, "anything"));
    let (found, name) = user.item_fields_contains_key_with_type(&ctx, "age");
    assert!(found);
    assert_eq!(name, "User");
}

#[test]
fn item_field_types() {
    let mut ctx = ctx_for(sample_schema(1));
    let user = Type::Node(Some("User".to_string()));
    assert!(matches!(get_field_type_from_item_fields(&mut ctx, &user, "id"), Some(FieldType::Uuid)));
    assert!(matches!(get_field_type_from_item_fields(&mut ctx, &user, "label"), Some(FieldType::String)));
    assert!(matches!(get_field_type_from_item_fields(&mut ctx, &user, "age"), Some(FieldType::U32)));
    assert!(get_field_type_from_item_fields(&mut ctx, &user, "title").is_none());
    let wrote = Type::Edge(Some("Wrote".to_string()));
    assert!(matches!(wrote.get_field_type_from_item_fields(&ctx, "to_node"), Some(FieldType::Uuid)));
    assert!(matches!(wrote.get_field_type_from_item_fields(&ctx, "at"), Some(FieldType::Date)));
    let doc = Type::Vectors(Some("Doc".to_string()));
    assert!(matches!(
        doc.get_field_type_from_item_fields(&ctx, "data"),
        Some(FieldType::Array(ref inner)) if matches!(**inner, FieldType::F64)
    ));
    assert!(matches!(doc.get_field_type_from_item_fields(&ctx, "score"), Some(FieldType::F64)));
    let ghost = Type::Node(Some("Ghost".to_string()));
    assert!(ghost.get_field_type_from_item_fields(&ctx, "id").is_none());
}

#[test]
fn missing_fields_are_reported() {
    let mut ctx = ctx_for(sample_schema(1));
    let q = query();
    let l1 = at(50);
    let l2 = at(51);
    field_exists_on_item_type(
        &mut ctx,
        &q,
        Type::Nodes(Some("User".to_string())),
        vec![("name", &l1), ("nickname", &l2), ("id", &l1)],
    );
    assert_eq!(ctx.diagnostics.len(), 1);
    assert_eq!(ctx.diagnostics[0].code, ErrorCode::E202);
    assert_eq!(ctx.diagnostics[0].loc, at(51));
    assert_eq!(
        ctx.diagnostics[0].details,
        vec!["nickname".to_string(), "nodes".to_string(), "User".to_string()]
    );
    let post = Type::Node(Some("Post".to_string()));
    validate_field_name_existence_for_item_type(&mut ctx, &q, at(52), &post, "title");
    assert_eq!(ctx.diagnostics.len(), 1);
    validate_field_name_existence_for_item_type(&mut ctx, &q, at(53), &post, "body");
    assert_eq!(ctx.diagnostics.len(), 2);
    assert_eq!(ctx.diagnostics[1].details[1], "node");
}

#[test]
fn singular_types() {
    assert!(matches!(get_singular_type(Type::Nodes(Some("A".to_string()))), Type::Node(Some(_))));
    assert!(matches!(get_singular_type(Type::Edges(None)), Type::Edge(None)));
    assert!(matches!(get_singular_type(Type::Vectors(None)), Type::Vector(None)));
    assert!(matches!(get_singular_type(Type::Node(None)), Type::Node(None)));
}

#[test]
fn property_access_steps() {
    match gen_property_access("ID") {
        Step::PropertyFetch(g) => assert_eq!(g.to_code(), "\"id\""),
        _ => panic!("expected a property fetch"),
    }
    assert_eq!(gen_property_access("id").to_code(), "check_property(\"id\")");
    assert_eq!(gen_property_access("name").to_code(), "check_property(\"name\")");
}

#[test]
fn variables_and_their_defaults() {
    let v = Some(Variable::new("u".to_string(), Type::Count));
    assert_eq!(v.get_variable_name(), "u");
    assert!(matches!(v.get_variable_ty(), Type::Count));
    let none: Option<Variable> = None;
    assert_eq!(none.get_variable_name(), "var");
    assert!(matches!(none.get_variable_ty(), Type::Unknown));
}

#[test]
fn field_lookups_have_builtin_fields() {
    let mut s = sample_schema(1);
    s.node_schemas[0].fields.push(field("id", FieldType::String, 9));
    let map = build_field_lookups(&Source { schemas: vec![s] });
    let (nodes, edges, vectors) = map.get_latest();
    let user = nodes.get("User").unwrap();
    assert!(matches!(user.get("id").unwrap().field_type, FieldType::Uuid));
    assert_eq!(user.get("id").unwrap().loc, Loc::empty());
    assert!(matches!(user.get("label").unwrap().field_type, FieldType::String));
    assert!(matches!(user.get("age").unwrap().field_type, FieldType::U32));
    let follows = edges.get("Follows").unwrap();
    assert!(follows.contains_key("from_node"));
    assert!(follows.contains_key("to_node"));
    assert!(!follows.contains_key("at"));
    let doc = vectors.get("Doc").unwrap();
    assert!(matches!(doc.get("score").unwrap().field_type, FieldType::F64));
    assert!(doc.contains_key("data"));
    assert!(doc.contains_key("text"));
}

#[test]
fn latest_version_wins() {
    let mut newer = sample_schema(2);
    newer.node_schemas.push(node("Comment", vec![]));
    let map = build_field_lookups(&Source { schemas: vec![newer, sample_schema(1)] });
    assert_eq!(map.inner().len(), 2);
    let (nodes, _, _) = map.get_latest();
    assert!(nodes.contains_key("Comment"));
    let empty = SchemaVersionMap(HashMap::new());
    let (nodes, edges, vectors) = empty.get_latest();
    assert!(!nodes.contains_key("User"));
    assert!(edges.entries.is_empty() && vectors.entries.is_empty());
}

#[test]
fn schema_field_types() {
    assert!(is_valid_schema_field_type(&FieldType::String));
    assert!(is_valid_schema_field_type(&FieldType::Array(Box::new(FieldType::I64))));
    assert!(!is_valid_schema_field_type(&FieldType::Identifier("User".to_string())));
    assert!(!is_valid_schema_field_type(&FieldType::Object(vec![])));
    assert!(!is_valid_schema_field_type(&FieldType::Array(Box::new(FieldType::Object(vec![])))));
}

#[test]
fn duplicate_definitions_are_reported() {
    let mut s = sample_schema(1);
    s.node_schemas.push(node("User", vec![]));
    s.vector_schemas.push(vector("Doc", vec![]));
    let mut ctx = ctx_for(s);
    check_duplicate_schema_definitions(&mut ctx);
    assert_eq!(ctx.diagnostics.len(), 2);
    assert_eq!(ctx.diagnostics[0].code, ErrorCode::E107);
    assert_eq!(ctx.diagnostics[0].details, vec!["duplicate node definition `User`".to_string()]);
    assert_eq!(
        ctx.diagnostics[0].hint.as_deref(),
        Some("rename the node or remove the duplicate definition")
    );
    assert_eq!(ctx.diagnostics[1].details, vec!["duplicate vector definition `Doc`".to_string()]);
    assert!(ctx.diagnostics[1].query.is_none());
}

#[test]
fn schema_checks_report_in_order() {
    let mut s = sample_schema(1);
    s.edge_schemas.push(edge(
        "Haunts",
        "Ghost",
        "User",
        Some(vec![field("From_Node", FieldType::String, 60)]),
    ));
    s.node_schemas[1].fields.push(field("Label", FieldType::String, 61));
    s.node_schemas[1].fields.push(field("author", FieldType::Identifier("User".to_string()), 62));
    s.vector_schemas[0].fields.push(field("score", FieldType::Object(vec![]), 63));
    let mut ctx = ctx_for(s);
    check_schema(&mut ctx);
    let codes: Vec<ErrorCode> = ctx.diagnostics.iter().map(|d| d.code).collect();
    assert_eq!(
        codes,
        vec![ErrorCode::E106, ErrorCode::E204, ErrorCode::E204, ErrorCode::E209, ErrorCode::E204, ErrorCode::E209]
    );
    assert_eq!(
        ctx.diagnostics[0].details,
        vec!["use of undeclared node or vector type `Ghost` in schema".to_string()]
    );
    assert_eq!(
        ctx.diagnostics[0].hint.as_deref(),
        Some("declare `Ghost` in the schema before using it in an edge")
    );
    assert_eq!(ctx.diagnostics[1].details, vec!["field `From_Node` is a reserved field name".to_string()]);
    assert_eq!(ctx.diagnostics[2].loc, at(61));
    assert_eq!(ctx.diagnostics[3].details, vec!["invalid type in schema field: `author`".to_string()]);
    assert_eq!(
        ctx.diagnostics[3].hint.as_deref(),
        Some("use built-in types only (String, U32, etc.)")
    );
    assert_eq!(ctx.diagnostics[4].loc, at(63));
    assert_eq!(ctx.output.edges.len(), 4);
    assert_eq!(ctx.output.nodes.len(), 2);
    assert_eq!(ctx.output.vectors.len(), 1);
    assert_eq!(ctx.output.edges[3].name.1, "Haunts");
}

#[test]
fn out_step_moves_to_neighbour_nodes() {
    let mut ctx = ctx_for(sample_schema(1));
    let q = query();
    let mut t = empty_traversal();
    let mut scope = StrMap::new();
    let mut gq = generated_query();
    let gs = GraphStep { step: GraphStepType::Out("Wrote".to_string()), loc: at(70), span: "Out<Wrote>".to_string() };
    let r = apply_graph_step(&mut ctx, &gs, &Type::Node(Some("User".to_string())), &q, &mut t, &mut scope, &mut gq);
    assert!(matches!(r, Some(Type::Nodes(Some(ref n))) if n == "Post"));
    assert_eq!(last_step_code(&t), "out(\"Wrote\",&EdgeType::Node)");
    assert!(matches!(t.should_collect, ShouldCollect::ToVec));
    assert!(ctx.diagnostics.is_empty());
}

#[test]
fn in_step_reaches_vectors_and_checks_the_end() {
    let mut ctx = ctx_for(sample_schema(1));
    let q = query();
    let mut t = empty_traversal();
    let mut scope = StrMap::new();
    let mut gq = generated_query();
    let gs = GraphStep { step: GraphStepType::In("Describes".to_string()), loc: at(71), span: "In<Describes>".to_string() };
    let r = apply_graph_step(&mut ctx, &gs, &Type::Nodes(Some("Post".to_string())), &q, &mut t, &mut scope, &mut gq);
    assert!(matches!(r, Some(Type::Vectors(Some(ref n))) if n == "Doc"));
    assert_eq!(last_step_code(&t), "in_(\"Describes\",&EdgeType::Vec)");
    let r = apply_graph_step(&mut ctx, &gs, &Type::Node(Some("User".to_string())), &q, &mut t, &mut scope, &mut gq);
    assert!(r.is_none());
    assert_eq!(ctx.diagnostics.len(), 1);
    assert_eq!(ctx.diagnostics[0].code, ErrorCode::E207);
    assert_eq!(
        ctx.diagnostics[0].details,
        vec!["Describes".to_string(), "node".to_string(), "User".to_string()]
    );
}

#[test]
fn unknown_edge_adds_no_step() {
    let mut ctx = ctx_for(sample_schema(1));
    let q = query();
    let mut t = empty_traversal();
    let mut scope = StrMap::new();
    let mut gq = generated_query();
    let gs = GraphStep { step: GraphStepType::Out("Likes".to_string()), loc: at(72), span: "Out<Likes>".to_string() };
    let r = apply_graph_step(&mut ctx, &gs, &Type::Node(Some("User".to_string())), &q, &mut t, &mut scope, &mut gq);
    assert!(r.is_none());
    assert!(t.steps.is_empty());
    assert_eq!(ctx.diagnostics[0].code, ErrorCode::E102);
    assert_eq!(ctx.diagnostics[0].details, vec!["Likes".to_string()]);
}

#[test]
fn edge_steps_and_their_ends() {
    let mut ctx = ctx_for(sample_schema(1));
    let q = query();
    let mut t = empty_traversal();
    let mut scope = StrMap::new();
    let mut gq = generated_query();
    let out_e = GraphStep { step: GraphStepType::OutE("Follows".to_string()), loc: at(73), span: "OutE<Follows>".to_string() };
    let r = apply_graph_step(&mut ctx, &out_e, &Type::Node(Some("User".to_string())), &q, &mut t, &mut scope, &mut gq);
    assert!(matches!(r, Some(Type::Edges(Some(ref n))) if n == "Follows"));
    assert_eq!(last_step_code(&t), "out_e(\"Follows\")");
    let to_n = GraphStep { step: GraphStepType::ToN, loc: at(74), span: "ToN".to_string() };
    let r = apply_graph_step(&mut ctx, &to_n, &Type::Edge(Some("Follows".to_string())), &q, &mut t, &mut scope, &mut gq);
    assert!(matches!(r, Some(Type::Node(Some(ref n))) if n == "User"));
    assert!(matches!(t.should_collect, ShouldCollect::ToObj));
    assert_eq!(last_step_code(&t), "to_n()");
    let from_v = GraphStep { step: GraphStepType::FromV, loc: at(75), span: "FromV".to_string() };
    let r = apply_graph_step(&mut ctx, &from_v, &Type::Edges(Some("Follows".to_string())), &q, &mut t, &mut scope, &mut gq);
    assert!(matches!(r, Some(Type::Vectors(Some(ref n))) if n == "User"));
    assert_eq!(ctx.diagnostics.len(), 1);
    assert_eq!(ctx.diagnostics[0].code, ErrorCode::E625);
    assert_eq!(ctx.diagnostics[0].details, vec!["Follows".to_string()]);
    assert_eq!(t.steps.len(), 3);
}

#[test]
fn step_that_does_not_apply_is_illegal() {
    let mut ctx = ctx_for(sample_schema(1));
    let q = query();
    let mut t = empty_traversal();
    let mut scope = StrMap::new();
    let mut gq = generated_query();
    let gs = GraphStep { step: GraphStepType::FromN, loc: at(76), span: "FromN".to_string() };
    let r = apply_graph_step(&mut ctx, &gs, &Type::Node(Some("User".to_string())), &q, &mut t, &mut scope, &mut gq);
    assert!(r.is_none());
    assert!(t.steps.is_empty());
    assert_eq!(ctx.diagnostics[0].code, ErrorCode::E601);
    assert_eq!(ctx.diagnostics[0].details, vec!["FromN".to_string()]);
}

#[test]
fn shortest_path_steps() {
    let mut ctx = ctx_for(sample_schema(1));
    let q = query();
    let mut t = empty_traversal();
    let mut scope = StrMap::new();
    let mut gq = generated_query();
    let none = GraphStep {
        step: GraphStepType::ShortestPath(ShortestPathStep { type_arg: None, from: None, to: None, loc: at(77) }),
        loc: at(77),
        span: "ShortestPath".to_string(),
    };
    let r = apply_graph_step(&mut ctx, &none, &Type::Nodes(None), &q, &mut t, &mut scope, &mut gq);
    assert!(r.is_none());
    assert_eq!(
        ctx.diagnostics[0].details,
        vec!["ShortestPath requires at least one of 'from' or 'to' to be specified".to_string()]
    );
    let to = GraphStep {
        step: GraphStepType::ShortestPath(ShortestPathStep {
            type_arg: Some("Follows".to_string()),
            from: None,
            to: Some(IdType::Identifier { value: "target".to_string(), loc: at(78) }),
            loc: at(78),
        }),
        loc: at(78),
        span: "ShortestPath<Follows>(to: target)".to_string(),
    };
    let r = apply_graph_step(&mut ctx, &to, &Type::Node(Some("User".to_string())), &q, &mut t, &mut scope, &mut gq);
    assert!(matches!(r, Some(Type::Unknown)));
    assert_eq!(last_step_code(&t), "shortest_path(Some(\"Follows\"), None, Some(&data.target))");
}

#[test]
fn vector_search_with_literal_vector() {
    let mut ctx = ctx_for(sample_schema(1));
    let q = query();
    let mut t = empty_traversal();
    let mut scope = StrMap::new();
    let mut gq = generated_query();
    let gs = GraphStep {
        step: GraphStepType::SearchVector(SearchVector { pre_filter: None,
            vector_type: Some("Doc".to_string()),
            data: Some(VectorData::Vector(vec!["0.5".to_string(), "1.25".to_string()])),
            k: Some(EvaluatesToNumber { value: EvaluatesToNumberType::I32(-3), loc: at(80) }),
            loc: at(80),
        }),
        loc: at(80),
        span: "SearchV".to_string(),
    };
    let r = apply_graph_step(&mut ctx, &gs, &Type::Vectors(Some("Doc".to_string())), &q, &mut t, &mut scope, &mut gq);
    assert!(matches!(r, Some(Type::Vectors(Some(ref n))) if n == "Doc"));
    assert_eq!(last_step_code(&t), "brute_force_search_v(&[0.5,1.25], -3)");
    assert!(ctx.diagnostics.is_empty());
}

#[test]
fn vector_search_with_embedding_and_problems() {
    let mut ctx = ctx_for(sample_schema(1));
    let q = query();
    let mut t = empty_traversal();
    let mut scope = StrMap::new();
    let mut gq = generated_query();
    let gs = GraphStep {
        step: GraphStepType::SearchVector(SearchVector { pre_filter: None,
            vector_type: Some("Image".to_string()),
            data: Some(VectorData::Embed(Embed {
                value: EvaluatesToString::Identifier("name".to_string()),
                loc: at(81),
            })),
            k: Some(EvaluatesToNumber { value: EvaluatesToNumberType::F64, loc: at(81) }),
            loc: at(81),
        }),
        loc: at(81),
        span: "SearchV".to_string(),
    };
    let anon = Type::Anonymous(Box::new(Type::Vector(Some("Doc".to_string()))));
    let r = apply_graph_step(&mut ctx, &gs, &anon, &q, &mut t, &mut scope, &mut gq);
    assert!(matches!(r, Some(Type::Vectors(Some(_)))));
    let codes: Vec<ErrorCode> = ctx.diagnostics.iter().map(|d| d.code).collect();
    assert_eq!(codes, vec![ErrorCode::E603, ErrorCode::E103, ErrorCode::E305]);
    assert_eq!(ctx.diagnostics[0].details, vec!["Doc".to_string(), "vector".to_string()]);
    assert_eq!(
        ctx.diagnostics[2].details,
        vec!["k".to_string(), "SearchV".to_string(), "k".to_string()]
    );
    assert_eq!(gq.hoisted_embedding_calls.len(), 1);
    assert_eq!(
        gq.hoisted_embedding_calls[0].to_code(),
        "embed_async!(db, data.name.as_ref().ok_or_else(|| GraphError::ParamNotFound(\"name\"))?, \"text-embedding-3-small\")"
    );
    assert_eq!(last_step_code(&t), "brute_force_search_v(&__internal_embed_data_0, )");
}

#[test]
fn vector_search_with_variables() {
    let mut ctx = ctx_for(sample_schema(1));
    let q = query();
    let mut t = empty_traversal();
    let mut scope = StrMap::new();
    let mut gq = generated_query();
    let gs = GraphStep {
        step: GraphStepType::SearchVector(SearchVector { pre_filter: None,
            vector_type: None,
            data: Some(VectorData::Identifier("vec".to_string())),
            k: Some(EvaluatesToNumber {
                value: EvaluatesToNumberType::Identifier("limit".to_string()),
                loc: at(82),
            }),
            loc: at(82),
        }),
        loc: at(82),
        span: "SearchV".to_string(),
    };
    let r = apply_graph_step(&mut ctx, &gs, &Type::Vector(Some("Doc".to_string())), &q, &mut t, &mut scope, &mut gq);
    assert!(r.is_some());
    assert_eq!(ctx.diagnostics.len(), 1);
    assert_eq!(ctx.diagnostics[0].code, ErrorCode::E301);
    assert_eq!(last_step_code(&t), "brute_force_search_v(&vec, limit.clone())");
    scope.insert("vec".to_string(), Type::Unknown);
    let gs = GraphStep {
        step: GraphStepType::SearchVector(SearchVector { pre_filter: None,
            vector_type: None,
            data: None,
            k: None,
            loc: at(83),
        }),
        loc: at(83),
        span: "SearchV".to_string(),
    };
    apply_graph_step(&mut ctx, &gs, &Type::Vector(Some("Doc".to_string())), &q, &mut t, &mut scope, &mut gq);
    let codes: Vec<ErrorCode> = ctx.diagnostics.iter().map(|d| d.code).collect();
    assert_eq!(codes, vec![ErrorCode::E301, ErrorCode::E305, ErrorCode::E305]);
    assert_eq!(ctx.diagnostics[1].details[0], "vector_data");
}

#[test]
fn parameter_types_must_be_declared() {
    let mut ctx = ctx_for(sample_schema(1));
    let mut q = query();
    q.parameters.push(Parameter {
        name: (at(90), "owner".to_string()),
        param_type: (at(91), FieldType::Identifier("User".to_string())),
        is_optional: false,
        loc: at(90),
    });
    q.parameters.push(Parameter {
        name: (at(92), "link".to_string()),
        param_type: (at(93), FieldType::Identifier("Follows".to_string())),
        is_optional: false,
        loc: at(92),
    });
    q.parameters.push(Parameter {
        name: (at(94), "thing".to_string()),
        param_type: (at(95), FieldType::Identifier("Thing".to_string())),
        is_optional: false,
        loc: at(94),
    });
    q.parameters.push(Parameter {
        name: (at(96), "flag".to_string()),
        param_type: (at(97), FieldType::Identifier("Boolean".to_string())),
        is_optional: false,
        loc: at(96),
    });
    validate_parameter_types(&mut ctx, &q);
    let codes: Vec<ErrorCode> = ctx.diagnostics.iter().map(|d| d.code).collect();
    assert_eq!(codes, vec![ErrorCode::E209, ErrorCode::E105]);
    assert_eq!(ctx.diagnostics[0].details, vec!["Thing".to_string(), "thing".to_string()]);
    assert_eq!(ctx.diagnostics[0].loc, at(95));
    assert_eq!(ctx.diagnostics[1].details, vec!["Boolean".to_string()]);
}

#[test]
fn edge_ends_of_the_wrong_kind_are_reported() {
    let mut ctx = ctx_for(sample_schema(1));
    ctx.edge_map.insert("Embeds".to_string(), edge("Embeds", "User", "Doc", None));
    let q = query();
    let mut t = empty_traversal();
    let mut scope = StrMap::new();
    let mut gq = generated_query();
    let from_n = GraphStep { step: GraphStepType::FromN, loc: at(84), span: "FromN".to_string() };
    let r = apply_graph_step(&mut ctx, &from_n, &Type::Edges(Some("Describes".to_string())), &q, &mut t, &mut scope, &mut gq);
    assert!(matches!(r, Some(Type::Nodes(Some(ref n))) if n == "Doc"));
    let to_n = GraphStep { step: GraphStepType::ToN, loc: at(85), span: "ToN".to_string() };
    apply_graph_step(&mut ctx, &to_n, &Type::Edges(Some("Embeds".to_string())), &q, &mut t, &mut scope, &mut gq);
    let to_v = GraphStep { step: GraphStepType::ToV, loc: at(86), span: "ToV".to_string() };
    let r = apply_graph_step(&mut ctx, &to_v, &Type::Edge(Some("Follows".to_string())), &q, &mut t, &mut scope, &mut gq);
    assert!(matches!(r, Some(Type::Vector(Some(ref n))) if n == "User"));
    let codes: Vec<ErrorCode> = ctx.diagnostics.iter().map(|d| d.code).collect();
    assert_eq!(codes, vec![ErrorCode::E623, ErrorCode::E624, ErrorCode::E626]);
    assert_eq!(ctx.diagnostics[1].details, vec!["Embeds".to_string()]);
    let unknown = GraphStep { step: GraphStepType::FromV, loc: at(87), span: "FromV".to_string() };
    let r = apply_graph_step(&mut ctx, &unknown, &Type::Edges(Some("Nothing".to_string())), &q, &mut t, &mut scope, &mut gq);
    assert!(r.is_none());
    assert_eq!(ctx.diagnostics.len(), 3);
    assert_eq!(t.steps.len(), 4);
}

#[test]
fn field_tables_hold_declared_and_builtin_fields_only() {
    let mut s = sample_schema(1);
    s.node_schemas.push(node("Post", vec![field("body", FieldType::String, 7)]));
    let map = build_field_lookups(&Source { schemas: vec![s] });
    let (nodes, edges, vectors) = map.get_latest();
    assert!(nodes.contains_key("User") && nodes.contains_key("Post") && !nodes.contains_key("Doc"));
    let user = nodes.get("User").unwrap();
    assert_eq!(user.entries.len(), 4);
    let post = nodes.get("Post").unwrap();
    assert_eq!(post.entries.len(), 3);
    assert!(post.contains_key("body"));
    assert!(!post.contains_key("title"));
    assert_eq!(edges.get("Wrote").unwrap().entries.len(), 5);
    assert_eq!(edges.get("Follows").unwrap().entries.len(), 4);
    assert_eq!(vectors.get("Doc").unwrap().entries.len(), 5);
}

#[test]
fn start_from_all_nodes_of_a_type() {
    let mut ctx = ctx_for(sample_schema(1));
    let scope: StrMap<Type> = StrMap::new();
    let mut gq = generated_query();
    let start = StartNode::Node { node_type: "User".to_string(), ids: None };
    let r = validate_start_node(&mut ctx, &start, at(50), &scope, &query(), None, &mut gq);
    assert!(ctx.diagnostics.is_empty());
    assert!(matches!(r.ty, Type::Nodes(Some(ref n)) if n == "User"));
    assert!(matches!(
        r.source_step,
        Some(Separator::Period(SourceStep::NFromType { label: GenRef::Literal(ref l) })) if l == "User"
    ));
    assert!(matches!(r.traversal_type, Some(TraversalType::Ref)));
    assert!(r.should_collect.is_none());
}

#[test]
fn start_from_one_node_by_parameter_id() {
    let mut ctx = ctx_for(sample_schema(1));
    let mut scope: StrMap<Type> = StrMap::new();
    scope.insert("user_id".to_string(), Type::Scalar(FieldType::Uuid));
    let mut gq = generated_query();
    let start = StartNode::Node {
        node_type: "Ghost".to_string(),
        ids: Some(vec![IdType::Identifier { value: "user_id".to_string(), loc: at(51) }]),
    };
    let r = validate_start_node(&mut ctx, &start, at(50), &scope, &query(), None, &mut gq);
    assert_eq!(ctx.diagnostics.len(), 1);
    assert_eq!(ctx.diagnostics[0].code, ErrorCode::E101);
    assert_eq!(ctx.diagnostics[0].details, vec!["Ghost".to_string()]);
    assert_eq!(ctx.diagnostics[0].loc, at(50));
    assert!(matches!(r.ty, Type::Node(Some(ref n)) if n == "Ghost"));
    assert!(matches!(
        r.source_step,
        Some(Separator::Period(SourceStep::NFromID { id: GenRef::Ref(ref i), .. })) if i == "data.user_id"
    ));
    assert!(matches!(r.should_collect, Some(ShouldCollect::ToObj)));
}

#[test]
fn start_from_one_edge_by_literal_id_and_unbound_variable() {
    let mut ctx = ctx_for(sample_schema(1));
    let scope: StrMap<Type> = StrMap::new();
    let mut gq = generated_query();
    let start = StartNode::Edge {
        edge_type: "Wrote".to_string(),
        ids: Some(vec![IdType::Literal { value: "\"e1\"".to_string(), loc: at(52) }]),
    };
    let r = validate_start_node(&mut ctx, &start, at(50), &scope, &query(), None, &mut gq);
    assert!(ctx.diagnostics.is_empty());
    assert!(matches!(r.ty, Type::Edge(Some(ref n)) if n == "Wrote"));
    assert!(matches!(
        r.source_step,
        Some(Separator::Period(SourceStep::EFromID { id: GenRef::Std(ref i), .. })) if i == "\"e1\""
    ));
    let start = StartNode::Vector {
        vector_type: "Doc".to_string(),
        ids: Some(vec![IdType::Identifier { value: "doc".to_string(), loc: at(53) }]),
    };
    let r = validate_start_node(&mut ctx, &start, at(50), &scope, &query(), None, &mut gq);
    assert_eq!(ctx.diagnostics.len(), 1);
    assert_eq!(ctx.diagnostics[0].code, ErrorCode::E301);
    assert_eq!(ctx.diagnostics[0].loc, at(53));
    assert!(matches!(r.ty, Type::Vector(Some(ref n)) if n == "Doc"));
    assert!(matches!(
        r.source_step,
        Some(Separator::Period(SourceStep::VFromID { id: GenRef::Ref(ref i), .. })) if i == "doc"
    ));
}

#[test]
fn start_from_variables_and_enclosing_item() {
    let mut ctx = ctx_for(sample_schema(1));
    let mut scope: StrMap<Type> = StrMap::new();
    scope.insert("users".to_string(), Type::Nodes(Some("User".to_string())));
    let mut gq = generated_query();
    let r = validate_start_node(&mut ctx, &StartNode::Identifier("users".to_string()), at(50), &scope, &query(), None, &mut gq);
    assert!(ctx.diagnostics.is_empty());
    assert!(matches!(r.ty, Type::Nodes(Some(ref n)) if n == "User"));
    assert!(matches!(r.traversal_type, Some(TraversalType::FromVar(GenRef::Std(ref v))) if v == "users"));
    assert!(matches!(r.source_step, Some(Separator::Empty(SourceStep::Identifier(GenRef::Std(ref v)))) if v == "users"));
    let r = validate_start_node(&mut ctx, &StartNode::Identifier("nobody".to_string()), at(54), &scope, &query(), None, &mut gq);
    assert_eq!(ctx.diagnostics.len(), 1);
    assert_eq!(ctx.diagnostics[0].code, ErrorCode::E301);
    assert!(matches!(r.ty, Type::Unknown));
    assert!(r.source_step.is_none() && r.traversal_type.is_none());
    let r = validate_start_node(&mut ctx, &StartNode::Identifier("String".to_string()), at(55), &scope, &query(), None, &mut gq);
    assert_eq!(ctx.diagnostics.len(), 2);
    assert_eq!(ctx.diagnostics[1].code, ErrorCode::E105);
    assert!(matches!(r.ty, Type::Unknown));
    let parent = Some(Type::Edge(Some("Wrote".to_string())));
    let r = validate_start_node(&mut ctx, &StartNode::Anonymous, at(56), &scope, &query(), parent, &mut gq);
    assert_eq!(ctx.diagnostics.len(), 2);
    assert!(matches!(r.ty, Type::Edge(Some(ref n)) if n == "Wrote"));
    assert!(matches!(r.traversal_type, Some(TraversalType::FromVar(GenRef::Std(ref v))) if v == "val"));
    assert!(matches!(r.source_step, Some(Separator::Empty(SourceStep::Anonymous))));
}

#[test]
fn start_from_a_vector_search() {
    let mut ctx = ctx_for(sample_schema(1));
    let scope: StrMap<Type> = StrMap::new();
    let mut gq = generated_query();
    let sv = SearchVector { pre_filter: None,
        vector_type: Some("Doc".to_string()),
        data: Some(VectorData::Embed(Embed {
            value: EvaluatesToString::Identifier("name".to_string()),
            loc: at(57),
        })),
        k: Some(EvaluatesToNumber { value: EvaluatesToNumberType::U32(10), loc: at(58) }),
        loc: at(57),
    };
    let r = validate_start_node(&mut ctx, &StartNode::SearchVector(sv), at(50), &scope, &query(), None, &mut gq);
    assert!(ctx.diagnostics.is_empty());
    assert_eq!(gq.hoisted_embedding_calls.len(), 1);
    assert!(matches!(r.ty, Type::Vectors(Some(ref n)) if n == "Doc"));
    assert!(matches!(r.should_collect, Some(ShouldCollect::ToVec)));
    match r.source_step {
        Some(Separator::Period(SourceStep::SearchVector { label: GenRef::Literal(l), k, .. })) => {
            assert_eq!(l, "Doc");
            assert_eq!(code_of(&k), "10");
        }
        _ => panic!("expected a vector search source step"),
    }
    let sv = SearchVector { pre_filter: None, vector_type: Some("Page".to_string()), data: None, k: None, loc: at(59) };
    let _ = validate_start_node(&mut ctx, &StartNode::SearchVector(sv), at(50), &scope, &query(), None, &mut gq);
    let codes: Vec<ErrorCode> = ctx.diagnostics.iter().map(|d| d.code).collect();
    assert_eq!(codes, vec![ErrorCode::E103, ErrorCode::E305, ErrorCode::E305]);
}


fn graph(step: GraphStepType, start: usize) -> TraversalStep {
    TraversalStep { step: StepType::Node(GraphStep { step, loc: at(start), span: String::new() }), loc: at(start) }
}

fn plain(step: StepType, start: usize) -> TraversalStep {
    TraversalStep { step, loc: at(start) }
}

fn users(steps: Vec<TraversalStep>) -> ParsedTraversal {
    ParsedTraversal {
        start: StartNode::Node { node_type: "User".to_string(), ids: None },
        steps,
        loc: at(90),
    }
}

fn from_item(steps: Vec<TraversalStep>) -> ParsedTraversal {
    ParsedTraversal { start: StartNode::Anonymous, steps, loc: at(95) }
}

fn expr(expr: ExpressionType, start: usize) -> Expression {
    Expression { expr, loc: at(start) }
}

#[test]
fn traversal_counts_the_followed_users() {
    let mut ctx = ctx_for(sample_schema(1));
    let q = query();
    let mut scope = StrMap::new();
    let mut gt = empty_traversal();
    let mut gq = generated_query();
    let tr = users(vec![graph(GraphStepType::Out("Follows".to_string()), 91), plain(StepType::Count, 92)]);
    let ty = validate_traversal(&mut ctx, &tr, &mut scope, &q, None, &mut gt, &mut gq);
    assert!(matches!(ty, Type::Scalar(FieldType::I64)));
    assert!(ctx.diagnostics.is_empty());
    assert_eq!(gt.steps.len(), 2);
    assert!(matches!(gt.steps[1], Separator::Period(Step::Count)));
    assert!(matches!(gt.should_collect, ShouldCollect::No));
    assert!(matches!(gt.traversal_type, TraversalType::Ref));
    assert!(matches!(gt.source_step, Separator::Period(SourceStep::NFromType { label: GenRef::Literal(ref l) }) if l == "User"));
    assert!(!gq.is_mut);
}

#[test]
fn first_step_takes_one_item() {
    let mut ctx = ctx_for(sample_schema(1));
    let q = query();
    let mut scope = StrMap::new();
    let mut gt = empty_traversal();
    let mut gq = generated_query();
    let tr = users(vec![graph(GraphStepType::Out("Wrote".to_string()), 91), plain(StepType::First, 92)]);
    let ty = validate_traversal(&mut ctx, &tr, &mut scope, &q, None, &mut gt, &mut gq);
    assert!(matches!(ty, Type::Node(Some(ref n)) if n == "Post"));
    assert!(matches!(gt.should_collect, ShouldCollect::ToObj));
    assert_eq!(gt.steps.len(), 1);
    assert_eq!(last_step_code(&gt), "out(\"Wrote\",&EdgeType::Node)");
    assert!(ctx.diagnostics.is_empty());
}

#[test]
fn where_step_asks_whether_a_traversal_yields_anything() {
    let mut ctx = ctx_for(sample_schema(1));
    let q = query();
    let mut scope = StrMap::new();
    let mut gt = empty_traversal();
    let mut gq = generated_query();
    let inner = from_item(vec![graph(GraphStepType::Out("Follows".to_string()), 96)]);
    let cond = expr(
        ExpressionType::Exists(Box::new(expr(ExpressionType::Traversal(Box::new(inner)), 94))),
        93,
    );
    let tr = users(vec![plain(StepType::Where(Box::new(cond)), 92)]);
    let ty = validate_traversal(&mut ctx, &tr, &mut scope, &q, None, &mut gt, &mut gq);
    assert!(matches!(ty, Type::Nodes(Some(ref n)) if n == "User"));
    assert!(ctx.diagnostics.is_empty());
    assert_eq!(gt.steps.len(), 1);
    match &gt.steps[0] {
        Separator::Period(Step::Where(Where::Ref(WhereRef { expr: BoExp::Exists(t) }))) => {
            assert!(matches!(t.should_collect, ShouldCollect::No));
            assert!(matches!(t.traversal_type, TraversalType::FromVar(GenRef::Std(ref v)) if v == "val"));
            assert!(matches!(t.source_step, Separator::Empty(SourceStep::Anonymous)));
            assert_eq!(t.steps.len(), 1);
        }
        _ => panic!("expected a filter on an existence question"),
    }
}

#[test]
fn aggregation_after_a_count_replaces_it() {
    let mut ctx = ctx_for(sample_schema(1));
    let q = query();
    let mut scope = StrMap::new();
    let mut gt = empty_traversal();
    let mut gq = generated_query();
    let agg = Aggregate { properties: vec!["name".to_string(), "age".to_string()], loc: at(93) };
    let tr = users(vec![plain(StepType::Count, 92), plain(StepType::Aggregate(agg), 93)]);
    let ty = validate_traversal(&mut ctx, &tr, &mut scope, &q, None, &mut gt, &mut gq);
    assert!(matches!(ty, Type::Aggregate));
    assert!(matches!(gt.should_collect, ShouldCollect::Try));
    assert_eq!(gt.steps.len(), 1);
    match &gt.steps[0] {
        Separator::Period(Step::AggregateBy(ab)) => {
            assert!(ab.should_count);
            assert_eq!(ab.properties.len(), 2);
            assert!(matches!(ab.properties[0], GenRef::Std(ref p) if p == "\"name\".to_string()"));
            assert!(matches!(ab.properties[1], GenRef::Std(ref p) if p == "\"age\".to_string()"));
        }
        _ => panic!("expected an aggregation step"),
    }
}

#[test]
fn adding_an_undeclared_edge_type_is_reported() {
    let mut ctx = ctx_for(sample_schema(1));
    let q = query();
    let mut scope = StrMap::new();
    let mut gt = empty_traversal();
    let mut gq = generated_query();
    let add = AddEdge {
        edge_type: Some("Likes".to_string()),
        fields: None,
        connection: EdgeConnection { from_id: None, to_id: None, loc: at(93) },
        from_identifier: false,
        loc: at(93),
    };
    let tr = users(vec![plain(StepType::AddEdge(add), 93)]);
    let ty = validate_traversal(&mut ctx, &tr, &mut scope, &q, None, &mut gt, &mut gq);
    assert!(matches!(ty, Type::Edges(Some(ref n)) if n == "Likes"));
    assert_eq!(ctx.diagnostics.len(), 1);
    assert_eq!(ctx.diagnostics[0].code, ErrorCode::E102);
    assert_eq!(ctx.diagnostics[0].details, vec!["Likes".to_string()]);
    assert!(gt.steps.is_empty());
}

#[test]
fn literals_and_variables_have_types() {
    let mut ctx = ctx_for(sample_schema(1));
    let q = query();
    let mut scope = StrMap::new();
    scope.insert("user".to_string(), Type::Node(Some("User".to_string())));
    let mut gq = generated_query();
    let (ty, st) = infer_expr_type(&mut ctx, &expr(ExpressionType::IntegerLiteral(-42), 1), &mut scope, &q, None, &mut gq);
    assert!(matches!(ty, Type::Scalar(FieldType::I32)));
    assert!(matches!(st, Some(Statement::Literal(GenRef::Literal(ref s))) if s == "-42"));
    let (ty, st) = infer_expr_type(&mut ctx, &expr(ExpressionType::BooleanLiteral(false), 2), &mut scope, &q, None, &mut gq);
    assert!(matches!(ty, Type::Boolean));
    assert!(matches!(st, Some(Statement::Literal(GenRef::Literal(ref s))) if s == "false"));
    let (ty, st) = infer_expr_type(&mut ctx, &expr(ExpressionType::StringLiteral("hi".to_string()), 3), &mut scope, &q, None, &mut gq);
    assert!(matches!(ty, Type::Scalar(FieldType::String)));
    assert!(matches!(st, Some(Statement::Literal(GenRef::Literal(ref s))) if s == "hi"));
    let (ty, st) = infer_expr_type(&mut ctx, &expr(ExpressionType::Identifier("user".to_string()), 4), &mut scope, &q, None, &mut gq);
    assert!(matches!(ty, Type::Node(Some(ref n)) if n == "User"));
    assert!(matches!(st, Some(Statement::Identifier(GenRef::Std(ref s))) if s == "user"));
    assert!(ctx.diagnostics.is_empty());
    let (ty, st) = infer_expr_type(&mut ctx, &expr(ExpressionType::Identifier("nobody".to_string()), 5), &mut scope, &q, None, &mut gq);
    assert!(matches!(ty, Type::Unknown));
    assert!(st.is_none());
    assert_eq!(ctx.diagnostics.len(), 1);
    assert_eq!(ctx.diagnostics[0].code, ErrorCode::E301);
    let (ty, st) = infer_expr_type(&mut ctx, &expr(ExpressionType::Empty, 6), &mut scope, &q, None, &mut gq);
    assert!(matches!(ty, Type::Unknown));
    assert!(matches!(st, Some(Statement::Empty)));
}

#[test]
fn negating_what_is_not_boolean_is_reported() {
    let mut ctx = ctx_for(sample_schema(1));
    let q = query();
    let mut scope = StrMap::new();
    scope.insert("user".to_string(), Type::Node(Some("User".to_string())));
    let mut gq = generated_query();
    let e = expr(ExpressionType::Not(Box::new(expr(ExpressionType::Identifier("user".to_string()), 8))), 7);
    let (ty, st) = infer_expr_type(&mut ctx, &e, &mut scope, &q, None, &mut gq);
    assert!(matches!(ty, Type::Unknown));
    assert!(st.is_none());
    assert_eq!(ctx.diagnostics.len(), 1);
    assert_eq!(ctx.diagnostics[0].code, ErrorCode::E306);
    assert_eq!(ctx.diagnostics[0].loc, at(8));
    assert_eq!(ctx.diagnostics[0].details, vec!["node".to_string()]);
}

#[test]
fn conjunction_gathers_its_members() {
    let mut ctx = ctx_for(sample_schema(1));
    let q = query();
    let mut scope = StrMap::new();
    let mut gq = generated_query();
    let follows = from_item(vec![graph(GraphStepType::Out("Follows".to_string()), 11)]);
    let wrote = from_item(vec![graph(GraphStepType::Out("Wrote".to_string()), 12)]);
    let e = expr(
        ExpressionType::And(vec![
            expr(ExpressionType::Not(Box::new(expr(
                ExpressionType::Exists(Box::new(expr(ExpressionType::Traversal(Box::new(follows)), 13))),
                14,
            ))), 15),
            expr(ExpressionType::Traversal(Box::new(wrote)), 16),
        ]),
        10,
    );
    let parent = Some(Type::Node(Some("User".to_string())));
    let (ty, st) = infer_expr_type(&mut ctx, &e, &mut scope, &q, parent, &mut gq);
    assert!(matches!(ty, Type::Boolean));
    assert!(ctx.diagnostics.is_empty());
    match st {
        Some(Statement::BoExp(BoExp::And(v))) => {
            assert_eq!(v.len(), 2);
            match &v[0] {
                BoExp::Exists(t) => assert!(matches!(t.should_collect, ShouldCollect::No)),
                _ => panic!("a negated existence question loses its negation in a combination"),
            }
            match &v[1] {
                BoExp::Expr(t) => assert!(matches!(t.should_collect, ShouldCollect::ToVec)),
                _ => panic!("a traversal gives its value"),
            }
        }
        _ => panic!("expected a conjunction"),
    }
}

#[test]
fn lists_check_their_members() {
    let mut ctx = ctx_for(sample_schema(1));
    let q = query();
    let mut scope = StrMap::new();
    let mut gq = generated_query();
    let e = expr(
        ExpressionType::ArrayLiteral(vec![
            expr(ExpressionType::IntegerLiteral(1), 21),
            expr(ExpressionType::IntegerLiteral(2), 22),
        ]),
        20,
    );
    let (ty, st) = infer_expr_type(&mut ctx, &e, &mut scope, &q, None, &mut gq);
    assert!(matches!(ty, Type::Array(ref t) if matches!(**t, Type::Scalar(FieldType::I32))));
    assert!(matches!(st, Some(Statement::Array(ref v)) if v.len() == 2));
    assert!(ctx.diagnostics.is_empty());
    let e = expr(
        ExpressionType::ArrayLiteral(vec![
            expr(ExpressionType::IntegerLiteral(1), 24),
            expr(ExpressionType::BooleanLiteral(true), 25),
        ]),
        23,
    );
    let (ty, st) = infer_expr_type(&mut ctx, &e, &mut scope, &q, None, &mut gq);
    assert!(matches!(ty, Type::Array(_)));
    assert!(matches!(st, Some(Statement::Array(ref v)) if v.len() == 2));
    assert_eq!(ctx.diagnostics.len(), 1);
    assert_eq!(ctx.diagnostics[0].code, ErrorCode::E306);
    assert_eq!(ctx.diagnostics[0].loc, at(25));
    let e = expr(
        ExpressionType::ArrayLiteral(vec![
            expr(ExpressionType::Identifier("missing".to_string()), 27),
            expr(ExpressionType::IntegerLiteral(3), 28),
        ]),
        26,
    );
    let (ty, st) = infer_expr_type(&mut ctx, &e, &mut scope, &q, None, &mut gq);
    assert!(matches!(ty, Type::Unknown));
    assert!(matches!(st, Some(Statement::Empty)));
    let codes: Vec<ErrorCode> = ctx.diagnostics.iter().map(|d| d.code).collect();
    assert_eq!(codes, vec![ErrorCode::E306, ErrorCode::E301, ErrorCode::E306]);
}

#[test]
fn vector_search_expression_gives_vectors() {
    let mut ctx = ctx_for(sample_schema(1));
    let q = query();
    let mut scope = StrMap::new();
    let mut gq = generated_query();
    let sv = SearchVector {
        pre_filter: None,
        vector_type: Some("Doc".to_string()),
        data: Some(VectorData::Vector(vec!["1.5".to_string()])),
        k: Some(EvaluatesToNumber { value: EvaluatesToNumberType::U8(3), loc: at(31) }),
        loc: at(30),
    };
    let (ty, st) = infer_expr_type(&mut ctx, &expr(ExpressionType::SearchVector(sv), 30), &mut scope, &q, None, &mut gq);
    assert!(matches!(ty, Type::Vectors(Some(ref n)) if n == "Doc"));
    assert!(ctx.diagnostics.is_empty());
    match st {
        Some(Statement::Traversal(t)) => {
            assert!(matches!(t.should_collect, ShouldCollect::ToVec));
            assert!(t.steps.is_empty());
            assert!(matches!(t.source_step, Separator::Period(SourceStep::SearchVector { ref k, .. }) if code_of(k) == "3"));
        }
        _ => panic!("expected a traversal"),
    }
}


#[test]
fn returned_parts_are_built_in_order() {
    let mut ctx = ctx_for(sample_schema(1));
    let q = query();
    let mut scope = StrMap::new();
    scope.insert("user".to_string(), Type::Node(Some("User".to_string())));
    let mut gq = generated_query();
    let rt = ReturnType::Object(vec![
        ("who".to_string(), ReturnType::Expression(expr(ExpressionType::Identifier("user".to_string()), 41))),
        ("n".to_string(), ReturnType::Array(vec![ReturnType::Expression(expr(ExpressionType::IntegerLiteral(7), 42))])),
    ]);
    let r = process_return_object(&mut ctx, &q, &mut scope, &rt, &mut gq);
    assert!(ctx.diagnostics.is_empty());
    match r {
        ReturnValueExpr::Object(v) => {
            assert_eq!(v.len(), 2);
            assert_eq!(v[0].0, "who");
            assert!(matches!(v[0].1, ReturnValueExpr::Identifier(GeneratedValue::Identifier(GenRef::Std(ref s))) if s == "user.clone()"));
            assert_eq!(v[1].0, "n");
            match &v[1].1 {
                ReturnValueExpr::Array(items) => {
                    assert_eq!(items.len(), 1);
                    assert!(matches!(items[0], ReturnValueExpr::Value(GeneratedValue::Literal(GenRef::Literal(ref s))) if s == "7"));
                }
                _ => panic!("expected a list"),
            }
        }
        _ => panic!("expected an object"),
    }
    assert!(gq.return_values.is_empty());
}

#[test]
fn returned_variables_by_their_types() {
    let mut ctx = ctx_for(sample_schema(1));
    let q = query();
    let mut scope = StrMap::new();
    scope.insert("user".to_string(), Type::Node(Some("User".to_string())));
    scope.insert("posts".to_string(), Type::Nodes(Some("Post".to_string())));
    scope.insert("stats".to_string(), Type::Aggregate);
    scope.insert("user_id".to_string(), Type::Scalar(FieldType::String));
    let mut gq = generated_query();
    for (name, start) in [("user", 43), ("posts", 44), ("stats", 45), ("user_id", 46)] {
        let ret = ReturnType::Expression(expr(ExpressionType::Identifier(name.to_string()), start));
        analyze_return_expr(&mut ctx, &q, &mut scope, &mut gq, &ret);
    }
    assert!(ctx.diagnostics.is_empty());
    assert_eq!(gq.return_values.len(), 4);
    assert!(matches!(&gq.return_values[0], ReturnValue::SingleNamed {
        name: GeneratedValue::Literal(GenRef::Literal(n)),
        value: ReturnValueExpr::Identifier(GeneratedValue::Identifier(GenRef::Std(v))),
    } if n == "user" && v == "user.clone()"));
    assert!(matches!(&gq.return_values[1], ReturnValue::Named {
        name: GeneratedValue::Literal(GenRef::Literal(n)),
        value: ReturnValueExpr::Identifier(_),
    } if n == "posts"));
    assert!(matches!(&gq.return_values[2], ReturnValue::Aggregate {
        name: GeneratedValue::Aggregate(GenRef::Literal(n)),
        ..
    } if n == "stats"));
    assert!(matches!(&gq.return_values[3], ReturnValue::NamedLiteral {
        name: GeneratedValue::Literal(GenRef::Literal(n)),
        value: GeneratedValue::Parameter(GenRef::Std(v)),
    } if n == "user_id" && v == "data.user_id.clone()"));
}

#[test]
fn returned_traversals_and_literals() {
    let mut ctx = ctx_for(sample_schema(1));
    let q = query();
    let mut scope = StrMap::new();
    scope.insert("users".to_string(), Type::Nodes(Some("User".to_string())));
    let mut gq = generated_query();
    let from_var = ParsedTraversal { start: StartNode::Identifier("users".to_string()), steps: vec![], loc: at(47) };
    let ret = ReturnType::Expression(expr(ExpressionType::Traversal(Box::new(from_var)), 47));
    analyze_return_expr(&mut ctx, &q, &mut scope, &mut gq, &ret);
    let ret = ReturnType::Expression(expr(ExpressionType::Traversal(Box::new(users(vec![plain(StepType::First, 49)]))), 48));
    analyze_return_expr(&mut ctx, &q, &mut scope, &mut gq, &ret);
    let ret = ReturnType::Expression(expr(ExpressionType::StringLiteral("done".to_string()), 50));
    analyze_return_expr(&mut ctx, &q, &mut scope, &mut gq, &ret);
    assert!(ctx.diagnostics.is_empty());
    assert_eq!(gq.return_values.len(), 3);
    assert!(matches!(&gq.return_values[0], ReturnValue::Named {
        name: GeneratedValue::Literal(GenRef::Literal(n)),
        value: ReturnValueExpr::Traversal(_),
    } if n == "users"));
    assert!(matches!(&gq.return_values[1], ReturnValue::Unnamed { value: ReturnValueExpr::Traversal(t) }
        if matches!(t.should_collect, ShouldCollect::ToObj)));
    assert!(matches!(&gq.return_values[2], ReturnValue::Literal {
        name: GeneratedValue::Literal(GenRef::Literal(a)),
        value: GeneratedValue::Literal(GenRef::Literal(b)),
    } if a == "done" && b == "done"));
    let ret = ReturnType::Expression(expr(ExpressionType::Empty, 51));
    analyze_return_expr(&mut ctx, &q, &mut scope, &mut gq, &ret);
    assert!(gq.return_values.is_empty());
    analyze_return_expr(&mut ctx, &q, &mut scope, &mut gq, &ReturnType::Empty);
    assert!(gq.return_values.is_empty());
}

#[test]
fn checking_only_adds_diagnostics() {
    let mut ctx = ctx_for(sample_schema(1));
    let q = query();
    let mut scope = StrMap::new();
    let mut gq = generated_query();
    let _ = infer_expr_type(&mut ctx, &expr(ExpressionType::Identifier("ghost".to_string()), 60), &mut scope, &q, None, &mut gq);
    assert_eq!(ctx.diagnostics.len(), 1);
    let first = ctx.diagnostics[0].code;
    let nodes_before = ctx.node_set.len();
    let mut gt = empty_traversal();
    let tr = ParsedTraversal {
        start: StartNode::Node { node_type: "Robot".to_string(), ids: None },
        steps: vec![graph(GraphStepType::Out("Follows".to_string()), 62)],
        loc: at(61),
    };
    let _ = validate_traversal(&mut ctx, &tr, &mut scope, &q, None, &mut gt, &mut gq);
    assert!(ctx.diagnostics.len() > 1);
    assert_eq!(ctx.diagnostics[0].code, first);
    assert_eq!(ctx.diagnostics[0].loc, at(60));
    assert_eq!(ctx.diagnostics[1].code, ErrorCode::E101);
    assert_eq!(ctx.node_set.len(), nodes_before);
}


#[test]
fn text_search_gives_nodes() {
    let mut ctx = ctx_for(sample_schema(1));
    let q = query();
    let mut scope = StrMap::new();
    let mut gq = generated_query();
    let b = BM25Search {
        type_arg: Some("Post".to_string()),
        data: Some(ValueType::Literal { value: Value::String("rust".to_string()), loc: at(71) }),
        k: Some(EvaluatesToNumber { value: EvaluatesToNumberType::I64(5), loc: at(72) }),
        loc: at(70),
    };
    let (ty, st) = infer_expr_type(&mut ctx, &expr(ExpressionType::BM25Search(b), 70), &mut scope, &q, None, &mut gq);
    assert!(matches!(ty, Type::Nodes(Some(ref n)) if n == "Post"));
    assert!(ctx.diagnostics.is_empty());
    match st {
        Some(Statement::Traversal(t)) => match t.source_step {
            Separator::Period(SourceStep::SearchBM25 { type_arg: GenRef::Literal(l), query, k }) => {
                assert_eq!(l, "Post");
                assert!(matches!(query, GeneratedValue::Literal(GenRef::Std(ref s)) if s == "rust"));
                assert_eq!(code_of(&k), "5");
            }
            _ => panic!("expected a text search"),
        },
        _ => panic!("expected a traversal"),
    }
    let b = BM25Search {
        type_arg: Some("Robot".to_string()),
        data: Some(ValueType::Identifier { value: "words".to_string(), loc: at(74) }),
        k: Some(EvaluatesToNumber { value: EvaluatesToNumberType::F32, loc: at(75) }),
        loc: at(73),
    };
    let _ = infer_expr_type(&mut ctx, &expr(ExpressionType::BM25Search(b), 73), &mut scope, &q, None, &mut gq);
    let codes: Vec<ErrorCode> = ctx.diagnostics.iter().map(|d| d.code).collect();
    assert_eq!(codes, vec![ErrorCode::E101, ErrorCode::E301, ErrorCode::E305]);
    assert_eq!(ctx.diagnostics[2].details, vec!["k".to_string(), "SearchBM25".to_string(), "k".to_string()]);
}

#[test]
fn vector_search_with_a_pre_filter() {
    let mut ctx = ctx_for(sample_schema(1));
    let q = query();
    let mut scope = StrMap::new();
    let mut gq = generated_query();
    let cond = expr(
        ExpressionType::Exists(Box::new(expr(ExpressionType::Traversal(Box::new(from_item(vec![]))), 82))),
        81,
    );
    let sv = SearchVector {
        pre_filter: Some(Box::new(cond)),
        vector_type: Some("Doc".to_string()),
        data: Some(VectorData::Vector(vec!["0.5".to_string()])),
        k: Some(EvaluatesToNumber { value: EvaluatesToNumberType::U8(2), loc: at(80) }),
        loc: at(80),
    };
    let (ty, st) = infer_expr_type(&mut ctx, &expr(ExpressionType::SearchVector(sv), 80), &mut scope, &q, None, &mut gq);
    assert!(matches!(ty, Type::Vectors(Some(ref n)) if n == "Doc"));
    assert!(ctx.diagnostics.is_empty());
    match st {
        Some(Statement::Traversal(t)) => match t.source_step {
            Separator::Period(SourceStep::SearchVector { pre_filter: Some(v), .. }) => {
                assert_eq!(v.len(), 1);
                match &v[0] {
                    BoExp::Expr(ft) => {
                        assert!(matches!(ft.traversal_type, TraversalType::NestedFrom(GenRef::Std(ref s)) if s == "v"));
                        assert!(matches!(ft.source_step, Separator::Empty(SourceStep::Anonymous)));
                        assert_eq!(ft.steps.len(), 1);
                        assert!(matches!(&ft.steps[0], Separator::Period(Step::Where(Where::Ref(WhereRef {
                            expr: BoExp::Exists(inner),
                        }))) if matches!(inner.should_collect, ShouldCollect::No)));
                    }
                    _ => panic!("expected a nested traversal"),
                }
            }
            _ => panic!("expected a vector search with a pre-filter"),
        },
        _ => panic!("expected a traversal"),
    }
}

#[test]
fn a_repeated_object_key_keeps_its_last_value() {
    let mut ctx = ctx_for(sample_schema(1));
    let q = query();
    let mut scope = StrMap::new();
    let mut gq = generated_query();
    let lit = |n: i32, start: usize| ReturnType::Expression(expr(ExpressionType::IntegerLiteral(n), start));
    let rt = ReturnType::Object(vec![
        ("a".to_string(), lit(1, 90)),
        ("b".to_string(), lit(2, 91)),
        ("a".to_string(), lit(3, 92)),
    ]);
    match process_return_object(&mut ctx, &q, &mut scope, &rt, &mut gq) {
        ReturnValueExpr::Object(v) => {
            assert_eq!(v.len(), 2);
            assert_eq!(v[0].0, "a");
            assert!(matches!(v[0].1, ReturnValueExpr::Value(GeneratedValue::Literal(GenRef::Literal(ref s))) if s == "3"));
            assert_eq!(v[1].0, "b");
            assert!(matches!(v[1].1, ReturnValueExpr::Value(GeneratedValue::Literal(GenRef::Literal(ref s))) if s == "2"));
        }
        _ => panic!("expected an object"),
    }
}
