//! The data the analyzer works on: source positions, field types, schemas, queries,
//! the types of expressions, diagnostics, and the analysis context.

use vstd::prelude::*;
use super::str_map::{copy_vec, DeepCopy, StrMap};

verus! {

/// Where a construct stands in the source text, as the offsets where it starts and ends.
#[derive(Clone, Copy, Debug, PartialEq, Eq, Structural)]
pub struct Loc {
    pub start: usize,
    pub end: usize,
}

impl Loc {
    /// The position of a construct that the source does not hold.
    pub fn empty() -> (r: Loc)
        ensures
            r == (Loc { start: 0, end: 0 }),
    {
        Loc { start: 0, end: 0 }
    }
}

/// A field's modifier in a schema.
#[derive(Clone, Copy, Debug, PartialEq, Eq, Structural)]
pub enum FieldPrefix {
    Index,
    Optional,
    Empty,
}

/// The declared type of a field or parameter.
pub enum FieldType {
    String,
    Boolean,
    F32,
    F64,
    I8,
    I16,
    I32,
    I64,
    U8,
    U16,
    U32,
    U64,
    U128,
    Uuid,
    Date,
    Array(Box<FieldType>),
    Identifier(String),
    Object(Vec<(String, FieldType)>),
}

/// A field type with its names as character sequences.
pub enum FieldTypeView {
    String,
    Boolean,
    F32,
    F64,
    I8,
    I16,
    I32,
    I64,
    U8,
    U16,
    U32,
    U64,
    U128,
    Uuid,
    Date,
    Array(Box<FieldTypeView>),
    Identifier(Seq<char>),
    Object(Seq<(Seq<char>, FieldTypeView)>),
}

/// The view of a field type.
pub open spec fn field_type_view(t: FieldType) -> FieldTypeView
    decreases t, 0nat,
{
    match t {
        FieldType::String => FieldTypeView::String,
        FieldType::Boolean => FieldTypeView::Boolean,
        FieldType::F32 => FieldTypeView::F32,
        FieldType::F64 => FieldTypeView::F64,
        FieldType::I8 => FieldTypeView::I8,
        FieldType::I16 => FieldTypeView::I16,
        FieldType::I32 => FieldTypeView::I32,
        FieldType::I64 => FieldTypeView::I64,
        FieldType::U8 => FieldTypeView::U8,
        FieldType::U16 => FieldTypeView::U16,
        FieldType::U32 => FieldTypeView::U32,
        FieldType::U64 => FieldTypeView::U64,
        FieldType::U128 => FieldTypeView::U128,
        FieldType::Uuid => FieldTypeView::Uuid,
        FieldType::Date => FieldTypeView::Date,
        FieldType::Array(inner) => FieldTypeView::Array(Box::new(field_type_view(*inner))),
        FieldType::Identifier(name) => FieldTypeView::Identifier(name@),
        FieldType::Object(fields) => FieldTypeView::Object(object_view(fields@, fields@.len())),
    }
}

/// The views of the first `n` members of an object type.
pub open spec fn object_view(s: Seq<(String, FieldType)>, n: nat) -> Seq<(Seq<char>, FieldTypeView)>
    decreases s, n,
{
    if n == 0 || n > s.len() {
        Seq::empty()
    } else {
        object_view(s, (n - 1) as nat).push((s[n - 1].0@, field_type_view(s[n - 1].1)))
    }
}

impl DeepView for FieldType {
    type V = FieldTypeView;

    open spec fn deep_view(&self) -> FieldTypeView {
        field_type_view(*self)
    }
}

/// Copies a field type.
fn copy_field_type(t: &FieldType) -> (r: FieldType)
    ensures
        field_type_view(r) == field_type_view(*t),
    decreases *t, 0nat,
{
    match t {
        FieldType::String => FieldType::String,
        FieldType::Boolean => FieldType::Boolean,
        FieldType::F32 => FieldType::F32,
        FieldType::F64 => FieldType::F64,
        FieldType::I8 => FieldType::I8,
        FieldType::I16 => FieldType::I16,
        FieldType::I32 => FieldType::I32,
        FieldType::I64 => FieldType::I64,
        FieldType::U8 => FieldType::U8,
        FieldType::U16 => FieldType::U16,
        FieldType::U32 => FieldType::U32,
        FieldType::U64 => FieldType::U64,
        FieldType::U128 => FieldType::U128,
        FieldType::Uuid => FieldType::Uuid,
        FieldType::Date => FieldType::Date,
        FieldType::Array(inner) => {
            let c = copy_field_type(inner);
            FieldType::Array(Box::new(c))
        },
        FieldType::Identifier(name) => FieldType::Identifier(name.clone()),
        FieldType::Object(fields) => {
            let c = copy_object(fields);
            FieldType::Object(c)
        },
    }
}

/// Copies the members of an object type.
fn copy_object(fields: &Vec<(String, FieldType)>) -> (r: Vec<(String, FieldType)>)
    ensures
        object_view(r@, r@.len()) == object_view(fields@, fields@.len()),
    decreases fields@, 0nat,
{
    let mut out: Vec<(String, FieldType)> = Vec::new();
    let mut i: usize = 0;
    while i < fields.len()
        invariant
            i <= fields@.len(),
            out@.len() == i,
            object_view(out@, i as nat) == object_view(fields@, i as nat),
        decreases fields.len() - i,
    {
        let name = fields[i].0.clone();
        let ty = copy_field_type(&fields[i].1);
        let ghost before = out@;
        out.push((name, ty));
        proof {
            lemma_object_view_prefix(before, out@, i as nat);
        }
        i = i + 1;
    }
    out
}

/// The view of a prefix does not depend on what follows it.
proof fn lemma_object_view_prefix(a: Seq<(String, FieldType)>, b: Seq<(String, FieldType)>, n: nat)
    requires
        n <= a.len(),
        n <= b.len(),
        forall|i: int| 0 <= i < n ==> #[trigger] a[i] == b[i],
    ensures
        object_view(a, n) == object_view(b, n),
    decreases n,
{
    if n > 0 {
        lemma_object_view_prefix(a, b, (n - 1) as nat);
    }
}

impl DeepCopy for FieldType {
    fn deep_copy(&self) -> (r: FieldType) {
        copy_field_type(self)
    }
}

/// A field of a node, edge or vector schema.
pub struct Field {
    pub prefix: FieldPrefix,
    pub name: String,
    pub field_type: FieldType,
    pub loc: Loc,
}

impl DeepView for Field {
    type V = (FieldPrefix, Seq<char>, FieldTypeView, Loc);

    open spec fn deep_view(&self) -> (FieldPrefix, Seq<char>, FieldTypeView, Loc) {
        (self.prefix, self.name@, field_type_view(self.field_type), self.loc)
    }
}

impl DeepCopy for Field {
    fn deep_copy(&self) -> (r: Field) {
        Field {
            prefix: self.prefix,
            name: self.name.clone(),
            field_type: copy_field_type(&self.field_type),
            loc: self.loc,
        }
    }
}

/// A node type declared in a schema.
pub struct NodeSchema {
    pub name: (Loc, String),
    pub fields: Vec<Field>,
    pub loc: Loc,
}

/// An edge type declared in a schema, with the types it connects.
pub struct EdgeSchema {
    pub name: (Loc, String),
    pub from: (Loc, String),
    pub to: (Loc, String),
    pub properties: Option<Vec<Field>>,
    pub loc: Loc,
}

/// A vector type declared in a schema.
pub struct VectorSchema {
    pub name: String,
    pub fields: Vec<Field>,
    pub loc: Loc,
}

impl DeepView for NodeSchema {
    type V = (Loc, Seq<char>, Seq<(FieldPrefix, Seq<char>, FieldTypeView, Loc)>, Loc);

    open spec fn deep_view(&self) -> Self::V {
        (self.name.0, self.name.1@, self.fields.deep_view(), self.loc)
    }
}

impl DeepView for EdgeSchema {
    type V = (
        Loc,
        Seq<char>,
        (Loc, Seq<char>),
        (Loc, Seq<char>),
        Option<Seq<(FieldPrefix, Seq<char>, FieldTypeView, Loc)>>,
        Loc,
    );

    open spec fn deep_view(&self) -> Self::V {
        (
            self.name.0,
            self.name.1@,
            (self.from.0, self.from.1@),
            (self.to.0, self.to.1@),
            self.properties.deep_view(),
            self.loc,
        )
    }
}

impl DeepView for VectorSchema {
    type V = (Seq<char>, Seq<(FieldPrefix, Seq<char>, FieldTypeView, Loc)>, Loc);

    open spec fn deep_view(&self) -> Self::V {
        (self.name@, self.fields.deep_view(), self.loc)
    }
}

impl DeepCopy for NodeSchema {
    fn deep_copy(&self) -> (r: NodeSchema) {
        NodeSchema {
            name: (self.name.0, self.name.1.clone()),
            fields: copy_vec(&self.fields),
            loc: self.loc,
        }
    }
}

impl DeepCopy for EdgeSchema {
    fn deep_copy(&self) -> (r: EdgeSchema) {
        let properties = match &self.properties {
            Some(p) => Some(copy_vec(p)),
            None => None,
        };
        EdgeSchema {
            name: (self.name.0, self.name.1.clone()),
            from: (self.from.0, self.from.1.clone()),
            to: (self.to.0, self.to.1.clone()),
            properties,
            loc: self.loc,
        }
    }
}

impl DeepCopy for VectorSchema {
    fn deep_copy(&self) -> (r: VectorSchema) {
        VectorSchema { name: self.name.clone(), fields: copy_vec(&self.fields), loc: self.loc }
    }
}

/// One version of the schema: the node, edge and vector types it declares.
pub struct Schema {
    pub version: (Loc, usize),
    pub node_schemas: Vec<NodeSchema>,
    pub edge_schemas: Vec<EdgeSchema>,
    pub vector_schemas: Vec<VectorSchema>,
    pub loc: Loc,
}

/// The schemas of a project, ordered by version.
pub struct Source {
    pub schemas: Vec<Schema>,
}

/// A parameter of a query.
pub struct Parameter {
    pub name: (Loc, String),
    pub param_type: (Loc, FieldType),
    pub is_optional: bool,
    pub loc: Loc,
}

/// A query as the analyzer sees it: its name, its parameters and its position.
pub struct Query {
    pub name: String,
    pub parameters: Vec<Parameter>,
    pub loc: Loc,
}

/// The type of an expression in a query.
pub enum Type {
    Node(Option<String>),
    Nodes(Option<String>),
    Edge(Option<String>),
    Edges(Option<String>),
    Vector(Option<String>),
    Vectors(Option<String>),
    Scalar(FieldType),
    Anonymous(Box<Type>),
    Boolean,
    Array(Box<Type>),
    Count,
    Aggregate,
    Unknown,
}

/// An expression type with its names as character sequences.
pub enum TypeView {
    Node(Option<Seq<char>>),
    Nodes(Option<Seq<char>>),
    Edge(Option<Seq<char>>),
    Edges(Option<Seq<char>>),
    Vector(Option<Seq<char>>),
    Vectors(Option<Seq<char>>),
    Scalar(FieldTypeView),
    Anonymous(Box<TypeView>),
    Boolean,
    Array(Box<TypeView>),
    Count,
    Aggregate,
    Unknown,
}

/// The view of an optional name.
pub open spec fn name_view(o: Option<String>) -> Option<Seq<char>> {
    match o {
        Some(s) => Some(s@),
        None => None,
    }
}

/// The view of an expression type.
pub open spec fn type_view(t: Type) -> TypeView
    decreases t,
{
    match t {
        Type::Node(n) => TypeView::Node(name_view(n)),
        Type::Nodes(n) => TypeView::Nodes(name_view(n)),
        Type::Edge(n) => TypeView::Edge(name_view(n)),
        Type::Edges(n) => TypeView::Edges(name_view(n)),
        Type::Vector(n) => TypeView::Vector(name_view(n)),
        Type::Vectors(n) => TypeView::Vectors(name_view(n)),
        Type::Scalar(f) => TypeView::Scalar(field_type_view(f)),
        Type::Anonymous(inner) => TypeView::Anonymous(Box::new(type_view(*inner))),
        Type::Boolean => TypeView::Boolean,
        Type::Array(inner) => TypeView::Array(Box::new(type_view(*inner))),
        Type::Count => TypeView::Count,
        Type::Aggregate => TypeView::Aggregate,
        Type::Unknown => TypeView::Unknown,
    }
}

impl DeepView for Type {
    type V = TypeView;

    open spec fn deep_view(&self) -> TypeView {
        type_view(*self)
    }
}

/// Copies an optional name.
fn copy_name(o: &Option<String>) -> (r: Option<String>)
    ensures
        name_view(r) == name_view(*o),
{
    match o {
        Some(s) => Some(s.clone()),
        None => None,
    }
}

/// Copies an expression type.
fn copy_type(t: &Type) -> (r: Type)
    ensures
        type_view(r) == type_view(*t),
    decreases *t,
{
    match t {
        Type::Node(n) => Type::Node(copy_name(n)),
        Type::Nodes(n) => Type::Nodes(copy_name(n)),
        Type::Edge(n) => Type::Edge(copy_name(n)),
        Type::Edges(n) => Type::Edges(copy_name(n)),
        Type::Vector(n) => Type::Vector(copy_name(n)),
        Type::Vectors(n) => Type::Vectors(copy_name(n)),
        Type::Scalar(f) => Type::Scalar(copy_field_type(f)),
        Type::Anonymous(inner) => {
            let c = copy_type(inner);
            Type::Anonymous(Box::new(c))
        },
        Type::Boolean => Type::Boolean,
        Type::Array(inner) => {
            let c = copy_type(inner);
            Type::Array(Box::new(c))
        },
        Type::Count => Type::Count,
        Type::Aggregate => Type::Aggregate,
        Type::Unknown => Type::Unknown,
    }
}

impl DeepCopy for Type {
    fn deep_copy(&self) -> (r: Type) {
        copy_type(self)
    }
}

/// The codes of the diagnostics the analyzer reports.
#[derive(Clone, Copy, Debug, PartialEq, Eq, Structural)]
pub enum ErrorCode {
    E101,
    E201,
    E205,
    E208,
    E102,
    E103,
    E105,
    E106,
    E107,
    E202,
    E204,
    E207,
    E209,
    E301,
    E305,
    E306,
    E601,
    E603,
    E623,
    E624,
    E625,
    E626,
}

/// A reported problem: where, which code, in which query (for query errors), the values
/// its message is made of (for schema errors, the message itself), and an optional hint.
pub struct Diagnostic {
    pub loc: Loc,
    pub code: ErrorCode,
    pub query: Option<String>,
    pub details: Vec<String>,
    pub hint: Option<String>,
}

impl DeepView for Diagnostic {
    type V = (Loc, ErrorCode, Option<Seq<char>>, Seq<Seq<char>>, Option<Seq<char>>);

    open spec fn deep_view(&self) -> Self::V {
        (self.loc, self.code, self.query.deep_view(), self.details.deep_view(), self.hint.deep_view())
    }
}

/// For each type name, its fields by name.
pub type FieldLookup = StrMap<StrMap<Field>>;

/// What the analysis has produced: the schema items it has accepted.
pub struct Output {
    pub nodes: Vec<NodeSchema>,
    pub edges: Vec<EdgeSchema>,
    pub vectors: Vec<VectorSchema>,
}

/// The analysis context: the latest schema, the names it declares, its edges by name,
/// its fields tables, the diagnostics reported so far, and the output.
pub struct Ctx {
    pub schema: Schema,
    pub node_set: Vec<String>,
    pub vector_set: Vec<String>,
    pub edge_map: StrMap<EdgeSchema>,
    pub node_fields: FieldLookup,
    pub edge_fields: FieldLookup,
    pub vector_fields: FieldLookup,
    pub diagnostics: Vec<Diagnostic>,
    pub output: Output,
}

/// How a query names an item by id: a literal id, a variable, or the value of an
/// indexed field (`index` names the field, `value` gives the key).
pub enum IdType {
    Literal { value: String, loc: Loc },
    Identifier { value: String, loc: Loc },
    ByIndex { index: Box<IdType>, value: Box<ValueType>, loc: Loc },
}

/// A literal value in a query: a string, an integer of a given width, a floating-point
/// number (kept as the text the query wrote), a boolean, or nothing.
pub enum Value {
    String(String),
    I8(i8),
    I16(i16),
    I32(i32),
    I64(i64),
    U8(u8),
    U16(u16),
    U32(u32),
    U64(u64),
    U128(u128),
    F32(String),
    F64(String),
    Boolean(bool),
    Empty,
}

/// A value given in a query: a literal, a variable, or an object of named values.
pub enum ValueType {
    Literal { value: Value, loc: Loc },
    Identifier { value: String, loc: Loc },
    Object { fields: Vec<(String, ValueType)>, loc: Loc },
}

/// Copies a literal value.
pub fn copy_value(v: &Value) -> (r: Value)
    ensures
        r == *v,
{
    match v {
        Value::String(s) => Value::String(s.clone()),
        Value::I8(x) => Value::I8(*x),
        Value::I16(x) => Value::I16(*x),
        Value::I32(x) => Value::I32(*x),
        Value::I64(x) => Value::I64(*x),
        Value::U8(x) => Value::U8(*x),
        Value::U16(x) => Value::U16(*x),
        Value::U32(x) => Value::U32(*x),
        Value::U64(x) => Value::U64(*x),
        Value::U128(x) => Value::U128(*x),
        Value::F32(s) => Value::F32(s.clone()),
        Value::F64(s) => Value::F64(s.clone()),
        Value::Boolean(b) => Value::Boolean(*b),
        Value::Empty => Value::Empty,
    }
}

/// Where a traversal starts: the items of a node, edge or vector type (all of them, or
/// those with the given ids), a variable, the item an enclosing traversal is at, or a
/// vector search.
pub enum StartNode {
    Node { node_type: String, ids: Option<Vec<IdType>> },
    Edge { edge_type: String, ids: Option<Vec<IdType>> },
    Vector { vector_type: String, ids: Option<Vec<IdType>> },
    Identifier(String),
    Anonymous,
    SearchVector(SearchVector),
}

/// A shortest-path step of a traversal: an optional edge label and optional ends.
pub struct ShortestPathStep {
    pub type_arg: Option<String>,
    pub from: Option<IdType>,
    pub to: Option<IdType>,
    pub loc: Loc,
}

/// A string-valued argument: a variable or a literal.
pub enum EvaluatesToString {
    Identifier(String),
    StringLiteral(String),
}

/// A request to embed a text.
pub struct Embed {
    pub value: EvaluatesToString,
    pub loc: Loc,
}

/// The vector a search is given: literal components (each as the text the query wrote),
/// a variable, or a text to embed.
pub enum VectorData {
    Vector(Vec<String>),
    Identifier(String),
    Embed(Embed),
}

/// A number-valued argument. Floating-point literals are kept only as their kind.
pub enum EvaluatesToNumberType {
    I8(i8),
    I16(i16),
    I32(i32),
    I64(i64),
    U8(u8),
    U16(u16),
    U32(u32),
    U64(u64),
    U128(u128),
    F32,
    F64,
    Identifier(String),
}

/// A number-valued argument and its position.
pub struct EvaluatesToNumber {
    pub value: EvaluatesToNumberType,
    pub loc: Loc,
}

/// A vector search step: the vector type, the query vector and the number of results.
pub struct SearchVector {
    pub vector_type: Option<String>,
    pub data: Option<VectorData>,
    pub k: Option<EvaluatesToNumber>,
    pub pre_filter: Option<Box<Expression>>,
    pub loc: Loc,
}

/// The kinds of graph navigation step.
pub enum GraphStepType {
    Out(String),
    In(String),
    FromN,
    ToN,
    FromV,
    ToV,
    OutE(String),
    InE(String),
    ShortestPath(ShortestPathStep),
    SearchVector(SearchVector),
}

/// A graph navigation step with its position and source text.
pub struct GraphStep {
    pub step: GraphStepType,
    pub loc: Loc,
    pub span: String,
}


/// An expression of a query, with its position.
pub struct Expression {
    pub expr: ExpressionType,
    pub loc: Loc,
}

/// The kinds of expression: a traversal, a variable, literals, a list, whether a
/// traversal yields anything, additions of items, boolean combinations, searches, or
/// nothing. Floating-point literals are kept as the text the query wrote.
pub enum ExpressionType {
    Traversal(Box<Traversal>),
    Identifier(String),
    StringLiteral(String),
    IntegerLiteral(i32),
    FloatLiteral(String),
    BooleanLiteral(bool),
    ArrayLiteral(Vec<Expression>),
    Exists(Box<Expression>),
    AddNode(AddNode),
    AddEdge(AddEdge),
    AddVector(AddVector),
    Not(Box<Expression>),
    And(Vec<Expression>),
    Or(Vec<Expression>),
    SearchVector(SearchVector),
    BM25Search(BM25Search),
    Empty,
}

/// What a query returns: an expression, a list or an object (its keys in the order
/// written) of returned values, or nothing.
pub enum ReturnType {
    Expression(Expression),
    Array(Vec<ReturnType>),
    Object(Vec<(String, ReturnType)>),
    Empty,
}

/// A traversal as a query writes it: where it starts, its steps, its position.
pub struct Traversal {
    pub start: StartNode,
    pub steps: Vec<TraversalStep>,
    pub loc: Loc,
}

/// A step of a traversal, with its position.
pub struct TraversalStep {
    pub step: StepType,
    pub loc: Loc,
}

/// The kinds of traversal step.
pub enum StepType {
    Node(GraphStep),
    Edge(GraphStep),
    First,
    Count,
    Exclude(Exclude),
    Object(Object),
    Where(Box<Expression>),
    BooleanOperation(BooleanOp),
    Aggregate(Aggregate),
    GroupBy(GroupBy),
    Update(Update),
    AddEdge(AddEdge),
    Range((Expression, Expression)),
    OrderBy(OrderBy),
    Closure(Closure),
}

/// Fields left out of the result.
pub struct Exclude {
    pub fields: Vec<(Loc, String)>,
    pub loc: Loc,
}

/// A remapping of the result into an object of named fields.
pub struct Object {
    pub fields: Vec<FieldAddition>,
    pub should_spread: bool,
    pub loc: Loc,
}

/// A named field of an object or of an update.
pub struct FieldAddition {
    pub key: String,
    pub value: FieldValue,
    pub loc: Loc,
}

/// The value of a named field, with its position.
pub struct FieldValue {
    pub value: FieldValueType,
    pub loc: Loc,
}

/// What a named field holds: a traversal, an expression, nested fields, a literal, a
/// variable, or nothing.
pub enum FieldValueType {
    Traversal(Box<Traversal>),
    Expression(Expression),
    Fields(Vec<FieldAddition>),
    Literal(Value),
    Identifier(String),
    Empty,
}

/// A comparison applied to the current value.
pub struct BooleanOp {
    pub op: BooleanOpType,
    pub loc: Loc,
}

/// The kinds of comparison.
pub enum BooleanOpType {
    And(Vec<Expression>),
    Or(Vec<Expression>),
    GreaterThan(Box<Expression>),
    GreaterThanOrEqual(Box<Expression>),
    LessThan(Box<Expression>),
    LessThanOrEqual(Box<Expression>),
    Equal(Box<Expression>),
    NotEqual(Box<Expression>),
    Contains(Box<Expression>),
    IsIn(Box<Expression>),
}

/// An aggregation on properties.
pub struct Aggregate {
    pub properties: Vec<String>,
    pub loc: Loc,
}

/// A grouping on properties.
pub struct GroupBy {
    pub properties: Vec<String>,
    pub loc: Loc,
}

/// An update of the current items' fields.
pub struct Update {
    pub fields: Vec<FieldAddition>,
    pub loc: Loc,
}

/// A sort direction.
pub enum OrderByType {
    Asc,
    Desc,
}

/// A sort on the value of an expression.
pub struct OrderBy {
    pub order_by_type: OrderByType,
    pub expression: Box<Expression>,
    pub loc: Loc,
}

/// A remapping that binds the current item to a name.
pub struct Closure {
    pub identifier: String,
    pub object: Object,
    pub loc: Loc,
}

/// The node a new edge leaves and the node it reaches.
pub struct EdgeConnection {
    pub from_id: Option<IdType>,
    pub to_id: Option<IdType>,
    pub loc: Loc,
}

/// An addition of a node of a type, with field values.
pub struct AddNode {
    pub node_type: Option<String>,
    pub fields: Option<Vec<(String, ValueType)>>,
    pub loc: Loc,
}

/// An addition of an edge of a type between two nodes, with field values.
pub struct AddEdge {
    pub edge_type: Option<String>,
    pub fields: Option<Vec<(String, ValueType)>>,
    pub connection: EdgeConnection,
    pub from_identifier: bool,
    pub loc: Loc,
}

/// An addition of a vector of a type, with its data and field values.
pub struct AddVector {
    pub vector_type: Option<String>,
    pub data: Option<VectorData>,
    pub fields: Option<Vec<(String, ValueType)>>,
    pub loc: Loc,
}

/// A text search over the items of a type.
pub struct BM25Search {
    pub type_arg: Option<String>,
    pub data: Option<ValueType>,
    pub k: Option<EvaluatesToNumber>,
    pub loc: Loc,
}


proof fn lemma_object_view(s: Seq<(String, FieldType)>, n: nat)
    requires
        n <= s.len(),
    ensures
        object_view(s, n).len() == n,
        forall|i: int| 0 <= i < n ==> #[trigger] object_view(s, n)[i] == (s[i].0@, field_type_view(s[i].1)),
    decreases n,
{
    if n > 0 {
        lemma_object_view(s, (n - 1) as nat);
    }
}

/// Whether two field types are the same.
pub fn same_field_type(a: &FieldType, b: &FieldType) -> (r: bool)
    ensures
        r == (field_type_view(*a) == field_type_view(*b)),
    decreases *a,
{
    match (a, b) {
        (FieldType::String, FieldType::String) => true,
        (FieldType::Boolean, FieldType::Boolean) => true,
        (FieldType::F32, FieldType::F32) => true,
        (FieldType::F64, FieldType::F64) => true,
        (FieldType::I8, FieldType::I8) => true,
        (FieldType::I16, FieldType::I16) => true,
        (FieldType::I32, FieldType::I32) => true,
        (FieldType::I64, FieldType::I64) => true,
        (FieldType::U8, FieldType::U8) => true,
        (FieldType::U16, FieldType::U16) => true,
        (FieldType::U32, FieldType::U32) => true,
        (FieldType::U64, FieldType::U64) => true,
        (FieldType::U128, FieldType::U128) => true,
        (FieldType::Uuid, FieldType::Uuid) => true,
        (FieldType::Date, FieldType::Date) => true,
        (FieldType::Array(x), FieldType::Array(y)) => same_field_type(x, y),
        (FieldType::Identifier(x), FieldType::Identifier(y)) => crate::text::str_eq(x.as_str(), y.as_str()),
        (FieldType::Object(xs), FieldType::Object(ys)) => {
            proof {
                lemma_object_view(xs@, xs@.len());
                lemma_object_view(ys@, ys@.len());
            }
            if xs.len() != ys.len() {
                proof {
                    assert(object_view(xs@, xs@.len()).len() != object_view(ys@, ys@.len()).len());
                    assert(field_type_view(*a) == FieldTypeView::Object(object_view(xs@, xs@.len())));
                    assert(field_type_view(*b) == FieldTypeView::Object(object_view(ys@, ys@.len())));
                }
                return false;
            }
            proof {
                assert(field_type_view(*a) == FieldTypeView::Object(object_view(xs@, xs@.len())));
                assert(field_type_view(*b) == FieldTypeView::Object(object_view(ys@, ys@.len())));
            }
            let mut i: usize = 0;
            while i < xs.len()
                invariant
                    i <= xs@.len(),
                    xs@.len() == ys@.len(),
                    *a == FieldType::Object(*xs),
                    field_type_view(*a) == FieldTypeView::Object(object_view(xs@, xs@.len())),
                    field_type_view(*b) == FieldTypeView::Object(object_view(ys@, ys@.len())),
                    object_view(xs@, xs@.len()).len() == xs@.len(),
                    object_view(ys@, ys@.len()).len() == ys@.len(),
                    forall|j: int| 0 <= j < xs@.len() ==> #[trigger] object_view(xs@, xs@.len())[j] == (xs@[j].0@, field_type_view(xs@[j].1)),
                    forall|j: int| 0 <= j < ys@.len() ==> #[trigger] object_view(ys@, ys@.len())[j] == (ys@[j].0@, field_type_view(ys@[j].1)),
                    forall|j: int| 0 <= j < i ==> object_view(xs@, xs@.len())[j] == object_view(ys@, ys@.len())[j],
                decreases xs.len() - i,
            {
                if !crate::text::str_eq(xs[i].0.as_str(), ys[i].0.as_str()) {
                    proof {
                        assert(object_view(xs@, xs@.len())[i as int] != object_view(ys@, ys@.len())[i as int]);
                    }
                    return false;
                }
                proof {
                    assert(decreases_to!(*a => xs@[i as int].1)) by {
                        assert(*a == FieldType::Object(*xs));
                        assert(decreases_to!(FieldType::Object(*xs) => *xs));
                        assert(decreases_to!(*xs => xs@));
                        assert(decreases_to!(xs@ => xs@[i as int]));
                        assert(decreases_to!(xs@[i as int] => xs@[i as int].1));
                    }
                }
                if !same_field_type(&xs[i].1, &ys[i].1) {
                    proof {
                        assert(object_view(xs@, xs@.len())[i as int] != object_view(ys@, ys@.len())[i as int]);
                        assert(field_type_view(*a) == FieldTypeView::Object(object_view(xs@, xs@.len())));
                        assert(field_type_view(*b) == FieldTypeView::Object(object_view(ys@, ys@.len())));
                    }
                    return false;
                }
                i = i + 1;
            }
            proof {
                assert(object_view(xs@, xs@.len()) =~= object_view(ys@, ys@.len()));
            }
            true
        },
        _ => false,
    }
}

/// Whether two optional names are the same.
fn same_name(a: &Option<String>, b: &Option<String>) -> (r: bool)
    ensures
        r == (name_view(*a) == name_view(*b)),
{
    match (a, b) {
        (Some(x), Some(y)) => crate::text::str_eq(x.as_str(), y.as_str()),
        (None, None) => true,
        _ => false,
    }
}

/// Whether two expression types are the same.
pub fn same_type(a: &Type, b: &Type) -> (r: bool)
    ensures
        r == (type_view(*a) == type_view(*b)),
    decreases *a,
{
    match (a, b) {
        (Type::Node(x), Type::Node(y)) => same_name(x, y),
        (Type::Nodes(x), Type::Nodes(y)) => same_name(x, y),
        (Type::Edge(x), Type::Edge(y)) => same_name(x, y),
        (Type::Edges(x), Type::Edges(y)) => same_name(x, y),
        (Type::Vector(x), Type::Vector(y)) => same_name(x, y),
        (Type::Vectors(x), Type::Vectors(y)) => same_name(x, y),
        (Type::Scalar(x), Type::Scalar(y)) => same_field_type(x, y),
        (Type::Anonymous(x), Type::Anonymous(y)) => same_type(x, y),
        (Type::Boolean, Type::Boolean) => true,
        (Type::Array(x), Type::Array(y)) => same_type(x, y),
        (Type::Count, Type::Count) => true,
        (Type::Aggregate, Type::Aggregate) => true,
        (Type::Unknown, Type::Unknown) => true,
        _ => false,
    }
}

} // verus!
