//! References, values, types and separators of the generated code, and their text.

use vstd::prelude::*;
use vstd::pervasive::{arbitrary, unreached};
use vstd::string::StringExecFns;
use crate::text::{decimal, push_decimal};
use super::traversal_steps::{traversal_code, traversal_renders, Traversal};
use crate::analyzer::types::IdType;

verus! {

/// Appends a string literal.
pub(crate) fn put(s: &mut String, l: &str)
    ensures
        final(s)@ == old(s)@ + l@,
{
    s.append(l);
}

/// Appends the text of another string.
pub(crate) fn put_string(s: &mut String, t: &String)
    ensures
        final(s)@ == old(s)@ + t@,
{
    s.append(t.as_str());
}

/// How a name is referred to in generated code.
pub enum GenRef<T> {
    Literal(T),
    Mut(T),
    Ref(T),
    RefLT(String, T),
    DeRef(T),
    MutRef(T),
    MutRefLT(String, T),
    MutDeRef(T),
    RefLiteral(T),
    Unknown,
    Std(T),
    Id(String),
}

impl<T> GenRef<T> {
    /// Whether the reference wraps a value (every form but `Unknown` and `Id`).
    pub open spec fn has_inner(&self) -> bool {
        !(self is Unknown) && !(self is Id)
    }

    /// The wrapped value.
    pub open spec fn inner_spec(&self) -> T {
        match self {
            GenRef::Literal(t) => *t,
            GenRef::Mut(t) => *t,
            GenRef::Ref(t) => *t,
            GenRef::RefLT(_, t) => *t,
            GenRef::DeRef(t) => *t,
            GenRef::MutRef(t) => *t,
            GenRef::MutRefLT(_, t) => *t,
            GenRef::MutDeRef(t) => *t,
            GenRef::RefLiteral(t) => *t,
            GenRef::Std(t) => *t,
            _ => arbitrary(),
        }
    }

    /// The wrapped value; `Unknown` and `Id` wrap none.
    pub fn inner(&self) -> (r: &T)
        requires
            self.has_inner(),
        ensures
            *r == self.inner_spec(),
    {
        match self {
            GenRef::Literal(t) => t,
            GenRef::Mut(t) => t,
            GenRef::Ref(t) => t,
            GenRef::RefLT(_, t) => t,
            GenRef::DeRef(t) => t,
            GenRef::MutRef(t) => t,
            GenRef::MutRefLT(_, t) => t,
            GenRef::MutDeRef(t) => t,
            GenRef::RefLiteral(t) => t,
            GenRef::Std(t) => t,
            _ => unreached(),
        }
    }
}

/// The source text of a reference.
pub open spec fn gen_ref_code(g: GenRef<String>) -> Seq<char> {
    match g {
        GenRef::Literal(t) => "\""@ + t@ + "\""@,
        GenRef::Std(t) => t@,
        GenRef::Mut(t) => "mut "@ + t@,
        GenRef::Ref(t) => "&"@ + t@,
        GenRef::RefLT(lt, t) => "&'"@ + lt@ + " "@ + t@,
        GenRef::DeRef(t) => "*"@ + t@,
        GenRef::MutRef(t) => "& mut "@ + t@,
        GenRef::MutRefLT(lt, t) => "&'"@ + lt@ + " mut "@ + t@,
        GenRef::MutDeRef(t) => "mut *"@ + t@,
        GenRef::RefLiteral(t) => "ref "@ + t@,
        GenRef::Unknown => Seq::empty(),
        GenRef::Id(id) => "data."@ + id@,
    }
}

/// The debugging text of a reference.
pub open spec fn gen_ref_debug(g: GenRef<String>) -> Seq<char> {
    match g {
        GenRef::Literal(t) => "Literal("@ + t@ + ")"@,
        GenRef::Std(t) => "Std("@ + t@ + ")"@,
        GenRef::Mut(t) => "Mut("@ + t@ + ")"@,
        GenRef::Ref(t) => "Ref("@ + t@ + ")"@,
        GenRef::RefLT(lt, t) => "RefLT("@ + lt@ + ", "@ + t@ + ")"@,
        GenRef::DeRef(t) => "DeRef("@ + t@ + ")"@,
        GenRef::MutRef(t) => "MutRef("@ + t@ + ")"@,
        GenRef::MutRefLT(lt, t) => "MutRefLT("@ + lt@ + ", "@ + t@ + ")"@,
        GenRef::MutDeRef(t) => "MutDeRef("@ + t@ + ")"@,
        GenRef::RefLiteral(t) => "RefLiteral("@ + t@ + ")"@,
        GenRef::Unknown => "Unknown"@,
        GenRef::Id(id) => "String("@ + id@ + ")"@,
    }
}

/// What a reference becomes as a string in generated code: quoted for literals,
/// standard values and references, bare for identifiers, a compile error otherwise.
pub open spec fn gen_ref_string(g: GenRef<String>) -> Seq<char> {
    match g {
        GenRef::Literal(s) => "\""@ + s@ + "\""@,
        GenRef::Std(s) => "\""@ + s@ + "\""@,
        GenRef::Ref(s) => "\""@ + s@ + "\""@,
        GenRef::Id(s) => s@,
        GenRef::Unknown => "compile_error!(\"Unknown value in code generation\")"@,
        _ => "compile_error!(\"Unsupported GenRef variant in code generation\")"@,
    }
}

impl GenRef<String> {
    /// The source text of the reference.
    pub fn to_code(&self) -> (r: String)
        ensures
            r@ == gen_ref_code(*self),
    {
        match self {
            GenRef::Literal(t) => {
                let mut s = String::from_str("\"");
                put_string(&mut s, t);
                put(&mut s, "\"");
                s
            },
            GenRef::Std(t) => t.clone(),
            GenRef::Mut(t) => {
                let mut s = String::from_str("mut ");
                put_string(&mut s, t);
                s
            },
            GenRef::Ref(t) => {
                let mut s = String::from_str("&");
                put_string(&mut s, t);
                s
            },
            GenRef::RefLT(lt, t) => {
                let mut s = String::from_str("&'");
                put_string(&mut s, lt);
                put(&mut s, " ");
                put_string(&mut s, t);
                s
            },
            GenRef::DeRef(t) => {
                let mut s = String::from_str("*");
                put_string(&mut s, t);
                s
            },
            GenRef::MutRef(t) => {
                let mut s = String::from_str("& mut ");
                put_string(&mut s, t);
                s
            },
            GenRef::MutRefLT(lt, t) => {
                let mut s = String::from_str("&'");
                put_string(&mut s, lt);
                put(&mut s, " mut ");
                put_string(&mut s, t);
                s
            },
            GenRef::MutDeRef(t) => {
                let mut s = String::from_str("mut *");
                put_string(&mut s, t);
                s
            },
            GenRef::RefLiteral(t) => {
                let mut s = String::from_str("ref ");
                put_string(&mut s, t);
                s
            },
            GenRef::Unknown => String::new(),
            GenRef::Id(id) => {
                let mut s = String::from_str("data.");
                put_string(&mut s, id);
                s
            },
        }
    }

    /// The debugging text of the reference.
    pub fn debug_string(&self) -> (r: String)
        ensures
            r@ == gen_ref_debug(*self),
    {
        let (name, lt, t): (&str, Option<&String>, &String) = match self {
            GenRef::Literal(t) => ("Literal(", None, t),
            GenRef::Std(t) => ("Std(", None, t),
            GenRef::Mut(t) => ("Mut(", None, t),
            GenRef::Ref(t) => ("Ref(", None, t),
            GenRef::RefLT(lt, t) => ("RefLT(", Some(lt), t),
            GenRef::DeRef(t) => ("DeRef(", None, t),
            GenRef::MutRef(t) => ("MutRef(", None, t),
            GenRef::MutRefLT(lt, t) => ("MutRefLT(", Some(lt), t),
            GenRef::MutDeRef(t) => ("MutDeRef(", None, t),
            GenRef::RefLiteral(t) => ("RefLiteral(", None, t),
            GenRef::Unknown => {
                return String::from_str("Unknown");
            },
            GenRef::Id(id) => ("String(", None, id),
        };
        let mut s = String::from_str(name);
        match lt {
            Some(l) => {
                put_string(&mut s, l);
                put(&mut s, ", ");
            },
            None => {},
        }
        put_string(&mut s, t);
        put(&mut s, ")");
        s
    }
}

/// What a reference becomes as a string in generated code (see [`gen_ref_string`]).
pub fn string_from_gen_ref(value: GenRef<String>) -> (r: String)
    ensures
        r@ == gen_ref_string(value),
{
    match value {
        GenRef::Literal(s) | GenRef::Std(s) | GenRef::Ref(s) => {
            let mut r = String::from_str("\"");
            put_string(&mut r, &s);
            put(&mut r, "\"");
            r
        },
        GenRef::Id(s) => s,
        GenRef::Unknown => String::from_str("compile_error!(\"Unknown value in code generation\")"),
        _ => String::from_str("compile_error!(\"Unsupported GenRef variant in code generation\")"),
    }
}

/// The reference for an id: a literal stays a literal, a variable becomes an identifier,
/// anything else is unknown.
pub open spec fn id_gen_ref(value: IdType) -> GenRef<String> {
    match value {
        IdType::Literal { value: s, .. } => GenRef::Literal(s),
        IdType::Identifier { value: s, .. } => GenRef::Id(s),
        _ => GenRef::Unknown,
    }
}

impl From<IdType> for GenRef<String> {
    fn from(value: IdType) -> (r: GenRef<String>) {
        match value {
            IdType::Literal { value: s, .. } => GenRef::Literal(s),
            IdType::Identifier { value: s, .. } => GenRef::Id(s),
            _ => GenRef::Unknown,
        }
    }
}

impl vstd::std_specs::convert::FromSpecImpl<IdType> for GenRef<String> {
    open spec fn obeys_from_spec() -> bool {
        true
    }

    open spec fn from_spec(value: IdType) -> GenRef<String> {
        id_gen_ref(value)
    }
}

/// The vector argument of a vector search.
pub enum VecData {
    Standard(GeneratedValue),
    Hoisted(String),
    Unknown,
}

/// Data to embed, and the model to embed it with.
pub struct EmbedData {
    pub data: GeneratedValue,
    pub model_name: Option<String>,
}

/// The name of the hoisted variable that holds the embedding with the given index.
pub open spec fn embed_name(idx: nat) -> Seq<char> {
    "__internal_embed_data_"@ + decimal(idx)
}

impl EmbedData {
    /// The name of the hoisted variable that holds the embedding with the given index.
    pub fn name_from_index(idx: usize) -> (r: String)
        ensures
            r@ == embed_name(idx as nat),
    {
        let mut s = String::from_str("__internal_embed_data_");
        push_decimal(&mut s, idx);
        s
    }

    /// The source text that computes the embedding.
    pub fn to_code(&self) -> (r: String)
        requires
            value_renders(self.data),
        ensures
            r@ == embed_code(*self),
    {
        let mut s = String::from_str("embed_async!(db, ");
        let d = self.data.to_code();
        put_string(&mut s, &d);
        match &self.model_name {
            Some(model) => {
                put(&mut s, ", ");
                put_string(&mut s, model);
                put(&mut s, ")");
            },
            None => {
                put(&mut s, ")");
            },
        }
        s
    }
}

/// The source text that computes an embedding.
pub open spec fn embed_code(e: EmbedData) -> Seq<char> {
    match e.model_name {
        Some(model) => "embed_async!(db, "@ + value_code(e.data) + ", "@ + model@ + ")"@,
        None => "embed_async!(db, "@ + value_code(e.data) + ")"@,
    }
}

/// Sort order.
pub enum Order {
    Asc,
    Desc,
}

/// The source text of a sort order.
pub open spec fn order_code(o: Order) -> Seq<char> {
    match o {
        Order::Asc => "Asc"@,
        Order::Desc => "Desc"@,
    }
}

impl Order {
    /// The source text of the order.
    pub fn to_code(&self) -> (r: String)
        ensures
            r@ == order_code(*self),
    {
        match self {
            Order::Asc => String::from_str("Asc"),
            Order::Desc => String::from_str("Desc"),
        }
    }
}

/// A value in generated code.
pub enum GeneratedValue {
    Literal(GenRef<String>),
    Identifier(GenRef<String>),
    Primitive(GenRef<String>),
    Parameter(GenRef<String>),
    Array(GenRef<String>),
    Aggregate(GenRef<String>),
    Traversal(Box<Traversal>),
    Unknown,
}

impl GeneratedValue {
    /// Whether the value wraps a reference (every form but `Traversal` and `Unknown`).
    pub open spec fn has_inner(&self) -> bool {
        !(self is Traversal) && !(self is Unknown)
    }

    /// The wrapped reference.
    pub open spec fn inner_spec(&self) -> GenRef<String> {
        match self {
            GeneratedValue::Literal(v) => *v,
            GeneratedValue::Primitive(v) => *v,
            GeneratedValue::Identifier(v) => *v,
            GeneratedValue::Parameter(v) => *v,
            GeneratedValue::Array(v) => *v,
            GeneratedValue::Aggregate(v) => *v,
            _ => arbitrary(),
        }
    }

    /// The wrapped reference; traversals and unknown values wrap none.
    pub fn inner(&self) -> (r: &GenRef<String>)
        requires
            self.has_inner(),
        ensures
            *r == self.inner_spec(),
    {
        match self {
            GeneratedValue::Literal(v) => v,
            GeneratedValue::Primitive(v) => v,
            GeneratedValue::Identifier(v) => v,
            GeneratedValue::Parameter(v) => v,
            GeneratedValue::Array(v) => v,
            GeneratedValue::Aggregate(v) => v,
            _ => unreached(),
        }
    }
}

/// Whether a value can be written out: a traversal inside it must be writable.
pub open spec fn value_renders(v: GeneratedValue) -> bool
    decreases v, 0nat,
{
    match v {
        GeneratedValue::Traversal(t) => traversal_renders(*t),
        _ => true,
    }
}

/// The source text of a value.
pub open spec fn value_code(v: GeneratedValue) -> Seq<char>
    decreases v, 0nat,
{
    match v {
        GeneratedValue::Literal(r) => gen_ref_code(r),
        GeneratedValue::Primitive(r) => gen_ref_code(r),
        GeneratedValue::Identifier(r) => gen_ref_code(r),
        GeneratedValue::Parameter(r) => gen_ref_code(r),
        GeneratedValue::Array(r) => "&["@ + gen_ref_code(r) + "]"@,
        GeneratedValue::Aggregate(r) => gen_ref_code(r),
        GeneratedValue::Traversal(t) => traversal_code(*t),
        GeneratedValue::Unknown => Seq::empty(),
    }
}

/// The debugging text of a value.
pub open spec fn value_debug(v: GeneratedValue) -> Seq<char> {
    match v {
        GeneratedValue::Literal(r) => "GV: Literal("@ + gen_ref_code(r) + ")"@,
        GeneratedValue::Primitive(r) => "GV: Primitive("@ + gen_ref_code(r) + ")"@,
        GeneratedValue::Identifier(r) => "GV: Identifier("@ + gen_ref_code(r) + ")"@,
        GeneratedValue::Parameter(r) => "GV: Parameter("@ + gen_ref_code(r) + ")"@,
        GeneratedValue::Array(r) => "GV: Array("@ + gen_ref_debug(r) + ")"@,
        GeneratedValue::Aggregate(r) => "GV: Aggregate("@ + gen_ref_debug(r) + ")"@,
        GeneratedValue::Traversal(t) => "GV: Traversal("@ + traversal_code(*t) + ")"@,
        GeneratedValue::Unknown => "Unknown"@,
    }
}

impl GeneratedValue {
    /// The source text of the value.
    pub fn to_code(&self) -> (r: String)
        requires
            value_renders(*self),
        ensures
            r@ == value_code(*self),
        decreases *self, 0nat,
    {
        match self {
            GeneratedValue::Literal(r) => r.to_code(),
            GeneratedValue::Primitive(r) => r.to_code(),
            GeneratedValue::Identifier(r) => r.to_code(),
            GeneratedValue::Parameter(r) => r.to_code(),
            GeneratedValue::Array(r) => {
                let mut s = String::from_str("&[");
                let c = r.to_code();
                put_string(&mut s, &c);
                put(&mut s, "]");
                s
            },
            GeneratedValue::Aggregate(r) => r.to_code(),
            GeneratedValue::Traversal(t) => t.to_code(),
            GeneratedValue::Unknown => String::new(),
        }
    }

    /// The debugging text of the value.
    pub fn debug_string(&self) -> (r: String)
        requires
            value_renders(*self),
        ensures
            r@ == value_debug(*self),
    {
        let (name, body): (&str, String) = match self {
            GeneratedValue::Literal(r) => ("GV: Literal(", r.to_code()),
            GeneratedValue::Primitive(r) => ("GV: Primitive(", r.to_code()),
            GeneratedValue::Identifier(r) => ("GV: Identifier(", r.to_code()),
            GeneratedValue::Parameter(r) => ("GV: Parameter(", r.to_code()),
            GeneratedValue::Array(r) => ("GV: Array(", r.debug_string()),
            GeneratedValue::Aggregate(r) => ("GV: Aggregate(", r.debug_string()),
            GeneratedValue::Traversal(t) => ("GV: Traversal(", t.to_code()),
            GeneratedValue::Unknown => {
                return String::from_str("Unknown");
            },
        };
        let mut s = String::from_str(name);
        put_string(&mut s, &body);
        put(&mut s, ")");
        s
    }
}

/// The source text of vector data.
pub open spec fn vec_data_code(v: VecData) -> Seq<char>
    decreases v, 0nat,
{
    match v {
        VecData::Standard(g) => value_code(g),
        VecData::Hoisted(ident) => "&"@ + ident@,
        VecData::Unknown => "compile_error!(\"Unknown VecData in code generation\")"@,
    }
}

/// Whether vector data can be written out.
pub open spec fn vec_data_renders(v: VecData) -> bool
    decreases v, 0nat,
{
    match v {
        VecData::Standard(g) => value_renders(g),
        _ => true,
    }
}

impl VecData {
    /// The source text of the vector data.
    pub fn to_code(&self) -> (r: String)
        requires
            vec_data_renders(*self),
        ensures
            r@ == vec_data_code(*self),
        decreases *self, 0nat,
    {
        match self {
            VecData::Standard(v) => v.to_code(),
            VecData::Hoisted(ident) => {
                let mut s = String::from_str("&");
                put_string(&mut s, ident);
                s
            },
            VecData::Unknown => String::from_str(
                "compile_error!(\"Unknown VecData in code generation\")",
            ),
        }
    }
}

/// A Rust type in generated code.
pub enum GeneratedType {
    RustType(RustType),
    Vec(Box<GeneratedType>),
    Object(GenRef<String>),
    Variable(GenRef<String>),
}

/// A primitive Rust type.
pub enum RustType {
    String,
    I8,
    I16,
    I32,
    I64,
    U8,
    U16,
    U32,
    U64,
    U128,
    F32,
    F64,
    Bool,
    Uuid,
    Date,
}

/// The Rust spelling of a primitive type.
pub open spec fn rust_type_code(t: RustType) -> Seq<char> {
    match t {
        RustType::String => "String"@,
        RustType::I8 => "i8"@,
        RustType::I16 => "i16"@,
        RustType::I32 => "i32"@,
        RustType::I64 => "i64"@,
        RustType::U8 => "u8"@,
        RustType::U16 => "u16"@,
        RustType::U32 => "u32"@,
        RustType::U64 => "u64"@,
        RustType::U128 => "u128"@,
        RustType::F32 => "f32"@,
        RustType::F64 => "f64"@,
        RustType::Bool => "bool"@,
        RustType::Uuid => "ID"@,
        RustType::Date => "DateTime<Utc>"@,
    }
}

/// The TypeScript type that a primitive Rust type maps to.
pub open spec fn rust_type_ts(t: RustType) -> Seq<char> {
    match t {
        RustType::String => "string"@,
        RustType::Bool => "boolean"@,
        RustType::Uuid => "string"@,
        RustType::Date => "Date"@,
        _ => "number"@,
    }
}

impl RustType {
    /// The Rust spelling of the type.
    pub fn to_code(&self) -> (r: String)
        ensures
            r@ == rust_type_code(*self),
    {
        let s: &str = match self {
            RustType::String => "String",
            RustType::I8 => "i8",
            RustType::I16 => "i16",
            RustType::I32 => "i32",
            RustType::I64 => "i64",
            RustType::U8 => "u8",
            RustType::U16 => "u16",
            RustType::U32 => "u32",
            RustType::U64 => "u64",
            RustType::U128 => "u128",
            RustType::F32 => "f32",
            RustType::F64 => "f64",
            RustType::Bool => "bool",
            RustType::Uuid => "ID",
            RustType::Date => "DateTime<Utc>",
        };
        String::from_str(s)
    }

    /// The TypeScript type that the Rust type maps to: strings, booleans, ids and dates
    /// keep their kind, every number becomes `number`.
    pub fn to_ts(&self) -> (r: String)
        ensures
            r@ == rust_type_ts(*self),
    {
        let s: &str = match self {
            RustType::String => "string",
            RustType::I8 => "number",
            RustType::I16 => "number",
            RustType::I32 => "number",
            RustType::I64 => "number",
            RustType::U8 => "number",
            RustType::U16 => "number",
            RustType::U32 => "number",
            RustType::U64 => "number",
            RustType::U128 => "number",
            RustType::F32 => "number",
            RustType::F64 => "number",
            RustType::Bool => "boolean",
            RustType::Uuid => "string",
            RustType::Date => "Date",
        };
        String::from_str(s)
    }
}

/// The source text of a type.
pub open spec fn generated_type_code(t: GeneratedType) -> Seq<char>
    decreases t,
{
    match t {
        GeneratedType::RustType(r) => rust_type_code(r),
        GeneratedType::Vec(inner) => "Vec<"@ + generated_type_code(*inner) + ">"@,
        GeneratedType::Variable(v) => gen_ref_code(v),
        GeneratedType::Object(o) => gen_ref_code(o),
    }
}

impl GeneratedType {
    /// The source text of the type.
    pub fn to_code(&self) -> (r: String)
        ensures
            r@ == generated_type_code(*self),
        decreases *self,
    {
        match self {
            GeneratedType::RustType(t) => t.to_code(),
            GeneratedType::Vec(inner) => {
                let mut s = String::from_str("Vec<");
                let c = inner.to_code();
                put_string(&mut s, &c);
                put(&mut s, ">");
                s
            },
            GeneratedType::Variable(v) => v.to_code(),
            GeneratedType::Object(o) => o.to_code(),
        }
    }
}

/// What separates an item from the code before it.
pub enum Separator<T> {
    Comma(T),
    Semicolon(T),
    Period(T),
    Newline(T),
    Empty(T),
}

impl<T> Separator<T> {
    /// The separated item.
    pub open spec fn inner_spec(&self) -> T {
        match self {
            Separator::Comma(t) => *t,
            Separator::Semicolon(t) => *t,
            Separator::Period(t) => *t,
            Separator::Newline(t) => *t,
            Separator::Empty(t) => *t,
        }
    }

    /// The separated item.
    pub fn inner(&self) -> (r: &T)
        ensures
            *r == self.inner_spec(),
    {
        match self {
            Separator::Comma(t) => t,
            Separator::Semicolon(t) => t,
            Separator::Period(t) => t,
            Separator::Newline(t) => t,
            Separator::Empty(t) => t,
        }
    }

    /// The text of the separated item, given the item's own text.
    pub open spec fn wrap_spec(&self, item: Seq<char>) -> Seq<char> {
        match self {
            Separator::Comma(_) => ",\n"@ + item,
            Separator::Semicolon(_) => item + ";\n"@,
            Separator::Period(_) => "\n."@ + item,
            Separator::Newline(_) => "\n"@ + item,
            Separator::Empty(_) => item,
        }
    }

    /// The text of the separated item, given the item's own text.
    pub fn wrap(&self, item: &String) -> (r: String)
        ensures
            r@ == self.wrap_spec(item@),
    {
        match self {
            Separator::Comma(_) => {
                let mut s = String::from_str(",\n");
                put_string(&mut s, item);
                s
            },
            Separator::Semicolon(_) => {
                let mut s = item.clone();
                put(&mut s, ";\n");
                s
            },
            Separator::Period(_) => {
                let mut s = String::from_str("\n.");
                put_string(&mut s, item);
                s
            },
            Separator::Newline(_) => {
                let mut s = String::from_str("\n");
                put_string(&mut s, item);
                s
            },
            Separator::Empty(_) => item.clone(),
        }
    }
}

/// The items of a property list, each as `"name" => value`, joined with `, `, for the
/// first `n` entries.
pub open spec fn props_items_code(p: Seq<(String, GeneratedValue)>, n: nat) -> Seq<char>
    decreases p, n,
{
    if n == 0 || n > p.len() {
        Seq::empty()
    } else if n == 1 {
        "\""@ + p[0].0@ + "\" => "@ + value_code(p[0].1)
    } else {
        props_items_code(p, (n - 1) as nat) + ", "@ + "\""@ + p[n - 1].0@ + "\" => "@ + value_code(
            p[n - 1].1,
        )
    }
}

/// Whether every value in a property list can be written out.
pub open spec fn props_render(p: Seq<(String, GeneratedValue)>, n: nat) -> bool
    decreases p, n,
{
    if n == 0 || n > p.len() {
        true
    } else {
        props_render(p, (n - 1) as nat) && value_renders(p[n - 1].1)
    }
}

/// The source text of optional properties: `Some(props! { ... })` or `None`.
pub open spec fn properties_code(properties: Option<Vec<(String, GeneratedValue)>>) -> Seq<char>
    decreases properties, 0nat,
{
    match properties {
        Some(p) => "Some(props! { "@ + props_items_code(p@, p@.len()) + " })"@,
        None => "None"@,
    }
}

/// Whether optional properties can be written out.
pub open spec fn properties_render(properties: Option<Vec<(String, GeneratedValue)>>) -> bool
    decreases properties, 0nat,
{
    match properties {
        Some(p) => props_render(p@, p@.len()),
        None => true,
    }
}

/// The items of a property list as text.
fn props_items(p: &Vec<(String, GeneratedValue)>) -> (r: String)
    requires
        props_render(p@, p@.len()),
    ensures
        r@ == props_items_code(p@, p@.len()),
    decreases p@, 0nat,
{
    let mut s = String::new();
    let mut i: usize = 0;
    while i < p.len()
        invariant
            i <= p@.len(),
            props_render(p@, p@.len()),
            s@ == props_items_code(p@, i as nat),
        decreases p.len() - i,
    {
        proof {
            lemma_props_render_prefix(p@, p@.len(), (i + 1) as nat);
        }
        if i > 0 {
            put(&mut s, ", ");
        }
        put(&mut s, "\"");
        put_string(&mut s, &p[i].0);
        put(&mut s, "\" => ");
        let v = p[i].1.to_code();
        put_string(&mut s, &v);
        proof {
            if i == 0 {
                assert(s@ =~= "\""@ + p@[0].0@ + "\" => "@ + value_code(p@[0].1));
            }
        }
        i = i + 1;
    }
    s
}

proof fn lemma_props_render_prefix(p: Seq<(String, GeneratedValue)>, n: nat, m: nat)
    requires
        props_render(p, n),
        m <= n <= p.len(),
    ensures
        props_render(p, m),
        0 < m ==> value_renders(p[m - 1].1),
    decreases n,
{
    if m < n {
        lemma_props_render_prefix(p, (n - 1) as nat, m);
    }
}

/// Writes optional properties as `Some(props! { "name" => value, ... })`, or `None`.
pub fn write_properties(properties: &Option<Vec<(String, GeneratedValue)>>) -> (r: String)
    requires
        properties_render(*properties),
    ensures
        r@ == properties_code(*properties),
    decreases *properties, 0nat,
{
    match properties {
        Some(p) => {
            let mut s = String::from_str("Some(props! { ");
            let items = props_items(p);
            put_string(&mut s, &items);
            put(&mut s, " })");
            s
        },
        None => String::from_str("None"),
    }
}

/// The quoted index names, joined with `, `, for the first `n` names.
pub open spec fn indices_code(v: Seq<String>, n: nat) -> Seq<char>
    decreases n,
{
    if n == 0 || n > v.len() {
        Seq::empty()
    } else if n == 1 {
        "\""@ + v[0]@ + "\""@
    } else {
        indices_code(v, (n - 1) as nat) + ", "@ + "\""@ + v[n - 1]@ + "\""@
    }
}

/// The source text of optional secondary indices: `Some(&["a", "b"])` or `None`.
pub open spec fn secondary_indices_code(secondary_indices: Option<Vec<String>>) -> Seq<char> {
    match secondary_indices {
        Some(v) => "Some(&["@ + indices_code(v@, v@.len()) + "])"@,
        None => "None"@,
    }
}

/// Writes optional secondary indices as `Some(&["a", "b"])`, or `None`.
pub fn write_secondary_indices(secondary_indices: &Option<Vec<String>>) -> (r: String)
    ensures
        r@ == secondary_indices_code(*secondary_indices),
{
    match secondary_indices {
        Some(v) => {
            let mut s = String::from_str("Some(&[");
            let mut i: usize = 0;
            let ghost start = s@;
            while i < v.len()
                invariant
                    i <= v@.len(),
                    s@ == start + indices_code(v@, i as nat),
                decreases v.len() - i,
            {
                if i > 0 {
                    put(&mut s, ", ");
                }
                put(&mut s, "\"");
                put_string(&mut s, &v[i]);
                put(&mut s, "\"");
                proof {
                    if i == 0 {
                        assert(s@ =~= start + ("\""@ + v@[0]@ + "\""@));
                    } else {
                        assert(s@ =~= start + (indices_code(v@, i as nat) + ", "@ + "\""@ + v@[i as int]@
                            + "\""@));
                    }
                }
                i = i + 1;
            }
            put(&mut s, "])");
            s
        },
        None => String::from_str("None"),
    }
}

/// The imports that every generated query file starts with.
pub const HEADERS: &'static str = r#"
// DEFAULT CODE
// use helix_db::helix_engine::traversal_core::config::Config;

// pub fn config() -> Option<Config> {
//     None
// }



use heed3::RoTxn;
use helix_macros::{handler, tool_call, mcp_handler, migration};
use helix_db::{
    helix_engine::{
        traversal_core::{
            config::{Config, GraphConfig, VectorConfig},
            ops::{
                bm25::search_bm25::SearchBM25Adapter,
                g::G,
                in_::{in_::InAdapter, in_e::InEdgesAdapter, to_n::ToNAdapter, to_v::ToVAdapter},
                out::{
                    from_n::FromNAdapter, from_v::FromVAdapter, out::OutAdapter, out_e::OutEdgesAdapter,
                },
                source::{
                    add_e::{AddEAdapter, EdgeType},
                    add_n::AddNAdapter,
                    e_from_id::EFromIdAdapter,
                    e_from_type::EFromTypeAdapter,
                    n_from_id::NFromIdAdapter,
                    n_from_index::NFromIndexAdapter,
                    n_from_type::NFromTypeAdapter,
                    v_from_id::VFromIdAdapter,
                    v_from_type::VFromTypeAdapter
                },
                util::{
                    dedup::DedupAdapter, drop::Drop, exist::Exist, filter_mut::FilterMut,
                    filter_ref::FilterRefAdapter, map::MapAdapter, paths::ShortestPathAdapter,
                    props::PropsAdapter, range::RangeAdapter, update::UpdateAdapter, order::OrderByAdapter,
                    aggregate::AggregateAdapter, group_by::GroupByAdapter, count::CountAdapter,
                    },
                    vectors::{
                        brute_force_search::BruteForceSearchVAdapter, insert::InsertVAdapter,
                        search::SearchVAdapter,
                    },
                },
                traversal_value::{Traversable, TraversalValue},
            },
        types::GraphError,
        vector_core::vector::HVector,
    },
    helix_gateway::{
        embedding_providers::embedding_providers::{EmbeddingModel, get_embedding_model},
        router::router::{HandlerInput, IoContFn},
        mcp::mcp::{MCPHandlerSubmission, MCPToolInput, MCPHandler}
    },
    node_matches, props, embed, embed_async,
    field_remapping, identifier_remapping, 
    traversal_remapping, exclude_field, value_remapping, 
    field_addition_from_old_field, field_type_cast, field_addition_from_value,
    protocol::{
        remapping::{Remapping, RemappingMap, ResponseRemapping},
        response::Response,
        return_values::ReturnValue,
        value::{casting::{cast, CastType}, Value},
        format::Format,
    },
    utils::{
        count::Count,
        filterable::Filterable,
        id::ID,
        items::{Edge, Node},
    },
};
use sonic_rs::{Deserialize, Serialize};
use std::collections::{HashMap, HashSet};
use std::sync::Arc;
use std::time::Instant;
use chrono::{DateTime, Utc};
    "#;

/// The imports that every generated query file starts with.
pub fn write_headers() -> (r: String)
    ensures
        r@ == HEADERS@,
{
    String::from_str(HEADERS)
}

} // verus!
