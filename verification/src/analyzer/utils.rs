//! Helpers of the semantic analyzer: reserved names, parameters and variables in scope,
//! the fields of node, edge and vector types, and the code that reads them.

use vstd::prelude::*;
use vstd::string::StringExecFns;
use crate::text::str_eq;
use crate::generator::utils::{put, GenRef, GeneratedValue};
use crate::generator::traversal_steps::Step;
use super::str_map::{DeepCopy, StrMap};
use super::types::{
    field_type_view, type_view, Ctx, Diagnostic, ErrorCode, FieldType, FieldTypeView, Loc,
    Parameter, Query, Type, TypeView,
};

verus! {

/// The name a variable gets when none is given.
pub const DEFAULT_VAR_NAME: &'static str = "val";

/// The view of a diagnostic reported inside a query.
pub open spec fn query_error(loc: Loc, code: ErrorCode, q: Query, details: Seq<Seq<char>>) -> (
    Loc,
    ErrorCode,
    Option<Seq<char>>,
    Seq<Seq<char>>,
    Option<Seq<char>>,
) {
    (loc, code, Some(q.name@), details, None)
}

/// Whether two contexts agree on everything but their diagnostics.
pub open spec fn same_but_diagnostics(a: Ctx, b: Ctx) -> bool {
    &&& a.schema == b.schema
    &&& a.node_set == b.node_set
    &&& a.vector_set == b.vector_set
    &&& a.edge_map == b.edge_map
    &&& a.node_fields == b.node_fields
    &&& a.edge_fields == b.edge_fields
    &&& a.vector_fields == b.vector_fields
    &&& a.output == b.output
}

/// Reports a diagnostic inside a query.
pub fn push_query_error(
    ctx: &mut Ctx,
    original_query: &Query,
    loc: Loc,
    code: ErrorCode,
    details: Vec<String>,
)
    ensures
        final(ctx).diagnostics.deep_view() == old(ctx).diagnostics.deep_view().push(
            query_error(loc, code, *original_query, details.deep_view()),
        ),
        same_but_diagnostics(*old(ctx), *final(ctx)),
{
    let ghost before = ctx.diagnostics.deep_view();
    let d = Diagnostic {
        loc,
        code,
        query: Some(original_query.name.clone()),
        details,
        hint: None,
    };
    ctx.diagnostics.push(d);
    proof {
        assert(ctx.diagnostics.deep_view() =~= before.push(
            query_error(loc, code, *original_query, details.deep_view()),
        ));
    }
}

/// The names that cannot be used as identifiers: literals and the names of built-in types.
pub open spec fn reserved_identifier(name: Seq<char>) -> bool {
    ||| name == "true"@
    ||| name == "false"@
    ||| name == "NONE"@
    ||| name == "String"@
    ||| name == "Boolean"@
    ||| name == "F32"@
    ||| name == "F64"@
    ||| name == "I8"@
    ||| name == "I16"@
    ||| name == "I32"@
    ||| name == "I64"@
    ||| name == "U8"@
    ||| name == "U16"@
    ||| name == "U32"@
    ||| name == "U64"@
    ||| name == "U128"@
    ||| name == "Uuid"@
    ||| name == "Date"@
}

fn is_reserved_identifier(name: &str) -> (r: bool)
    ensures
        r == reserved_identifier(name@),
{
    str_eq(name, "true") || str_eq(name, "false") || str_eq(name, "NONE") || str_eq(name, "String")
        || str_eq(name, "Boolean") || str_eq(name, "F32") || str_eq(name, "F64") || str_eq(
        name,
        "I8",
    ) || str_eq(name, "I16") || str_eq(name, "I32") || str_eq(name, "I64") || str_eq(name, "U8")
        || str_eq(name, "U16") || str_eq(name, "U32") || str_eq(name, "U64") || str_eq(
        name,
        "U128",
    ) || str_eq(name, "Uuid") || str_eq(name, "Date")
}

/// Whether `name` may be used as an identifier; a reserved name is reported (E105).
pub fn is_valid_identifier(ctx: &mut Ctx, original_query: &Query, loc: Loc, name: &str) -> (r:
    bool)
    ensures
        r == !reserved_identifier(name@),
        final(ctx).diagnostics.deep_view() == if r {
            old(ctx).diagnostics.deep_view()
        } else {
            old(ctx).diagnostics.deep_view().push(
                query_error(loc, ErrorCode::E105, *original_query, seq![name@]),
            )
        },
        same_but_diagnostics(*old(ctx), *final(ctx)),
{
    if is_reserved_identifier(name) {
        let details = vec![name.to_owned()];
        proof {
            assert(details.deep_view() =~= seq![name@]);
        }
        push_query_error(ctx, original_query, loc, ErrorCode::E105, details);
        false
    } else {
        true
    }
}

/// The position of the first parameter of the query with the given name.
pub open spec fn param_index(params: Seq<Parameter>, name: Seq<char>) -> Option<int> {
    if exists|i: int| 0 <= i < params.len() && #[trigger] params[i].name.1@ == name {
        Some(
            choose|i: int|
                0 <= i < params.len() && #[trigger] params[i].name.1@ == name && forall|j: int|
                    0 <= j < i ==> #[trigger] params[j].name.1@ != name,
        )
    } else {
        None
    }
}

proof fn lemma_param_index(params: Seq<Parameter>, name: Seq<char>, i: int)
    requires
        0 <= i < params.len(),
        params[i].name.1@ == name,
        forall|j: int| 0 <= j < i ==> #[trigger] params[j].name.1@ != name,
    ensures
        param_index(params, name) == Some(i),
{
    let k = choose|k: int|
        0 <= k < params.len() && #[trigger] params[k].name.1@ == name && forall|j: int|
            0 <= j < k ==> #[trigger] params[j].name.1@ != name;
    assert(params[i].name.1@ == name);
    if k < i {
        assert(params[k].name.1@ != name);
    }
    if i < k {
        assert(params[i].name.1@ != name);
    }
}

/// The first parameter of the query with the given name, if any.
pub fn is_param<'a>(q: &'a Query, name: &str) -> (r: Option<&'a Parameter>)
    ensures
        match param_index(q.parameters@, name@) {
            Some(i) => r == Some(&q.parameters@[i]),
            None => r is None,
        },
{
    let target = name.to_owned();
    let mut i: usize = 0;
    while i < q.parameters.len()
        invariant
            i <= q.parameters@.len(),
            target@ == name@,
            forall|j: int| 0 <= j < i ==> #[trigger] q.parameters@[j].name.1@ != name@,
        decreases q.parameters.len() - i,
    {
        if q.parameters[i].name.1 == target {
            proof {
                lemma_param_index(q.parameters@, name@, i as int);
            }
            return Some(&q.parameters[i]);
        }
        i = i + 1;
    }
    None
}

/// The text that unwraps an optional parameter, failing when it is absent.
pub open spec fn unwrap_param_code(name: Seq<char>) -> Seq<char> {
    "data."@ + name + ".as_ref().ok_or_else(|| GraphError::ParamNotFound(\""@ + name + "\"))?"@
}

/// Appends the text that unwraps an optional parameter.
fn put_unwrap_param(s: &mut String, name: &str)
    ensures
        final(s)@ == old(s)@ + unwrap_param_code(name@),
{
    let ghost start = s@;
    put(s, "data.");
    put(s, name);
    put(s, ".as_ref().ok_or_else(|| GraphError::ParamNotFound(\"");
    put(s, name);
    put(s, "\"))?");
    proof {
        assert(s@ =~= start + unwrap_param_code(name@));
    }
}

/// Whether a reference is of the `Std` form with the given text.
pub open spec fn is_std_of(g: GenRef<String>, text: Seq<char>) -> bool {
    g is Std && g.inner_spec()@ == text
}

/// Whether a reference is of the `Ref` form with the given text.
pub open spec fn is_ref_of(g: GenRef<String>, text: Seq<char>) -> bool {
    g is Ref && g.inner_spec()@ == text
}

/// Whether a reference is of the `DeRef` form with the given text.
pub open spec fn is_deref_of(g: GenRef<String>, text: Seq<char>) -> bool {
    g is DeRef && g.inner_spec()@ == text
}

/// The value that reads a name: a query parameter through `data`, or a variable.
/// Borrowed values are references; owned ones are cloned; optional parameters are
/// unwrapped, failing with a missing-parameter error.
pub open spec fn identifier_or_param(q: Query, name: Seq<char>, should_ref: bool, v: GeneratedValue) -> bool {
    match param_index(q.parameters@, name) {
        Some(i) => v matches GeneratedValue::Parameter(g) && {
            let optional = q.parameters@[i].is_optional;
            if should_ref && !optional {
                is_ref_of(g, "data."@ + name)
            } else if should_ref && optional {
                is_std_of(g, unwrap_param_code(name))
            } else if !optional {
                is_std_of(g, "data."@ + name + ".clone()"@)
            } else {
                is_std_of(g, unwrap_param_code(name) + ".clone()"@)
            }
        },
        None => v matches GeneratedValue::Identifier(g) && if should_ref {
            is_ref_of(g, name)
        } else {
            is_std_of(g, name + ".clone()"@)
        },
    }
}

/// The value that reads a name (see [`identifier_or_param`]).
pub fn gen_identifier_or_param(
    original_query: &Query,
    name: &str,
    should_ref: bool,
    _should_clone: bool,
) -> (r: GeneratedValue)
    ensures
        identifier_or_param(*original_query, name@, should_ref, r),
{
    if let Some(param) = is_param(original_query, name) {
        let g = if should_ref && !param.is_optional {
            let mut s = String::from_str("data.");
            put(&mut s, name);
            GenRef::Ref(s)
        } else if should_ref {
            let mut s = String::new();
            put_unwrap_param(&mut s, name);
            GenRef::Std(s)
        } else if !param.is_optional {
            let mut s = String::from_str("data.");
            put(&mut s, name);
            put(&mut s, ".clone()");
            GenRef::Std(s)
        } else {
            let mut s = String::new();
            put_unwrap_param(&mut s, name);
            put(&mut s, ".clone()");
            GenRef::Std(s)
        };
        GeneratedValue::Parameter(g)
    } else {
        let g = if should_ref {
            GenRef::Ref(name.to_owned())
        } else {
            let mut s = name.to_owned();
            put(&mut s, ".clone()");
            GenRef::Std(s)
        };
        GeneratedValue::Identifier(g)
    }
}

/// The value that reads the id a name refers to: a parameter through `data` (unwrapped
/// when optional), or the `id()` of a variable.
pub open spec fn id_access_or_param(q: Query, name: Seq<char>, v: GeneratedValue) -> bool {
    match param_index(q.parameters@, name) {
        Some(i) => v matches GeneratedValue::Parameter(g) && if q.parameters@[i].is_optional {
            is_deref_of(g, unwrap_param_code(name))
        } else {
            is_deref_of(g, "data."@ + name)
        },
        None => v matches GeneratedValue::Identifier(g) && is_std_of(g, name + ".id()"@),
    }
}

/// The value that reads the id a name refers to (see [`id_access_or_param`]).
pub fn gen_id_access_or_param(original_query: &Query, name: &str) -> (r: GeneratedValue)
    ensures
        id_access_or_param(*original_query, name@, r),
{
    if let Some(param) = is_param(original_query, name) {
        if param.is_optional {
            let mut s = String::new();
            put_unwrap_param(&mut s, name);
            GeneratedValue::Parameter(GenRef::DeRef(s))
        } else {
            let mut s = String::from_str("data.");
            put(&mut s, name);
            GeneratedValue::Parameter(GenRef::DeRef(s))
        }
    } else {
        let mut s = name.to_owned();
        put(&mut s, ".id()");
        GeneratedValue::Identifier(GenRef::Std(s))
    }
}

/// Whether a name is bound in the scope.
pub fn is_in_scope(scope: &StrMap<Type>, name: &str) -> (r: bool)
    ensures
        r == scope@.contains_key(name@),
{
    scope.contains_key(name)
}

/// The type a name is bound to in the scope; an unbound name is reported (E301).
pub fn type_in_scope(
    ctx: &mut Ctx,
    original_query: &Query,
    loc: Loc,
    scope: &StrMap<Type>,
    name: &str,
) -> (r: Option<Type>)
    ensures
        match r {
            Some(t) => scope@.contains_key(name@) && type_view(t) == scope@[name@],
            None => !scope@.contains_key(name@),
        },
        final(ctx).diagnostics.deep_view() == if r is Some {
            old(ctx).diagnostics.deep_view()
        } else {
            old(ctx).diagnostics.deep_view().push(
                query_error(loc, ErrorCode::E301, *original_query, seq![name@]),
            )
        },
        same_but_diagnostics(*old(ctx), *final(ctx)),
{
    match scope.get(name) {
        Some(ty) => Some(ty.deep_copy()),
        None => {
            let details = vec![name.to_owned()];
            proof {
                assert(details.deep_view() =~= seq![name@]);
            }
            push_query_error(ctx, original_query, loc, ErrorCode::E301, details);
            None
        },
    }
}

/// Whether a type is a node, edge or vector type, one or many, with a known name.
pub open spec fn is_item_type(t: Type) -> bool {
    match t {
        Type::Node(Some(_)) => true,
        Type::Nodes(Some(_)) => true,
        Type::Edge(Some(_)) => true,
        Type::Edges(Some(_)) => true,
        Type::Vector(Some(_)) => true,
        Type::Vectors(Some(_)) => true,
        _ => false,
    }
}

/// The type under any number of `Anonymous` wrappers.
pub open spec fn base_type(t: Type) -> Type
    decreases t,
{
    match t {
        Type::Anonymous(inner) => base_type(*inner),
        _ => t,
    }
}

/// The name of an item type, looking through `Anonymous` wrappers.
pub open spec fn item_name(t: Type) -> Seq<char>
    decreases t,
{
    match t {
        Type::Node(Some(n)) => n@,
        Type::Nodes(Some(n)) => n@,
        Type::Edge(Some(n)) => n@,
        Type::Edges(Some(n)) => n@,
        Type::Vector(Some(n)) => n@,
        Type::Vectors(Some(n)) => n@,
        Type::Anonymous(inner) => item_name(*inner),
        _ => Seq::empty(),
    }
}

/// The kind of an item type, as diagnostics name it, looking through `Anonymous` wrappers.
pub open spec fn item_kind(t: Type) -> Seq<char>
    decreases t,
{
    match t {
        Type::Node(_) => "node"@,
        Type::Nodes(_) => "nodes"@,
        Type::Edge(_) => "edge"@,
        Type::Edges(_) => "edges"@,
        Type::Vector(_) => "vector"@,
        Type::Vectors(_) => "vectors"@,
        Type::Anonymous(inner) => item_kind(*inner),
        _ => Seq::empty(),
    }
}

/// The fields that every node has besides its declared ones.
pub open spec fn node_builtin(key: Seq<char>) -> bool {
    key == "id"@ || key == "ID"@ || key == "label"@
}

/// The fields that every edge has besides its declared ones.
pub open spec fn edge_builtin(key: Seq<char>) -> bool {
    key == "id"@ || key == "ID"@ || key == "label"@ || key == "from_node"@ || key == "to_node"@
}

/// The fields that every vector has besides its declared ones.
pub open spec fn vector_builtin(key: Seq<char>) -> bool {
    key == "id"@ || key == "ID"@ || key == "label"@ || key == "data"@ || key == "score"@
}

/// Whether an item type has a field. A type whose fields are not known is taken to
/// have every field.
pub open spec fn item_has_field(ctx: Ctx, t: Type, key: Seq<char>) -> bool {
    match t {
        Type::Node(_) | Type::Nodes(_) => match ctx.node_fields@.get(item_name(t)) {
            Some(fields) => node_builtin(key) || fields.contains_key(key),
            None => true,
        },
        Type::Edge(_) | Type::Edges(_) => match ctx.edge_fields@.get(item_name(t)) {
            Some(fields) => edge_builtin(key) || fields.contains_key(key),
            None => true,
        },
        _ => match ctx.vector_fields@.get(item_name(t)) {
            Some(fields) => vector_builtin(key) || fields.contains_key(key),
            None => true,
        },
    }
}

/// The type of an item type's field, if it is known. Built-in fields have fixed types:
/// ids and node ends are UUIDs, labels strings, vector data an array of `F64`, and the
/// score an `F64`.
pub open spec fn item_field_type(ctx: Ctx, t: Type, key: Seq<char>) -> Option<FieldTypeView> {
    match t {
        Type::Node(_) | Type::Nodes(_) => match ctx.node_fields@.get(item_name(t)) {
            Some(fields) => if key == "id"@ || key == "ID"@ {
                Some(FieldTypeView::Uuid)
            } else if key == "label"@ {
                Some(FieldTypeView::String)
            } else {
                match fields.get(key) {
                    Some(f) => Some(f.2),
                    None => None,
                }
            },
            None => None,
        },
        Type::Edge(_) | Type::Edges(_) => match ctx.edge_fields@.get(item_name(t)) {
            Some(fields) => if key == "id"@ || key == "ID"@ {
                Some(FieldTypeView::Uuid)
            } else if key == "label"@ {
                Some(FieldTypeView::String)
            } else if key == "from_node"@ || key == "to_node"@ {
                Some(FieldTypeView::Uuid)
            } else {
                match fields.get(key) {
                    Some(f) => Some(f.2),
                    None => None,
                }
            },
            None => None,
        },
        _ => match ctx.vector_fields@.get(item_name(t)) {
            Some(fields) => if key == "id"@ || key == "ID"@ {
                Some(FieldTypeView::Uuid)
            } else if key == "label"@ {
                Some(FieldTypeView::String)
            } else if key == "data"@ {
                Some(FieldTypeView::Array(Box::new(FieldTypeView::F64)))
            } else if key == "score"@ {
                Some(FieldTypeView::F64)
            } else {
                match fields.get(key) {
                    Some(f) => Some(f.2),
                    None => None,
                }
            },
            None => None,
        },
    }
}

/// The view of an optional field type.
pub open spec fn opt_field_type_view(o: Option<FieldType>) -> Option<FieldTypeView> {
    match o {
        Some(t) => Some(field_type_view(t)),
        None => None,
    }
}

impl Type {
    /// The type under any number of `Anonymous` wrappers.
    pub fn base(&self) -> (r: &Type)
        ensures
            *r == base_type(*self),
        decreases *self,
    {
        match self {
            Type::Anonymous(inner) => inner.base(),
            _ => self,
        }
    }

    /// The kind of an item type: `node`, `nodes`, `edge`, `edges`, `vector` or `vectors`.
    pub fn kind_str(&self) -> (r: &'static str)
        ensures
            r@ == item_kind(*self),
        decreases *self,
    {
        proof {
            reveal_strlit("node");
            reveal_strlit("nodes");
            reveal_strlit("edge");
            reveal_strlit("edges");
            reveal_strlit("vector");
            reveal_strlit("vectors");
            reveal_strlit("");
        }
        match self {
            Type::Node(_) => "node",
            Type::Nodes(_) => "nodes",
            Type::Edge(_) => "edge",
            Type::Edges(_) => "edges",
            Type::Vector(_) => "vector",
            Type::Vectors(_) => "vectors",
            Type::Anonymous(inner) => inner.kind_str(),
            _ => "",
        }
    }

    /// The name of an item type.
    pub fn get_type_name(&self) -> (r: String)
        requires
            is_item_type(base_type(*self)),
        ensures
            r@ == item_name(*self),
        decreases *self,
    {
        match self {
            Type::Node(Some(n)) => n.clone(),
            Type::Nodes(Some(n)) => n.clone(),
            Type::Edge(Some(n)) => n.clone(),
            Type::Edges(Some(n)) => n.clone(),
            Type::Vector(Some(n)) => n.clone(),
            Type::Vectors(Some(n)) => n.clone(),
            Type::Anonymous(inner) => inner.get_type_name(),
            _ => String::new(),
        }
    }

    /// The fields table for the kind of this item type.
    fn lookup_for<'a>(&self, ctx: &'a Ctx) -> (r: &'a StrMap<StrMap<super::types::Field>>)
        requires
            is_item_type(*self),
        ensures
            match *self {
                Type::Node(_) | Type::Nodes(_) => *r == ctx.node_fields,
                Type::Edge(_) | Type::Edges(_) => *r == ctx.edge_fields,
                _ => *r == ctx.vector_fields,
            },
    {
        match self {
            Type::Node(_) | Type::Nodes(_) => &ctx.node_fields,
            Type::Edge(_) | Type::Edges(_) => &ctx.edge_fields,
            _ => &ctx.vector_fields,
        }
    }

    /// Whether `key` is a built-in field of this item type's kind.
    fn is_builtin_field(&self, key: &str) -> (r: bool)
        requires
            is_item_type(*self),
        ensures
            r == match *self {
                Type::Node(_) | Type::Nodes(_) => node_builtin(key@),
                Type::Edge(_) | Type::Edges(_) => edge_builtin(key@),
                _ => vector_builtin(key@),
            },
    {
        let common = str_eq(key, "id") || str_eq(key, "ID") || str_eq(key, "label");
        match self {
            Type::Node(_) | Type::Nodes(_) => common,
            Type::Edge(_) | Type::Edges(_) => common || str_eq(key, "from_node") || str_eq(
                key,
                "to_node",
            ),
            _ => common || str_eq(key, "data") || str_eq(key, "score"),
        }
    }

    /// Whether this item type has the field (see [`item_has_field`]).
    pub fn item_fields_contains_key(&self, ctx: &Ctx, key: &str) -> (r: bool)
        requires
            is_item_type(*self),
        ensures
            r == item_has_field(*ctx, *self, key@),
    {
        let name = self.get_type_name();
        let lookup = self.lookup_for(ctx);
        match lookup.get(name.as_str()) {
            Some(fields) => self.is_builtin_field(key) || fields.contains_key(key),
            None => true,
        }
    }

    /// Whether this item type has the field, and the type's name.
    pub fn item_fields_contains_key_with_type(&self, ctx: &Ctx, key: &str) -> (r: (bool, String))
        requires
            is_item_type(*self),
        ensures
            r.0 == item_has_field(*ctx, *self, key@),
            r.1@ == item_name(*self),
    {
        let found = self.item_fields_contains_key(ctx, key);
        (found, self.get_type_name())
    }

    /// The type of this item type's field, if known (see [`item_field_type`]).
    pub fn get_field_type_from_item_fields(&self, ctx: &Ctx, key: &str) -> (r: Option<FieldType>)
        requires
            is_item_type(*self),
        ensures
            opt_field_type_view(r) == item_field_type(*ctx, *self, key@),
    {
        let name = self.get_type_name();
        let lookup = self.lookup_for(ctx);
        let fields = match lookup.get(name.as_str()) {
            Some(fields) => fields,
            None => {
                return None;
            },
        };
        if str_eq(key, "id") || str_eq(key, "ID") {
            return Some(FieldType::Uuid);
        }
        if str_eq(key, "label") {
            return Some(FieldType::String);
        }
        match self {
            Type::Edge(_) | Type::Edges(_) => {
                if str_eq(key, "from_node") || str_eq(key, "to_node") {
                    return Some(FieldType::Uuid);
                }
            },
            Type::Vector(_) | Type::Vectors(_) => {
                if str_eq(key, "data") {
                    assert(field_type_view(FieldType::F64) == FieldTypeView::F64);
                    return Some(FieldType::Array(Box::new(FieldType::F64)));
                }
                if str_eq(key, "score") {
                    return Some(FieldType::F64);
                }
            },
            _ => {},
        }
        match fields.get(key) {
            Some(f) => Some(f.field_type.deep_copy()),
            None => None,
        }
    }
}

/// The diagnostics for the fields of `keys` that an item type does not have (E202).
pub open spec fn missing_field_errors(
    ctx: Ctx,
    q: Query,
    t: Type,
    keys: Seq<(Seq<char>, Loc)>,
) -> Seq<(Loc, ErrorCode, Option<Seq<char>>, Seq<Seq<char>>, Option<Seq<char>>)>
    decreases keys.len(),
{
    if keys.len() == 0 {
        Seq::empty()
    } else {
        let rest = missing_field_errors(ctx, q, t, keys.drop_last());
        let (key, loc) = keys.last();
        if item_has_field(ctx, t, key) {
            rest
        } else {
            rest.push(query_error(loc, ErrorCode::E202, q, seq![key, item_kind(t), item_name(t)]))
        }
    }
}

/// The keys and positions of a list of field accesses.
pub open spec fn keys_view(fields: Seq<(&str, &Loc)>) -> Seq<(Seq<char>, Loc)> {
    Seq::new(fields.len(), |i: int| (fields[i].0@, *fields[i].1))
}

/// Reports the diagnostic for a field that an item type does not have.
fn report_missing_field(ctx: &mut Ctx, original_query: &Query, loc: Loc, item_type: &Type, key: &str)
    requires
        is_item_type(*item_type),
    ensures
        final(ctx).diagnostics.deep_view() == old(ctx).diagnostics.deep_view().push(
            query_error(loc, ErrorCode::E202, *original_query, seq![key@, item_kind(*item_type), item_name(*item_type)]),
        ),
        same_but_diagnostics(*old(ctx), *final(ctx)),
{
    let details = vec![key.to_owned(), item_type.kind_str().to_owned(), item_type.get_type_name()];
    proof {
        assert(details.deep_view() =~= seq![key@, item_kind(*item_type), item_name(*item_type)]);
    }
    push_query_error(ctx, original_query, loc, ErrorCode::E202, details);
}

/// Reports each accessed field that the item type does not have (E202).
pub fn field_exists_on_item_type(
    ctx: &mut Ctx,
    original_query: &Query,
    item_type: Type,
    fields: Vec<(&str, &Loc)>,
)
    requires
        is_item_type(item_type),
    ensures
        final(ctx).diagnostics.deep_view() == old(ctx).diagnostics.deep_view() + missing_field_errors(
            *old(ctx),
            *original_query,
            item_type,
            keys_view(fields@),
        ),
        same_but_diagnostics(*old(ctx), *final(ctx)),
{
    let ghost start = *ctx;
    let mut i: usize = 0;
    while i < fields.len()
        invariant
            is_item_type(item_type),
            i <= fields@.len(),
            same_but_diagnostics(start, *ctx),
            ctx.diagnostics.deep_view() == start.diagnostics.deep_view() + missing_field_errors(
                start,
                *original_query,
                item_type,
                keys_view(fields@).take(i as int),
            ),
        decreases fields.len() - i,
    {
        let (key, loc) = fields[i];
        proof {
            assert(keys_view(fields@).take(i as int + 1).drop_last() =~= keys_view(fields@).take(
                i as int,
            ));
        }
        let ghost before = ctx.diagnostics.deep_view();
        if !item_type.item_fields_contains_key(ctx, key) {
            report_missing_field(ctx, original_query, *loc, &item_type, key);
            proof {
                assert(ctx.diagnostics.deep_view() =~= start.diagnostics.deep_view()
                    + missing_field_errors(
                    start,
                    *original_query,
                    item_type,
                    keys_view(fields@).take(i as int + 1),
                ));
            }
        }
        i = i + 1;
    }
    proof {
        assert(keys_view(fields@).take(fields@.len() as int) =~= keys_view(fields@));
    }
}

/// The single-item form of an item type: many nodes, edges or vectors become one.
pub open spec fn singular(t: Type) -> Type {
    match t {
        Type::Nodes(n) => Type::Node(n),
        Type::Edges(n) => Type::Edge(n),
        Type::Vectors(n) => Type::Vector(n),
        _ => t,
    }
}

/// Whether a type is a node, edge or vector type, one or many.
pub open spec fn is_item_kind(t: Type) -> bool {
    t is Node || t is Nodes || t is Edge || t is Edges || t is Vector || t is Vectors
}

/// The single-item form of an item type (see [`singular`]).
pub fn get_singular_type(ty: Type) -> (r: Type)
    requires
        is_item_kind(ty),
    ensures
        r == singular(ty),
{
    match ty {
        Type::Nodes(node_type) => Type::Node(node_type),
        Type::Edges(edge_type) => Type::Edge(edge_type),
        Type::Vectors(vector_type) => Type::Vector(vector_type),
        _ => ty,
    }
}

/// Reports the field if the item type does not have it (E202).
pub fn validate_field_name_existence_for_item_type(
    ctx: &mut Ctx,
    original_query: &Query,
    loc: Loc,
    item_type: &Type,
    name: &str,
)
    requires
        is_item_type(*item_type),
    ensures
        final(ctx).diagnostics.deep_view() == if item_has_field(*old(ctx), *item_type, name@) {
            old(ctx).diagnostics.deep_view()
        } else {
            old(ctx).diagnostics.deep_view().push(
                query_error(loc, ErrorCode::E202, *original_query, seq![name@, item_kind(*item_type), item_name(*item_type)]),
            )
        },
        same_but_diagnostics(*old(ctx), *final(ctx)),
{
    if !item_type.item_fields_contains_key(ctx, name) {
        report_missing_field(ctx, original_query, loc, item_type, name);
    }
}

/// The type of an item type's field, if known (see [`item_field_type`]).
pub fn get_field_type_from_item_fields(ctx: &mut Ctx, item_type: &Type, name: &str) -> (r: Option<
    FieldType,
>)
    requires
        is_item_type(*item_type),
    ensures
        opt_field_type_view(r) == item_field_type(*old(ctx), *item_type, name@),
        *final(ctx) == *old(ctx),
{
    item_type.get_field_type_from_item_fields(ctx, name)
}

/// The property name a field access reads: `id` and `ID` both read `id`.
pub open spec fn property_name(name: Seq<char>) -> Seq<char> {
    if name == "id"@ || name == "ID"@ {
        "id"@
    } else {
        name
    }
}

/// The step that reads a property (see [`property_name`]).
pub fn gen_property_access(name: &str) -> (r: Step)
    ensures
        r matches Step::PropertyFetch(g) && g is Literal && g.inner_spec()@ == property_name(name@),
{
    if str_eq(name, "id") || str_eq(name, "ID") {
        Step::PropertyFetch(GenRef::Literal(String::from_str("id")))
    } else {
        Step::PropertyFetch(GenRef::Literal(name.to_owned()))
    }
}

/// A named variable of a known type.
pub struct Variable {
    pub name: String,
    pub ty: Type,
}

impl Variable {
    /// A variable with the given name and type.
    pub fn new(name: String, ty: Type) -> (r: Self)
        ensures
            r == (Variable { name, ty }),
    {
        Variable { name, ty }
    }
}

/// The name and type of a variable that may be absent.
pub trait VariableAccess {
    /// The variable's name, or `var` when there is none.
    fn get_variable_name(&self) -> String;

    /// The variable's type, or `Unknown` when there is none.
    fn get_variable_ty(&self) -> &Type;
}

impl VariableAccess for Option<Variable> {
    fn get_variable_name(&self) -> (r: String)
        ensures
            r@ == match self {
                Some(v) => v.name@,
                None => "var"@,
            },
    {
        match self {
            Some(v) => v.name.clone(),
            None => String::from_str("var"),
        }
    }

    fn get_variable_ty(&self) -> (r: &Type)
        ensures
            type_view(*r) == match self {
                Some(v) => type_view(v.ty),
                None => TypeView::Unknown,
            },
    {
        match self {
            Some(v) => &v.ty,
            None => &Type::Unknown,
        }
    }
}

} // verus!
