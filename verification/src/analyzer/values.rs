//! Literal values of queries: their text, their kind, the code that holds them, and
//! whether a field type takes them.

use vstd::prelude::*;
use vstd::string::StringExecFns;
use crate::text::{integer_text, signed_to_string, unsigned_to_string};
use crate::generator::utils::{put, put_string};
use super::types::{field_type_view, FieldType, FieldTypeView, Value};

verus! {

/// The text of a value: a string's characters, a number in decimal (a floating-point one
/// as written), `true` or `false`, nothing for no value.
pub open spec fn value_text(v: Value) -> Seq<char> {
    match v {
        Value::String(s) => s@,
        Value::I8(x) => integer_text(x as int),
        Value::I16(x) => integer_text(x as int),
        Value::I32(x) => integer_text(x as int),
        Value::I64(x) => integer_text(x as int),
        Value::U8(x) => integer_text(x as int),
        Value::U16(x) => integer_text(x as int),
        Value::U32(x) => integer_text(x as int),
        Value::U64(x) => integer_text(x as int),
        Value::U128(x) => integer_text(x as int),
        Value::F32(t) => t@,
        Value::F64(t) => t@,
        Value::Boolean(b) => if b {
            "true"@
        } else {
            "false"@
        },
        Value::Empty => Seq::empty(),
    }
}

/// The name of a value's kind.
pub open spec fn value_kind(v: Value) -> Seq<char> {
    match v {
        Value::String(_) => "String"@,
        Value::I8(_) => "I8"@,
        Value::I16(_) => "I16"@,
        Value::I32(_) => "I32"@,
        Value::I64(_) => "I64"@,
        Value::U8(_) => "U8"@,
        Value::U16(_) => "U16"@,
        Value::U32(_) => "U32"@,
        Value::U64(_) => "U64"@,
        Value::U128(_) => "U128"@,
        Value::F32(_) => "F32"@,
        Value::F64(_) => "F64"@,
        Value::Boolean(_) => "Boolean"@,
        Value::Empty => "Empty"@,
    }
}

/// The source text of a value in generated code: a string in double quotes, anything
/// else as its text.
pub open spec fn literal_code(v: Value) -> Seq<char> {
    match v {
        Value::String(s) => "\""@ + s@ + "\""@,
        _ => value_text(v),
    }
}

/// Whether a field of the given type takes the value: a string for a string field, an
/// integer of the field's width and signedness, a floating-point number of its width, a
/// boolean for a boolean field.
pub open spec fn field_accepts(t: FieldTypeView, v: Value) -> bool {
    match (t, v) {
        (FieldTypeView::String, Value::String(_)) => true,
        (FieldTypeView::I8, Value::I8(_)) => true,
        (FieldTypeView::I16, Value::I16(_)) => true,
        (FieldTypeView::I32, Value::I32(_)) => true,
        (FieldTypeView::I64, Value::I64(_)) => true,
        (FieldTypeView::U8, Value::U8(_)) => true,
        (FieldTypeView::U16, Value::U16(_)) => true,
        (FieldTypeView::U32, Value::U32(_)) => true,
        (FieldTypeView::U64, Value::U64(_)) => true,
        (FieldTypeView::U128, Value::U128(_)) => true,
        (FieldTypeView::F32, Value::F32(_)) => true,
        (FieldTypeView::F64, Value::F64(_)) => true,
        (FieldTypeView::Boolean, Value::Boolean(_)) => true,
        _ => false,
    }
}

/// The name of a field type: its kind, a list type in square brackets, a type name as
/// written.
pub open spec fn field_kind(t: FieldTypeView) -> Seq<char>
    decreases t,
{
    match t {
        FieldTypeView::String => "String"@,
        FieldTypeView::Boolean => "Boolean"@,
        FieldTypeView::F32 => "F32"@,
        FieldTypeView::F64 => "F64"@,
        FieldTypeView::I8 => "I8"@,
        FieldTypeView::I16 => "I16"@,
        FieldTypeView::I32 => "I32"@,
        FieldTypeView::I64 => "I64"@,
        FieldTypeView::U8 => "U8"@,
        FieldTypeView::U16 => "U16"@,
        FieldTypeView::U32 => "U32"@,
        FieldTypeView::U64 => "U64"@,
        FieldTypeView::U128 => "U128"@,
        FieldTypeView::Uuid => "ID"@,
        FieldTypeView::Date => "Date"@,
        FieldTypeView::Array(inner) => "["@ + field_kind(*inner) + "]"@,
        FieldTypeView::Identifier(n) => n,
        FieldTypeView::Object(_) => "Object"@,
    }
}

/// The text of a value (see [`value_text`]).
pub fn value_text_of(v: &Value) -> (r: String)
    ensures
        r@ == value_text(*v),
{
    match v {
        Value::String(s) => s.clone(),
        Value::I8(x) => signed_to_string(*x as i128),
        Value::I16(x) => signed_to_string(*x as i128),
        Value::I32(x) => signed_to_string(*x as i128),
        Value::I64(x) => signed_to_string(*x as i128),
        Value::U8(x) => unsigned_to_string(*x as u128),
        Value::U16(x) => unsigned_to_string(*x as u128),
        Value::U32(x) => unsigned_to_string(*x as u128),
        Value::U64(x) => unsigned_to_string(*x as u128),
        Value::U128(x) => unsigned_to_string(*x),
        Value::F32(t) => t.clone(),
        Value::F64(t) => t.clone(),
        Value::Boolean(b) => if *b {
            String::from_str("true")
        } else {
            String::from_str("false")
        },
        Value::Empty => String::new(),
    }
}

/// The name of a value's kind (see [`value_kind`]).
pub fn value_kind_of(v: &Value) -> (r: String)
    ensures
        r@ == value_kind(*v),
{
    let k = match v {
        Value::String(_) => "String",
        Value::I8(_) => "I8",
        Value::I16(_) => "I16",
        Value::I32(_) => "I32",
        Value::I64(_) => "I64",
        Value::U8(_) => "U8",
        Value::U16(_) => "U16",
        Value::U32(_) => "U32",
        Value::U64(_) => "U64",
        Value::U128(_) => "U128",
        Value::F32(_) => "F32",
        Value::F64(_) => "F64",
        Value::Boolean(_) => "Boolean",
        Value::Empty => "Empty",
    };
    String::from_str(k)
}

/// The source text of a value in generated code (see [`literal_code`]).
pub fn literal_code_of(v: &Value) -> (r: String)
    ensures
        r@ == literal_code(*v),
{
    match v {
        Value::String(s) => {
            let mut r = String::from_str("\"");
            put_string(&mut r, s);
            put(&mut r, "\"");
            r
        },
        _ => value_text_of(v),
    }
}

/// Whether a field of the given type takes the value (see [`field_accepts`]).
pub fn field_accepts_value(t: &FieldType, v: &Value) -> (r: bool)
    ensures
        r == field_accepts(field_type_view(*t), *v),
{
    match (t, v) {
        (FieldType::String, Value::String(_)) => true,
        (FieldType::I8, Value::I8(_)) => true,
        (FieldType::I16, Value::I16(_)) => true,
        (FieldType::I32, Value::I32(_)) => true,
        (FieldType::I64, Value::I64(_)) => true,
        (FieldType::U8, Value::U8(_)) => true,
        (FieldType::U16, Value::U16(_)) => true,
        (FieldType::U32, Value::U32(_)) => true,
        (FieldType::U64, Value::U64(_)) => true,
        (FieldType::U128, Value::U128(_)) => true,
        (FieldType::F32, Value::F32(_)) => true,
        (FieldType::F64, Value::F64(_)) => true,
        (FieldType::Boolean, Value::Boolean(_)) => true,
        _ => false,
    }
}

/// The name of a field type (see [`field_kind`]).
pub fn field_kind_of(t: &FieldType) -> (r: String)
    ensures
        r@ == field_kind(field_type_view(*t)),
    decreases *t,
{
    match t {
        FieldType::String => String::from_str("String"),
        FieldType::Boolean => String::from_str("Boolean"),
        FieldType::F32 => String::from_str("F32"),
        FieldType::F64 => String::from_str("F64"),
        FieldType::I8 => String::from_str("I8"),
        FieldType::I16 => String::from_str("I16"),
        FieldType::I32 => String::from_str("I32"),
        FieldType::I64 => String::from_str("I64"),
        FieldType::U8 => String::from_str("U8"),
        FieldType::U16 => String::from_str("U16"),
        FieldType::U32 => String::from_str("U32"),
        FieldType::U64 => String::from_str("U64"),
        FieldType::U128 => String::from_str("U128"),
        FieldType::Uuid => String::from_str("ID"),
        FieldType::Date => String::from_str("Date"),
        FieldType::Array(inner) => {
            let mut r = String::from_str("[");
            let k = field_kind_of(inner);
            put_string(&mut r, &k);
            put(&mut r, "]");
            r
        },
        FieldType::Identifier(n) => n.clone(),
        FieldType::Object(_) => String::from_str("Object"),
    }
}

} // verus!
