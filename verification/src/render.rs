//! Rendering a payload as the value that the schema says it holds.
use vstd::prelude::*;
use crate::text::{decimal_text, decode_text, i64_to_string, utf8_text};
use crate::varint::{as_signed64, varint_to_i64, varint_value};
use crate::wire::PBWireType;

verus! {

/// What the schema says a field holds.
#[derive(Clone, Copy, Debug, PartialEq, Eq)]
pub enum PBType {
    Integer64,
    String,
}

/// Why a payload could not be rendered.
#[derive(Clone, Copy, Debug, PartialEq, Eq)]
pub enum ReprError {
    /// The payload of a string field is not valid UTF-8. The number is the
    /// offset of the first byte sequence that is not.
    InvalidText(usize),
    /// The wire type of the field cannot hold a value of the schema type.
    IncompatibleType(PBType, PBWireType),
}

/// A rendered value.
#[derive(Debug, PartialEq, Eq)]
pub enum Value {
    Text(String),
    Integer64(i64),
}

impl Clone for Value {
    fn clone(&self) -> (r: Value)
        ensures
            r@ == self@,
    {
        match self {
            Value::Text(text) => Value::Text(text.clone()),
            Value::Integer64(number) => Value::Integer64(*number),
        }
    }
}

/// A rendered value, with text as a sequence of characters.
pub enum ValueView {
    Text(Seq<char>),
    Integer64(i64),
}

impl View for Value {
    type V = ValueView;

    open spec fn view(&self) -> ValueView {
        match self {
            Value::Text(text) => ValueView::Text(text@),
            Value::Integer64(number) => ValueView::Integer64(*number),
        }
    }
}

/// The value that `payload` stands for, read as `schema_type` out of a field
/// of wire type `wire_type`.
///
/// A string comes in a length-delimited field and an integer in a
/// variable-length one. No other pairing has a value: nothing is converted
/// from one representation to the other.
pub open spec fn rendered(schema_type: PBType, wire_type: PBWireType, payload: Seq<u8>) -> Result<
    ValueView,
    ReprError,
> {
    match (schema_type, wire_type) {
        (PBType::String, PBWireType::LengthDelim) => match utf8_text(payload) {
            Ok(chars) => Ok(ValueView::Text(chars)),
            Err(offset) => Err(ReprError::InvalidText(offset as usize)),
        },
        (PBType::Integer64, PBWireType::VarInt) => Ok(
            ValueView::Integer64(as_signed64(varint_value(payload)) as i64),
        ),
        _ => Err(ReprError::IncompatibleType(schema_type, wire_type)),
    }
}

/// Whether a field of wire type `wire_type` can hold a value of
/// `schema_type`.
pub open spec fn compatible(schema_type: PBType, wire_type: PBWireType) -> bool {
    ||| schema_type is String && wire_type is LengthDelim
    ||| schema_type is Integer64 && wire_type is VarInt
}

/// Types that do not go together are rejected whatever the payload holds,
/// and types that go together are never rejected as incompatible. So the
/// bytes of a string are never read as a number, nor a number as a string.
pub proof fn lemma_incompatible_types_are_rejected(
    schema_type: PBType,
    wire_type: PBWireType,
    payload: Seq<u8>,
)
    ensures
        !compatible(schema_type, wire_type) ==> rendered(schema_type, wire_type, payload) == Err::<
            ValueView,
            ReprError,
        >(ReprError::IncompatibleType(schema_type, wire_type)),
        compatible(schema_type, wire_type) ==> !(rendered(schema_type, wire_type, payload) matches Err(
            ReprError::IncompatibleType(_, _),
        )),
        rendered(schema_type, wire_type, payload) matches Ok(ValueView::Integer64(_))
            ==> schema_type is Integer64 && wire_type is VarInt,
        rendered(schema_type, wire_type, payload) matches Ok(ValueView::Text(_))
            ==> schema_type is String && wire_type is LengthDelim,
{
}

/// The text that stands for a rendered value: a string as it is, a number in
/// decimal.
pub open spec fn value_text(value: ValueView) -> Seq<char> {
    match value {
        ValueView::Text(chars) => chars,
        ValueView::Integer64(number) => decimal_text(number as int),
    }
}

/// Renders a payload as the value of its schema type.
pub fn render(schema_type: PBType, wire_type: PBWireType, payload: &[u8]) -> (r: Result<
    Value,
    ReprError,
>)
    ensures
        match rendered(schema_type, wire_type, payload@) {
            Ok(value) => r matches Ok(v) && v@ == value,
            Err(e) => r matches Err(err) && err == e,
        },
{
    match (schema_type, wire_type) {
        (PBType::String, PBWireType::LengthDelim) => match decode_text(payload) {
            Ok(text) => Ok(Value::Text(text.to_owned())),
            Err(offset) => Err(ReprError::InvalidText(offset)),
        },
        (PBType::Integer64, PBWireType::VarInt) => Ok(Value::Integer64(varint_to_i64(payload))),
        _ => Err(ReprError::IncompatibleType(schema_type, wire_type)),
    }
}

/// Renders a payload as the text of its value: a string field gives its
/// string, an integer field its number in decimal.
pub fn StringRepr<'a>(wire_type: PBWireType, schema_type: PBType, bytes: &'a [u8]) -> (r: Result<
    String,
    ReprError,
>)
    ensures
        match rendered(schema_type, wire_type, bytes@) {
            Ok(value) => r matches Ok(text) && text@ == value_text(value),
            Err(e) => r matches Err(err) && err == e,
        },
{
    match (wire_type, schema_type) {
        (PBWireType::LengthDelim, PBType::String) => match decode_text(bytes) {
            Ok(text) => Ok(text.to_owned()),
            Err(offset) => Err(ReprError::InvalidText(offset)),
        },
        (PBWireType::VarInt, PBType::Integer64) => match IntegerRepr(wire_type, schema_type, bytes) {
            Ok(number) => Ok(i64_to_string(number)),
            Err(e) => Err(e),
        },
        _ => Err(ReprError::IncompatibleType(schema_type, wire_type)),
    }
}

/// Renders the payload of an integer field as a signed 64-bit number.
///
/// Any pairing but a variable-length field of schema type `Integer64` is
/// rejected, a string field too: its bytes are not read as a number.
pub fn IntegerRepr<'a>(wire_type: PBWireType, schema_type: PBType, bytes: &'a [u8]) -> (r: Result<
    i64,
    ReprError,
>)
    ensures
        r == match (wire_type, schema_type) {
            (PBWireType::VarInt, PBType::Integer64) => Ok::<i64, ReprError>(
                as_signed64(varint_value(bytes@)) as i64,
            ),
            _ => Err(ReprError::IncompatibleType(schema_type, wire_type)),
        },
{
    match (wire_type, schema_type) {
        (PBWireType::VarInt, PBType::Integer64) => Ok(varint_to_i64(bytes)),
        _ => Err(ReprError::IncompatibleType(schema_type, wire_type)),
    }
}

} // verus!
