//! What holds of two calls of the same function: the result of a decoding
//! step depends on the bytes it is given and on nothing else.
use vstd::prelude::*;
use crate::payload::extract;
use crate::render::{render, PBType, ReprError, Value};
use crate::wire::{decode_header, FieldHeader, PBParseError, PBWireType};

verus! {

/// Decoding a header is repeatable: two calls on buffers that hold the same
/// bytes give the same header and the same number of bytes taken, or the same
/// error.
pub proof fn lemma_decode_header_repeatable(
    buffer: &[u8],
    same_bytes: &[u8],
    first: Result<(FieldHeader, usize), PBParseError>,
    second: Result<(FieldHeader, usize), PBParseError>,
)
    requires
        buffer@.len() > 0,
        same_bytes@ == buffer@,
        call_ensures(decode_header, (buffer,), first),
        call_ensures(decode_header, (same_bytes,), second),
    ensures
        first == second,
{
}

/// Taking a payload is repeatable: two calls on the same wire type and on
/// buffers that hold the same bytes give the same payload bytes and the same
/// number of bytes taken, or the same error.
pub proof fn lemma_extract_repeatable<'a, 'b>(
    wire_type: PBWireType,
    after_header: &'a [u8],
    same_bytes: &'b [u8],
    first: Result<(&'a [u8], usize), PBParseError>,
    second: Result<(&'b [u8], usize), PBParseError>,
)
    requires
        same_bytes@ == after_header@,
        call_ensures(extract, (wire_type, after_header), first),
        call_ensures(extract, (wire_type, same_bytes), second),
    ensures
        match first {
            Ok((payload, used)) => second matches Ok((again, used_again)) && again@ == payload@
                && used_again == used,
            Err(e) => second matches Err(err) && err == e,
        },
{
}

/// Rendering is repeatable: two calls on the same types and on payloads that
/// hold the same bytes give the same value or the same error.
pub proof fn lemma_render_repeatable(
    schema_type: PBType,
    wire_type: PBWireType,
    payload: &[u8],
    same_bytes: &[u8],
    first: Result<Value, ReprError>,
    second: Result<Value, ReprError>,
)
    requires
        same_bytes@ == payload@,
        call_ensures(render, (schema_type, wire_type, payload), first),
        call_ensures(render, (schema_type, wire_type, same_bytes), second),
    ensures
        match first {
            Ok(value) => second matches Ok(again) && again@ == value@,
            Err(e) => second matches Err(err) && err == e,
        },
{
}

} // verus!
