//! The cursor over a buffer, and the decoding of the field it stands at.
use vstd::prelude::*;
use crate::payload::{extract, lemma_payload_span_extends, payload_span};
use crate::wire::{decode_header, header_of, PBParseError, PBWireType};

verus! {

/// A decoded field: its number, its wire type, and its payload as a slice of
/// the buffer it was read from.
#[derive(Clone, Copy, Debug)]
pub struct TagValue<'a> {
    pub tag: u8,
    pub wire_type: PBWireType,
    pub value: &'a [u8],
}

/// What a decoded field holds, with the payload as a sequence of bytes.
pub struct FieldView {
    pub tag: u8,
    pub wire_type: PBWireType,
    pub value: Seq<u8>,
}

impl<'a> View for TagValue<'a> {
    type V = FieldView;

    open spec fn view(&self) -> FieldView {
        FieldView { tag: self.tag, wire_type: self.wire_type, value: self.value@ }
    }
}

/// A cursor: the part of the buffer that has not been decoded yet. It starts
/// at a field header, or is empty at the end of the buffer.
///
/// A cursor is a snapshot. Decoding a field gives a new cursor and leaves
/// the old one as it was, so a caller can keep it and decode from it again.
#[derive(Clone, Copy, Debug)]
pub struct ParserPosition<'a> {
    pub slice: &'a [u8],
}

impl<'a> View for ParserPosition<'a> {
    type V = Seq<u8>;

    open spec fn view(&self) -> Seq<u8> {
        self.slice@
    }
}

impl<'a> ParserPosition<'a> {
    /// The cursor at the start of a message.
    pub fn init(msg_slice: &'a [u8]) -> (r: ParserPosition<'a>)
        ensures
            r@ == msg_slice@,
    {
        ParserPosition { slice: msg_slice }
    }

    /// Whether the whole buffer has been decoded.
    pub fn is_exhausted(&self) -> (r: bool)
        ensures
            r == (self@.len() == 0),
    {
        self.slice.len() == 0
    }
}

/// The field at the front of `s`, and the number of bytes it takes, header
/// included. `s` holds at least the header byte.
pub open spec fn next_field(s: Seq<u8>) -> Result<(FieldView, int), PBParseError>
    recommends
        s.len() > 0,
{
    match header_of(s[0]) {
        Err(e) => Err(e),
        Ok(header) => match payload_span(header.wire_type, s.skip(1)) {
            Err(e) => Err(e),
            Ok((start, end)) => Ok(
                (
                    FieldView {
                        tag: header.tag,
                        wire_type: header.wire_type,
                        value: s.subrange(1 + start, 1 + end),
                    },
                    1 + end,
                ),
            ),
        },
    }
}

/// A field takes at least its header byte and no more bytes than `s` holds,
/// and its payload lies among the bytes it takes, after the header.
pub proof fn lemma_next_field_bounds(s: Seq<u8>)
    requires
        s.len() > 0,
    ensures
        next_field(s) matches Ok((field, used)) ==> 1 <= used <= s.len() && field.value.len() < used
            && field.value == s.subrange(used - field.value.len(), used),
{
}

/// Bytes that follow a field do not change it: a field that is decoded at the
/// front of `s` is decoded the same at the front of `s` followed by `more`.
pub proof fn lemma_next_field_extends(s: Seq<u8>, more: Seq<u8>)
    requires
        s.len() > 0,
        next_field(s) is Ok,
    ensures
        next_field(s + more) == next_field(s),
{
    let header = header_of(s[0])->Ok_0;
    let after = s.skip(1);
    assert((s + more).skip(1) == after + more);
    lemma_payload_span_extends(header.wire_type, after, more);
    let (start, end) = payload_span(header.wire_type, after)->Ok_0;
    assert((s + more).subrange(1 + start, 1 + end) == s.subrange(1 + start, 1 + end));
}

/// Takes the payload of the field that `pos` stands at, whose header byte has
/// been decoded to `wire_type`, and moves the cursor past the field.
///
/// The cursor holds the header byte, which is skipped, and then the payload
/// as `wire_type` frames it. The new cursor starts right after the payload.
pub fn ParseWireType<'a>(wire_type: PBWireType, pos: ParserPosition<'a>) -> (r: Result<
    (&'a [u8], ParserPosition<'a>),
    PBParseError,
>)
    requires
        pos@.len() > 0,
    ensures
        match payload_span(wire_type, pos@.skip(1)) {
            Ok((start, end)) => r matches Ok((payload, next)) && payload@ == pos@.subrange(
                1 + start,
                1 + end,
            ) && next@ == pos@.skip(1 + end),
            Err(e) => r matches Err(err) && err == e,
        },
        r matches Ok((payload, next)) ==> payload@.len() + next@.len() < pos@.len(),
{
    let len = pos.slice.len();
    let after_header = &pos.slice[1..len];
    match extract(wire_type, after_header) {
        Ok((payload, used)) => {
            let next = ParserPosition { slice: &pos.slice[1 + used..len] };
            Ok((payload, next))
        },
        Err(e) => Err(e),
    }
}

/// Decodes the field that `pos` stands at and moves the cursor past it.
///
/// The cursor must not be at the end of the buffer. The header byte gives the
/// field number and the wire type; the wire type decides which bytes are the
/// payload. On an error nothing is skipped: the caller still holds `pos`.
pub fn PBParseNext<'a>(pos: ParserPosition<'a>) -> (r: Result<
    (TagValue<'a>, ParserPosition<'a>),
    PBParseError,
>)
    requires
        pos@.len() > 0,
    ensures
        match next_field(pos@) {
            Ok((field, used)) => r matches Ok((tag_value, next)) && tag_value@ == field && next@
                == pos@.skip(used),
            Err(e) => r matches Err(err) && err == e,
        },
        r matches Ok((tag_value, next)) ==> tag_value.tag < 32 && tag_value.value@.len()
            + next@.len() < pos@.len(),
{
    let header = match decode_header(pos.slice) {
        Ok((header, _)) => header,
        Err(e) => {
            return Err(e);
        },
    };
    match ParseWireType(header.wire_type, pos) {
        Ok((value, next)) => Ok((TagValue { tag: header.tag, wire_type: header.wire_type, value }, next)),
        Err(e) => Err(e),
    }
}

} // verus!
