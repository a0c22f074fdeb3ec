//! Wire types and the one-byte field header.
use vstd::prelude::*;

verus! {

/// How the payload that follows a field header is framed.
///
/// `Reserved` stands for the two selectors of the retired group records. It
/// is a known wire type, but no payload can be read for it.
#[derive(Clone, Copy, Debug, PartialEq, Eq)]
pub enum PBWireType {
    VarInt,
    Fixed64,
    LengthDelim,
    Fixed32,
    Reserved,
}

/// Why a field could not be decoded.
#[derive(Clone, Copy, Debug, PartialEq, Eq)]
pub enum PBParseError {
    /// The header's three-bit selector has no wire type assigned to it.
    UnknownWireType(usize),
    /// The wire type is known, but has no rule for reading a payload.
    UnsupportedWireType(PBWireType),
    /// The buffer ends before the payload does.
    Truncated,
}

/// The field number and the wire type that a header byte holds.
#[derive(Clone, Copy, Debug, PartialEq, Eq)]
pub struct FieldHeader {
    pub tag: u8,
    pub wire_type: PBWireType,
}

/// The field number in a header byte: its upper five bits.
pub open spec fn header_tag(byte: u8) -> u8 {
    byte >> 3
}

/// The wire-type selector in a header byte: its lower three bits.
pub open spec fn header_selector(byte: u8) -> u8 {
    byte & 7
}

/// The wire type that a selector stands for, if it stands for one.
pub open spec fn wire_type_of(selector: u8) -> Option<PBWireType> {
    if selector == 0 {
        Some(PBWireType::VarInt)
    } else if selector == 1 {
        Some(PBWireType::Fixed64)
    } else if selector == 2 {
        Some(PBWireType::LengthDelim)
    } else if selector == 3 || selector == 4 {
        Some(PBWireType::Reserved)
    } else if selector == 5 {
        Some(PBWireType::Fixed32)
    } else {
        None
    }
}

/// What a header byte decodes to.
pub open spec fn header_of(byte: u8) -> Result<FieldHeader, PBParseError> {
    match wire_type_of(header_selector(byte)) {
        Some(wire_type) => Ok(FieldHeader { tag: header_tag(byte), wire_type }),
        None => Err(PBParseError::UnknownWireType(header_selector(byte) as usize)),
    }
}

/// A header byte is eight times its tag plus its selector, with the tag below
/// 32 and the selector below 8.
pub proof fn lemma_header_split(byte: u8)
    ensures
        header_tag(byte) == byte / 8,
        header_selector(byte) == byte % 8,
        header_tag(byte) < 32,
        header_selector(byte) < 8,
        byte == 8 * header_tag(byte) + header_selector(byte),
{
    assert(byte >> 3 == byte / 8) by (bit_vector);
    assert(byte & 7 == byte % 8) by (bit_vector);
}

/// A header is rejected exactly where its selector is 6 or 7, and the error
/// then names the selector. Every other header byte decodes to its tag and
/// the wire type of its selector.
pub proof fn lemma_header_rejected(byte: u8)
    ensures
        header_of(byte) is Err <==> byte % 8 >= 6,
        header_of(byte) matches Err(e) ==> e == PBParseError::UnknownWireType((byte % 8) as usize),
        header_of(byte) matches Ok(header) ==> header.tag == byte / 8 && Some(header.wire_type)
            == wire_type_of(byte % 8),
{
    lemma_header_split(byte);
}

/// Looks a selector up in the table of wire types.
pub fn wire_type_from_selector(selector: u8) -> (r: Option<PBWireType>)
    ensures
        r == wire_type_of(selector),
{
    match selector {
        0 => Some(PBWireType::VarInt),
        1 => Some(PBWireType::Fixed64),
        2 => Some(PBWireType::LengthDelim),
        3 | 4 => Some(PBWireType::Reserved),
        5 => Some(PBWireType::Fixed32),
        _ => None,
    }
}

/// Decodes the field header at the front of `buffer`.
///
/// On success the header comes with the number of bytes it took, which is
/// always one. A selector of 6 or 7 is rejected. The buffer must hold at
/// least the header byte: an empty buffer is the end of the message, which
/// the caller tells apart before asking for a header.
pub fn decode_header(buffer: &[u8]) -> (r: Result<(FieldHeader, usize), PBParseError>)
    requires
        buffer@.len() > 0,
    ensures
        r == match header_of(buffer@[0]) {
            Ok(header) => Ok::<(FieldHeader, usize), PBParseError>((header, 1usize)),
            Err(e) => Err(e),
        },
        r matches Ok((header, used)) ==> header.tag < 32,
{
    let byte: u8 = buffer[0];
    let selector: u8 = byte & 7;
    proof {
        lemma_header_split(byte);
    }
    match wire_type_from_selector(selector) {
        Some(wire_type) => Ok((FieldHeader { tag: byte >> 3, wire_type }, 1)),
        None => Err(PBParseError::UnknownWireType(selector as usize)),
    }
}

} // verus!
