//! Finding the payload of a field in the bytes that follow its header.
use vstd::prelude::*;
use crate::wire::{PBParseError, PBWireType};

verus! {

/// Whether a byte of a variable-length integer says that more bytes follow:
/// its top bit is set.
pub open spec fn continues(byte: u8) -> bool {
    byte & 0x80 != 0
}

/// `n` is the length of the variable-length integer at the front of `s`: its
/// last byte is the first one without the continuation flag.
pub open spec fn is_varint_len(s: Seq<u8>, n: int) -> bool {
    &&& 0 < n <= s.len()
    &&& !continues(s[n - 1])
    &&& forall|j: int| 0 <= j < n - 1 ==> continues(#[trigger] s[j])
}

/// The length of the variable-length integer at the front of `s`, or `None`
/// where every byte of `s` carries the continuation flag.
pub open spec fn varint_len(s: Seq<u8>) -> Option<int> {
    if exists|n: int| is_varint_len(s, n) {
        Some(choose|n: int| is_varint_len(s, n))
    } else {
        None
    }
}

/// Where the payload lies in `s`, the bytes after the header: the index of
/// its first byte and the index just past its last one. The second is also
/// the number of bytes that the field takes after its header.
///
/// A length-delimited field starts with one length byte, which is read as the
/// plain number it holds, from 0 to 255: a length of more than one byte is
/// not supported.
pub open spec fn payload_span(wire_type: PBWireType, s: Seq<u8>) -> Result<(int, int), PBParseError> {
    match wire_type {
        PBWireType::LengthDelim => {
            if s.len() >= 1 && 1 + s[0] <= s.len() {
                Ok((1, 1 + s[0]))
            } else {
                Err(PBParseError::Truncated)
            }
        },
        PBWireType::VarInt => {
            match varint_len(s) {
                Some(n) => Ok((0, n)),
                None => Err(PBParseError::Truncated),
            }
        },
        PBWireType::Fixed64 => {
            if s.len() >= 8 {
                Ok((0, 8))
            } else {
                Err(PBParseError::Truncated)
            }
        },
        PBWireType::Fixed32 => {
            if s.len() >= 4 {
                Ok((0, 4))
            } else {
                Err(PBParseError::Truncated)
            }
        },
        PBWireType::Reserved => Err(PBParseError::UnsupportedWireType(PBWireType::Reserved)),
    }
}

/// At most one length fits the variable-length integer at the front of `s`.
pub proof fn lemma_varint_len_unique(s: Seq<u8>, n: int, m: int)
    requires
        is_varint_len(s, n),
        is_varint_len(s, m),
    ensures
        n == m,
{
}

/// A span that `payload_span` gives lies inside `s`, and it ends where the
/// field ends: nothing past the payload is taken.
pub proof fn lemma_payload_span_bounds(wire_type: PBWireType, s: Seq<u8>)
    ensures
        payload_span(wire_type, s) matches Ok((start, end)) ==> 0 <= start <= end <= s.len() && 0
            < end,
{
}

/// A length-delimited field is never short: where the length byte asks for
/// more bytes than follow it, or is missing, the field is truncated, and
/// where the field decodes, its payload has exactly the declared length.
pub proof fn lemma_length_delimited_is_whole(s: Seq<u8>)
    ensures
        s.len() == 0 || s.len() - 1 < s[0] ==> payload_span(PBWireType::LengthDelim, s) == Err::<
            (int, int),
            PBParseError,
        >(PBParseError::Truncated),
        payload_span(PBWireType::LengthDelim, s) matches Ok((start, end)) ==> end - start == s[0],
{
}

/// Bytes that follow a field do not change it: where the payload is found in
/// `s`, it is found at the same place in `s` followed by any `more`.
pub proof fn lemma_payload_span_extends(wire_type: PBWireType, s: Seq<u8>, more: Seq<u8>)
    requires
        payload_span(wire_type, s) is Ok,
    ensures
        payload_span(wire_type, s + more) == payload_span(wire_type, s),
{
    if wire_type is VarInt {
        let n = choose|n: int| is_varint_len(s, n);
        assert(is_varint_len(s + more, n));
    }
}

/// Scans the variable-length integer at the front of `s` and returns its
/// length, if it ends inside `s`.
fn scan_varint(s: &[u8]) -> (r: Option<usize>)
    ensures
        match r {
            Some(n) => varint_len(s@) == Some(n as int),
            None => varint_len(s@) is None,
        },
{
    let mut i: usize = 0;
    while i < s.len()
        invariant
            i <= s@.len(),
            forall|j: int| 0 <= j < i ==> continues(#[trigger] s@[j]),
        decreases s@.len() - i,
    {
        if s[i] & 0x80 == 0 {
            proof {
                assert(is_varint_len(s@, i as int + 1));
            }
            return Some(i + 1);
        }
        i += 1;
    }
    None
}

/// Takes the payload of a field off the bytes that follow its header.
///
/// Returns the payload, as a slice of `after_header`, and the number of bytes
/// that the field takes after its header: for a length-delimited field the
/// length byte and the payload, otherwise the payload alone. The payload is
/// never shorter than the wire type calls for: where the buffer ends first,
/// the result is `Truncated`.
pub fn extract<'a>(wire_type: PBWireType, after_header: &'a [u8]) -> (r: Result<
    (&'a [u8], usize),
    PBParseError,
>)
    ensures
        match payload_span(wire_type, after_header@) {
            Ok((start, end)) => r matches Ok((payload, used)) && payload@
                == after_header@.subrange(start, end) && used == end,
            Err(e) => r matches Err(err) && err == e,
        },
        r matches Ok((payload, used)) ==> 0 < used <= after_header@.len() && payload@.len() <= used,
{
    let len = after_header.len();
    match wire_type {
        PBWireType::LengthDelim => {
            if len < 1 {
                return Err(PBParseError::Truncated);
            }
            let length: usize = after_header[0] as usize;
            if len - 1 < length {
                return Err(PBParseError::Truncated);
            }
            Ok((&after_header[1..1 + length], 1 + length))
        },
        PBWireType::VarInt => {
            match scan_varint(after_header) {
                Some(n) => Ok((&after_header[0..n], n)),
                None => Err(PBParseError::Truncated),
            }
        },
        PBWireType::Fixed64 => {
            if len < 8 {
                return Err(PBParseError::Truncated);
            }
            Ok((&after_header[0..8], 8))
        },
        PBWireType::Fixed32 => {
            if len < 4 {
                return Err(PBParseError::Truncated);
            }
            Ok((&after_header[0..4], 4))
        },
        PBWireType::Reserved => Err(PBParseError::UnsupportedWireType(PBWireType::Reserved)),
    }
}

} // verus!
