use pbwire::cursor::{PBParseNext, ParseWireType, ParserPosition};
use pbwire::payload::extract;
use pbwire::wire::{PBParseError, PBWireType};

#[test]
fn extract_length_delimited() {
    let after_header = [0x04u8, 0x74, 0x65, 0x73, 0x74, 0x99];
    let (payload, used) = extract(PBWireType::LengthDelim, &after_header).unwrap();
    assert_eq!(payload, b"test");
    assert_eq!(used, 5);
}

#[test]
fn extract_length_delimited_empty_payload() {
    let after_header = [0x00u8, 0x08];
    let (payload, used) = extract(PBWireType::LengthDelim, &after_header).unwrap();
    assert_eq!(payload.len(), 0);
    assert_eq!(used, 1);
}

#[test]
fn extract_length_seven_with_fewer_bytes_is_truncated() {
    for present in 0usize..7 {
        let mut after_header: Vec<u8> = vec![0x07];
        after_header.extend_from_slice(&b"testing"[..present]);
        assert_eq!(
            extract(PBWireType::LengthDelim, &after_header),
            Err(PBParseError::Truncated)
        );
    }
    let mut whole: Vec<u8> = vec![0x07];
    whole.extend_from_slice(b"testing");
    let (payload, used) = extract(PBWireType::LengthDelim, &whole).unwrap();
    assert_eq!(payload, b"testing");
    assert_eq!(used, 8);
}

#[test]
fn extract_length_delimited_without_length_byte_is_truncated() {
    assert_eq!(extract(PBWireType::LengthDelim, &[]), Err(PBParseError::Truncated));
}

#[test]
fn extract_length_byte_is_read_as_a_plain_number() {
    let mut after_header: Vec<u8> = vec![0x80];
    after_header.extend(std::iter::repeat(0x41u8).take(128));
    after_header.push(0x42);
    let (payload, used) = extract(PBWireType::LengthDelim, &after_header).unwrap();
    assert_eq!(payload.len(), 128);
    assert!(payload.iter().all(|b| *b == 0x41));
    assert_eq!(used, 129);
    assert_eq!(
        extract(PBWireType::LengthDelim, &after_header[..128]),
        Err(PBParseError::Truncated)
    );
}

#[test]
fn extract_varint_stops_at_first_byte_without_flag() {
    let after_header = [0xacu8, 0x02, 0x00, 0x7f];
    let (payload, used) = extract(PBWireType::VarInt, &after_header).unwrap();
    assert_eq!(payload, &[0xac, 0x02]);
    assert_eq!(used, 2);
}

#[test]
fn extract_varint_of_one_byte() {
    let (payload, used) = extract(PBWireType::VarInt, &[0x00, 0x80]).unwrap();
    assert_eq!(payload, &[0x00]);
    assert_eq!(used, 1);
}

#[test]
fn extract_varint_without_end_is_truncated() {
    assert_eq!(extract(PBWireType::VarInt, &[0x80, 0xff, 0xac]), Err(PBParseError::Truncated));
    assert_eq!(extract(PBWireType::VarInt, &[]), Err(PBParseError::Truncated));
}

#[test]
fn extract_fixed64_takes_eight_bytes() {
    let after_header = [1u8, 2, 3, 4, 5, 6, 7, 8, 9];
    let (payload, used) = extract(PBWireType::Fixed64, &after_header).unwrap();
    assert_eq!(payload, &[1, 2, 3, 4, 5, 6, 7, 8]);
    assert_eq!(used, 8);
    assert_eq!(extract(PBWireType::Fixed64, &after_header[..7]), Err(PBParseError::Truncated));
}

#[test]
fn extract_fixed32_takes_four_bytes() {
    let after_header = [1u8, 2, 3, 4, 5];
    let (payload, used) = extract(PBWireType::Fixed32, &after_header).unwrap();
    assert_eq!(payload, &[1, 2, 3, 4]);
    assert_eq!(used, 4);
    assert_eq!(extract(PBWireType::Fixed32, &after_header[..3]), Err(PBParseError::Truncated));
}

#[test]
fn extract_reserved_is_unsupported() {
    assert_eq!(
        extract(PBWireType::Reserved, &[1, 2, 3]),
        Err(PBParseError::UnsupportedWireType(PBWireType::Reserved))
    );
    assert_eq!(
        extract(PBWireType::Reserved, &[]),
        Err(PBParseError::UnsupportedWireType(PBWireType::Reserved))
    );
}

#[test]
fn extract_is_repeatable() {
    let after_header = [0xacu8, 0x02, 0x07];
    for wire_type in [
        PBWireType::VarInt,
        PBWireType::Fixed64,
        PBWireType::LengthDelim,
        PBWireType::Fixed32,
        PBWireType::Reserved,
    ] {
        assert_eq!(extract(wire_type, &after_header), extract(wire_type, &after_header));
    }
}

#[test]
fn parse_wire_type_skips_the_header_byte() {
    let buffer = [0x0au8, 0x04, 0x74, 0x65, 0x73, 0x74, 0x18];
    let pos = ParserPosition::init(&buffer);
    let (payload, next) = ParseWireType(PBWireType::LengthDelim, pos).unwrap();
    assert_eq!(payload, b"test");
    assert_eq!(next.slice, &[0x18]);
}

#[test]
fn parse_wire_type_varint() {
    let buffer = [0x18u8, 0xac, 0x02];
    let (payload, next) = ParseWireType(PBWireType::VarInt, ParserPosition::init(&buffer)).unwrap();
    assert_eq!(payload, &[0xac, 0x02]);
    assert!(next.is_exhausted());
}

#[test]
fn parse_wire_type_errors() {
    let header_only = [0x12u8];
    assert_eq!(
        ParseWireType(PBWireType::LengthDelim, ParserPosition::init(&header_only)).unwrap_err(),
        PBParseError::Truncated
    );
    assert_eq!(
        ParseWireType(PBWireType::VarInt, ParserPosition::init(&header_only)).unwrap_err(),
        PBParseError::Truncated
    );
    assert_eq!(
        ParseWireType(PBWireType::Reserved, ParserPosition::init(&header_only)).unwrap_err(),
        PBParseError::UnsupportedWireType(PBWireType::Reserved)
    );
}

#[test]
fn parse_next_canonical_sample() {
    let msg: Vec<u8> = vec![
        0x12, 0x07, 0x74, 0x65, 0x73, 0x74, 0x69, 0x6e, 0x67, 0x0a, 0x04, 0x74, 0x65, 0x73, 0x74,
    ];
    let pos = ParserPosition::init(msg.as_slice());
    let (first, pos) = PBParseNext(pos).unwrap();
    assert_eq!(first.tag, 2);
    assert_eq!(first.wire_type, PBWireType::LengthDelim);
    assert_eq!(first.value, b"testing");
    assert!(!pos.is_exhausted());
    let (second, pos) = PBParseNext(pos).unwrap();
    assert_eq!(second.tag, 1);
    assert_eq!(second.wire_type, PBWireType::LengthDelim);
    assert_eq!(second.value, b"test");
    assert!(pos.is_exhausted());
}

#[test]
fn parse_next_truncated_string() {
    let buffer = [0x12u8, 0x07, 0x74, 0x65, 0x73];
    assert_eq!(
        PBParseNext(ParserPosition::init(&buffer)).unwrap_err(),
        PBParseError::Truncated
    );
}

#[test]
fn parse_next_unknown_wire_type() {
    let buffer = [0x07u8, 0x01, 0x02];
    assert_eq!(
        PBParseNext(ParserPosition::init(&buffer)).unwrap_err(),
        PBParseError::UnknownWireType(7)
    );
}

#[test]
fn parse_next_reserved_wire_type() {
    let buffer = [0x0bu8, 0x01, 0x02];
    assert_eq!(
        PBParseNext(ParserPosition::init(&buffer)).unwrap_err(),
        PBParseError::UnsupportedWireType(PBWireType::Reserved)
    );
}

#[test]
fn parse_next_fixed_width_fields() {
    let buffer = [0x09u8, 1, 2, 3, 4, 5, 6, 7, 8, 0x0d, 9, 10, 11, 12];
    let (first, pos) = PBParseNext(ParserPosition::init(&buffer)).unwrap();
    assert_eq!(first.tag, 1);
    assert_eq!(first.wire_type, PBWireType::Fixed64);
    assert_eq!(first.value, &[1, 2, 3, 4, 5, 6, 7, 8]);
    let (second, pos) = PBParseNext(pos).unwrap();
    assert_eq!(second.tag, 1);
    assert_eq!(second.wire_type, PBWireType::Fixed32);
    assert_eq!(second.value, &[9, 10, 11, 12]);
    assert!(pos.is_exhausted());
}

#[test]
fn cursor_is_a_snapshot() {
    let buffer = [0x0au8, 0x01, 0x61, 0x10, 0x05];
    let start = ParserPosition::init(&buffer);
    let (first, after_first) = PBParseNext(start).unwrap();
    let (second, _) = PBParseNext(after_first).unwrap();
    assert_eq!(second.tag, 2);
    let (again, after_again) = PBParseNext(start).unwrap();
    assert_eq!(again.tag, first.tag);
    assert_eq!(again.wire_type, first.wire_type);
    assert_eq!(again.value, first.value);
    assert_eq!(after_again.slice, after_first.slice);
    assert_eq!(start.slice, &buffer);
}

#[test]
fn cursor_init_holds_the_whole_buffer() {
    let buffer = [1u8, 2, 3];
    assert_eq!(ParserPosition::init(&buffer).slice, &buffer);
    assert!(!ParserPosition::init(&buffer).is_exhausted());
    assert!(ParserPosition::init(&[]).is_exhausted());
}
