use pbwire::render::{PBType, StringRepr};
use pbwire::session::{decode_all, Session, SessionState};
use pbwire::wire::{PBParseError, PBWireType};

fn three_fields() -> Vec<u8> {
    vec![
        0x12, 0x07, 0x74, 0x65, 0x73, 0x74, 0x69, 0x6e, 0x67, 0x0a, 0x04, 0x74, 0x65, 0x73, 0x74,
        0x18, 0xac, 0x02,
    ]
}

#[test]
fn session_canonical_sample() {
    let msg: Vec<u8> = vec![
        0x12, 0x07, 0x74, 0x65, 0x73, 0x74, 0x69, 0x6e, 0x67, 0x0a, 0x04, 0x74, 0x65, 0x73, 0x74,
    ];
    let session = Session::new(&msg);
    assert_eq!(session.state(), SessionState::Positioned(0));
    let (session, first) = session.advance();
    let first = first.unwrap();
    assert_eq!(first.tag, 2);
    assert_eq!(first.wire_type, PBWireType::LengthDelim);
    assert_eq!(first.value, b"testing");
    assert_eq!(session.state(), SessionState::Positioned(9));
    let (session, second) = session.advance();
    let second = second.unwrap();
    assert_eq!(second.tag, 1);
    assert_eq!(second.wire_type, PBWireType::LengthDelim);
    assert_eq!(second.value, b"test");
    assert_eq!(session.state(), SessionState::Exhausted);
    let (session, third) = session.advance();
    assert!(third.is_none());
    assert_eq!(session.state(), SessionState::Exhausted);
}

#[test]
fn session_three_fields_in_wire_order() {
    let msg = three_fields();
    let mut session = Session::new(&msg);
    let mut tags: Vec<u8> = Vec::new();
    let mut offsets: Vec<usize> = Vec::new();
    let mut texts: Vec<String> = Vec::new();
    while let SessionState::Positioned(offset) = session.state() {
        offsets.push(offset);
        let (next, field) = session.advance();
        let field = field.unwrap();
        tags.push(field.tag);
        let schema_type = if field.tag == 3 { PBType::Integer64 } else { PBType::String };
        texts.push(StringRepr(field.wire_type, schema_type, field.value).unwrap());
        session = next;
    }
    assert_eq!(session.state(), SessionState::Exhausted);
    assert_eq!(tags, vec![2, 1, 3]);
    assert_eq!(offsets, vec![0, 9, 15]);
    assert_eq!(texts, vec!["testing", "test", "300"]);
}

#[test]
fn session_offsets_only_grow() {
    let msg = three_fields();
    let mut session = Session::new(&msg);
    let mut last: Option<usize> = None;
    let mut end_of_payload = 0usize;
    while let SessionState::Positioned(offset) = session.state() {
        if let Some(before) = last {
            assert!(offset > before);
        }
        assert!(offset >= end_of_payload);
        let (next, field) = session.advance();
        let field = field.unwrap();
        let next_offset = match next.state() {
            SessionState::Positioned(o) => o,
            _ => msg.len(),
        };
        assert_eq!(field.value, &msg[next_offset - field.value.len()..next_offset]);
        end_of_payload = next_offset;
        last = Some(offset);
        session = next;
    }
}

#[test]
fn session_on_empty_buffer() {
    let session = Session::new(&[]);
    assert_eq!(session.state(), SessionState::Positioned(0));
    assert!(session.position().unwrap().is_exhausted());
    let (session, field) = session.advance();
    assert!(field.is_none());
    assert_eq!(session.state(), SessionState::Exhausted);
    assert!(session.position().is_none());
}

#[test]
fn session_failure_is_final() {
    let msg = [0x0au8, 0x01, 0x61, 0x07, 0x0a, 0x01, 0x62];
    let session = Session::new(&msg);
    let (session, first) = session.advance();
    assert_eq!(first.unwrap().value, b"a");
    assert_eq!(session.state(), SessionState::Positioned(3));
    let (session, second) = session.advance();
    assert!(second.is_none());
    assert_eq!(session.state(), SessionState::Failed(PBParseError::UnknownWireType(7)));
    assert!(session.position().is_none());
    let (session, third) = session.advance();
    assert!(third.is_none());
    assert_eq!(session.state(), SessionState::Failed(PBParseError::UnknownWireType(7)));
}

#[test]
fn session_truncated_field_fails() {
    let msg = [0x12u8, 0x07, 0x74, 0x65, 0x73, 0x74];
    let (session, field) = Session::new(&msg).advance();
    assert!(field.is_none());
    assert_eq!(session.state(), SessionState::Failed(PBParseError::Truncated));
}

#[test]
fn session_is_a_snapshot() {
    let msg = three_fields();
    let start = Session::new(&msg);
    let (after_first, first) = start.advance();
    let (_, second) = after_first.advance();
    assert_eq!(second.unwrap().tag, 1);
    assert_eq!(start.state(), SessionState::Positioned(0));
    let (again, first_again) = start.advance();
    assert_eq!(first_again.unwrap().value, first.unwrap().value);
    assert_eq!(again.state(), after_first.state());
}

#[test]
fn session_position_is_the_rest_of_the_buffer() {
    let msg = three_fields();
    let (session, _) = Session::new(&msg).advance();
    assert_eq!(session.position().unwrap().slice, &msg[9..]);
}

#[test]
fn two_sessions_over_one_buffer() {
    let msg = three_fields();
    let left = Session::new(&msg);
    let right = Session::new(&msg);
    let (left, _) = left.advance();
    let (left, _) = left.advance();
    let (right, field) = right.advance();
    assert_eq!(field.unwrap().tag, 2);
    assert_eq!(left.state(), SessionState::Positioned(15));
    assert_eq!(right.state(), SessionState::Positioned(9));
}

#[test]
fn decode_all_canonical_sample() {
    let msg: Vec<u8> = vec![
        0x12, 0x07, 0x74, 0x65, 0x73, 0x74, 0x69, 0x6e, 0x67, 0x0a, 0x04, 0x74, 0x65, 0x73, 0x74,
    ];
    let fields = decode_all(&msg).unwrap();
    assert_eq!(fields.len(), 2);
    assert_eq!(fields[0].tag, 2);
    assert_eq!(fields[0].wire_type, PBWireType::LengthDelim);
    assert_eq!(fields[0].value, b"testing");
    assert_eq!(fields[1].tag, 1);
    assert_eq!(fields[1].wire_type, PBWireType::LengthDelim);
    assert_eq!(fields[1].value, b"test");
}

#[test]
fn decode_all_three_fields() {
    let msg = three_fields();
    let fields = decode_all(&msg).unwrap();
    let tags: Vec<u8> = fields.iter().map(|f| f.tag).collect();
    assert_eq!(tags, vec![2, 1, 3]);
    assert_eq!(fields[2].wire_type, PBWireType::VarInt);
    assert_eq!(fields[2].value, &[0xac, 0x02]);
}

#[test]
fn decode_all_empty_buffer() {
    assert_eq!(decode_all(&[]).unwrap().len(), 0);
}

#[test]
fn decode_all_stops_at_the_first_error() {
    let msg = [0x0au8, 0x01, 0x61, 0x0b, 0x00, 0x07];
    assert_eq!(
        decode_all(&msg).unwrap_err(),
        PBParseError::UnsupportedWireType(PBWireType::Reserved)
    );
    let cut = [0x0au8, 0x01, 0x61, 0x18, 0x80];
    assert_eq!(decode_all(&cut).unwrap_err(), PBParseError::Truncated);
}

#[test]
fn decode_all_of_two_buffers_in_a_row() {
    let first = [0x0au8, 0x01, 0x61, 0x18, 0x05];
    let second = [0x12u8, 0x02, 0x62, 0x63];
    let mut both: Vec<u8> = first.to_vec();
    both.extend_from_slice(&second);
    let fields = decode_all(&both).unwrap();
    let left = decode_all(&first).unwrap();
    let right = decode_all(&second).unwrap();
    assert_eq!(fields.len(), left.len() + right.len());
    for (i, field) in left.iter().chain(right.iter()).enumerate() {
        assert_eq!(fields[i].tag, field.tag);
        assert_eq!(fields[i].wire_type, field.wire_type);
        assert_eq!(fields[i].value, field.value);
    }
}
