//! A small decoder for the Protocol Buffers binary wire format.
//!
//! The decoder works on a byte buffer held in memory. It walks the buffer
//! field by field: it reads the one-byte field header, finds the bytes of the
//! field's payload, and hands them out as a slice of the buffer. A payload can
//! then be rendered as text or as a signed 64-bit integer, according to the
//! type that the caller's schema gives the field.
//!
//! The format is the one of single-byte headers (field numbers 0 to 31) and
//! single-byte lengths. Nested messages, packed fields and encoding are not
//! part of it.
//!
//! Every function carries a contract over the byte sequence it reads, and
//! Verus proves the contracts. Two calls leave the verified code, `num::pow`
//! and `std::str::from_utf8`: the module `trusted` states what is taken on
//! trust of them.
//!
//! - [`wire`]: wire types and the field header.
//! - [`payload`]: the bytes of a payload, by wire type.
//! - [`cursor`]: the cursor and the decoding of one field.
//! - [`session`]: the session as a state machine, and whole buffers.
//! - [`varint`], [`text`]: what a payload stands for as a number or as text.
//! - [`render`], [`schema`]: typed values, chosen by the schema.
//! - [`laws`]: what holds of two calls of the same function.
#![allow(non_snake_case)]
#![allow(unused_imports)]

pub mod cursor;
pub mod laws;
pub mod payload;
pub mod render;
pub mod schema;
pub mod session;
pub mod text;
mod trusted;
pub mod varint;
pub mod wire;

pub use crate::cursor::{PBParseNext, ParseWireType, ParserPosition, TagValue};
pub use crate::payload::extract;
pub use crate::render::{render, IntegerRepr, PBType, ReprError, StringRepr, Value};
pub use crate::schema::{PBField, PBMessage};
pub use crate::session::{decode_all, Session, SessionState};
pub use crate::wire::{decode_header, FieldHeader, PBParseError, PBWireType};
