//! The type tag of a raw alignment record data field.

use vstd::prelude::*;

verus! {

/// The value type a data field declares, one letter on the wire.
#[derive(Clone, Copy, Debug, Eq, PartialEq, Structural)]
pub enum FieldType {
    Character,
    Int8,
    UInt8,
    Int16,
    UInt16,
    Int32,
    UInt32,
    Float,
    String,
    Hex,
    Array,
}

/// An error when a raw record data field type fails to parse.
#[derive(Clone, Copy, Debug, Eq, PartialEq, Structural)]
pub enum DecodeError {
    /// Unexpected EOF.
    UnexpectedEof,
    /// The type is invalid.
    Invalid { actual: u8 },
}

/// The field type a tag byte denotes, if any.
pub open spec fn spec_field_type(b: u8) -> Option<FieldType> {
    if b == 0x41 {
        Some(FieldType::Character)
    } else if b == 0x63 {
        Some(FieldType::Int8)
    } else if b == 0x43 {
        Some(FieldType::UInt8)
    } else if b == 0x73 {
        Some(FieldType::Int16)
    } else if b == 0x53 {
        Some(FieldType::UInt16)
    } else if b == 0x69 {
        Some(FieldType::Int32)
    } else if b == 0x49 {
        Some(FieldType::UInt32)
    } else if b == 0x66 {
        Some(FieldType::Float)
    } else if b == 0x5a {
        Some(FieldType::String)
    } else if b == 0x48 {
        Some(FieldType::Hex)
    } else if b == 0x42 {
        Some(FieldType::Array)
    } else {
        None
    }
}

/// Reads one field type tag at `pos`, returning it with the position just
/// past it; an unknown tag byte is reported with its value.
pub fn get_type(src: &[u8], pos: usize) -> (r: Result<(FieldType, usize), DecodeError>)
    ensures
        match r {
            Ok((ty, next)) => {
                &&& pos < src@.len()
                &&& next == pos + 1
                &&& spec_field_type(src@[pos as int]) == Some(ty)
            },
            Err(DecodeError::UnexpectedEof) => pos >= src@.len(),
            Err(DecodeError::Invalid { actual }) => {
                &&& pos < src@.len()
                &&& actual == src@[pos as int]
                &&& spec_field_type(actual) is None
            },
        },
{
    if pos >= src.len() {
        return Err(DecodeError::UnexpectedEof);
    }
    match src[pos] {
        0x41 => Ok((FieldType::Character, pos + 1)),
        0x63 => Ok((FieldType::Int8, pos + 1)),
        0x43 => Ok((FieldType::UInt8, pos + 1)),
        0x73 => Ok((FieldType::Int16, pos + 1)),
        0x53 => Ok((FieldType::UInt16, pos + 1)),
        0x69 => Ok((FieldType::Int32, pos + 1)),
        0x49 => Ok((FieldType::UInt32, pos + 1)),
        0x66 => Ok((FieldType::Float, pos + 1)),
        0x5a => Ok((FieldType::String, pos + 1)),
        0x48 => Ok((FieldType::Hex, pos + 1)),
        0x42 => Ok((FieldType::Array, pos + 1)),
        n => Err(DecodeError::Invalid { actual: n }),
    }
}

} // verus!
