//! The decode error taxonomy.
//!
//! Every way a chunk can fail to decode is one of these values; the decoder
//! propagates them as `Result` errors rather than aborting.

use vstd::prelude::*;

verus! {

/// The specific header field that failed validation, carried by
/// [`ErrorKind::InvalidHeader`].
#[derive(Clone, Copy, Debug, PartialEq, Eq, Structural)]
pub enum HeaderField {
    /// The four signature bytes were not `1B 4C 75 61`.
    Signature,
    /// The version byte was not `0x51` (Lua 5.1).
    Version,
    /// The endianness byte was neither `0` nor `1`.
    Endianness,
    /// The declared integer width exceeded 16 bytes.
    IntSize,
    /// The declared `size_t` width exceeded 8 bytes.
    SizeTSize,
    /// The declared instruction width was not 4 bytes.
    InstructionSize,
    /// The integral-representation flag was neither `0` nor `1`.
    IntegralFlag,
}

/// One decode failure.
#[derive(Clone, Copy, Debug, PartialEq, Eq, Structural)]
pub enum ErrorKind {
    /// The caller could not load the input file at all.
    CouldntReadFile,
    /// The buffer is smaller than the 12-byte header.
    TooShort,
    /// A read asked for more bytes than remain in the buffer.
    UnexpectedEof { requested: u64, available: u64 },
    /// A header field failed validation; the payload names the field.
    InvalidHeader(HeaderField),
    /// A string field's byte run is not valid UTF-8.
    InvalidString,
    /// A constant carried a tag other than nil, boolean, number or string;
    /// the payload is the offending tag byte.
    InvalidConstant(u8),
    /// Prototype nesting exceeded the defensive depth bound.
    NestingTooDeep,
}

impl ErrorKind {
    /// The error for an input file that could not be loaded.
    pub fn couldnt_read_file() -> (r: ErrorKind)
        ensures
            r == ErrorKind::CouldntReadFile,
    {
        ErrorKind::CouldntReadFile
    }

    /// The error for a header whose `field` failed validation.
    pub fn invalid_header(field: HeaderField) -> (r: ErrorKind)
        ensures
            r == ErrorKind::InvalidHeader(field),
    {
        ErrorKind::InvalidHeader(field)
    }

    /// The error for a buffer shorter than the fixed header.
    pub fn too_short() -> (r: ErrorKind)
        ensures
            r == ErrorKind::TooShort,
    {
        ErrorKind::TooShort
    }

    /// The error for a malformed UTF-8 string field.
    pub fn invalid_string() -> (r: ErrorKind)
        ensures
            r == ErrorKind::InvalidString,
    {
        ErrorKind::InvalidString
    }
}

} // verus!
