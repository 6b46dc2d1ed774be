//! Decoder for precompiled Lua 5.1 binary chunks.
//!
//! A chunk begins with a 12-byte header that declares the machine
//! parameters (integer width, `size_t` width, endianness) under which the
//! rest of the stream was written; a recursive tree of function prototypes
//! follows.  The decoder adapts to those parameters at parse time and
//! returns either a fully materialized [`vm::Chunk`] or a precise
//! [`error::ErrorKind`] value; it never panics and never guesses past a
//! malformed field.

pub mod encode;
pub mod error;
pub mod laws;
pub mod model;
pub mod vm;
