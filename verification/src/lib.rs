//! Core value-level primitives of a point-cloud file format library.
//!
//! This crate holds the verified text codec for the fixed-width,
//! null-terminated, ASCII-only byte fields that appear in file headers and
//! metadata records: a strict decoder that enforces the padding and encoding
//! conventions, a lossy decoder that never fails, and an encoder that fills
//! a caller-supplied fixed-size buffer.

use vstd::prelude::*;

pub mod utils;

verus! {

/// An error raised by the fixed-width text codec.
#[derive(Clone, Debug, PartialEq)]
pub enum Error {
    /// A fixed-width text field has a non-zero byte after its first zero
    /// byte, violating the null-padding convention. Carries the offending
    /// bytes.
    NotZeroFilled(Vec<u8>),
    /// Decoded field content contains bytes outside the 7-bit ASCII range.
    /// Carries the candidate text, rendered permissively.
    NotAscii(String),
    /// A string to encode exceeds the destination field's byte capacity.
    StringTooLong {
        /// The string that did not fit.
        string: String,
        /// The capacity of the destination field.
        len: usize,
    },
}

} // verus!
