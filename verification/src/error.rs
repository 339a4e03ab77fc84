//! The errors that reading a Matroska stream can end in.

use vstd::prelude::*;

verus! {

/// Why the content of an element was rejected.
#[derive(Clone, Copy, Debug, PartialEq, Eq, Structural)]
pub enum Detail {
    /// The content is not valid UTF-8.
    NotUtf8,
    /// An integer takes more than eight bytes.
    IntegerTooWide,
    /// A floating-point value is neither zero, four nor eight bytes wide.
    FloatWidth,
    /// The value is not one that the element can have; the value is carried.
    OutOfRange(u64),
}

/// An error met while reading a Matroska stream.
#[derive(Clone, Copy, Debug, PartialEq, Eq, Structural)]
pub enum Error {
    /// The input ended in the middle of a structure.
    UnexpectedEof,
    /// A mandatory element is missing; its identifier is carried.
    ElementNotFound(u64),
    /// An element stands where another one was expected.
    UnexpectedElement { expected: u64, found: u64 },
    /// The content of the element `id` cannot be read as the type it must have.
    InvalidElementValue { id: u64, detail: Detail },
    /// A variable-length integer starts with a zero byte.
    InvalidVint,
}

/// Construct an `UnexpectedEof` error.
pub fn unexpected_eof() -> (e: Error)
    ensures
        e == Error::UnexpectedEof,
{
    Error::UnexpectedEof
}

/// Construct an `ElementNotFound` error.
pub fn not_found(el: u64) -> (e: Error)
    ensures
        e == Error::ElementNotFound(el),
{
    Error::ElementNotFound(el)
}

/// Construct an `UnexpectedElement` error.
pub fn unexpected(expected: u64, got: u64) -> (e: Error)
    ensures
        e == (Error::UnexpectedElement { expected: expected, found: got }),
{
    Error::UnexpectedElement { expected: expected, found: got }
}

/// Construct an `InvalidElementValue` error.
pub fn invalid_value(el: u64, val: Detail) -> (e: Error)
    ensures
        e == (Error::InvalidElementValue { id: el, detail: val }),
{
    Error::InvalidElementValue { id: el, detail: val }
}

} // verus!
