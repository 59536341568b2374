use vstd::prelude::*;

verus! {

/// What a storage value was when it could not be read as an identifier.
#[derive(Clone, Copy, Debug, PartialEq, Eq, Structural)]
pub enum UnsupportedShape {
    /// A slot that holds no value.
    Absent,
    /// A blob whose length is not sixteen.
    ByteLength(usize),
    /// A text that is not the textual form of an identifier.
    MalformedText,
    /// A value of a kind that never holds an identifier.
    OtherKind,
}

/// The failures of this library.
#[derive(Clone, Debug, PartialEq, Eq)]
pub enum Error {
    /// The text is not the textual form of an identifier.
    ParseError(String),
    /// The wire bytes are malformed.
    DecodeError,
    /// The storage value has no admissible shape.
    ConversionError(UnsupportedShape),
}

} // verus!
