use vstd::prelude::*;

verus! {

/// A length field cannot represent the actual size of the record's type,
/// id or payload; the buffer under construction is abandoned.
#[derive(Clone, Copy, Debug, PartialEq, Eq, Structural)]
pub enum EncodingError {
    TypeTooLong,
    IdTooLong,
    PayloadTooLong,
}

/// A header or length field declares more bytes than the input still holds.
#[derive(Clone, Copy, Debug, PartialEq, Eq, Structural)]
pub enum DecodingError {
    Truncated,
}

/// Structurally valid records whose begin/end flags violate the
/// message-level invariants.
#[derive(Clone, Copy, Debug, PartialEq, Eq, Structural)]
pub enum FramingError {
    MbOnNonFirstRecord,
    MissingMe,
}

/// Everything that can go wrong while decoding a whole message.
#[derive(Clone, Copy, Debug, PartialEq, Eq, Structural)]
pub enum MessageDecodeError {
    Decoding(DecodingError),
    Framing(FramingError),
}

/// A required field was never supplied to the record builder.
#[derive(Clone, Copy, Debug, PartialEq, Eq, Structural)]
pub enum BuildError {
    MissingTnf,
    MissingPayload,
}

/// A generic record's fields do not match the shape a structured payload
/// expects; the caller may simply try another interpretation.
#[derive(Clone, Copy, Debug, PartialEq, Eq, Structural)]
pub enum PayloadMismatchError {
    WrongTnf,
    WrongType,
    EmptyPayload,
}

} // verus!
