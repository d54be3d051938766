use vstd::prelude::*;

verus! {

/// The ways an encode or decode call can fail.
#[derive(PartialEq, Eq, Structural, Debug, Clone, Copy)]
pub enum DerError {
    /// Malformed on-wire data: an indefinite or oversized length, an
    /// oversized tag, a primitive framed with an impossible length, an
    /// unknown ENUMERATED discriminant, or no matching CHOICE variant.
    InvalidInput,
    /// Well-framed but semantically invalid content, such as bytes that are
    /// not UTF-8 inside a UTF8String.
    InvalidData,
    /// The input ended before the declared length was satisfied.
    UnexpectedEof,
}

} // verus!
