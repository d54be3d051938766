use vstd::prelude::*;

use crate::der::DER;
use crate::error::DerError;
use crate::ident::{ContentType, UniversalTag};

verus! {

/// Asn1 Null Type
#[derive(Copy, Clone, Debug, PartialEq, Eq, Structural)]
pub struct Null;

impl DeepView for Null {
    type V = Null;

    open spec fn deep_view(&self) -> Null {
        Null
    }
}

impl DER for Null {
    open spec fn spec_universal_tag() -> UniversalTag {
        UniversalTag::Null
    }

    open spec fn spec_content_type() -> ContentType {
        ContentType::Primitive
    }

    /// NULL has no content octets.
    open spec fn content_of(m: Null) -> Seq<u8> {
        Seq::empty()
    }

    /// Only an empty content is accepted.
    open spec fn decoded_of(c: Seq<u8>) -> Result<Null, DerError> {
        if c.len() != 0 {
            Err(DerError::InvalidInput)
        } else {
            Ok(Null)
        }
    }

    fn der_universal_tag() -> (t: UniversalTag) {
        UniversalTag::Null
    }

    fn der_content() -> (ct: ContentType) {
        ContentType::Primitive
    }

    fn der_encode_content(&self, w: &mut Vec<u8>) {
        assert(w@ =~= old(w)@ + <Null as DER>::content_of(self.deep_view()));
    }

    fn der_decode_content(content: &Vec<u8>) -> (r: Result<Self, DerError>) {
        if content.len() != 0 {
            return Err(DerError::InvalidInput);
        }
        Ok(Null)
    }
}

} // verus!
