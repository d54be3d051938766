use vstd::prelude::*;

use crate::der::DER;
use crate::error::DerError;
use crate::ident::{ContentType, UniversalTag};

verus! {

impl DER for bool {
    open spec fn spec_universal_tag() -> UniversalTag {
        UniversalTag::Boolean
    }

    open spec fn spec_content_type() -> ContentType {
        ContentType::Primitive
    }

    /// BOOLEAN content is one octet: 0xFF for true, 0x00 for false.
    open spec fn content_of(m: bool) -> Seq<u8> {
        if m {
            seq![0xFFu8]
        } else {
            seq![0x00u8]
        }
    }

    /// Exactly one content octet is accepted; any nonzero octet decodes to
    /// true.
    open spec fn decoded_of(c: Seq<u8>) -> Result<bool, DerError> {
        if c.len() != 1 {
            Err(DerError::InvalidInput)
        } else {
            Ok(c[0] != 0)
        }
    }

    fn der_universal_tag() -> (t: UniversalTag) {
        UniversalTag::Boolean
    }

    fn der_content() -> (ct: ContentType) {
        ContentType::Primitive
    }

    fn der_encode_content(&self, w: &mut Vec<u8>) {
        if *self {
            w.push(0xFF);
        } else {
            w.push(0x00);
        }
        assert(w@ =~= old(w)@ + <bool as DER>::content_of(self.deep_view()));
    }

    fn der_decode_content(content: &Vec<u8>) -> (r: Result<Self, DerError>) {
        if content.len() != 1 {
            return Err(DerError::InvalidInput);
        }
        Ok(content[0] != 0)
    }
}

} // verus!
