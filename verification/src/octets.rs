use vstd::prelude::*;

use crate::der::DER;
use crate::error::DerError;
use crate::ident::{ContentType, UniversalTag};
use crate::intermediate::{append_bytes, copy_range};

verus! {

impl DER for Vec<u8> {
    open spec fn spec_universal_tag() -> UniversalTag {
        UniversalTag::OctetString
    }

    open spec fn spec_content_type() -> ContentType {
        ContentType::Primitive
    }

    /// OCTET STRING content is the raw octet sequence itself.
    open spec fn content_of(m: Seq<u8>) -> Seq<u8> {
        m
    }

    /// Any content octets are accepted, as they stand.
    open spec fn decoded_of(c: Seq<u8>) -> Result<Seq<u8>, DerError> {
        Ok(c)
    }

    fn der_universal_tag() -> (t: UniversalTag) {
        UniversalTag::OctetString
    }

    fn der_content() -> (ct: ContentType) {
        ContentType::Primitive
    }

    fn der_encode_content(&self, w: &mut Vec<u8>) {
        append_bytes(w, self);
        assert(self.deep_view() =~= self@);
    }

    fn der_decode_content(content: &Vec<u8>) -> (r: Result<Self, DerError>) {
        let v = copy_range(content, 0, content.len());
        assert(v.deep_view() =~= content@);
        Ok(v)
    }
}

} // verus!
