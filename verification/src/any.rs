use vstd::prelude::*;

use crate::der::{
    spec_parse_tlv, spec_tlv, spec_universal_tag_number, Class, DerError, Intermediate, DER,
};

verus! {

/// Asn1 Any Type
///
/// An encoded Any is not visible as such in the encoded bytes.  It is a
/// helper that carries one frame when the actual type is not known yet.
#[derive(Debug)]
pub struct Any {
    /// The frame this Any carries.
    pub i: Intermediate,
}

impl Any {
    /// Create a new Any object from an inner value.
    pub fn new<T: DER>(val: T) -> (r: Result<Any, DerError>)
        ensures
            ({
                &&& r matches Ok(a)
                &&& a.i.class == Class::Universal
                &&& a.i.content_type == T::spec_content_type()
                &&& a.i.tag == spec_universal_tag_number(T::spec_universal_tag())
                &&& a.i.content@ == T::content_of(val.deep_view())
                &&& T::decoded_of(a.i.content@) == Ok::<T::V, DerError>(val.deep_view())
            }),
    {
        Ok(Any { i: val.der_intermediate() })
    }

    /// Resolve the inner value of an Any object.
    pub fn resolve<T: DER>(&self) -> (r: Result<T, DerError>)
        ensures
            match r {
                Ok(v) => T::decoded_of(self.i.content@) == Ok::<T::V, DerError>(v.deep_view()),
                Err(e) => T::decoded_of(self.i.content@) == Err::<T::V, DerError>(e),
            },
    {
        T::der_from_intermediate(self.i.clone())
    }

    /// The carried frame, unchanged.
    pub fn der_intermediate(&self) -> (i: Intermediate)
        ensures
            i.class == self.i.class,
            i.content_type == self.i.content_type,
            i.tag == self.i.tag,
            i.content@ == self.i.content@,
    {
        self.i.clone()
    }

    /// Wrap a frame as an Any, unchanged.
    pub fn der_from_intermediate(i: Intermediate) -> (r: Result<Any, DerError>)
        ensures
            ({
                &&& r matches Ok(a)
                &&& a.i.class == i.class
                &&& a.i.content_type == i.content_type
                &&& a.i.tag == i.tag
                &&& a.i.content@ == i.content@
            }),
    {
        Ok(Any { i })
    }

    /// Fully encode the carried frame into the stream.
    pub fn der_encode(&self, w: &mut Vec<u8>)
        ensures
            final(w)@ == old(w)@ + spec_tlv(
                self.i.class,
                self.i.content_type,
                self.i.tag as nat,
                self.i.content@,
            ),
    {
        self.i.encode(w);
    }

    /// The fully encoded octets of the carried frame.
    pub fn der_bytes(&self) -> (r: Vec<u8>)
        ensures
            r@ == spec_tlv(self.i.class, self.i.content_type, self.i.tag as nat, self.i.content@),
    {
        let mut stream: Vec<u8> = Vec::new();
        self.der_encode(&mut stream);
        stream
    }

    /// Decode one frame found at position pos of the stream into an Any.
    ///
    /// The result is (octets read, value).
    pub fn der_decode(data: &Vec<u8>, pos: usize) -> (r: Result<(usize, Any), DerError>)
        requires
            pos <= data.len(),
        ensures
            ({
                let parsed = spec_parse_tlv(data@.skip(pos as int));
                match r {
                    Ok((n, a)) => parsed == Ok::<
                        (int, Class, crate::der::ContentType, nat, Seq<u8>),
                        DerError,
                    >((n as int, a.i.class, a.i.content_type, a.i.tag as nat, a.i.content@)) && pos
                        + n <= data.len(),
                    Err(e) => parsed == Err::<
                        (int, Class, crate::der::ContentType, nat, Seq<u8>),
                        DerError,
                    >(e),
                }
            }),
    {
        match Intermediate::decode(data, pos) {
            Ok((n, i)) => Ok((n, Any { i })),
            Err(e) => Err(e),
        }
    }

    /// Create an Any from bytes that begin with one full frame.
    pub fn der_from_bytes(bytes: Vec<u8>) -> (r: Result<Any, DerError>)
        ensures
            ({
                let parsed = spec_parse_tlv(bytes@);
                match r {
                    Ok(a) => parsed matches Ok((n, class, ct, tag, content)) && a.i.class == class
                        && a.i.content_type == ct && a.i.tag as nat == tag && a.i.content@
                        == content,
                    Err(e) => parsed == Err::<
                        (int, Class, crate::der::ContentType, nat, Seq<u8>),
                        DerError,
                    >(e),
                }
            }),
    {
        proof {
            assert(bytes@.skip(0) =~= bytes@);
        }
        match Any::der_decode(&bytes, 0) {
            Ok((n, a)) => Ok(a),
            Err(e) => Err(e),
        }
    }
}

} // verus!
