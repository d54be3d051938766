pub use crate::error::DerError;
pub use crate::ident::{
    class_number, class_of, content_type_number, content_type_of, spec_class_number, spec_class_of,
    spec_content_type_number, spec_content_type_of, spec_universal_tag_number,
    universal_tag_number, Class, ContentType, UniversalTag,
};
pub use crate::intermediate::{
    lemma_explicit_round_trip, lemma_parse_tlv_bounds, lemma_tlv_round_trip, spec_parse_explicit,
    spec_parse_tlv, spec_tlv, Intermediate,
};
pub use crate::length::{
    der_decode_length_bytes, der_encode_length_bytes, lemma_length_round_trip,
    lemma_parse_length_bounds, spec_be_bytes, spec_be_len, spec_be_value, spec_length_bytes,
    spec_parse_length,
};
pub use crate::tag::{
    der_decode_tag_bytes, der_encode_tag_bytes, lemma_parse_tag_bounds, lemma_tag_round_trip,
    spec_base128_prefix, spec_first_octet, spec_parse_high_tag, spec_parse_tag, spec_tag_bytes,
};

use vstd::prelude::*;

verus! {

/// The octets of the whole frame of a value of a type with this universal tag
/// and content type, over these content octets.
pub open spec fn spec_typed_tlv(t: UniversalTag, ct: ContentType, content: Seq<u8>) -> Seq<u8> {
    spec_tlv(Class::Universal, ct, spec_universal_tag_number(t) as nat, content)
}

/// What reading one frame from the front of s yields, keeping only what the
/// typed decoders use: the count of octets read and the content octets.  The
/// identifier octets are read but not checked: the typed decoders reconstruct
/// from the content octets alone.
pub open spec fn spec_frame_content(s: Seq<u8>) -> Result<(int, Seq<u8>), DerError> {
    match spec_parse_tlv(s) {
        Err(e) => Err(e),
        Ok((n, class, ct, tag, content)) => Ok((n, content)),
    }
}

/// The base trait for DER.
///
/// Every type implementing this trait may be serialized.  An implementation
/// gives the type's universal tag and content type, the mathematical content
/// encoding and decoding of its models (deep views), and executable encoders
/// and decoders for the content octets; the whole-frame operations are
/// provided on top of those.
pub trait DER: DeepView + Sized {
    /// The universal tag of this type.
    spec fn spec_universal_tag() -> UniversalTag;

    /// The content type of this type.
    spec fn spec_content_type() -> ContentType;

    /// The content octets that encode this model.
    spec fn content_of(m: Self::V) -> Seq<u8>;

    /// The model these content octets decode to, or the error.
    spec fn decoded_of(c: Seq<u8>) -> Result<Self::V, DerError>;

    /// Return the universal tag of this type.
    fn der_universal_tag() -> (t: UniversalTag)
        ensures
            t == Self::spec_universal_tag(),
    ;

    /// Return the content type of this type.
    fn der_content() -> (ct: ContentType)
        ensures
            ct == Self::spec_content_type(),
    ;

    /// Encode the content octets, appending them to the stream.  What is
    /// appended decodes back to this value's model.
    fn der_encode_content(&self, w: &mut Vec<u8>)
        ensures
            final(w)@ == old(w)@ + Self::content_of(self.deep_view()),
            Self::decoded_of(Self::content_of(self.deep_view())) == Ok::<Self::V, DerError>(
                self.deep_view(),
            ),
    ;

    /// Decode a value of this type from exactly these content octets.
    fn der_decode_content(content: &Vec<u8>) -> (r: Result<Self, DerError>)
        ensures
            match r {
                Ok(v) => Self::decoded_of(content@) == Ok::<Self::V, DerError>(v.deep_view()),
                Err(e) => Self::decoded_of(content@) == Err::<Self::V, DerError>(e),
            },
    ;

    /// Create the Intermediate frame of this value: the type's universal
    /// identifier over this value's content octets.
    fn der_intermediate(&self) -> (i: Intermediate)
        ensures
            i.class == Class::Universal,
            i.content_type == Self::spec_content_type(),
            i.tag == spec_universal_tag_number(Self::spec_universal_tag()),
            i.content@ == Self::content_of(self.deep_view()),
            Self::decoded_of(i.content@) == Ok::<Self::V, DerError>(self.deep_view()),
    {
        let mut buf: Vec<u8> = Vec::new();
        self.der_encode_content(&mut buf);
        Intermediate::new(
            Class::Universal,
            Self::der_content(),
            universal_tag_number(Self::der_universal_tag()),
        ).with_content(buf)
    }

    /// Fully encode into the stream: identifier octets, length octets,
    /// content octets.
    fn der_encode(&self, w: &mut Vec<u8>)
        ensures
            final(w)@ == old(w)@ + spec_typed_tlv(
                Self::spec_universal_tag(),
                Self::spec_content_type(),
                Self::content_of(self.deep_view()),
            ),
            Self::decoded_of(Self::content_of(self.deep_view())) == Ok::<Self::V, DerError>(
                self.deep_view(),
            ),
    {
        let i = self.der_intermediate();
        i.encode(w);
    }

    /// Return the fully encoded octets of this value.  The octets are a
    /// function of the value's model alone, so encoding is canonical.
    fn der_bytes(&self) -> (r: Vec<u8>)
        ensures
            r@ == spec_typed_tlv(
                Self::spec_universal_tag(),
                Self::spec_content_type(),
                Self::content_of(self.deep_view()),
            ),
            Self::decoded_of(Self::content_of(self.deep_view())) == Ok::<Self::V, DerError>(
                self.deep_view(),
            ),
    {
        let mut stream: Vec<u8> = Vec::new();
        self.der_encode(&mut stream);
        stream
    }

    /// Create a value of this type from an Intermediate frame.  Only the
    /// content octets matter; the frame's identifier is not checked.
    fn der_from_intermediate(i: Intermediate) -> (r: Result<Self, DerError>)
        ensures
            match r {
                Ok(v) => Self::decoded_of(i.content@) == Ok::<Self::V, DerError>(v.deep_view()),
                Err(e) => Self::decoded_of(i.content@) == Err::<Self::V, DerError>(e),
            },
    {
        Self::der_decode_content(&i.content)
    }

    /// Decode one value of this type found at position pos of the stream.
    ///
    /// The result is (octets read, value).
    fn der_decode(data: &Vec<u8>, pos: usize) -> (r: Result<(usize, Self), DerError>)
        requires
            pos <= data.len(),
        ensures
            ({
                let framed = spec_frame_content(data@.skip(pos as int));
                match r {
                    Ok((n, v)) => {
                        &&& framed matches Ok((m, content))
                        &&& m == n as int
                        &&& Self::decoded_of(content) == Ok::<Self::V, DerError>(v.deep_view())
                        &&& 2 <= n
                        &&& pos + n <= data.len()
                    },
                    Err(e) => match framed {
                        Ok((m, content)) => Self::decoded_of(content) == Err::<Self::V, DerError>(
                            e,
                        ),
                        Err(e2) => e == e2,
                    },
                }
            }),
    {
        let (n, i) = match Intermediate::decode(data, pos) {
            Ok(v) => v,
            Err(e) => {
                return Err(e);
            },
        };
        match Self::der_from_intermediate(i) {
            Ok(v) => Ok((n, v)),
            Err(e) => Err(e),
        }
    }

    /// Create a value of this type from bytes that begin with one full frame.
    /// Octets after the frame are ignored.
    fn der_from_bytes(bytes: Vec<u8>) -> (r: Result<Self, DerError>)
        ensures
            ({
                let framed = spec_frame_content(bytes@);
                match r {
                    Ok(v) => {
                        &&& framed matches Ok((m, content))
                        &&& Self::decoded_of(content) == Ok::<Self::V, DerError>(v.deep_view())
                    },
                    Err(e) => match framed {
                        Ok((m, content)) => Self::decoded_of(content) == Err::<Self::V, DerError>(
                            e,
                        ),
                        Err(e2) => e == e2,
                    },
                }
            }),
    {
        proof {
            assert(bytes@.skip(0) =~= bytes@);
        }
        match Self::der_decode(&bytes, 0) {
            Ok((n, v)) => Ok(v),
            Err(e) => Err(e),
        }
    }
}

/// The octets of the whole frame of a value of T with this model.
pub open spec fn spec_der_encoding<T: DER>(m: T::V) -> Seq<u8> {
    spec_typed_tlv(T::spec_universal_tag(), T::spec_content_type(), T::content_of(m))
}

/// Law: every encodable value round-trips — decoding the octets der_bytes
/// returns yields a value with the same model, for every value of every type
/// with a codec.
pub fn der_round_trip<T: DER>(v: &T) -> (r: T)
    ensures
        r.deep_view() == v.deep_view(),
{
    let bytes = v.der_bytes();
    // a vector's length fits the native word, which bounds the content octets
    let total = bytes.len();
    proof {
        let dv = v.deep_view();
        let utag = spec_universal_tag_number(T::spec_universal_tag());
        assert(utag < 31);
        assert(T::content_of(dv).len() <= total as nat);
        lemma_tlv_round_trip(
            Class::Universal,
            T::spec_content_type(),
            utag as nat,
            T::content_of(dv),
            Seq::<u8>::empty(),
        );
        assert(bytes@ + Seq::<u8>::empty() =~= bytes@);
    }
    match T::der_from_bytes(bytes) {
        Ok(r) => r,
        Err(e) => {
            proof {
                assert(false);
            }
            vstd::pervasive::unreached()
        },
    }
}

/// Law: encoding is canonical — two values with the same model have
/// byte-identical encodings, so repeated encodes of one value agree.
pub proof fn lemma_encoding_canonical<T: DER>(a: &T, b: &T)
    requires
        a.deep_view() == b.deep_view(),
    ensures
        spec_der_encoding::<T>(a.deep_view()) == spec_der_encoding::<T>(b.deep_view()),
{
}

} // verus!
