use vstd::prelude::*;

use crate::der::{spec_der_encoding, DER};
use crate::error::DerError;
use crate::ident::{spec_universal_tag_number, Class, ContentType, UniversalTag};
use crate::intermediate::{
    lemma_parse_tlv_bounds, lemma_tlv_round_trip, spec_parse_tlv, Intermediate,
};

verus! {

/// The content octets of a SEQUENCE OF: the whole frames of the elements,
/// concatenated in their order.
pub open spec fn spec_seq_of_content<T: DER>(m: Seq<T::V>) -> Seq<u8>
    decreases m.len(),
{
    if m.len() == 0 {
        Seq::empty()
    } else {
        spec_der_encoding::<T>(m[0]) + spec_seq_of_content::<T>(m.skip(1))
    }
}

/// What SEQUENCE OF content octets decode to: one element frame after
/// another, in their order, until the content is exhausted exactly.  An
/// element frame cut short by the content boundary, or declaring an extent
/// that overruns it, is invalid input: the bounds are known, so nothing was
/// unexpectedly missing from the outer stream.
pub open spec fn spec_seq_of_decoded<T: DER>(c: Seq<u8>) -> Result<Seq<T::V>, DerError>
    decreases c.len(),
{
    if c.len() == 0 {
        Ok(Seq::empty())
    } else {
        match spec_parse_tlv(c) {
            Err(DerError::UnexpectedEof) => Err(DerError::InvalidInput),
            Err(e) => Err(e),
            Ok((n, class, ct, tag, content)) => {
                if n < 1 || n > c.len() {
                    // a successful frame parse consumes between 2 and c.len()
                    // octets, so this arm is never the case
                    Err(DerError::InvalidInput)
                } else {
                    match T::decoded_of(content) {
                        Err(e) => Err(e),
                        Ok(v) => match spec_seq_of_decoded::<T>(c.skip(n)) {
                            Err(e) => Err(e),
                            Ok(rest) => Ok(seq![v] + rest),
                        },
                    }
                }
            },
        }
    }
}

/// Appending one element appends its frame to the content.
proof fn lemma_seq_of_content_snoc<T: DER>(m: Seq<T::V>, x: T::V)
    ensures
        spec_seq_of_content::<T>(m.push(x)) == spec_seq_of_content::<T>(m) + spec_der_encoding::<
            T,
        >(x),
    decreases m.len(),
{
    if m.len() == 0 {
        assert(m.push(x).skip(1) =~= Seq::<T::V>::empty());
        assert(m.push(x)[0] == x);
        assert(spec_seq_of_content::<T>(m) == Seq::<u8>::empty());
        assert(spec_seq_of_content::<T>(m.push(x)) == spec_der_encoding::<T>(x)
            + spec_seq_of_content::<T>(Seq::<T::V>::empty()));
        assert(spec_seq_of_content::<T>(m.push(x)) =~= spec_seq_of_content::<T>(m)
            + spec_der_encoding::<T>(x));
    } else {
        assert(m.push(x).skip(1) =~= m.skip(1).push(x));
        assert(m.push(x)[0] == m[0]);
        lemma_seq_of_content_snoc::<T>(m.skip(1), x);
        assert(spec_der_encoding::<T>(m[0]) + (spec_seq_of_content::<T>(m.skip(1))
            + spec_der_encoding::<T>(x)) =~= (spec_der_encoding::<T>(m[0]) + spec_seq_of_content::<
            T,
        >(m.skip(1))) + spec_der_encoding::<T>(x));
    }
}

/// Decoding the concatenated frames of elements whose content octets decode
/// back to them yields exactly those elements, in their order.
proof fn lemma_seq_of_round_trip<T: DER>(m: Seq<T::V>)
    requires
        forall|j: int|
            0 <= j < m.len() ==> T::decoded_of(T::content_of(#[trigger] m[j])) == Ok::<
                T::V,
                DerError,
            >(m[j]),
        forall|j: int| 0 <= j < m.len() ==> T::content_of(#[trigger] m[j]).len() <= usize::MAX,
    ensures
        spec_seq_of_decoded::<T>(spec_seq_of_content::<T>(m)) == Ok::<Seq<T::V>, DerError>(m),
    decreases m.len(),
{
    if m.len() == 0 {
        assert(m =~= Seq::<T::V>::empty());
    } else {
        let utag = spec_universal_tag_number(T::spec_universal_tag());
        assert(utag < 31);
        let e0 = spec_der_encoding::<T>(m[0]);
        let rest = spec_seq_of_content::<T>(m.skip(1));
        let c = e0 + rest;
        assert(spec_seq_of_content::<T>(m) == c);
        lemma_tlv_round_trip(
            Class::Universal,
            T::spec_content_type(),
            utag as nat,
            T::content_of(m[0]),
            rest,
        );
        lemma_parse_tlv_bounds(c);
        assert(c.skip(e0.len() as int) =~= rest);
        assert forall|j: int| 0 <= j < m.skip(1).len() implies T::decoded_of(
            T::content_of(#[trigger] m.skip(1)[j]),
        ) == Ok::<T::V, DerError>(m.skip(1)[j]) && T::content_of(m.skip(1)[j]).len()
            <= usize::MAX by {
            assert(m.skip(1)[j] == m[j + 1]);
        }
        lemma_seq_of_round_trip::<T>(m.skip(1));
        assert(seq![m[0]] + m.skip(1) =~= m);
    }
}

impl<T: DER> DER for Vec<T> {
    open spec fn spec_universal_tag() -> UniversalTag {
        UniversalTag::Sequence
    }

    open spec fn spec_content_type() -> ContentType {
        ContentType::Constructed
    }

    /// SEQUENCE OF content concatenates the element frames in order.
    open spec fn content_of(m: Seq<T::V>) -> Seq<u8> {
        spec_seq_of_content::<T>(m)
    }

    /// Element frames are decoded in order until the content ends exactly at
    /// an element boundary; a final frame the boundary cuts short is invalid
    /// input.
    open spec fn decoded_of(c: Seq<u8>) -> Result<Seq<T::V>, DerError> {
        spec_seq_of_decoded::<T>(c)
    }

    fn der_universal_tag() -> (t: UniversalTag) {
        UniversalTag::Sequence
    }

    fn der_content() -> (ct: ContentType) {
        ContentType::Constructed
    }

    fn der_encode_content(&self, w: &mut Vec<u8>) {
        let ghost dv = self.deep_view();
        let mut idx: usize = 0;
        while idx < self.len()
            invariant
                idx <= self.len(),
                dv == self.deep_view(),
                dv.len() == self@.len(),
                w@ == old(w)@ + spec_seq_of_content::<T>(dv.take(idx as int)),
                forall|j: int|
                    0 <= j < idx ==> T::decoded_of(T::content_of(#[trigger] dv[j])) == Ok::<
                        T::V,
                        DerError,
                    >(dv[j]),
                forall|j: int| 0 <= j < idx ==> T::content_of(#[trigger] dv[j]).len() <= usize::MAX,
            decreases self.len() - idx,
        {
            let item = &self[idx];
            assert(item.deep_view() == dv[idx as int]);
            item.der_encode(w);
            // a vector's length fits the native word, which bounds the
            // content octets just written
            let written = w.len();
            proof {
                assert(T::content_of(dv[idx as int]).len() <= written as nat);
                lemma_seq_of_content_snoc::<T>(dv.take(idx as int), dv[idx as int]);
                assert(dv.take(idx as int).push(dv[idx as int]) =~= dv.take(idx + 1));
                assert(w@ =~= old(w)@ + spec_seq_of_content::<T>(dv.take(idx + 1)));
            }
            idx = idx + 1;
        }
        proof {
            assert(dv.take(dv.len() as int) =~= dv);
            lemma_seq_of_round_trip::<T>(dv);
        }
    }

    fn der_decode_content(content: &Vec<u8>) -> (r: Result<Self, DerError>) {
        let mut vector: Vec<T> = Vec::new();
        let mut pos: usize = 0;
        proof {
            assert(content@.skip(0) =~= content@);
            assert(vector.deep_view() =~= Seq::<T::V>::empty());
            match spec_seq_of_decoded::<T>(content@) {
                Ok(rest) => {
                    assert(Seq::<T::V>::empty() + rest =~= rest);
                },
                Err(e) => {},
            }
        }
        while pos < content.len()
            invariant
                pos <= content.len(),
                ({
                    let whole = spec_seq_of_decoded::<T>(content@);
                    match spec_seq_of_decoded::<T>(content@.skip(pos as int)) {
                        Ok(rest) => whole == Ok::<Seq<T::V>, DerError>(vector.deep_view() + rest),
                        Err(e) => whole == Err::<Seq<T::V>, DerError>(e),
                    }
                }),
            decreases content.len() - pos,
        {
            let ghost s = content@.skip(pos as int);
            proof {
                lemma_parse_tlv_bounds(s);
            }
            let (n, frame) = match Intermediate::decode(content, pos) {
                Ok(v) => v,
                Err(e) => {
                    // within the bounded content, a frame the boundary cuts
                    // short is invalid input, not an unexpected end
                    if e == DerError::UnexpectedEof {
                        return Err(DerError::InvalidInput);
                    }
                    return Err(e);
                },
            };
            let v = match T::der_from_intermediate(frame) {
                Ok(v) => v,
                Err(e) => {
                    return Err(e);
                },
            };
            let ghost old_vector = vector.deep_view();
            proof {
                assert(s.skip(n as int) =~= content@.skip(pos + n as int));
            }
            vector.push(v);
            proof {
                assert(vector.deep_view() =~= old_vector.push(v.deep_view()));
                assert(old_vector.push(v.deep_view()) =~= old_vector + seq![v.deep_view()]);
                match spec_seq_of_decoded::<T>(content@.skip(pos + n as int)) {
                    Ok(rest) => {
                        assert((old_vector + seq![v.deep_view()]) + rest =~= old_vector + (seq![
                            v.deep_view(),
                        ] + rest));
                    },
                    Err(e) => {},
                }
            }
            pos = pos + n;
        }
        proof {
            assert(content@.skip(pos as int) =~= Seq::<u8>::empty());
            assert(vector.deep_view() + Seq::<T::V>::empty() =~= vector.deep_view());
        }
        Ok(vector)
    }
}

} // verus!
