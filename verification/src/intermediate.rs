use vstd::prelude::*;

use crate::error::DerError;
use crate::ident::{Class, ContentType};
use crate::length::{
    der_decode_length_bytes, der_encode_length_bytes, lemma_length_round_trip,
    lemma_parse_length_bounds, spec_length_bytes, spec_parse_length,
};
use crate::tag::{
    der_decode_tag_bytes, der_encode_tag_bytes, lemma_parse_tag_bounds, lemma_tag_round_trip,
    spec_parse_tag, spec_tag_bytes,
};

verus! {

/// Copy the octets of data between start and end into a fresh vector.
pub(crate) fn copy_range(data: &Vec<u8>, start: usize, end: usize) -> (r: Vec<u8>)
    requires
        start <= end,
        end <= data.len(),
    ensures
        r@ == data@.subrange(start as int, end as int),
{
    let mut r: Vec<u8> = Vec::new();
    let mut i: usize = start;
    while i < end
        invariant
            start <= i <= end,
            end <= data.len(),
            r@ == data@.subrange(start as int, i as int),
        decreases end - i,
    {
        r.push(data[i]);
        i = i + 1;
        assert(r@ =~= data@.subrange(start as int, i as int));
    }
    r
}

/// Append a copy of the octets of src to w.
pub(crate) fn append_bytes(w: &mut Vec<u8>, src: &Vec<u8>)
    ensures
        final(w)@ == old(w)@ + src@,
{
    let mut i: usize = 0;
    while i < src.len()
        invariant
            i <= src.len(),
            w@ == old(w)@ + src@.subrange(0, i as int),
        decreases src.len() - i,
    {
        w.push(src[i]);
        i = i + 1;
        assert(w@ =~= old(w)@ + src@.subrange(0, i as int));
    }
    assert(w@ =~= old(w)@ + src@);
}

/// The octets of one full frame: identifier, length of the content, content.
pub open spec fn spec_tlv(class: Class, ct: ContentType, tag: nat, content: Seq<u8>) -> Seq<u8> {
    spec_tag_bytes(tag, class, ct) + spec_length_bytes(content.len()) + content
}

/// What decoding one frame from the front of s yields: the count of octets
/// read, the class, content type and tag of the identifier, and the content
/// octets, or the error.  The input must hold all of the declared content.
pub open spec fn spec_parse_tlv(s: Seq<u8>) -> Result<
    (int, Class, ContentType, nat, Seq<u8>),
    DerError,
> {
    match spec_parse_tag(s) {
        Err(e) => Err(e),
        Ok((tn, tag, class, ct)) => match spec_parse_length(s.skip(tn)) {
            Err(e) => Err(e),
            Ok((ln, length)) => if s.len() < tn + ln + length {
                Err(DerError::UnexpectedEof)
            } else {
                Ok(
                    (
                        tn + ln + length as int,
                        class,
                        ct,
                        tag,
                        s.subrange(tn + ln, tn + ln + length as int),
                    ),
                )
            },
        },
    }
}

/// What decoding an explicitly tagged frame from the front of s yields: the
/// count of octets read, the outer tag and class, and the inner frame as
/// (class, content type, tag, content).  The outer length octets are read and
/// discarded; the inner frame describes itself.
pub open spec fn spec_parse_explicit(s: Seq<u8>) -> Result<
    (int, nat, Class, (Class, ContentType, nat, Seq<u8>)),
    DerError,
> {
    match spec_parse_tag(s) {
        Err(e) => Err(e),
        Ok((tn, otag, oclass, oct)) => match spec_parse_length(s.skip(tn)) {
            Err(e) => Err(e),
            Ok((ln, olen)) => match spec_parse_tlv(s.skip(tn + ln)) {
                Err(e) => Err(e),
                Ok((n, iclass, ict, itag, icontent)) => Ok(
                    (tn + ln + n, otag, oclass, (iclass, ict, itag, icontent)),
                ),
            },
        },
    }
}

/// A successful frame parse consumes between two and all of the octets.
pub proof fn lemma_parse_tlv_bounds(s: Seq<u8>)
    ensures
        spec_parse_tlv(s) matches Ok((n, class, ct, tag, content)) ==> 2 <= n <= s.len()
            && content.len() <= usize::MAX as nat,
{
    lemma_parse_tag_bounds(s);
    match spec_parse_tag(s) {
        Ok((tn, tag, class, ct)) => {
            lemma_parse_length_bounds(s.skip(tn));
        },
        Err(e) => {},
    }
}

/// Law: decoding the encoding of a frame yields exactly its class, content
/// type, tag and content octets, and consumes exactly the encoded octets,
/// whatever follows them.
pub proof fn lemma_tlv_round_trip(
    class: Class,
    ct: ContentType,
    tag: nat,
    content: Seq<u8>,
    rest: Seq<u8>,
)
    requires
        tag < 0x1000_0000,
        content.len() <= usize::MAX as nat,
    ensures
        spec_parse_tlv(spec_tlv(class, ct, tag, content) + rest) == Ok::<
            (int, Class, ContentType, nat, Seq<u8>),
            DerError,
        >((spec_tlv(class, ct, tag, content).len() as int, class, ct, tag, content)),
{
    let t = spec_tag_bytes(tag, class, ct);
    let l = spec_length_bytes(content.len());
    let s = spec_tlv(class, ct, tag, content) + rest;
    assert(s =~= t + (l + (content + rest)));
    lemma_tag_round_trip(tag, class, ct, l + (content + rest));
    assert(spec_parse_tag(s) == Ok::<(int, nat, Class, ContentType), DerError>(
        (t.len() as int, tag, class, ct),
    ));
    assert(s.skip(t.len() as int) =~= l + (content + rest));
    lemma_length_round_trip(content.len() as usize, content + rest);
    assert(spec_parse_length(s.skip(t.len() as int)) == Ok::<(int, nat), DerError>(
        (l.len() as int, content.len()),
    ));
    assert(s.len() >= t.len() + l.len() + content.len());
    assert(s.subrange(
        t.len() + l.len() as int,
        t.len() + l.len() + content.len() as int,
    ) =~= content);
}

/// Law: decoding an explicitly tagged encoding yields the outer tag and class
/// and the inner frame exactly, and consumes exactly the encoded octets,
/// whatever follows them.
pub proof fn lemma_explicit_round_trip(
    oclass: Class,
    otag: nat,
    iclass: Class,
    ict: ContentType,
    itag: nat,
    icontent: Seq<u8>,
    rest: Seq<u8>,
)
    requires
        otag < 0x1000_0000,
        itag < 0x1000_0000,
        spec_tlv(iclass, ict, itag, icontent).len() <= usize::MAX as nat,
    ensures
        ({
            let inner = spec_tlv(iclass, ict, itag, icontent);
            let enc = spec_tlv(oclass, ContentType::Constructed, otag, inner);
            spec_parse_explicit(enc + rest) == Ok::<
                (int, nat, Class, (Class, ContentType, nat, Seq<u8>)),
                DerError,
            >((enc.len() as int, otag, oclass, (iclass, ict, itag, icontent)))
        }),
{
    let inner = spec_tlv(iclass, ict, itag, icontent);
    let t = spec_tag_bytes(otag, oclass, ContentType::Constructed);
    let l = spec_length_bytes(inner.len());
    let enc = spec_tlv(oclass, ContentType::Constructed, otag, inner);
    let s = enc + rest;
    assert(s =~= t + (l + (inner + rest)));
    lemma_tag_round_trip(otag, oclass, ContentType::Constructed, l + (inner + rest));
    assert(s.skip(t.len() as int) =~= l + (inner + rest));
    lemma_length_round_trip(inner.len() as usize, inner + rest);
    assert(s.skip(t.len() + l.len() as int) =~= inner + rest);
    lemma_tlv_round_trip(iclass, ict, itag, icontent, rest);
    assert(enc.len() == t.len() + l.len() + inner.len());
}

/// One tag/length/value frame in staged form: the identifier fields and the
/// raw content octets.  The content holds no identifier or length octets of
/// its own frame; for constructed values it is a concatenation of child
/// frames.
#[derive(Debug)]
pub struct Intermediate {
    /// Class of this encoded object
    pub class: Class,
    /// Content Type of this encoded object
    pub content_type: ContentType,
    /// Tag of this encoded object
    pub tag: u32,
    /// Content octets
    pub content: Vec<u8>,
}

impl Clone for Intermediate {
    /// An Intermediate clones field by field.
    fn clone(&self) -> (r: Self)
        ensures
            r.class == self.class,
            r.content_type == self.content_type,
            r.tag == self.tag,
            r.content@ == self.content@,
    {
        Intermediate {
            class: self.class,
            content_type: self.content_type,
            tag: self.tag,
            content: copy_range(&self.content, 0, self.content.len()),
        }
    }
}

impl Intermediate {
    /// Create a new Intermediate with empty content octets.
    pub fn new(class: Class, ct: ContentType, tag: u32) -> (r: Intermediate)
        ensures
            r.class == class,
            r.content_type == ct,
            r.tag == tag,
            r.content@ == Seq::<u8>::empty(),
    {
        Intermediate { class, content_type: ct, tag, content: Vec::new() }
    }

    /// Replace the content octets, builder style.
    pub fn with_content(self, content: Vec<u8>) -> (r: Intermediate)
        ensures
            r.class == self.class,
            r.content_type == self.content_type,
            r.tag == self.tag,
            r.content@ == content@,
    {
        Intermediate { content, ..self }
    }

    /// Replace the content octets.
    pub fn set_content(&mut self, content: Vec<u8>)
        ensures
            final(self).class == old(self).class,
            final(self).content_type == old(self).content_type,
            final(self).tag == old(self).tag,
            final(self).content@ == content@,
    {
        self.content = content;
    }

    /// Encode this frame: identifier octets, length octets, content octets.
    pub fn encode(&self, w: &mut Vec<u8>)
        ensures
            final(w)@ == old(w)@ + spec_tlv(
                self.class,
                self.content_type,
                self.tag as nat,
                self.content@,
            ),
    {
        der_encode_tag_bytes(self.tag, self.class, self.content_type, w);
        der_encode_length_bytes(self.content.len(), w);
        append_bytes(w, &self.content);
        assert(w@ =~= old(w)@ + spec_tlv(
            self.class,
            self.content_type,
            self.tag as nat,
            self.content@,
        ));
    }

    /// Encode this frame under explicit tagging: a constructed outer frame
    /// with the given class and tag whose content is this frame's whole
    /// encoding.
    pub fn encode_explicit(&self, tag: u32, class: Class, w: &mut Vec<u8>)
        ensures
            final(w)@ == old(w)@ + spec_tlv(
                class,
                ContentType::Constructed,
                tag as nat,
                spec_tlv(self.class, self.content_type, self.tag as nat, self.content@),
            ),
    {
        der_encode_tag_bytes(tag, class, ContentType::Constructed, w);
        let mut inner: Vec<u8> = Vec::new();
        self.encode(&mut inner);
        der_encode_length_bytes(inner.len(), w);
        append_bytes(w, &inner);
        assert(w@ =~= old(w)@ + spec_tlv(
            class,
            ContentType::Constructed,
            tag as nat,
            spec_tlv(self.class, self.content_type, self.tag as nat, self.content@),
        ));
    }

    /// Encode this frame under implicit tagging: the identifier's class and
    /// tag are replaced, the content type and the content octets stay.
    pub fn encode_implicit(&self, tag: u32, class: Class, w: &mut Vec<u8>)
        ensures
            final(w)@ == old(w)@ + spec_tlv(
                class,
                self.content_type,
                tag as nat,
                self.content@,
            ),
    {
        der_encode_tag_bytes(tag, class, self.content_type, w);
        der_encode_length_bytes(self.content.len(), w);
        append_bytes(w, &self.content);
        assert(w@ =~= old(w)@ + spec_tlv(
            class,
            self.content_type,
            tag as nat,
            self.content@,
        ));
    }

    /// Decode one frame found at position pos of the stream: identifier,
    /// length, then exactly that many content octets.
    ///
    /// The result is (octets read, frame).
    pub fn decode(data: &Vec<u8>, pos: usize) -> (r: Result<(usize, Intermediate), DerError>)
        requires
            pos <= data.len(),
        ensures
            ({
                let parsed = spec_parse_tlv(data@.skip(pos as int));
                match r {
                    Ok((n, i)) => parsed == Ok::<(int, Class, ContentType, nat, Seq<u8>), DerError>(
                        (n as int, i.class, i.content_type, i.tag as nat, i.content@),
                    ) && pos + n <= data.len() && n >= 2,
                    Err(e) => parsed == Err::<(int, Class, ContentType, nat, Seq<u8>), DerError>(e),
                }
            }),
    {
        let ghost s = data@.skip(pos as int);
        proof {
            lemma_parse_tag_bounds(s);
        }
        let (tn, tag, class, ct) = match der_decode_tag_bytes(data, pos) {
            Ok(v) => v,
            Err(e) => {
                return Err(e);
            },
        };
        assert(s.skip(tn as int) =~= data@.skip(pos + tn as int));
        proof {
            lemma_parse_length_bounds(s.skip(tn as int));
        }
        let (ln, length) = match der_decode_length_bytes(data, pos + tn) {
            Ok(v) => v,
            Err(e) => {
                return Err(e);
            },
        };
        if data.len() - pos - tn - ln < length {
            assert(s.len() < tn + ln + length);
            return Err(DerError::UnexpectedEof);
        }
        let start = pos + tn + ln;
        let content = copy_range(data, start, start + length);
        assert(s.subrange(tn + ln, tn + ln + length as int) =~= data@.subrange(
            start as int,
            start + length as int,
        ));
        Ok((tn + ln + length, Intermediate { class, content_type: ct, tag, content }))
    }

    /// Decode an explicitly tagged frame found at position pos of the stream:
    /// the outer identifier and length are read (the length octets are
    /// discarded; the inner frame describes itself), then the inner frame.
    ///
    /// The result is (octets read, outer tag, outer class, inner frame).
    pub fn decode_explicit(data: &Vec<u8>, pos: usize) -> (r: Result<
        (usize, u32, Class, Intermediate),
        DerError,
    >)
        requires
            pos <= data.len(),
        ensures
            ({
                let parsed = spec_parse_explicit(data@.skip(pos as int));
                match r {
                    Ok((n, otag, oclass, i)) => parsed == Ok::<
                        (int, nat, Class, (Class, ContentType, nat, Seq<u8>)),
                        DerError,
                    >(
                        (
                            n as int,
                            otag as nat,
                            oclass,
                            (i.class, i.content_type, i.tag as nat, i.content@),
                        ),
                    ) && pos + n <= data.len(),
                    Err(e) => parsed == Err::<
                        (int, nat, Class, (Class, ContentType, nat, Seq<u8>)),
                        DerError,
                    >(e),
                }
            }),
    {
        let ghost s = data@.skip(pos as int);
        proof {
            lemma_parse_tag_bounds(s);
        }
        let (tn, otag, oclass, _oct) = match der_decode_tag_bytes(data, pos) {
            Ok(v) => v,
            Err(e) => {
                return Err(e);
            },
        };
        assert(s.skip(tn as int) =~= data@.skip(pos + tn as int));
        proof {
            lemma_parse_length_bounds(s.skip(tn as int));
        }
        let (ln, _olen) = match der_decode_length_bytes(data, pos + tn) {
            Ok(v) => v,
            Err(e) => {
                return Err(e);
            },
        };
        assert(s.skip(tn + ln as int) =~= data@.skip(pos + tn + ln as int));
        let (n, inner) = match Intermediate::decode(data, pos + tn + ln) {
            Ok(v) => v,
            Err(e) => {
                return Err(e);
            },
        };
        Ok((tn + ln + n, otag, oclass, inner))
    }

    /// Decode an implicitly tagged frame found at position pos of the stream.
    /// The frame is read as usual; the returned frame carries the expected
    /// tag and class handed in (so a downstream decoder sees the natural
    /// identifier), while the tag and class found on the wire are returned
    /// beside it.
    ///
    /// The result is (octets read, wire tag, wire class, frame).
    pub fn decode_implicit(tag: u32, class: Class, data: &Vec<u8>, pos: usize) -> (r: Result<
        (usize, u32, Class, Intermediate),
        DerError,
    >)
        requires
            pos <= data.len(),
        ensures
            ({
                let parsed = spec_parse_tlv(data@.skip(pos as int));
                match r {
                    Ok((n, wtag, wclass, i)) => parsed == Ok::<
                        (int, Class, ContentType, nat, Seq<u8>),
                        DerError,
                    >((n as int, wclass, i.content_type, wtag as nat, i.content@)) && i.class
                        == class && i.tag == tag && pos + n <= data.len(),
                    Err(e) => parsed == Err::<(int, Class, ContentType, nat, Seq<u8>), DerError>(e),
                }
            }),
    {
        let (n, i) = match Intermediate::decode(data, pos) {
            Ok(v) => v,
            Err(e) => {
                return Err(e);
            },
        };
        let wtag = i.tag;
        let wclass = i.class;
        Ok((
            n,
            wtag,
            wclass,
            Intermediate { class, content_type: i.content_type, tag, content: i.content },
        ))
    }
}

} // verus!
