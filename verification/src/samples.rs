//! Sample composite codecs: a SEQUENCE with one field per tagging mode, an
//! ENUMERATED type, and a CHOICE type.  They are the expansions a
//! definition-time composer would write, spelled out by hand so that every
//! step is verified.

use vstd::prelude::*;

use vstd::utf8::encode_utf8;

use crate::der::{
    lemma_explicit_round_trip, lemma_tlv_round_trip, spec_parse_explicit, spec_parse_tlv, spec_tlv,
    spec_typed_tlv, universal_tag_number, Class, ContentType, DerError, Intermediate, UniversalTag,
    DER,
};

verus! {

/// A SEQUENCE of an untagged INTEGER, a BOOLEAN under EXPLICIT CONTEXT 42,
/// and a UTF8String under IMPLICIT APPLICATION 397.
#[derive(Debug, PartialEq)]
pub struct TestStruct {
    /// Untagged INTEGER field.
    pub alpha: i32,
    /// BOOLEAN field, tagged EXPLICIT CONTEXT 42.
    pub beta: bool,
    /// UTF8String field, tagged IMPLICIT APPLICATION 397.
    pub gamma: String,
}

impl DeepView for TestStruct {
    type V = (i32, bool, Seq<char>);

    open spec fn deep_view(&self) -> (i32, bool, Seq<char>) {
        (self.alpha, self.beta, self.gamma@)
    }
}

/// The content octets of a TestStruct: the three field frames in declaration
/// order, each under its tagging mode.
pub open spec fn spec_test_struct_content(m: (i32, bool, Seq<char>)) -> Seq<u8> {
    spec_typed_tlv(UniversalTag::Integer, ContentType::Primitive, <i32 as DER>::content_of(m.0))
        + spec_tlv(
        Class::ContextSpecific,
        ContentType::Constructed,
        42,
        spec_typed_tlv(UniversalTag::Boolean, ContentType::Primitive, <bool as DER>::content_of(m.1)),
    ) + spec_tlv(Class::Application, ContentType::Primitive, 397, encode_utf8(m.2))
}

/// What TestStruct content octets decode to: the three fields in declaration
/// order, read as an untagged frame, an explicitly tagged frame and an
/// implicitly tagged frame.  Identifiers are read but not checked, and octets
/// after the third field are ignored, as the frame-by-frame decoder works.
pub open spec fn spec_test_struct_decoded(c: Seq<u8>) -> Result<(i32, bool, Seq<char>), DerError> {
    match spec_parse_tlv(c) {
        Err(e) => Err(e),
        Ok((n1, c1class, c1ct, c1tag, c1)) => match <i32 as DER>::decoded_of(c1) {
            Err(e) => Err(e),
            Ok(alpha) => match spec_parse_explicit(c.skip(n1)) {
                Err(e) => Err(e),
                Ok((n2, otag, oclass, (i2class, i2ct, i2tag, c2))) => match <bool as DER>::decoded_of(c2) {
                    Err(e) => Err(e),
                    Ok(beta) => match spec_parse_tlv(c.skip(n1 + n2)) {
                        Err(e) => Err(e),
                        Ok((n3, c3class, c3ct, c3tag, c3)) => match <String as DER>::decoded_of(
                            c3,
                        ) {
                            Err(e) => Err(e),
                            Ok(gamma) => Ok((alpha, beta, gamma)),
                        },
                    },
                },
            },
        },
    }
}

/// Law: a TestStruct round-trips — the content octets of any field values
/// decode back to those values, as long as the string field's octets fit the
/// native word.
pub proof fn lemma_test_struct_round_trip(m: (i32, bool, Seq<char>))
    requires
        encode_utf8(m.2).len() <= usize::MAX as nat,
    ensures
        spec_test_struct_decoded(spec_test_struct_content(m)) == Ok::<
            (i32, bool, Seq<char>),
            DerError,
        >(m),
{
    let a = spec_typed_tlv(
        UniversalTag::Integer,
        ContentType::Primitive,
        <i32 as DER>::content_of(m.0),
    );
    let binner = spec_typed_tlv(
        UniversalTag::Boolean,
        ContentType::Primitive,
        <bool as DER>::content_of(m.1),
    );
    let b = spec_tlv(Class::ContextSpecific, ContentType::Constructed, 42, binner);
    let g = spec_tlv(Class::Application, ContentType::Primitive, 397, encode_utf8(m.2));
    let whole = spec_test_struct_content(m);
    assert(whole =~= a + (b + g));
    crate::integer::lemma_integer_content_value(m.0);
    lemma_tlv_round_trip(
        Class::Universal,
        ContentType::Primitive,
        2,
        <i32 as DER>::content_of(m.0),
        b + g,
    );
    assert(whole.skip(a.len() as int) =~= b + g);
    assert(binner.len() == 3);
    lemma_explicit_round_trip(
        Class::ContextSpecific,
        42,
        Class::Universal,
        ContentType::Primitive,
        1,
        <bool as DER>::content_of(m.1),
        g,
    );
    assert(whole.skip(a.len() + b.len() as int) =~= g + Seq::<u8>::empty());
    lemma_tlv_round_trip(
        Class::Application,
        ContentType::Primitive,
        397,
        encode_utf8(m.2),
        Seq::<u8>::empty(),
    );
    vstd::utf8::encode_utf8_valid_utf8(m.2);
    vstd::utf8::encode_utf8_decode_utf8(m.2);
}

impl DER for TestStruct {
    open spec fn spec_universal_tag() -> UniversalTag {
        UniversalTag::Sequence
    }

    open spec fn spec_content_type() -> ContentType {
        ContentType::Constructed
    }

    open spec fn content_of(m: (i32, bool, Seq<char>)) -> Seq<u8> {
        spec_test_struct_content(m)
    }

    open spec fn decoded_of(c: Seq<u8>) -> Result<(i32, bool, Seq<char>), DerError> {
        spec_test_struct_decoded(c)
    }

    fn der_universal_tag() -> (t: UniversalTag) {
        UniversalTag::Sequence
    }

    fn der_content() -> (ct: ContentType) {
        ContentType::Constructed
    }

    fn der_encode_content(&self, w: &mut Vec<u8>) {
        let i1 = self.alpha.der_intermediate();
        i1.encode(w);
        let i2 = self.beta.der_intermediate();
        i2.encode_explicit(42, Class::ContextSpecific, w);
        let i3 = self.gamma.der_intermediate();
        i3.encode_implicit(397, Class::Application, w);
        // a vector's length fits the native word, which bounds the string
        // field's content octets
        let len3 = i3.content.len();
        proof {
            let dv = self.deep_view();
            assert(encode_utf8(dv.2).len() == len3 as nat);
            assert(w@ =~= old(w)@ + spec_test_struct_content(dv));
            lemma_test_struct_round_trip(dv);
        }
    }

    fn der_decode_content(content: &Vec<u8>) -> (r: Result<Self, DerError>) {
        let ghost c = content@;
        proof {
            assert(c.skip(0) =~= c);
        }
        let (n1, i1) = match Intermediate::decode(content, 0) {
            Ok(v) => v,
            Err(e) => {
                return Err(e);
            },
        };
        let alpha = match i32::der_from_intermediate(i1) {
            Ok(v) => v,
            Err(e) => {
                return Err(e);
            },
        };
        let (n2, _otag, _oclass, i2) = match Intermediate::decode_explicit(content, n1) {
            Ok(v) => v,
            Err(e) => {
                return Err(e);
            },
        };
        let beta = match bool::der_from_intermediate(i2) {
            Ok(v) => v,
            Err(e) => {
                return Err(e);
            },
        };
        proof {
            assert(c.skip(n1 as int).skip(n2 as int) =~= c.skip(n1 + n2 as int));
        }
        let (n3, _wtag, _wclass, i3) = match Intermediate::decode_implicit(
            universal_tag_number(UniversalTag::UTF8String),
            Class::Universal,
            content,
            n1 + n2,
        ) {
            Ok(v) => v,
            Err(e) => {
                return Err(e);
            },
        };
        let gamma = match String::der_from_intermediate(i3) {
            Ok(v) => v,
            Err(e) => {
                return Err(e);
            },
        };
        Ok(TestStruct { alpha, beta, gamma })
    }
}

/// An ENUMERATED type whose variants carry the discriminants 5, 1222 and 42.
#[derive(Debug, PartialEq, Eq, Structural, Clone, Copy)]
pub enum TestEnum {
    /// Discriminant 5
    Alpha,
    /// Discriminant 1222
    Beta,
    /// Discriminant 42
    Gamma,
}

impl DeepView for TestEnum {
    type V = TestEnum;

    open spec fn deep_view(&self) -> TestEnum {
        *self
    }
}

/// The integer discriminant of each TestEnum variant.
pub open spec fn spec_test_enum_discriminant(e: TestEnum) -> i32 {
    match e {
        TestEnum::Alpha => 5,
        TestEnum::Beta => 1222,
        TestEnum::Gamma => 42,
    }
}

/// The integer discriminant of each TestEnum variant.
pub fn test_enum_discriminant(e: TestEnum) -> (n: i32)
    ensures
        n == spec_test_enum_discriminant(e),
{
    match e {
        TestEnum::Alpha => 5,
        TestEnum::Beta => 1222,
        TestEnum::Gamma => 42,
    }
}

/// Law: every TestEnum variant round-trips — its content octets decode back
/// to the variant, and no two variants share a discriminant.
pub proof fn lemma_test_enum_round_trip(m: TestEnum)
    ensures
        <TestEnum as DER>::decoded_of(<TestEnum as DER>::content_of(m)) == Ok::<
            TestEnum,
            DerError,
        >(m),
{
    let d = spec_test_enum_discriminant(m);
    crate::integer::lemma_integer_content_value(d);
    lemma_tlv_round_trip(
        Class::Universal,
        ContentType::Primitive,
        2,
        <i32 as DER>::content_of(d),
        Seq::<u8>::empty(),
    );
    let whole = <TestEnum as DER>::content_of(m);
    assert(whole + Seq::<u8>::empty() =~= whole);
}

impl DER for TestEnum {
    open spec fn spec_universal_tag() -> UniversalTag {
        UniversalTag::Enumerated
    }

    open spec fn spec_content_type() -> ContentType {
        ContentType::Primitive
    }

    /// ENUMERATED content holds the whole INTEGER frame of the discriminant.
    open spec fn content_of(m: TestEnum) -> Seq<u8> {
        spec_typed_tlv(
            UniversalTag::Integer,
            ContentType::Primitive,
            <i32 as DER>::content_of(spec_test_enum_discriminant(m)),
        )
    }

    /// One INTEGER frame is read; its value must be a declared discriminant.
    open spec fn decoded_of(c: Seq<u8>) -> Result<TestEnum, DerError> {
        match spec_parse_tlv(c) {
            Err(e) => Err(e),
            Ok((n, class, ct, tag, cc)) => match <i32 as DER>::decoded_of(cc) {
                Err(e) => Err(e),
                Ok(v) => if v == 5 {
                    Ok(TestEnum::Alpha)
                } else if v == 1222 {
                    Ok(TestEnum::Beta)
                } else if v == 42 {
                    Ok(TestEnum::Gamma)
                } else {
                    Err(DerError::InvalidInput)
                },
            },
        }
    }

    fn der_universal_tag() -> (t: UniversalTag) {
        UniversalTag::Enumerated
    }

    fn der_content() -> (ct: ContentType) {
        ContentType::Primitive
    }

    fn der_encode_content(&self, w: &mut Vec<u8>) {
        let d = test_enum_discriminant(*self);
        d.der_encode(w);
        proof {
            lemma_test_enum_round_trip(*self);
        }
    }

    fn der_decode_content(content: &Vec<u8>) -> (r: Result<Self, DerError>) {
        proof {
            assert(content@.skip(0) =~= content@);
        }
        match i32::der_decode(content, 0) {
            Ok((_n, v)) => {
                if v == 5 {
                    Ok(TestEnum::Alpha)
                } else if v == 1222 {
                    Ok(TestEnum::Beta)
                } else if v == 42 {
                    Ok(TestEnum::Gamma)
                } else {
                    Err(DerError::InvalidInput)
                }
            },
            Err(e) => Err(e),
        }
    }
}

/// A CHOICE whose variants all carry IMPLICIT CONTEXT tags 1 to 4.
#[derive(Debug, PartialEq, Eq, Structural, Clone, Copy)]
pub enum Command {
    /// INTEGER, IMPLICIT CONTEXT 1
    Forward(i32),
    /// INTEGER, IMPLICIT CONTEXT 2
    Rotate(i32),
    /// NULL, IMPLICIT CONTEXT 3
    Start(crate::types::Null),
    /// NULL, IMPLICIT CONTEXT 4
    Stop(crate::types::Null),
}

impl DeepView for Command {
    type V = Command;

    open spec fn deep_view(&self) -> Command {
        *self
    }
}

/// Law: every Command variant round-trips — its content octets decode back
/// to the variant, since each variant owns a distinct context tag.
pub proof fn lemma_command_round_trip(m: Command)
    ensures
        <Command as DER>::decoded_of(<Command as DER>::content_of(m)) == Ok::<Command, DerError>(
            m,
        ),
{
    match m {
        Command::Forward(v) => {
            crate::integer::lemma_integer_content_value(v);
            lemma_tlv_round_trip(
                Class::ContextSpecific,
                ContentType::Primitive,
                1,
                <i32 as DER>::content_of(v),
                Seq::<u8>::empty(),
            );
        },
        Command::Rotate(v) => {
            crate::integer::lemma_integer_content_value(v);
            lemma_tlv_round_trip(
                Class::ContextSpecific,
                ContentType::Primitive,
                2,
                <i32 as DER>::content_of(v),
                Seq::<u8>::empty(),
            );
        },
        Command::Start(_) => {
            lemma_tlv_round_trip(
                Class::ContextSpecific,
                ContentType::Primitive,
                3,
                Seq::<u8>::empty(),
                Seq::<u8>::empty(),
            );
        },
        Command::Stop(_) => {
            lemma_tlv_round_trip(
                Class::ContextSpecific,
                ContentType::Primitive,
                4,
                Seq::<u8>::empty(),
                Seq::<u8>::empty(),
            );
        },
    }
    let whole = <Command as DER>::content_of(m);
    assert(whole + Seq::<u8>::empty() =~= whole);
}

impl DER for Command {
    open spec fn spec_universal_tag() -> UniversalTag {
        UniversalTag::EOC
    }

    open spec fn spec_content_type() -> ContentType {
        ContentType::Constructed
    }

    /// CHOICE content holds the active variant's frame under its implicit
    /// context tag.
    open spec fn content_of(m: Command) -> Seq<u8> {
        match m {
            Command::Forward(v) => spec_tlv(
                Class::ContextSpecific,
                ContentType::Primitive,
                1,
                <i32 as DER>::content_of(v),
            ),
            Command::Rotate(v) => spec_tlv(
                Class::ContextSpecific,
                ContentType::Primitive,
                2,
                <i32 as DER>::content_of(v),
            ),
            Command::Start(n) => spec_tlv(
                Class::ContextSpecific,
                ContentType::Primitive,
                3,
                Seq::empty(),
            ),
            Command::Stop(n) => spec_tlv(
                Class::ContextSpecific,
                ContentType::Primitive,
                4,
                Seq::empty(),
            ),
        }
    }

    /// One frame is read and its context tag names the variant; any other
    /// identifier matches no variant.
    open spec fn decoded_of(c: Seq<u8>) -> Result<Command, DerError> {
        match spec_parse_tlv(c) {
            Err(e) => Err(e),
            Ok((n, class, ct, tag, cc)) => if class == Class::ContextSpecific && tag == 1 {
                match <i32 as DER>::decoded_of(cc) {
                    Err(e) => Err(e),
                    Ok(v) => Ok(Command::Forward(v)),
                }
            } else if class == Class::ContextSpecific && tag == 2 {
                match <i32 as DER>::decoded_of(cc) {
                    Err(e) => Err(e),
                    Ok(v) => Ok(Command::Rotate(v)),
                }
            } else if class == Class::ContextSpecific && tag == 3 {
                match <crate::types::Null as DER>::decoded_of(cc) {
                    Err(e) => Err(e),
                    Ok(v) => Ok(Command::Start(v)),
                }
            } else if class == Class::ContextSpecific && tag == 4 {
                match <crate::types::Null as DER>::decoded_of(cc) {
                    Err(e) => Err(e),
                    Ok(v) => Ok(Command::Stop(v)),
                }
            } else {
                Err(DerError::InvalidInput)
            },
        }
    }

    fn der_universal_tag() -> (t: UniversalTag) {
        UniversalTag::EOC
    }

    fn der_content() -> (ct: ContentType) {
        ContentType::Constructed
    }

    fn der_encode_content(&self, w: &mut Vec<u8>) {
        match self {
            Command::Forward(v) => {
                let i = v.der_intermediate();
                i.encode_implicit(1, Class::ContextSpecific, w);
            },
            Command::Rotate(v) => {
                let i = v.der_intermediate();
                i.encode_implicit(2, Class::ContextSpecific, w);
            },
            Command::Start(n) => {
                let i = n.der_intermediate();
                i.encode_implicit(3, Class::ContextSpecific, w);
            },
            Command::Stop(n) => {
                let i = n.der_intermediate();
                i.encode_implicit(4, Class::ContextSpecific, w);
            },
        }
        proof {
            lemma_command_round_trip(*self);
        }
    }

    fn der_decode_content(content: &Vec<u8>) -> (r: Result<Self, DerError>) {
        proof {
            assert(content@.skip(0) =~= content@);
        }
        let (_n, i) = match Intermediate::decode(content, 0) {
            Ok(v) => v,
            Err(e) => {
                return Err(e);
            },
        };
        let wire_tag = i.tag;
        let wire_class = i.class;
        if wire_tag == 1 && wire_class == Class::ContextSpecific {
            let mut i = i;
            i.tag = universal_tag_number(UniversalTag::Integer);
            i.class = Class::Universal;
            match i32::der_from_intermediate(i) {
                Ok(v) => Ok(Command::Forward(v)),
                Err(e) => Err(e),
            }
        } else if wire_tag == 2 && wire_class == Class::ContextSpecific {
            let mut i = i;
            i.tag = universal_tag_number(UniversalTag::Integer);
            i.class = Class::Universal;
            match i32::der_from_intermediate(i) {
                Ok(v) => Ok(Command::Rotate(v)),
                Err(e) => Err(e),
            }
        } else if wire_tag == 3 && wire_class == Class::ContextSpecific {
            let mut i = i;
            i.tag = universal_tag_number(UniversalTag::Null);
            i.class = Class::Universal;
            match crate::types::Null::der_from_intermediate(i) {
                Ok(v) => Ok(Command::Start(v)),
                Err(e) => Err(e),
            }
        } else if wire_tag == 4 && wire_class == Class::ContextSpecific {
            let mut i = i;
            i.tag = universal_tag_number(UniversalTag::Null);
            i.class = Class::Universal;
            match crate::types::Null::der_from_intermediate(i) {
                Ok(v) => Ok(Command::Stop(v)),
                Err(e) => Err(e),
            }
        } else {
            Err(DerError::InvalidInput)
        }
    }
}

} // verus!
