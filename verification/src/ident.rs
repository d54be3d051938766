use vstd::prelude::*;

verus! {

/// DER class values: the two-bit field of the identifier octet.
#[derive(PartialEq, Eq, Structural, Debug, Clone, Copy)]
pub enum Class {
    /// Universal
    Universal,
    /// Application
    Application,
    /// ContextSpecific
    ContextSpecific,
    /// Private
    Private,
}

/// DER content type values: the primitive/constructed bit of the identifier
/// octet.
#[derive(PartialEq, Eq, Structural, Debug, Clone, Copy)]
pub enum ContentType {
    /// Primitive
    Primitive,
    /// Constructed
    Constructed,
}

/// The number carried by the two class bits.
pub open spec fn spec_class_number(c: Class) -> u8 {
    match c {
        Class::Universal => 0,
        Class::Application => 1,
        Class::ContextSpecific => 2,
        Class::Private => 3,
    }
}

/// The class named by a two-bit number.
pub open spec fn spec_class_of(n: u8) -> Class {
    if n == 0 {
        Class::Universal
    } else if n == 1 {
        Class::Application
    } else if n == 2 {
        Class::ContextSpecific
    } else {
        Class::Private
    }
}

/// The number carried by the primitive/constructed bit.
pub open spec fn spec_content_type_number(ct: ContentType) -> u8 {
    match ct {
        ContentType::Primitive => 0,
        ContentType::Constructed => 1,
    }
}

/// The content type named by a one-bit number.
pub open spec fn spec_content_type_of(n: u8) -> ContentType {
    if n == 0 {
        ContentType::Primitive
    } else {
        ContentType::Constructed
    }
}

/// The number carried by the two class bits.
pub fn class_number(c: Class) -> (n: u8)
    ensures
        n == spec_class_number(c),
        n < 4,
{
    match c {
        Class::Universal => 0,
        Class::Application => 1,
        Class::ContextSpecific => 2,
        Class::Private => 3,
    }
}

/// The class named by a two-bit number.
pub fn class_of(n: u8) -> (c: Class)
    requires
        n < 4,
    ensures
        c == spec_class_of(n),
{
    if n == 0 {
        Class::Universal
    } else if n == 1 {
        Class::Application
    } else if n == 2 {
        Class::ContextSpecific
    } else {
        Class::Private
    }
}

/// The number carried by the primitive/constructed bit.
pub fn content_type_number(ct: ContentType) -> (n: u8)
    ensures
        n == spec_content_type_number(ct),
        n < 2,
{
    match ct {
        ContentType::Primitive => 0,
        ContentType::Constructed => 1,
    }
}

/// The content type named by a one-bit number.
pub fn content_type_of(n: u8) -> (ct: ContentType)
    requires
        n < 2,
    ensures
        ct == spec_content_type_of(n),
{
    if n == 0 {
        ContentType::Primitive
    } else {
        ContentType::Constructed
    }
}

/// DER universal tag values.
#[derive(PartialEq, Eq, Structural, Debug, Clone, Copy)]
pub enum UniversalTag {
    /// End of Content
    EOC,
    /// Boolean
    Boolean,
    /// Integer
    Integer,
    /// BitString
    BitString,
    /// OctetString
    OctetString,
    /// Null
    Null,
    /// ObjectIdentifier
    ObjectIdentifier,
    /// ObjectDescriptor
    ObjectDescriptor,
    /// External
    External,
    /// Real
    Real,
    /// Enumerated
    Enumerated,
    /// EmbeddedPDV
    EmbeddedPDV,
    /// UTF8String
    UTF8String,
    /// RelativeOID
    RelativeOID,
    /// Reserved, Unused
    Reserved01,
    /// Reserved, Unused
    Reserved02,
    /// Sequence
    Sequence,
    /// Set
    SetType,
    /// NumericString
    NumericString,
    /// PrintableString
    PrintableString,
    /// T61String
    T61String,
    /// VideotexString
    VideotexString,
    /// IA5String
    IA5String,
    /// UTCTime
    UTCTime,
    /// GeneralizedTime
    GeneralizedTime,
    /// GraphicString
    GraphicString,
    /// VisibleString
    VisibleString,
    /// GeneralString
    GeneralString,
    /// UniversalString
    UniversalString,
    /// CharacterString
    CharacterString,
    /// BMPString
    BMPString,
}

/// The tag number of each universal tag, from the X.690 registry.
pub open spec fn spec_universal_tag_number(t: UniversalTag) -> u32 {
    match t {
        UniversalTag::EOC => 0,
        UniversalTag::Boolean => 1,
        UniversalTag::Integer => 2,
        UniversalTag::BitString => 3,
        UniversalTag::OctetString => 4,
        UniversalTag::Null => 5,
        UniversalTag::ObjectIdentifier => 6,
        UniversalTag::ObjectDescriptor => 7,
        UniversalTag::External => 8,
        UniversalTag::Real => 9,
        UniversalTag::Enumerated => 10,
        UniversalTag::EmbeddedPDV => 11,
        UniversalTag::UTF8String => 12,
        UniversalTag::RelativeOID => 13,
        UniversalTag::Reserved01 => 14,
        UniversalTag::Reserved02 => 15,
        UniversalTag::Sequence => 16,
        UniversalTag::SetType => 17,
        UniversalTag::NumericString => 18,
        UniversalTag::PrintableString => 19,
        UniversalTag::T61String => 20,
        UniversalTag::VideotexString => 21,
        UniversalTag::IA5String => 22,
        UniversalTag::UTCTime => 23,
        UniversalTag::GeneralizedTime => 24,
        UniversalTag::GraphicString => 25,
        UniversalTag::VisibleString => 26,
        UniversalTag::GeneralString => 27,
        UniversalTag::UniversalString => 28,
        UniversalTag::CharacterString => 29,
        UniversalTag::BMPString => 30,
    }
}

/// The tag number of each universal tag, from the X.690 registry.
pub fn universal_tag_number(t: UniversalTag) -> (n: u32)
    ensures
        n == spec_universal_tag_number(t),
        n < 31,
{
    match t {
        UniversalTag::EOC => 0,
        UniversalTag::Boolean => 1,
        UniversalTag::Integer => 2,
        UniversalTag::BitString => 3,
        UniversalTag::OctetString => 4,
        UniversalTag::Null => 5,
        UniversalTag::ObjectIdentifier => 6,
        UniversalTag::ObjectDescriptor => 7,
        UniversalTag::External => 8,
        UniversalTag::Real => 9,
        UniversalTag::Enumerated => 10,
        UniversalTag::EmbeddedPDV => 11,
        UniversalTag::UTF8String => 12,
        UniversalTag::RelativeOID => 13,
        UniversalTag::Reserved01 => 14,
        UniversalTag::Reserved02 => 15,
        UniversalTag::Sequence => 16,
        UniversalTag::SetType => 17,
        UniversalTag::NumericString => 18,
        UniversalTag::PrintableString => 19,
        UniversalTag::T61String => 20,
        UniversalTag::VideotexString => 21,
        UniversalTag::IA5String => 22,
        UniversalTag::UTCTime => 23,
        UniversalTag::GeneralizedTime => 24,
        UniversalTag::GraphicString => 25,
        UniversalTag::VisibleString => 26,
        UniversalTag::GeneralString => 27,
        UniversalTag::UniversalString => 28,
        UniversalTag::CharacterString => 29,
        UniversalTag::BMPString => 30,
    }
}

} // verus!
