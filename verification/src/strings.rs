use vstd::prelude::*;

use vstd::string::StrSliceExecFns;
use vstd::utf8::{
    decode_utf8, encode_utf8, encode_utf8_decode_utf8, encode_utf8_valid_utf8, valid_utf8,
};

use crate::der::DER;
use crate::error::DerError;
use crate::ident::{ContentType, UniversalTag};
use crate::intermediate::{append_bytes, copy_range};

verus! {

/// Append the UTF-8 octets of s to the stream.  The octets are valid UTF-8
/// and decode back to the characters of s.
fn encode_string_content(s: &String, w: &mut Vec<u8>)
    ensures
        final(w)@ == old(w)@ + encode_utf8(s@),
        valid_utf8(encode_utf8(s@)),
        decode_utf8(encode_utf8(s@)) == s@,
{
    let bytes = s.as_str().as_bytes_vec();
    append_bytes(w, &bytes);
    proof {
        encode_utf8_valid_utf8(s@);
        encode_utf8_decode_utf8(s@);
    }
}

/// Relies on String::from_utf8: it returns Ok exactly when the octets are
/// valid UTF-8, and then the string whose characters they decode to.
#[verifier::external_body]
fn string_from_utf8(bytes: Vec<u8>) -> (r: Option<String>)
    ensures
        r is Some <==> valid_utf8(bytes@),
        r matches Some(s) ==> s@ == decode_utf8(bytes@),
{
    String::from_utf8(bytes).ok()
}

/// Decode UTF-8 content octets into an owned string, or report the octets
/// that are not UTF-8.
fn decode_string_content(content: &Vec<u8>) -> (r: Result<String, DerError>)
    ensures
        match r {
            Ok(s) => valid_utf8(content@) && s@ == decode_utf8(content@),
            Err(e) => !valid_utf8(content@) && e == DerError::InvalidData,
        },
{
    let bytes = copy_range(content, 0, content.len());
    assert(bytes@ =~= content@);
    match string_from_utf8(bytes) {
        Some(s) => Ok(s),
        None => Err(DerError::InvalidData),
    }
}

impl DER for String {
    open spec fn spec_universal_tag() -> UniversalTag {
        UniversalTag::UTF8String
    }

    open spec fn spec_content_type() -> ContentType {
        ContentType::Primitive
    }

    /// UTF8String content is the UTF-8 octets of the characters.
    open spec fn content_of(m: Seq<char>) -> Seq<u8> {
        encode_utf8(m)
    }

    /// Valid UTF-8 content decodes to its characters; anything else is
    /// invalid data.
    open spec fn decoded_of(c: Seq<u8>) -> Result<Seq<char>, DerError> {
        if valid_utf8(c) {
            Ok(decode_utf8(c))
        } else {
            Err(DerError::InvalidData)
        }
    }

    fn der_universal_tag() -> (t: UniversalTag) {
        UniversalTag::UTF8String
    }

    fn der_content() -> (ct: ContentType) {
        ContentType::Primitive
    }

    fn der_encode_content(&self, w: &mut Vec<u8>) {
        encode_string_content(self, w);
    }

    fn der_decode_content(content: &Vec<u8>) -> (r: Result<Self, DerError>) {
        match decode_string_content(content) {
            Ok(s) => Ok(s),
            Err(e) => Err(e),
        }
    }
}

/// Asn1 String Type
///
/// Restricted character sets are not enforced, so it is the caller's job to
/// check whether string contents are legal for this specific string type.
#[derive(Debug)]
pub struct NumericString(String);

impl DeepView for NumericString {
    type V = Seq<char>;

    closed spec fn deep_view(&self) -> Seq<char> {
        self.0@
    }
}

impl From<String> for NumericString {
    /// Wrap a string, keeping its characters.
    fn from(s: String) -> (r: NumericString)
        ensures
            r.deep_view() == s@,
    {
        NumericString(s)
    }
}

impl vstd::std_specs::convert::FromSpecImpl<String> for NumericString {
    closed spec fn obeys_from_spec() -> bool {
        true
    }

    closed spec fn from_spec(s: String) -> NumericString {
        NumericString(s)
    }
}

impl From<NumericString> for String {
    /// Unwrap the string, keeping its characters.
    fn from(v: NumericString) -> (r: String)
        ensures
            r@ == v.deep_view(),
    {
        v.0
    }
}

impl vstd::std_specs::convert::FromSpecImpl<NumericString> for String {
    closed spec fn obeys_from_spec() -> bool {
        true
    }

    closed spec fn from_spec(v: NumericString) -> String {
        v.0
    }
}

impl DER for NumericString {
    open spec fn spec_universal_tag() -> UniversalTag {
        UniversalTag::NumericString
    }

    open spec fn spec_content_type() -> ContentType {
        ContentType::Primitive
    }

    /// Content is the UTF-8 octets of the characters, as for UTF8String.
    open spec fn content_of(m: Seq<char>) -> Seq<u8> {
        encode_utf8(m)
    }

    /// Valid UTF-8 content decodes to its characters; anything else is
    /// invalid data.
    open spec fn decoded_of(c: Seq<u8>) -> Result<Seq<char>, DerError> {
        if valid_utf8(c) {
            Ok(decode_utf8(c))
        } else {
            Err(DerError::InvalidData)
        }
    }

    fn der_universal_tag() -> (t: UniversalTag) {
        UniversalTag::NumericString
    }

    fn der_content() -> (ct: ContentType) {
        ContentType::Primitive
    }

    fn der_encode_content(&self, w: &mut Vec<u8>) {
        encode_string_content(&self.0, w);
    }

    fn der_decode_content(content: &Vec<u8>) -> (r: Result<Self, DerError>) {
        match decode_string_content(content) {
            Ok(s) => Ok(NumericString(s)),
            Err(e) => Err(e),
        }
    }
}

/// Asn1 String Type
///
/// Restricted character sets are not enforced, so it is the caller's job to
/// check whether string contents are legal for this specific string type.
#[derive(Debug)]
pub struct PrintableString(String);

impl DeepView for PrintableString {
    type V = Seq<char>;

    closed spec fn deep_view(&self) -> Seq<char> {
        self.0@
    }
}

impl From<String> for PrintableString {
    /// Wrap a string, keeping its characters.
    fn from(s: String) -> (r: PrintableString)
        ensures
            r.deep_view() == s@,
    {
        PrintableString(s)
    }
}

impl vstd::std_specs::convert::FromSpecImpl<String> for PrintableString {
    closed spec fn obeys_from_spec() -> bool {
        true
    }

    closed spec fn from_spec(s: String) -> PrintableString {
        PrintableString(s)
    }
}

impl From<PrintableString> for String {
    /// Unwrap the string, keeping its characters.
    fn from(v: PrintableString) -> (r: String)
        ensures
            r@ == v.deep_view(),
    {
        v.0
    }
}

impl vstd::std_specs::convert::FromSpecImpl<PrintableString> for String {
    closed spec fn obeys_from_spec() -> bool {
        true
    }

    closed spec fn from_spec(v: PrintableString) -> String {
        v.0
    }
}

impl DER for PrintableString {
    open spec fn spec_universal_tag() -> UniversalTag {
        UniversalTag::PrintableString
    }

    open spec fn spec_content_type() -> ContentType {
        ContentType::Primitive
    }

    /// Content is the UTF-8 octets of the characters, as for UTF8String.
    open spec fn content_of(m: Seq<char>) -> Seq<u8> {
        encode_utf8(m)
    }

    /// Valid UTF-8 content decodes to its characters; anything else is
    /// invalid data.
    open spec fn decoded_of(c: Seq<u8>) -> Result<Seq<char>, DerError> {
        if valid_utf8(c) {
            Ok(decode_utf8(c))
        } else {
            Err(DerError::InvalidData)
        }
    }

    fn der_universal_tag() -> (t: UniversalTag) {
        UniversalTag::PrintableString
    }

    fn der_content() -> (ct: ContentType) {
        ContentType::Primitive
    }

    fn der_encode_content(&self, w: &mut Vec<u8>) {
        encode_string_content(&self.0, w);
    }

    fn der_decode_content(content: &Vec<u8>) -> (r: Result<Self, DerError>) {
        match decode_string_content(content) {
            Ok(s) => Ok(PrintableString(s)),
            Err(e) => Err(e),
        }
    }
}

/// Asn1 String Type
///
/// Restricted character sets are not enforced, so it is the caller's job to
/// check whether string contents are legal for this specific string type.
#[derive(Debug)]
pub struct T61String(String);

impl DeepView for T61String {
    type V = Seq<char>;

    closed spec fn deep_view(&self) -> Seq<char> {
        self.0@
    }
}

impl From<String> for T61String {
    /// Wrap a string, keeping its characters.
    fn from(s: String) -> (r: T61String)
        ensures
            r.deep_view() == s@,
    {
        T61String(s)
    }
}

impl vstd::std_specs::convert::FromSpecImpl<String> for T61String {
    closed spec fn obeys_from_spec() -> bool {
        true
    }

    closed spec fn from_spec(s: String) -> T61String {
        T61String(s)
    }
}

impl From<T61String> for String {
    /// Unwrap the string, keeping its characters.
    fn from(v: T61String) -> (r: String)
        ensures
            r@ == v.deep_view(),
    {
        v.0
    }
}

impl vstd::std_specs::convert::FromSpecImpl<T61String> for String {
    closed spec fn obeys_from_spec() -> bool {
        true
    }

    closed spec fn from_spec(v: T61String) -> String {
        v.0
    }
}

impl DER for T61String {
    open spec fn spec_universal_tag() -> UniversalTag {
        UniversalTag::T61String
    }

    open spec fn spec_content_type() -> ContentType {
        ContentType::Primitive
    }

    /// Content is the UTF-8 octets of the characters, as for UTF8String.
    open spec fn content_of(m: Seq<char>) -> Seq<u8> {
        encode_utf8(m)
    }

    /// Valid UTF-8 content decodes to its characters; anything else is
    /// invalid data.
    open spec fn decoded_of(c: Seq<u8>) -> Result<Seq<char>, DerError> {
        if valid_utf8(c) {
            Ok(decode_utf8(c))
        } else {
            Err(DerError::InvalidData)
        }
    }

    fn der_universal_tag() -> (t: UniversalTag) {
        UniversalTag::T61String
    }

    fn der_content() -> (ct: ContentType) {
        ContentType::Primitive
    }

    fn der_encode_content(&self, w: &mut Vec<u8>) {
        encode_string_content(&self.0, w);
    }

    fn der_decode_content(content: &Vec<u8>) -> (r: Result<Self, DerError>) {
        match decode_string_content(content) {
            Ok(s) => Ok(T61String(s)),
            Err(e) => Err(e),
        }
    }
}

/// Asn1 String Type
///
/// Restricted character sets are not enforced, so it is the caller's job to
/// check whether string contents are legal for this specific string type.
#[derive(Debug)]
pub struct VideotexString(String);

impl DeepView for VideotexString {
    type V = Seq<char>;

    closed spec fn deep_view(&self) -> Seq<char> {
        self.0@
    }
}

impl From<String> for VideotexString {
    /// Wrap a string, keeping its characters.
    fn from(s: String) -> (r: VideotexString)
        ensures
            r.deep_view() == s@,
    {
        VideotexString(s)
    }
}

impl vstd::std_specs::convert::FromSpecImpl<String> for VideotexString {
    closed spec fn obeys_from_spec() -> bool {
        true
    }

    closed spec fn from_spec(s: String) -> VideotexString {
        VideotexString(s)
    }
}

impl From<VideotexString> for String {
    /// Unwrap the string, keeping its characters.
    fn from(v: VideotexString) -> (r: String)
        ensures
            r@ == v.deep_view(),
    {
        v.0
    }
}

impl vstd::std_specs::convert::FromSpecImpl<VideotexString> for String {
    closed spec fn obeys_from_spec() -> bool {
        true
    }

    closed spec fn from_spec(v: VideotexString) -> String {
        v.0
    }
}

impl DER for VideotexString {
    open spec fn spec_universal_tag() -> UniversalTag {
        UniversalTag::VideotexString
    }

    open spec fn spec_content_type() -> ContentType {
        ContentType::Primitive
    }

    /// Content is the UTF-8 octets of the characters, as for UTF8String.
    open spec fn content_of(m: Seq<char>) -> Seq<u8> {
        encode_utf8(m)
    }

    /// Valid UTF-8 content decodes to its characters; anything else is
    /// invalid data.
    open spec fn decoded_of(c: Seq<u8>) -> Result<Seq<char>, DerError> {
        if valid_utf8(c) {
            Ok(decode_utf8(c))
        } else {
            Err(DerError::InvalidData)
        }
    }

    fn der_universal_tag() -> (t: UniversalTag) {
        UniversalTag::VideotexString
    }

    fn der_content() -> (ct: ContentType) {
        ContentType::Primitive
    }

    fn der_encode_content(&self, w: &mut Vec<u8>) {
        encode_string_content(&self.0, w);
    }

    fn der_decode_content(content: &Vec<u8>) -> (r: Result<Self, DerError>) {
        match decode_string_content(content) {
            Ok(s) => Ok(VideotexString(s)),
            Err(e) => Err(e),
        }
    }
}

/// Asn1 String Type
///
/// Restricted character sets are not enforced, so it is the caller's job to
/// check whether string contents are legal for this specific string type.
#[derive(Debug)]
pub struct IA5String(String);

impl DeepView for IA5String {
    type V = Seq<char>;

    closed spec fn deep_view(&self) -> Seq<char> {
        self.0@
    }
}

impl From<String> for IA5String {
    /// Wrap a string, keeping its characters.
    fn from(s: String) -> (r: IA5String)
        ensures
            r.deep_view() == s@,
    {
        IA5String(s)
    }
}

impl vstd::std_specs::convert::FromSpecImpl<String> for IA5String {
    closed spec fn obeys_from_spec() -> bool {
        true
    }

    closed spec fn from_spec(s: String) -> IA5String {
        IA5String(s)
    }
}

impl From<IA5String> for String {
    /// Unwrap the string, keeping its characters.
    fn from(v: IA5String) -> (r: String)
        ensures
            r@ == v.deep_view(),
    {
        v.0
    }
}

impl vstd::std_specs::convert::FromSpecImpl<IA5String> for String {
    closed spec fn obeys_from_spec() -> bool {
        true
    }

    closed spec fn from_spec(v: IA5String) -> String {
        v.0
    }
}

impl DER for IA5String {
    open spec fn spec_universal_tag() -> UniversalTag {
        UniversalTag::IA5String
    }

    open spec fn spec_content_type() -> ContentType {
        ContentType::Primitive
    }

    /// Content is the UTF-8 octets of the characters, as for UTF8String.
    open spec fn content_of(m: Seq<char>) -> Seq<u8> {
        encode_utf8(m)
    }

    /// Valid UTF-8 content decodes to its characters; anything else is
    /// invalid data.
    open spec fn decoded_of(c: Seq<u8>) -> Result<Seq<char>, DerError> {
        if valid_utf8(c) {
            Ok(decode_utf8(c))
        } else {
            Err(DerError::InvalidData)
        }
    }

    fn der_universal_tag() -> (t: UniversalTag) {
        UniversalTag::IA5String
    }

    fn der_content() -> (ct: ContentType) {
        ContentType::Primitive
    }

    fn der_encode_content(&self, w: &mut Vec<u8>) {
        encode_string_content(&self.0, w);
    }

    fn der_decode_content(content: &Vec<u8>) -> (r: Result<Self, DerError>) {
        match decode_string_content(content) {
            Ok(s) => Ok(IA5String(s)),
            Err(e) => Err(e),
        }
    }
}

/// Asn1 String Type
///
/// Restricted character sets are not enforced, so it is the caller's job to
/// check whether string contents are legal for this specific string type.
#[derive(Debug)]
pub struct GraphicString(String);

impl DeepView for GraphicString {
    type V = Seq<char>;

    closed spec fn deep_view(&self) -> Seq<char> {
        self.0@
    }
}

impl From<String> for GraphicString {
    /// Wrap a string, keeping its characters.
    fn from(s: String) -> (r: GraphicString)
        ensures
            r.deep_view() == s@,
    {
        GraphicString(s)
    }
}

impl vstd::std_specs::convert::FromSpecImpl<String> for GraphicString {
    closed spec fn obeys_from_spec() -> bool {
        true
    }

    closed spec fn from_spec(s: String) -> GraphicString {
        GraphicString(s)
    }
}

impl From<GraphicString> for String {
    /// Unwrap the string, keeping its characters.
    fn from(v: GraphicString) -> (r: String)
        ensures
            r@ == v.deep_view(),
    {
        v.0
    }
}

impl vstd::std_specs::convert::FromSpecImpl<GraphicString> for String {
    closed spec fn obeys_from_spec() -> bool {
        true
    }

    closed spec fn from_spec(v: GraphicString) -> String {
        v.0
    }
}

impl DER for GraphicString {
    open spec fn spec_universal_tag() -> UniversalTag {
        UniversalTag::GraphicString
    }

    open spec fn spec_content_type() -> ContentType {
        ContentType::Primitive
    }

    /// Content is the UTF-8 octets of the characters, as for UTF8String.
    open spec fn content_of(m: Seq<char>) -> Seq<u8> {
        encode_utf8(m)
    }

    /// Valid UTF-8 content decodes to its characters; anything else is
    /// invalid data.
    open spec fn decoded_of(c: Seq<u8>) -> Result<Seq<char>, DerError> {
        if valid_utf8(c) {
            Ok(decode_utf8(c))
        } else {
            Err(DerError::InvalidData)
        }
    }

    fn der_universal_tag() -> (t: UniversalTag) {
        UniversalTag::GraphicString
    }

    fn der_content() -> (ct: ContentType) {
        ContentType::Primitive
    }

    fn der_encode_content(&self, w: &mut Vec<u8>) {
        encode_string_content(&self.0, w);
    }

    fn der_decode_content(content: &Vec<u8>) -> (r: Result<Self, DerError>) {
        match decode_string_content(content) {
            Ok(s) => Ok(GraphicString(s)),
            Err(e) => Err(e),
        }
    }
}

/// Asn1 String Type
///
/// Restricted character sets are not enforced, so it is the caller's job to
/// check whether string contents are legal for this specific string type.
#[derive(Debug)]
pub struct VisibleString(String);

impl DeepView for VisibleString {
    type V = Seq<char>;

    closed spec fn deep_view(&self) -> Seq<char> {
        self.0@
    }
}

impl From<String> for VisibleString {
    /// Wrap a string, keeping its characters.
    fn from(s: String) -> (r: VisibleString)
        ensures
            r.deep_view() == s@,
    {
        VisibleString(s)
    }
}

impl vstd::std_specs::convert::FromSpecImpl<String> for VisibleString {
    closed spec fn obeys_from_spec() -> bool {
        true
    }

    closed spec fn from_spec(s: String) -> VisibleString {
        VisibleString(s)
    }
}

impl From<VisibleString> for String {
    /// Unwrap the string, keeping its characters.
    fn from(v: VisibleString) -> (r: String)
        ensures
            r@ == v.deep_view(),
    {
        v.0
    }
}

impl vstd::std_specs::convert::FromSpecImpl<VisibleString> for String {
    closed spec fn obeys_from_spec() -> bool {
        true
    }

    closed spec fn from_spec(v: VisibleString) -> String {
        v.0
    }
}

impl DER for VisibleString {
    open spec fn spec_universal_tag() -> UniversalTag {
        UniversalTag::VisibleString
    }

    open spec fn spec_content_type() -> ContentType {
        ContentType::Primitive
    }

    /// Content is the UTF-8 octets of the characters, as for UTF8String.
    open spec fn content_of(m: Seq<char>) -> Seq<u8> {
        encode_utf8(m)
    }

    /// Valid UTF-8 content decodes to its characters; anything else is
    /// invalid data.
    open spec fn decoded_of(c: Seq<u8>) -> Result<Seq<char>, DerError> {
        if valid_utf8(c) {
            Ok(decode_utf8(c))
        } else {
            Err(DerError::InvalidData)
        }
    }

    fn der_universal_tag() -> (t: UniversalTag) {
        UniversalTag::VisibleString
    }

    fn der_content() -> (ct: ContentType) {
        ContentType::Primitive
    }

    fn der_encode_content(&self, w: &mut Vec<u8>) {
        encode_string_content(&self.0, w);
    }

    fn der_decode_content(content: &Vec<u8>) -> (r: Result<Self, DerError>) {
        match decode_string_content(content) {
            Ok(s) => Ok(VisibleString(s)),
            Err(e) => Err(e),
        }
    }
}

/// Asn1 String Type
///
/// Restricted character sets are not enforced, so it is the caller's job to
/// check whether string contents are legal for this specific string type.
#[derive(Debug)]
pub struct GeneralString(String);

impl DeepView for GeneralString {
    type V = Seq<char>;

    closed spec fn deep_view(&self) -> Seq<char> {
        self.0@
    }
}

impl From<String> for GeneralString {
    /// Wrap a string, keeping its characters.
    fn from(s: String) -> (r: GeneralString)
        ensures
            r.deep_view() == s@,
    {
        GeneralString(s)
    }
}

impl vstd::std_specs::convert::FromSpecImpl<String> for GeneralString {
    closed spec fn obeys_from_spec() -> bool {
        true
    }

    closed spec fn from_spec(s: String) -> GeneralString {
        GeneralString(s)
    }
}

impl From<GeneralString> for String {
    /// Unwrap the string, keeping its characters.
    fn from(v: GeneralString) -> (r: String)
        ensures
            r@ == v.deep_view(),
    {
        v.0
    }
}

impl vstd::std_specs::convert::FromSpecImpl<GeneralString> for String {
    closed spec fn obeys_from_spec() -> bool {
        true
    }

    closed spec fn from_spec(v: GeneralString) -> String {
        v.0
    }
}

impl DER for GeneralString {
    open spec fn spec_universal_tag() -> UniversalTag {
        UniversalTag::GeneralString
    }

    open spec fn spec_content_type() -> ContentType {
        ContentType::Primitive
    }

    /// Content is the UTF-8 octets of the characters, as for UTF8String.
    open spec fn content_of(m: Seq<char>) -> Seq<u8> {
        encode_utf8(m)
    }

    /// Valid UTF-8 content decodes to its characters; anything else is
    /// invalid data.
    open spec fn decoded_of(c: Seq<u8>) -> Result<Seq<char>, DerError> {
        if valid_utf8(c) {
            Ok(decode_utf8(c))
        } else {
            Err(DerError::InvalidData)
        }
    }

    fn der_universal_tag() -> (t: UniversalTag) {
        UniversalTag::GeneralString
    }

    fn der_content() -> (ct: ContentType) {
        ContentType::Primitive
    }

    fn der_encode_content(&self, w: &mut Vec<u8>) {
        encode_string_content(&self.0, w);
    }

    fn der_decode_content(content: &Vec<u8>) -> (r: Result<Self, DerError>) {
        match decode_string_content(content) {
            Ok(s) => Ok(GeneralString(s)),
            Err(e) => Err(e),
        }
    }
}

/// Asn1 String Type
///
/// Restricted character sets are not enforced, so it is the caller's job to
/// check whether string contents are legal for this specific string type.
#[derive(Debug)]
pub struct UniversalString(String);

impl DeepView for UniversalString {
    type V = Seq<char>;

    closed spec fn deep_view(&self) -> Seq<char> {
        self.0@
    }
}

impl From<String> for UniversalString {
    /// Wrap a string, keeping its characters.
    fn from(s: String) -> (r: UniversalString)
        ensures
            r.deep_view() == s@,
    {
        UniversalString(s)
    }
}

impl vstd::std_specs::convert::FromSpecImpl<String> for UniversalString {
    closed spec fn obeys_from_spec() -> bool {
        true
    }

    closed spec fn from_spec(s: String) -> UniversalString {
        UniversalString(s)
    }
}

impl From<UniversalString> for String {
    /// Unwrap the string, keeping its characters.
    fn from(v: UniversalString) -> (r: String)
        ensures
            r@ == v.deep_view(),
    {
        v.0
    }
}

impl vstd::std_specs::convert::FromSpecImpl<UniversalString> for String {
    closed spec fn obeys_from_spec() -> bool {
        true
    }

    closed spec fn from_spec(v: UniversalString) -> String {
        v.0
    }
}

impl DER for UniversalString {
    open spec fn spec_universal_tag() -> UniversalTag {
        UniversalTag::UniversalString
    }

    open spec fn spec_content_type() -> ContentType {
        ContentType::Primitive
    }

    /// Content is the UTF-8 octets of the characters, as for UTF8String.
    open spec fn content_of(m: Seq<char>) -> Seq<u8> {
        encode_utf8(m)
    }

    /// Valid UTF-8 content decodes to its characters; anything else is
    /// invalid data.
    open spec fn decoded_of(c: Seq<u8>) -> Result<Seq<char>, DerError> {
        if valid_utf8(c) {
            Ok(decode_utf8(c))
        } else {
            Err(DerError::InvalidData)
        }
    }

    fn der_universal_tag() -> (t: UniversalTag) {
        UniversalTag::UniversalString
    }

    fn der_content() -> (ct: ContentType) {
        ContentType::Primitive
    }

    fn der_encode_content(&self, w: &mut Vec<u8>) {
        encode_string_content(&self.0, w);
    }

    fn der_decode_content(content: &Vec<u8>) -> (r: Result<Self, DerError>) {
        match decode_string_content(content) {
            Ok(s) => Ok(UniversalString(s)),
            Err(e) => Err(e),
        }
    }
}

/// Asn1 String Type
///
/// Restricted character sets are not enforced, so it is the caller's job to
/// check whether string contents are legal for this specific string type.
#[derive(Debug)]
pub struct CharacterString(String);

impl DeepView for CharacterString {
    type V = Seq<char>;

    closed spec fn deep_view(&self) -> Seq<char> {
        self.0@
    }
}

impl From<String> for CharacterString {
    /// Wrap a string, keeping its characters.
    fn from(s: String) -> (r: CharacterString)
        ensures
            r.deep_view() == s@,
    {
        CharacterString(s)
    }
}

impl vstd::std_specs::convert::FromSpecImpl<String> for CharacterString {
    closed spec fn obeys_from_spec() -> bool {
        true
    }

    closed spec fn from_spec(s: String) -> CharacterString {
        CharacterString(s)
    }
}

impl From<CharacterString> for String {
    /// Unwrap the string, keeping its characters.
    fn from(v: CharacterString) -> (r: String)
        ensures
            r@ == v.deep_view(),
    {
        v.0
    }
}

impl vstd::std_specs::convert::FromSpecImpl<CharacterString> for String {
    closed spec fn obeys_from_spec() -> bool {
        true
    }

    closed spec fn from_spec(v: CharacterString) -> String {
        v.0
    }
}

impl DER for CharacterString {
    open spec fn spec_universal_tag() -> UniversalTag {
        UniversalTag::CharacterString
    }

    open spec fn spec_content_type() -> ContentType {
        ContentType::Primitive
    }

    /// Content is the UTF-8 octets of the characters, as for UTF8String.
    open spec fn content_of(m: Seq<char>) -> Seq<u8> {
        encode_utf8(m)
    }

    /// Valid UTF-8 content decodes to its characters; anything else is
    /// invalid data.
    open spec fn decoded_of(c: Seq<u8>) -> Result<Seq<char>, DerError> {
        if valid_utf8(c) {
            Ok(decode_utf8(c))
        } else {
            Err(DerError::InvalidData)
        }
    }

    fn der_universal_tag() -> (t: UniversalTag) {
        UniversalTag::CharacterString
    }

    fn der_content() -> (ct: ContentType) {
        ContentType::Primitive
    }

    fn der_encode_content(&self, w: &mut Vec<u8>) {
        encode_string_content(&self.0, w);
    }

    fn der_decode_content(content: &Vec<u8>) -> (r: Result<Self, DerError>) {
        match decode_string_content(content) {
            Ok(s) => Ok(CharacterString(s)),
            Err(e) => Err(e),
        }
    }
}

} // verus!
