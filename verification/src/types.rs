pub use crate::any::Any;
pub use crate::null::Null;
pub use crate::strings::{
    CharacterString, GeneralString, GraphicString, IA5String, NumericString, PrintableString,
    T61String, UniversalString, VideotexString, VisibleString,
};

use vstd::prelude::*;

verus! {

/// Asn1 UTCTime Type: present in the tag registry, without a codec yet.
#[derive(Debug)]
pub struct UTCTime;

/// Asn1 GeneralizedTime Type: present in the tag registry, without a codec
/// yet.
#[derive(Debug)]
pub struct GeneralizedTime;

} // verus!
