//! A verified codec for ASN.1 Distinguished Encoding Rules (DER).
//!
//! The library turns typed values into byte-exact DER octet sequences and
//! reconstructs typed values from octet sequences, reporting a precise error
//! for malformed input.  Encoding and decoding go through an intermediate
//! representation of one tag/length/value frame, which makes untagged,
//! implicit and explicit tagging composable.

use vstd::prelude::*;

pub use peek::Peek;

mod any;
mod boolean;
mod error;
mod ident;
mod integer;
mod null;
mod octets;
mod seq_of;
mod strings;
mod length;
mod tag;
mod intermediate;

/// The DER trait and the tag, length and intermediate codecs.
pub mod der;
/// Sample SEQUENCE, CHOICE and ENUMERATED codecs.
pub mod samples;
/// Asn1 types beyond the built-in Rust ones.
pub mod types;
/// A read adapter that can replay bytes seen during a peek phase.
pub mod peek;
