use vstd::prelude::*;

use vstd::arithmetic::div_mod::{
    lemma_breakdown, lemma_div_basics, lemma_div_denominator, lemma_fundamental_div_mod_converse,
    lemma_small_mod,
};

use crate::der::DER;
use crate::error::DerError;
use crate::ident::{ContentType, UniversalTag};
use crate::length::{lemma_be_value_lt, lemma_pow256_values, pow256, spec_be_value};

verus! {

/// The value of an i32 read as an unsigned 32-bit word: its two's-complement
/// bit pattern.
pub open spec fn spec_unsigned32(m: i32) -> nat {
    if m >= 0 {
        m as nat
    } else {
        (m + 0x1_0000_0000) as nat
    }
}

/// How many content octets the minimal two's-complement encoding of m needs:
/// the least k with -pow256(k)/2 <= m < pow256(k)/2.
pub open spec fn spec_integer_len(m: i32) -> nat {
    if -0x80 <= m < 0x80 {
        1
    } else if -0x8000 <= m < 0x8000 {
        2
    } else if -0x80_0000 <= m < 0x80_0000 {
        3
    } else {
        4
    }
}

/// The low k big-endian base-256 digits of u.
pub open spec fn spec_integer_digits(u: nat, k: nat) -> Seq<u8> {
    Seq::new(k, |i: int| ((u / pow256((k - 1 - i) as nat)) % 256) as u8)
}

/// The minimal two's-complement big-endian content octets of m.
pub open spec fn spec_integer_content(m: i32) -> Seq<u8> {
    spec_integer_digits(spec_unsigned32(m), spec_integer_len(m))
}

/// The signed value content octets hold: their unsigned big-endian value,
/// sign-extended from the top bit of the first octet.
pub open spec fn spec_integer_value(c: Seq<u8>) -> int
    recommends
        c.len() >= 1,
{
    if c.len() >= 1 && c[0] >= 128 {
        spec_be_value(c) - pow256(c.len())
    } else {
        spec_be_value(c) as int
    }
}

/// A big-endian value splits into its first digit and the value of the rest.
pub proof fn lemma_be_value_first(c: Seq<u8>)
    requires
        c.len() >= 1,
    ensures
        spec_be_value(c) == (c[0] as nat) * pow256((c.len() - 1) as nat) + spec_be_value(c.skip(1)),
        spec_be_value(c.skip(1)) < pow256((c.len() - 1) as nat),
    decreases c.len(),
{
    lemma_be_value_lt(c.skip(1));
    if c.len() == 1 {
        assert(c.skip(1) =~= Seq::<u8>::empty());
        assert(c.drop_last() =~= Seq::<u8>::empty());
        assert(c.last() == c[0]);
        assert((c[0] as nat) * pow256(0) == c[0] as nat) by (nonlinear_arith)
            requires
                pow256(0) == 1,
        ;
    } else {
        let dl = c.drop_last();
        lemma_be_value_first(dl);
        assert(dl[0] == c[0]);
        assert(dl.skip(1) =~= c.skip(1).drop_last());
        let p2 = pow256((c.len() - 2) as nat);
        let p1 = pow256((c.len() - 1) as nat);
        assert(p1 == 256 * p2);
        assert(spec_be_value(c) == spec_be_value(dl) * 256 + c.last());
        assert(spec_be_value(c.skip(1)) == spec_be_value(c.skip(1).drop_last()) * 256
            + c.skip(1).last());
        assert(c.skip(1).last() == c.last());
        assert(((c[0] as nat) * p2 + spec_be_value(dl.skip(1))) * 256 + (c.last() as nat) == (
        c[0] as nat) * (256 * p2) + (spec_be_value(dl.skip(1)) * 256 + (c.last() as nat)))
            by (nonlinear_arith)
        ;
    }
}

/// The k digits of u have the value u modulo pow256(k), and open with the
/// digit of weight pow256(k - 1).
pub proof fn lemma_integer_digits_value(u: nat, k: nat)
    requires
        k >= 1,
    ensures
        spec_integer_digits(u, k).len() == k,
        spec_be_value(spec_integer_digits(u, k)) == u % pow256(k),
        spec_integer_digits(u, k)[0] == ((u / pow256((k - 1) as nat)) % 256) as u8,
    decreases k,
{
    let c = spec_integer_digits(u, k);
    crate::length::lemma_pow256_pos(k);
    crate::length::lemma_pow256_pos((k - 1) as nat);
    if k == 1 {
        assert(c.drop_last() =~= Seq::<u8>::empty());
        lemma_div_basics(u as int);
        assert(pow256(0) == 1);
        assert(c[0] == (u % 256) as u8);
        assert(c.last() == c[0]);
        assert(spec_be_value(Seq::<u8>::empty()) == 0);
        assert(spec_be_value(c) == spec_be_value(c.drop_last()) * 256 + c.last() as nat);
        assert(spec_be_value(c) == (u % 256) as nat);
        assert(pow256(1) == 256);
    } else {
        let c2 = spec_integer_digits(u / 256, (k - 1) as nat);
        assert forall|i: int| 0 <= i < k - 1 implies c[i] == c2[i] by {
            let j = (k - 1 - i) as nat;
            assert(j >= 1);
            crate::length::lemma_pow256_pos((j - 1) as nat);
            lemma_div_denominator(u as int, 256, pow256((j - 1) as nat) as int);
            assert(pow256(j) == 256 * pow256((j - 1) as nat));
        }
        assert(c.drop_last() =~= c2);
        lemma_integer_digits_value(u / 256, (k - 1) as nat);
        assert(c.last() == (u % 256) as u8) by {
            lemma_div_basics(u as int);
            assert(pow256(0) == 1);
        }
        lemma_breakdown(u as int, 256, pow256((k - 1) as nat) as int);
        assert(pow256(k) == 256 * pow256((k - 1) as nat));
        assert(spec_be_value(c) == ((u / 256) % pow256((k - 1) as nat)) * 256 + u % 256);
        assert(((u / 256) % pow256((k - 1) as nat)) * 256 == 256 * ((u / 256) % pow256(
            (k - 1) as nat,
        ))) by (nonlinear_arith);
    }
}

/// The minimal encoding of m decodes back to m.
pub proof fn lemma_integer_content_value(m: i32)
    ensures
        1 <= spec_integer_content(m).len() <= 4,
        spec_integer_value(spec_integer_content(m)) == m as int,
{
    lemma_pow256_values();
    let u = spec_unsigned32(m);
    let k = spec_integer_len(m);
    let p = pow256((k - 1) as nat);
    let c = spec_integer_content(m);
    lemma_integer_digits_value(u, k);
    assert(pow256(k) == 256 * p);
    assert((m as int) < 128 * (p as int) && -128 * (p as int) <= m as int);
    if m >= 0 {
        assert(u < pow256(k));
        lemma_small_mod(u, pow256(k));
        assert(spec_be_value(c) == u);
        assert(u / p < 128) by (nonlinear_arith)
            requires
                u < 128 * p,
                p >= 1,
        ;
        lemma_small_mod(u / p, 256);
        assert(c[0] < 128);
        assert(spec_integer_value(c) == u);
    } else {
        // u == 2^32 + m, and pow256(k) divides 2^32, so u mod pow256(k) is
        // m + pow256(k).
        let q = pow256((4 - k) as nat);
        assert(pow256(4) == pow256(k) * q) by {
            lemma_pow256_adds(k, (4 - k) as nat);
        }
        assert(u as int == (pow256(k) as int) * ((q - 1) as int) + (m + pow256(k)))
            by (nonlinear_arith)
            requires
                u == m + 0x1_0000_0000,
                pow256(4) == pow256(k) * q,
                pow256(4) == 0x1_0000_0000,
        ;
        assert(0 <= m + pow256(k) < pow256(k));
        lemma_fundamental_div_mod_converse(
            u as int,
            pow256(k) as int,
            (q - 1) as int,
            m + pow256(k),
        );
        assert(u % pow256(k) == m + pow256(k));
        assert(spec_be_value(c) == m + pow256(k));
        // the leading digit carries the sign bit
        lemma_breakdown(u as int, p as int, 256);
        assert((p as int) * 256 == pow256(k));
        assert((u as int) % (pow256(k) as int) == (p as int) * (((u as int) / (p as int)) % 256) + (u as int) % (p as int));
        let d0 = ((u as int) / (p as int)) % 256;
        assert(u % p < p) by {
            lemma_small_mod(0, p);
            assert(p > 0);
        }
        assert(d0 >= 128) by (nonlinear_arith)
            requires
                (p as int) * d0 + (u as int) % (p as int) == m + 256 * (p as int),
                (u as int) % (p as int) < p,
                0 <= (u as int) % (p as int),
                m >= -128 * (p as int),
                p >= 1,
                0 <= d0 < 256,
        ;
        assert(c[0] == d0 as u8);
        assert(c[0] >= 128);
        assert(spec_integer_value(c) == spec_be_value(c) - pow256(k));
    }
}

/// pow256 of a sum is the product of the pow256 values.
pub proof fn lemma_pow256_adds(a: nat, b: nat)
    ensures
        pow256(a + b) == pow256(a) * pow256(b),
    decreases a,
{
    if a == 0 {
        assert(pow256(0) == 1);
        assert(pow256(b) == 1 * pow256(b)) by (nonlinear_arith);
    } else {
        lemma_pow256_adds((a - 1) as nat, b);
        assert(pow256(a + b) == 256 * pow256((a - 1) as nat + b));
        assert(256 * (pow256((a - 1) as nat) * pow256(b)) == (256 * pow256((a - 1) as nat))
            * pow256(b)) by (nonlinear_arith);
    }
}

/// The signed value of k content octets lies within the k-octet
/// two's-complement range, on the side its top bit names.
pub proof fn lemma_integer_value_bounds(c: Seq<u8>)
    requires
        c.len() >= 1,
    ensures
        c[0] >= 128 ==> -128 * (pow256((c.len() - 1) as nat) as int) <= spec_integer_value(c) < 0,
        c[0] < 128 ==> 0 <= spec_integer_value(c) < 128 * (pow256((c.len() - 1) as nat) as int),
{
    let p = pow256((c.len() - 1) as nat);
    lemma_be_value_first(c);
    lemma_be_value_lt(c);
    assert(pow256(c.len()) == 256 * p);
    if c[0] >= 128 {
        assert((c[0] as nat) * p >= 128 * p) by (nonlinear_arith)
            requires
                c[0] >= 128,
                p >= 0,
        ;
        assert(spec_be_value(c) < 256 * p);
    } else {
        assert((c[0] as nat) * p + spec_be_value(c.skip(1)) < 128 * p) by (nonlinear_arith)
            requires
                c[0] < 128,
                spec_be_value(c.skip(1)) < p,
                p >= 0,
        ;
    }
}

/// Law: the INTEGER content encoding is minimal — no content octets that
/// decode to the same value under two's-complement sign extension are
/// shorter.
pub proof fn lemma_integer_encoding_minimal(m: i32, c: Seq<u8>)
    requires
        c.len() >= 1,
        spec_integer_value(c) == m as int,
    ensures
        spec_integer_content(m).len() <= c.len(),
{
    lemma_pow256_values();
    assert(spec_integer_content(m).len() == spec_integer_len(m));
    if c.len() < 4 {
        lemma_integer_value_bounds(c);
    }
}

impl DER for i32 {
    open spec fn spec_universal_tag() -> UniversalTag {
        UniversalTag::Integer
    }

    open spec fn spec_content_type() -> ContentType {
        ContentType::Primitive
    }

    /// INTEGER content is the minimal two's-complement big-endian form.
    open spec fn content_of(m: i32) -> Seq<u8> {
        spec_integer_content(m)
    }

    /// Between one and four content octets are accepted; the value is
    /// sign-extended from the top bit of the first octet.
    open spec fn decoded_of(c: Seq<u8>) -> Result<i32, DerError> {
        if c.len() == 0 {
            Err(DerError::InvalidInput)
        } else if c.len() > 4 {
            Err(DerError::InvalidInput)
        } else {
            Ok(spec_integer_value(c) as i32)
        }
    }

    fn der_universal_tag() -> (t: UniversalTag) {
        UniversalTag::Integer
    }

    fn der_content() -> (ct: ContentType) {
        ContentType::Primitive
    }

    fn der_encode_content(&self, w: &mut Vec<u8>) {
        let m = *self;
        proof {
            lemma_pow256_values();
        }
        let u: u32 = if m >= 0 {
            m as u32
        } else {
            let flipped: u32 = (-(m + 1)) as u32;
            0xFFFF_FFFFu32 - flipped
        };
        assert(u as nat == spec_unsigned32(m));
        if -128 <= m && m < 128 {
            w.push((u % 256) as u8);
        } else if -32768 <= m && m < 32768 {
            w.push(((u / 256) % 256) as u8);
            w.push((u % 256) as u8);
        } else if -8388608 <= m && m < 8388608 {
            w.push(((u / 65536) % 256) as u8);
            w.push(((u / 256) % 256) as u8);
            w.push((u % 256) as u8);
        } else {
            w.push(((u / 16777216) % 256) as u8);
            w.push(((u / 65536) % 256) as u8);
            w.push(((u / 256) % 256) as u8);
            w.push((u % 256) as u8);
        }
        proof {
            lemma_div_basics(u as int);
            assert(w@ =~= old(w)@ + spec_integer_content(m));
            lemma_integer_content_value(m);
        }
    }

    fn der_decode_content(content: &Vec<u8>) -> (r: Result<Self, DerError>) {
        let n = content.len();
        if n == 0 {
            return Err(DerError::InvalidInput);
        }
        if n > 4 {
            return Err(DerError::InvalidInput);
        }
        proof {
            lemma_pow256_values();
        }
        let mut be: u32 = 0;
        let mut i: usize = 0;
        while i < n
            invariant
                i <= n,
                n == content.len(),
                1 <= n <= 4,
                be as nat == spec_be_value(content@.subrange(0, i as int)),
                (be as nat) < pow256(i as nat),
                pow256(1) == 0x100,
                pow256(2) == 0x1_0000,
                pow256(3) == 0x100_0000,
                pow256(4) == 0x1_0000_0000,
            decreases n - i,
        {
            let ghost prefix = content@.subrange(0, i as int);
            let b = content[i];
            proof {
                assert(pow256((i + 1) as nat) == 256 * pow256(i as nat));
                assert(((be as nat) * 256 + b) < pow256((i + 1) as nat)) by (nonlinear_arith)
                    requires
                        (be as nat) < pow256(i as nat),
                        b < 256,
                        pow256((i + 1) as nat) == 256 * pow256(i as nat),
                ;
                assert(pow256((i + 1) as nat) <= pow256(4)) by {
                    crate::length::lemma_pow256_le((i + 1) as nat, 4);
                }
                let next = content@.subrange(0, (i + 1) as int);
                assert(next.drop_last() =~= prefix);
                assert(next.last() == b);
            }
            be = be * 256 + (b as u32);
            i = i + 1;
        }
        assert(content@.subrange(0, n as int) =~= content@);
        let b0 = content[0];
        let neg = b0 >= 128;
        proof {
            lemma_be_value_first(content@);
            lemma_integer_value_bounds(content@);
        }
        let ext: u32 = if !neg {
            0
        } else if n == 1 {
            0xFFFF_FF00
        } else if n == 2 {
            0xFFFF_0000
        } else if n == 3 {
            0xFF00_0000
        } else {
            0
        };
        assert(ext as nat == if neg {
            (pow256(4) - pow256(n as nat)) as nat
        } else {
            0
        });
        let acc: u32 = be + ext;
        let r: i32 = if acc >= 0x8000_0000 {
            ((acc - 0x8000_0000) as i32) + i32::MIN
        } else {
            acc as i32
        };
        assert(r as int == spec_integer_value(content@)) by {
            if neg {
                assert((content@[0] as nat) * pow256((n - 1) as nat) >= 128 * pow256(
                    (n - 1) as nat,
                )) by (nonlinear_arith)
                    requires
                        content@[0] >= 128,
                        pow256((n - 1) as nat) >= 0,
                ;
                assert(128 * pow256((n - 1) as nat) <= 128 * pow256(3)) by {
                    crate::length::lemma_pow256_le((n - 1) as nat, 3);
                }
            } else {
                assert(128 * pow256((n - 1) as nat) <= 128 * pow256(3)) by {
                    crate::length::lemma_pow256_le((n - 1) as nat, 3);
                }
            }
        };
        Ok(r)
    }
}

} // verus!
