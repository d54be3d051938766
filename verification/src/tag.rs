use vstd::prelude::*;

use crate::error::DerError;
use crate::ident::{
    class_number, class_of, content_type_number, content_type_of, spec_class_number, spec_class_of,
    spec_content_type_number, spec_content_type_of, Class, ContentType,
};

verus! {

/// 128 raised to the power k: the number of values k base-128 groups can
/// hold.
pub open spec fn pow128(k: nat) -> nat
    decreases k,
{
    if k == 0 {
        1
    } else {
        128 * pow128((k - 1) as nat)
    }
}

/// How many base-128 groups the number t fills: none for t == 0.
pub open spec fn spec_groups(t: nat) -> nat
    decreases t,
{
    if t == 0 {
        0
    } else {
        1 + spec_groups(t / 128)
    }
}

/// The minimal big-endian base-128 groups of t, each with the continuation
/// bit set: what precedes the closing group of a high-form tag number.
pub open spec fn spec_base128_prefix(t: nat) -> Seq<u8>
    decreases t,
{
    if t == 0 {
        Seq::empty()
    } else {
        spec_base128_prefix(t / 128) + seq![(t % 128 + 128) as u8]
    }
}

/// The first identifier octet: class bits, the primitive/constructed bit and
/// the low five tag bits.
pub open spec fn spec_first_octet(tag_low: nat, class: Class, ct: ContentType) -> u8 {
    (spec_class_number(class) * 64 + spec_content_type_number(ct) * 32 + tag_low) as u8
}

/// The DER identifier octets of a tag: one octet for tag numbers below 31,
/// otherwise the low-form octet with all five tag bits set followed by the
/// tag number in base 128, big-endian, continuation bit set on every group
/// but the last.
pub open spec fn spec_tag_bytes(tag: nat, class: Class, ct: ContentType) -> Seq<u8> {
    if tag < 31 {
        seq![spec_first_octet(tag, class, ct)]
    } else {
        seq![spec_first_octet(31, class, ct)] + spec_base128_prefix(tag / 128) + seq![
            (tag % 128) as u8,
        ]
    }
}

/// What reading the continuation-terminated base-128 groups from the front of
/// s yields, with acc the value of the count groups already read: the number
/// of octets read and the tag number, or the error.  A run that would fill
/// more than four groups cannot fit the tag word and is rejected, as is one
/// cut short by the end of the input.
pub open spec fn spec_parse_high_tag(s: Seq<u8>, acc: nat, count: nat) -> Result<
    (int, nat),
    DerError,
>
    decreases s.len(),
{
    if s.len() == 0 {
        Err(DerError::InvalidInput)
    } else if count >= 4 {
        Err(DerError::InvalidInput)
    } else if s[0] >= 128 {
        match spec_parse_high_tag(s.skip(1), acc * 128 + (s[0] - 128) as nat, count + 1) {
            Ok((n, t)) => Ok((n + 1, t)),
            Err(e) => Err(e),
        }
    } else {
        Ok((1, acc * 128 + s[0] as nat))
    }
}

/// What decoding identifier octets from the front of s yields: the count of
/// octets read, the tag number, the class and the content type, or the error.
pub open spec fn spec_parse_tag(s: Seq<u8>) -> Result<(int, nat, Class, ContentType), DerError> {
    if s.len() == 0 {
        Err(DerError::UnexpectedEof)
    } else {
        let first = s[0];
        let class = spec_class_of((first / 64) as u8);
        let ct = spec_content_type_of(((first / 32) % 2) as u8);
        let low = (first % 32) as nat;
        if low != 31 {
            Ok((1, low, class, ct))
        } else {
            match spec_parse_high_tag(s.skip(1), 0, 0) {
                Ok((n, t)) => Ok((n + 1, t, class, ct)),
                Err(e) => Err(e),
            }
        }
    }
}

/// pow128 never vanishes.
pub proof fn lemma_pow128_pos(k: nat)
    ensures
        pow128(k) >= 1,
    decreases k,
{
    if k > 0 {
        lemma_pow128_pos((k - 1) as nat);
    }
}

/// The powers of 128 up to a full tag word, written out.
pub proof fn lemma_pow128_values()
    ensures
        pow128(0) == 1,
        pow128(1) == 0x80,
        pow128(2) == 0x4000,
        pow128(3) == 0x20_0000,
        pow128(4) == 0x1000_0000,
{
    assert(pow128(1) == 128 * pow128(0));
    assert(pow128(2) == 128 * pow128(1));
    assert(pow128(3) == 128 * pow128(2));
    assert(pow128(4) == 128 * pow128(3));
}

/// A number below pow128(k) fills at most k groups.
pub proof fn lemma_groups_le(t: nat, k: nat)
    requires
        t < pow128(k),
    ensures
        spec_groups(t) <= k,
    decreases k,
{
    if t > 0 {
        assert(k > 0);
        assert(t / 128 < pow128((k - 1) as nat)) by (nonlinear_arith)
            requires
                t < 128 * pow128((k - 1) as nat),
        ;
        lemma_groups_le(t / 128, (k - 1) as nat);
    }
}

/// spec_groups counts the groups of spec_base128_prefix.
pub proof fn lemma_prefix_len(t: nat)
    ensures
        spec_base128_prefix(t).len() == spec_groups(t),
    decreases t,
{
    if t > 0 {
        lemma_prefix_len(t / 128);
    }
}

/// Reading the continuation groups of x advances the parse by the groups of x
/// and folds x into the accumulator.
proof fn lemma_parse_prefix(x: nat, acc: nat, count: nat, tail: Seq<u8>)
    requires
        count + spec_groups(x) <= 4,
    ensures
        ({
            let l = spec_parse_high_tag(spec_base128_prefix(x) + tail, acc, count);
            let r = spec_parse_high_tag(
                tail,
                acc * pow128(spec_groups(x)) + x,
                count + spec_groups(x),
            );
            match r {
                Ok((n, t)) => l == Ok::<(int, nat), DerError>((n + spec_groups(x), t)),
                Err(e) => l == Err::<(int, nat), DerError>(e),
            }
        }),
    decreases x,
{
    if x == 0 {
        assert(spec_base128_prefix(0) + tail =~= tail);
        assert(pow128(0) == 1);
        assert(acc * pow128(0) == acc) by (nonlinear_arith)
            requires
                pow128(0) == 1,
        ;
    } else {
        let g1 = spec_groups(x / 128);
        let byte = (x % 128 + 128) as u8;
        let s1 = seq![byte] + tail;
        assert(spec_base128_prefix(x) + tail =~= spec_base128_prefix(x / 128) + s1);
        lemma_parse_prefix(x / 128, acc, count, s1);
        let acc1 = acc * pow128(g1) + x / 128;
        let count1 = count + g1;
        assert(s1[0] == byte);
        assert(byte >= 128);
        assert(count1 < 4);
        assert(s1.skip(1) =~= tail);
        assert(acc1 * 128 + ((byte - 128) as nat) == acc * pow128(spec_groups(x)) + x)
            by (nonlinear_arith)
            requires
                acc1 == acc * pow128(g1) + x / 128,
                byte == (x % 128 + 128) as u8,
                x % 128 < 128,
                x > 0,
                spec_groups(x) == g1 + 1,
                pow128(g1 + 1) == 128 * pow128(g1),
                x / 128 * 128 + x % 128 == x,
        ;
        assert(x / 128 * 128 + x % 128 == x) by (nonlinear_arith);
        assert(pow128(g1 + 1) == 128 * pow128(g1));
    }
}

/// Law: decoding the encoding of any tag number below 2^28 yields exactly
/// that tag number, class and content type, and consumes exactly the encoded
/// octets, whatever follows them.  Larger tag numbers need five base-128
/// groups, which the decoder rejects as overflowing the tag word.
pub proof fn lemma_tag_round_trip(tag: nat, class: Class, ct: ContentType, rest: Seq<u8>)
    requires
        tag < 0x1000_0000,
    ensures
        spec_parse_tag(spec_tag_bytes(tag, class, ct) + rest) == Ok::<
            (int, nat, Class, ContentType),
            DerError,
        >((spec_tag_bytes(tag, class, ct).len() as int, tag, class, ct)),
{
    let enc = spec_tag_bytes(tag, class, ct);
    let s = enc + rest;
    let c = spec_class_number(class);
    let p = spec_content_type_number(ct);
    lemma_pow128_values();
    if tag < 31 {
        let first = spec_first_octet(tag, class, ct);
        assert(s[0] == first);
        assert(first == c * 64 + p * 32 + tag);
        assert(first / 64 == c && (first / 32) % 2 == p && first % 32 == tag) by (nonlinear_arith)
            requires
                first == c * 64 + p * 32 + tag,
                c < 4,
                p < 2,
                tag < 31,
        ;
        assert(spec_class_of(c) == class);
        assert(spec_content_type_of(p) == ct);
    } else {
        let first = spec_first_octet(31, class, ct);
        assert(s[0] == first);
        assert(first == c * 64 + p * 32 + 31);
        assert(first / 64 == c && (first / 32) % 2 == p && first % 32 == 31) by (nonlinear_arith)
            requires
                first == c * 64 + p * 32 + 31,
                c < 4,
                p < 2,
        ;
        assert(spec_class_of(c) == class);
        assert(spec_content_type_of(p) == ct);
        let x = tag / 128;
        let closing = (tag % 128) as u8;
        let tail = seq![closing] + rest;
        assert(s.skip(1) =~= spec_base128_prefix(x) + tail);
        assert(x < pow128(3)) by (nonlinear_arith)
            requires
                tag < 0x1000_0000,
                x == tag / 128,
                pow128(3) == 0x20_0000,
        ;
        lemma_groups_le(x, 3);
        let g = spec_groups(x);
        lemma_parse_prefix(x, 0, 0, tail);
        assert(tail[0] == closing);
        assert(closing < 128);
        assert(tail.skip(1) =~= rest);
        assert((0 * pow128(g) + x) * 128 + (closing as nat) == tag) by (nonlinear_arith)
            requires
                x == tag / 128,
                closing == (tag % 128) as u8,
        ;
        assert(spec_parse_high_tag(tail, 0 * pow128(g) + x, 0 + g) == Ok::<(int, nat), DerError>(
            (1, tag),
        ));
        assert(spec_parse_high_tag(s.skip(1), 0, 0) == Ok::<(int, nat), DerError>((1 + g as int, tag)));
        lemma_prefix_len(x);
        assert(enc.len() == 2 + g);
    }
}

/// Append one base-128 group per recursion level, continuation bit set.
fn emit_base128_prefix(t: u32, w: &mut Vec<u8>)
    ensures
        final(w)@ == old(w)@ + spec_base128_prefix(t as nat),
    decreases t,
{
    if t > 0 {
        let m = t / 128;
        assert(m < t) by (nonlinear_arith)
            requires
                t > 0,
                m == t / 128,
        ;
        emit_base128_prefix(m, w);
        w.push((t % 128 + 128) as u8);
        assert(w@ =~= old(w)@ + spec_base128_prefix(t as nat));
    } else {
        assert(w@ =~= old(w)@ + spec_base128_prefix(0));
    }
}

/// Encode DER tag octets, appending them to the stream.
pub fn der_encode_tag_bytes(tag: u32, class: Class, content: ContentType, w: &mut Vec<u8>)
    ensures
        final(w)@ == old(w)@ + spec_tag_bytes(tag as nat, class, content),
{
    let c = class_number(class);
    let p = content_type_number(content);
    let low: u8 = if tag < 31 {
        tag as u8
    } else {
        31
    };
    let first: u8 = c * 64 + p * 32 + low;
    w.push(first);
    if tag >= 31 {
        emit_base128_prefix(tag / 128, w);
        w.push((tag % 128) as u8);
    }
    assert(w@ =~= old(w)@ + spec_tag_bytes(tag as nat, class, content));
}

/// Decode DER tag octets found at position pos of the stream.
///
/// The result is (octets read, tag, class, content type).
pub fn der_decode_tag_bytes(data: &Vec<u8>, pos: usize) -> (r: Result<
    (usize, u32, Class, ContentType),
    DerError,
>)
    requires
        pos <= data.len(),
    ensures
        ({
            let parsed = spec_parse_tag(data@.skip(pos as int));
            match r {
                Ok((n, tag, class, ct)) => parsed == Ok::<
                    (int, nat, Class, ContentType),
                    DerError,
                >((n as int, tag as nat, class, ct)),
                Err(e) => parsed == Err::<(int, nat, Class, ContentType), DerError>(e),
            }
        }),
{
    let ghost s = data@.skip(pos as int);
    if pos == data.len() {
        return Err(DerError::UnexpectedEof);
    }
    let first = data[pos];
    assert(s[0] == first);
    let class = class_of(first / 64);
    let ct = content_type_of((first / 32) % 2);
    let low = first % 32;
    if low != 31 {
        return Ok((1, low as u32, class, ct));
    }
    let ghost hs = data@.skip(pos + 1);
    assert(s.skip(1) =~= hs);
    proof {
        lemma_pow128_values();
    }
    let mut acc: u32 = 0;
    let mut count: usize = 0;
    loop
        invariant
            count <= 4,
            pos < data.len(),
            pos + 1 + count <= data.len(),
            (acc as nat) < pow128(count as nat),
            pow128(3) == 0x20_0000,
            pow128(4) == 0x1000_0000,
            s == data@.skip(pos as int),
            hs == data@.skip(pos + 1),
            s[0] == first,
            first % 32 == 31,
            class == spec_class_of((first / 64) as u8),
            ct == spec_content_type_of(((first / 32) % 2) as u8),
            s.skip(1) == hs,
            ({
                let whole = spec_parse_high_tag(hs, 0, 0);
                let here = spec_parse_high_tag(
                    data@.skip(pos + 1 + count as int),
                    acc as nat,
                    count as nat,
                );
                match here {
                    Ok((n, t)) => whole == Ok::<(int, nat), DerError>((n + count, t)),
                    Err(e) => whole == Err::<(int, nat), DerError>(e),
                }
            }),
        decreases 4 - count,
    {
        let idx = pos + 1 + count;
        let ghost cur = data@.skip(idx as int);
        if idx == data.len() {
            assert(cur.len() == 0);
            return Err(DerError::InvalidInput);
        }
        if count == 4 {
            assert(cur.len() > 0);
            return Err(DerError::InvalidInput);
        }
        let b = data[idx];
        assert(cur[0] == b);
        if b >= 128 {
            proof {
                lemma_pow128_pos(count as nat);
                assert(((acc as nat) * 128 + (b - 128) as nat) < pow128((count + 1) as nat))
                    by (nonlinear_arith)
                    requires
                        (acc as nat) < pow128(count as nat),
                        ((b - 128) as nat) < 128,
                        pow128((count + 1) as nat) == 128 * pow128(count as nat),
                ;
                assert(pow128((count + 1) as nat) <= pow128(4)) by {
                    lemma_pow128_mono((count + 1) as nat, 4);
                }
                assert(cur.skip(1) =~= data@.skip(idx + 1));
            }
            acc = acc * 128 + ((b - 128) as u32);
            count = count + 1;
        } else {
            assert(count <= 3);
            proof {
                lemma_pow128_mono(count as nat, 3);
            }
            let tag = acc * 128 + (b as u32);
            assert(spec_parse_high_tag(cur, acc as nat, count as nat) == Ok::<
                (int, nat),
                DerError,
            >((1, tag as nat)));
            return Ok((2 + count, tag, class, ct));
        }
    }
}

/// A successful high-tag parse consumes between one and all of the octets.
proof fn lemma_parse_high_tag_bounds(s: Seq<u8>, acc: nat, count: nat)
    ensures
        spec_parse_high_tag(s, acc, count) matches Ok((n, t)) ==> 1 <= n <= s.len(),
    decreases s.len(),
{
    if s.len() != 0 && count < 4 && s[0] >= 128 {
        lemma_parse_high_tag_bounds(s.skip(1), acc * 128 + (s[0] - 128) as nat, count + 1);
    }
}

/// A successful tag parse consumes between one and all of the octets.
pub proof fn lemma_parse_tag_bounds(s: Seq<u8>)
    ensures
        spec_parse_tag(s) matches Ok((n, tag, class, ct)) ==> 1 <= n <= s.len(),
{
    if s.len() > 0 {
        if (s[0] % 32) as nat == 31 {
            lemma_parse_high_tag_bounds(s.skip(1), 0, 0);
        }
    }
}

/// pow128 grows with its argument.
pub proof fn lemma_pow128_mono(j: nat, k: nat)
    requires
        j <= k,
    ensures
        pow128(j) <= pow128(k),
    decreases k,
{
    if j < k {
        lemma_pow128_mono(j, (k - 1) as nat);
        lemma_pow128_pos((k - 1) as nat);
    }
}

} // verus!
