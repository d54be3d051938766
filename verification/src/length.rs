use vstd::prelude::*;

use crate::error::DerError;

verus! {

/// 256 raised to the power k: the number of values k octets can hold.
pub open spec fn pow256(k: nat) -> nat
    decreases k,
{
    if k == 0 {
        1
    } else {
        256 * pow256((k - 1) as nat)
    }
}

/// The minimal big-endian base-256 digits of n: empty for n == 0, without a
/// leading zero digit otherwise.
pub open spec fn spec_be_bytes(n: nat) -> Seq<u8>
    decreases n,
{
    if n == 0 {
        Seq::empty()
    } else {
        spec_be_bytes(n / 256) + seq![(n % 256) as u8]
    }
}

/// How many digits spec_be_bytes(n) has.
pub open spec fn spec_be_len(n: nat) -> nat
    decreases n,
{
    if n == 0 {
        0
    } else {
        1 + spec_be_len(n / 256)
    }
}

/// The value of a sequence of big-endian base-256 digits.
pub open spec fn spec_be_value(s: Seq<u8>) -> nat
    decreases s.len(),
{
    if s.len() == 0 {
        0
    } else {
        spec_be_value(s.drop_last()) * 256 + s.last() as nat
    }
}

/// The DER length octets for a content length: below 128 one octet holding
/// the length itself, otherwise a count octet 0x80 + n followed by the n
/// minimal big-endian octets of the length.
pub open spec fn spec_length_bytes(len: nat) -> Seq<u8> {
    if len < 128 {
        seq![len as u8]
    } else {
        seq![(128 + spec_be_len(len)) as u8] + spec_be_bytes(len)
    }
}

/// What decoding length octets from the front of s yields: the count of
/// octets read and the length, or the error.  The long form is rejected when
/// its octet count is zero (the indefinite form) or would hold more bits than
/// the native word.
pub open spec fn spec_parse_length(s: Seq<u8>) -> Result<(int, nat), DerError> {
    if s.len() == 0 {
        Err(DerError::UnexpectedEof)
    } else if s[0] < 128 {
        Ok((1, s[0] as nat))
    } else {
        let n = (s[0] - 128) as nat;
        if n == 0 {
            Err(DerError::InvalidInput)
        } else if 8 * n > usize::BITS as nat {
            Err(DerError::InvalidInput)
        } else if s.len() < 1 + n {
            Err(DerError::UnexpectedEof)
        } else {
            Ok((1 + n as int, spec_be_value(s.subrange(1, 1 + n as int))))
        }
    }
}

/// pow256 never vanishes.
pub proof fn lemma_pow256_pos(k: nat)
    ensures
        pow256(k) >= 1,
    decreases k,
{
    if k > 0 {
        lemma_pow256_pos((k - 1) as nat);
    }
}

/// pow256 grows with its argument.
pub proof fn lemma_pow256_le(j: nat, k: nat)
    requires
        j <= k,
    ensures
        pow256(j) <= pow256(k),
    decreases k,
{
    if j < k {
        lemma_pow256_le(j, (k - 1) as nat);
        lemma_pow256_pos((k - 1) as nat);
    }
}

/// A native word counts one less than pow256 of its octet count.
pub proof fn lemma_pow256_usize()
    ensures
        pow256((usize::BITS / 8) as nat) == usize::MAX as nat + 1,
{
    lemma_pow256_values();
}

/// The powers of 256 up to the largest native word, written out.
pub proof fn lemma_pow256_values()
    ensures
        pow256(0) == 1,
        pow256(1) == 0x100,
        pow256(2) == 0x1_0000,
        pow256(3) == 0x100_0000,
        pow256(4) == 0x1_0000_0000,
        pow256(5) == 0x100_0000_0000,
        pow256(6) == 0x1_0000_0000_0000,
        pow256(7) == 0x100_0000_0000_0000,
        pow256(8) == 0x1_0000_0000_0000_0000,
{
    assert(pow256(1) == 256 * pow256(0));
    assert(pow256(2) == 256 * pow256(1));
    assert(pow256(3) == 256 * pow256(2));
    assert(pow256(4) == 256 * pow256(3));
    assert(pow256(5) == 256 * pow256(4));
    assert(pow256(6) == 256 * pow256(5));
    assert(pow256(7) == 256 * pow256(6));
    assert(pow256(8) == 256 * pow256(7));
}

/// A value below pow256(k) has at most k digits.
pub proof fn lemma_be_len_le(n: nat, k: nat)
    requires
        n < pow256(k),
    ensures
        spec_be_len(n) <= k,
    decreases k,
{
    if n > 0 {
        assert(k > 0);
        assert(n / 256 < pow256((k - 1) as nat)) by (nonlinear_arith)
            requires
                n < 256 * pow256((k - 1) as nat),
        ;
        lemma_be_len_le(n / 256, (k - 1) as nat);
    }
}

/// k digits hold a value below pow256(k).
pub proof fn lemma_be_value_lt(s: Seq<u8>)
    ensures
        spec_be_value(s) < pow256(s.len()),
    decreases s.len(),
{
    if s.len() > 0 {
        lemma_be_value_lt(s.drop_last());
        assert(spec_be_value(s.drop_last()) * 256 + s.last() < 256 * pow256((s.len() - 1) as nat))
            by (nonlinear_arith)
            requires
                spec_be_value(s.drop_last()) < pow256((s.len() - 1) as nat),
                s.last() < 256,
        ;
    }
}

/// The digits of n have the value n.
pub proof fn lemma_be_value_of_bytes(n: nat)
    ensures
        spec_be_value(spec_be_bytes(n)) == n,
    decreases n,
{
    if n > 0 {
        lemma_be_value_of_bytes(n / 256);
        let s = spec_be_bytes(n);
        assert(s.drop_last() =~= spec_be_bytes(n / 256));
        assert(s.last() == (n % 256) as u8);
        assert((n / 256) * 256 + n % 256 == n) by (nonlinear_arith);
    }
}

/// spec_be_len counts the digits of spec_be_bytes.
pub proof fn lemma_be_bytes_len(n: nat)
    ensures
        spec_be_bytes(n).len() == spec_be_len(n),
    decreases n,
{
    if n > 0 {
        lemma_be_bytes_len(n / 256);
    }
}

/// A successful length parse consumes between one and all of the octets, and
/// the parsed length fits the native word.
pub proof fn lemma_parse_length_bounds(s: Seq<u8>)
    ensures
        spec_parse_length(s) matches Ok((n, len)) ==> 1 <= n <= s.len() && len <= usize::MAX as nat,
{
    if s.len() > 0 && s[0] >= 128 {
        let n = (s[0] - 128) as nat;
        if 1 <= n && 8 * n <= usize::BITS as nat && s.len() >= 1 + n {
            let digits = s.subrange(1, 1 + n as int);
            lemma_be_value_lt(digits);
            lemma_pow256_le(n, (usize::BITS / 8) as nat);
            lemma_pow256_usize();
        }
    }
}

/// Law: decoding the encoding of any length yields exactly that length and
/// consumes exactly the encoded octets, whatever follows them.
pub proof fn lemma_length_round_trip(len: usize, rest: Seq<u8>)
    ensures
        spec_parse_length(spec_length_bytes(len as nat) + rest) == Ok::<(int, nat), DerError>(
            (spec_length_bytes(len as nat).len() as int, len as nat),
        ),
{
    let enc = spec_length_bytes(len as nat);
    let s = enc + rest;
    if len < 128 {
        assert(s[0] == len as u8);
    } else {
        lemma_pow256_usize();
        assert((len as nat) < pow256((usize::BITS / 8) as nat));
        lemma_be_len_le(len as nat, (usize::BITS / 8) as nat);
        let k = spec_be_len(len as nat);
        lemma_be_bytes_len(len as nat);
        assert(8 * k <= usize::BITS as nat);
        assert(s[0] == (128 + k) as u8);
        assert(k >= 1);
        assert(k <= 8);
        assert((s[0] - 128) as nat == k);
        assert(s.len() >= 1 + k);
        assert(s.subrange(1, 1 + k as int) =~= spec_be_bytes(len as nat));
        lemma_be_value_of_bytes(len as nat);
    }
}

/// Append the minimal big-endian octets of n to the stream.
fn emit_be_bytes(n: usize, w: &mut Vec<u8>)
    ensures
        final(w)@ == old(w)@ + spec_be_bytes(n as nat),
    decreases n,
{
    if n > 0 {
        let m = n / 256;
        assert(m < n) by (nonlinear_arith)
            requires
                n > 0,
                m == n / 256,
        ;
        emit_be_bytes(m, w);
        w.push((n % 256) as u8);
        assert(w@ =~= old(w)@ + spec_be_bytes(n as nat));
    } else {
        assert(w@ =~= old(w)@ + spec_be_bytes(0));
    }
}

/// How many octets the long form needs for this length.
fn be_len_of(n: usize) -> (k: u8)
    ensures
        k as nat == spec_be_len(n as nat),
        k <= 8,
{
    proof {
        lemma_pow256_usize();
        lemma_pow256_le((usize::BITS / 8) as nat, 8);
        lemma_be_len_le(n as nat, 8);
    }
    let mut m: usize = n;
    let mut k: u8 = 0;
    while m > 0
        invariant
            spec_be_len(n as nat) == k as nat + spec_be_len(m as nat),
            spec_be_len(n as nat) <= 8,
        decreases m,
    {
        let m2 = m / 256;
        assert(m2 < m) by (nonlinear_arith)
            requires
                m > 0,
                m2 == m / 256,
        ;
        m = m2;
        k = k + 1;
    }
    k
}

/// Encode DER length octets, appending them to the stream.
pub fn der_encode_length_bytes(length: usize, w: &mut Vec<u8>)
    ensures
        final(w)@ == old(w)@ + spec_length_bytes(length as nat),
{
    if length < 128 {
        w.push(length as u8);
        assert(w@ =~= old(w)@ + spec_length_bytes(length as nat));
    } else {
        let k = be_len_of(length);
        w.push(128 + k);
        emit_be_bytes(length, w);
        assert(w@ =~= old(w)@ + spec_length_bytes(length as nat));
    }
}

/// Decode DER length octets found at position pos of the stream.
///
/// The result is (octets read, length).
pub fn der_decode_length_bytes(data: &Vec<u8>, pos: usize) -> (r: Result<
    (usize, usize),
    DerError,
>)
    requires
        pos <= data.len(),
    ensures
        ({
            let parsed = spec_parse_length(data@.skip(pos as int));
            match r {
                Ok((n, length)) => parsed == Ok::<(int, nat), DerError>((n as int, length as nat)),
                Err(e) => parsed == Err::<(int, nat), DerError>(e),
            }
        }),
{
    let ghost s = data@.skip(pos as int);
    if pos == data.len() {
        return Err(DerError::UnexpectedEof);
    }
    let first = data[pos];
    assert(s[0] == first);
    if first < 128 {
        return Ok((1, first as usize));
    }
    let n = first - 128;
    if n == 0 {
        return Err(DerError::InvalidInput);
    }
    if (n as u32) * 8 > usize::BITS {
        return Err(DerError::InvalidInput);
    }
    if data.len() - pos < 1 + (n as usize) {
        assert(s.len() < 1 + n as nat);
        return Err(DerError::UnexpectedEof);
    }
    proof {
        lemma_pow256_usize();
    }
    let mut acc: usize = 0;
    let mut i: usize = 0;
    while i < n as usize
        invariant
            i <= n as usize,
            8 * (n as nat) <= usize::BITS as nat,
            pos + 1 + n as usize <= data.len(),
            acc as nat == spec_be_value(data@.subrange(pos + 1, pos + 1 + i as int)),
            (acc as nat) < pow256(i as nat),
            pow256((usize::BITS / 8) as nat) == usize::MAX as nat + 1,
        decreases n as usize - i,
    {
        let ghost prefix = data@.subrange(pos + 1, pos + 1 + i as int);
        let b = data[pos + 1 + i];
        proof {
            lemma_pow256_le((i + 1) as nat, (usize::BITS / 8) as nat);
            assert(acc as nat * 256 + b < pow256((i + 1) as nat)) by (nonlinear_arith)
                requires
                    (acc as nat) < pow256(i as nat),
                    b < 256,
                    pow256((i + 1) as nat) == 256 * pow256(i as nat),
            ;
            let ghost next = data@.subrange(pos + 1, pos + 1 + (i + 1) as int);
            assert(next.drop_last() =~= prefix);
            assert(next.last() == b);
        }
        acc = acc * 256 + (b as usize);
        i = i + 1;
    }
    assert(s.subrange(1, 1 + n as int) =~= data@.subrange(pos + 1, pos + 1 + n as int));
    Ok((1 + n as usize, acc))
}

} // verus!
