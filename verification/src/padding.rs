//! The padding encoder: extends a message with a marker byte, zero fill,
//! and the big-endian bit length, so that the result splits into 64-byte
//! chunks for the compression engine.
use vstd::prelude::*;
use vstd::arithmetic::div_mod::lemma_fundamental_div_mod;
use vstd::arithmetic::div_mod::lemma_mod_breakdown;
use vstd::arithmetic::div_mod::lemma_mod_multiples_basic;
use vstd::arithmetic::div_mod::lemma_small_mod;
use vstd::arithmetic::div_mod::lemma_truncate_middle;

verus! {

/// Number of zero bytes inserted between the 0x80 marker and the length
/// suffix for a message of `l` bytes: the least count that brings the
/// total length to a multiple of 64.
pub open spec fn zero_pad_len(l: nat) -> nat {
    if l % 64 <= 55 {
        (55 - l % 64) as nat
    } else {
        (119 - l % 64) as nat
    }
}

/// The message length in bits, kept as a 64-bit counter; it wraps
/// silently for messages of 2^61 bytes or more.
pub open spec fn wrapped_bit_len(l: nat) -> u64 {
    ((l * 8) % 0x1_0000_0000_0000_0000) as u64
}

/// The eight bytes of the big-endian encoding of `v`, most significant first.
pub open spec fn be64_bytes(v: u64) -> Seq<u8> {
    seq![
        (((v as nat) / 0x100000000000000) % 256) as u8,
        (((v as nat) / 0x1000000000000) % 256) as u8,
        (((v as nat) / 0x10000000000) % 256) as u8,
        (((v as nat) / 0x100000000) % 256) as u8,
        (((v as nat) / 0x1000000) % 256) as u8,
        (((v as nat) / 0x10000) % 256) as u8,
        (((v as nat) / 0x100) % 256) as u8,
        ((v as nat) % 256) as u8,
    ]
}

/// The value of an 8-byte sequence read as a big-endian integer.
pub open spec fn be64_decode(s: Seq<u8>) -> nat
    recommends
        s.len() == 8,
{
    (s[0] * 0x100000000000000 + s[1] * 0x1000000000000 + s[2] * 0x10000000000 + s[3] * 0x100000000
        + s[4] * 0x1000000 + s[5] * 0x10000 + s[6] * 0x100 + s[7]) as nat
}

/// The padded form of a message: the message itself, one 0x80 marker byte,
/// zero fill up to 8 bytes short of a multiple of 64, and the original
/// length in bits as an 8-byte big-endian suffix.
pub open spec fn padded(m: Seq<u8>) -> Seq<u8> {
    m + seq![0x80u8] + Seq::new(zero_pad_len(m.len()), |i: int| 0u8)
        + be64_bytes(wrapped_bit_len(m.len()))
}

/// Decoding the big-endian encoding of a 64-bit value gives the value back.
proof fn lemma_be64_round_trip(v: u64)
    ensures
        be64_decode(be64_bytes(v)) == v,
{
    let n: int = v as int;
    lemma_small_mod(v as nat, 0x10000000000000000);
    assert(0x100000000000000 * 256 == 0x10000000000000000) by (nonlinear_arith);
    lemma_mod_breakdown(n, 0x100000000000000, 256);
    assert(0x1000000000000 * 256 == 0x100000000000000) by (nonlinear_arith);
    lemma_mod_breakdown(n, 0x1000000000000, 256);
    assert(0x10000000000 * 256 == 0x1000000000000) by (nonlinear_arith);
    lemma_mod_breakdown(n, 0x10000000000, 256);
    assert(0x100000000 * 256 == 0x10000000000) by (nonlinear_arith);
    lemma_mod_breakdown(n, 0x100000000, 256);
    assert(0x1000000 * 256 == 0x100000000) by (nonlinear_arith);
    lemma_mod_breakdown(n, 0x1000000, 256);
    assert(0x10000 * 256 == 0x1000000) by (nonlinear_arith);
    lemma_mod_breakdown(n, 0x10000, 256);
    assert(0x100 * 256 == 0x10000) by (nonlinear_arith);
    lemma_mod_breakdown(n, 0x100, 256);
}

/// The wrapped bit length equals eight times the byte length reduced mod 2^61.
proof fn lemma_wrapped_bit_len(l: nat)
    ensures
        wrapped_bit_len(l) == 8 * (l % 0x2000000000000000),
{
    lemma_truncate_middle(l as int, 8, 0x2000000000000000);
    assert(8 * 0x2000000000000000 == 0x10000000000000000) by (nonlinear_arith);
}

/// The padding law: padding keeps the message as a prefix, appends the
/// 0x80 marker and zero fill, brings the length to the smallest multiple
/// of 64 bytes that is at least nine bytes longer than the message, and
/// ends with the original bit length as an 8-byte big-endian suffix.
pub proof fn lemma_padding_properties(m: Seq<u8>)
    ensures
        padded(m).len() % 64 == 0,
        m.len() + 9 <= padded(m).len() < m.len() + 9 + 64,
        forall|n: int| #![trigger n % 64] n % 64 == 0 && n >= m.len() + 9 ==> n >= padded(m).len(),
        padded(m).subrange(0, m.len() as int) == m,
        padded(m)[m.len() as int] == 0x80u8,
        forall|i: int| m.len() + 1 <= i < padded(m).len() - 8 ==> padded(m)[i] == 0u8,
        be64_decode(padded(m).subrange(padded(m).len() - 8, padded(m).len() as int)) == (m.len()
            * 8) % 0x10000000000000000,
{
    let l: nat = m.len();
    let z: nat = zero_pad_len(l);
    let p: Seq<u8> = padded(m);
    let plen: int = p.len() as int;
    assert(p.len() == l + 1 + z + 8);

    lemma_fundamental_div_mod(l as int, 64);
    let q: int = l as int / 64;
    if l % 64 <= 55 {
        assert(plen == (q + 1) * 64);
        lemma_mod_multiples_basic(q + 1, 64);
    } else {
        assert(plen == (q + 2) * 64);
        lemma_mod_multiples_basic(q + 2, 64);
    }

    assert forall|n: int| #![trigger n % 64] n % 64 == 0 && n >= m.len() + 9 implies n >= plen by {
        if n < plen {
            lemma_fundamental_div_mod(n, 64);
            lemma_fundamental_div_mod(plen, 64);
            assert(n == 64 * (n / 64));
            assert(plen == 64 * (plen / 64));
            assert(n / 64 < plen / 64);
            assert(n <= plen - 64);
        }
    }

    assert(p.subrange(0, l as int) =~= m);
    assert(p[l as int] == 0x80u8);

    let suffix: Seq<u8> = be64_bytes(wrapped_bit_len(l));
    assert(p.subrange(plen - 8, plen) =~= suffix);
    lemma_be64_round_trip(wrapped_bit_len(l));
    lemma_small_mod((l * 8) % 0x10000000000000000, 0x10000000000000000);
}

/// Pads a message as the digest engine requires: the result is the
/// message followed by 0x80, zero fill, and the bit length, and its
/// length is a multiple of 64.
pub fn make_padded_vec(input: &[u8]) -> (r: Vec<u8>)
    ensures
        r@ == padded(input@),
        r@.len() % 64 == 0,
{
    let l: usize = input.len();
    let ghost lspec: nat = input@.len();
    let mut v: Vec<u8> = Vec::new();

    let mut i: usize = 0;
    while i < l
        invariant
            i <= l,
            l == input@.len(),
            v@ == input@.subrange(0, i as int),
        decreases l - i,
    {
        v.push(input[i]);
        proof {
            assert(v@ =~= input@.subrange(0, i + 1 as int));
        }
        i = i + 1;
    }
    assert(v@ =~= input@);

    v.push(0x80u8);

    let rem: usize = l % 64;
    let z: usize = if rem <= 55 {
        55 - rem
    } else {
        119 - rem
    };
    assert(z == zero_pad_len(lspec));

    let mut j: usize = 0;
    while j < z
        invariant
            j <= z,
            v@ == input@ + seq![0x80u8] + Seq::new(j as nat, |i: int| 0u8),
        decreases z - j,
    {
        v.push(0u8);
        proof {
            assert(v@ =~= input@ + seq![0x80u8] + Seq::new((j + 1) as nat, |i: int| 0u8));
        }
        j = j + 1;
    }
    assert(v@ =~= input@ + seq![0x80u8] + Seq::new(zero_pad_len(lspec), |i: int| 0u8));

    let bits: u64 = ((l as u64) % 0x2000000000000000) * 8;
    proof {
        lemma_wrapped_bit_len(lspec);
        assert(bits == wrapped_bit_len(lspec));
    }

    let ghost before_suffix: Seq<u8> = v@;
    v.push(((bits / 0x100000000000000) % 256) as u8);
    v.push(((bits / 0x1000000000000) % 256) as u8);
    v.push(((bits / 0x10000000000) % 256) as u8);
    v.push(((bits / 0x100000000) % 256) as u8);
    v.push(((bits / 0x1000000) % 256) as u8);
    v.push(((bits / 0x10000) % 256) as u8);
    v.push(((bits / 0x100) % 256) as u8);
    v.push((bits % 256) as u8);
    proof {
        assert(v@ =~= before_suffix + be64_bytes(bits));
        assert(v@ =~= padded(input@));
        lemma_padding_properties(input@);
    }

    v
}

} // verus!
