//! Word-level operations of the digest: 32-bit rotations, the sigma
//! mixing functions, choice and majority, and big-endian word assembly.
use vstd::prelude::*;

verus! {

/// Right rotation of a 32-bit word by `n` bits, for `0 < n < 32`.
pub open spec fn rotr(x: u32, n: u32) -> u32 {
    (x >> n) | (x << ((32 - n) as u32))
}

/// The shared shape of the two schedule mixing functions:
/// two rotations and one plain right shift, combined by xor.
pub open spec fn sigma(x: u32, r1: u32, r2: u32, s: u32) -> u32 {
    rotr(x, r1) ^ rotr(x, r2) ^ (x >> s)
}

/// The round function's mixing of register `a`.
pub open spec fn big_sigma0(a: u32) -> u32 {
    rotr(a, 2) ^ rotr(a, 13) ^ rotr(a, 22)
}

/// The round function's mixing of register `e`.
pub open spec fn big_sigma1(e: u32) -> u32 {
    rotr(e, 6) ^ rotr(e, 11) ^ rotr(e, 25)
}

/// The "choice" function: each bit of `e` selects the bit of `f` or of `g`.
pub open spec fn ch(e: u32, f: u32, g: u32) -> u32 {
    (e & f) ^ (!e & g)
}

/// The "majority" function: each output bit is the majority of the three input bits.
pub open spec fn maj(a: u32, b: u32, c: u32) -> u32 {
    (a & b) ^ (a & c) ^ (b & c)
}

/// Big-endian interpretation of four bytes as one 32-bit word
/// (`b0` is the most significant byte).
pub open spec fn word_from_bytes(b0: u8, b1: u8, b2: u8, b3: u8) -> u32 {
    (b0 * 0x1000000 + b1 * 0x10000 + b2 * 0x100 + b3) as u32
}

/// Right rotation of a 32-bit word.
pub fn rotate_word(x: u32, n: u32) -> (r: u32)
    requires
        0 < n < 32,
    ensures
        r == rotr(x, n),
{
    (x >> n) | (x << (32 - n))
}

/// Schedule mixing function in the shape used for `s0` terms.
pub fn s0_func(x: u32, r1: u32, r2: u32, s: u32) -> (r: u32)
    requires
        0 < r1 < 32,
        0 < r2 < 32,
        s < 32,
    ensures
        r == sigma(x, r1, r2, s),
{
    rotate_word(x, r1) ^ rotate_word(x, r2) ^ (x >> s)
}

/// Schedule mixing function in the shape used for `s1` terms.
pub fn s1_func(x: u32, r1: u32, r2: u32, s: u32) -> (r: u32)
    requires
        0 < r1 < 32,
        0 < r2 < 32,
        s < 32,
    ensures
        r == sigma(x, r1, r2, s),
{
    rotate_word(x, r1) ^ rotate_word(x, r2) ^ (x >> s)
}

/// Assembles one schedule word from four message bytes, most significant first.
pub fn word_from_be_bytes(b0: u8, b1: u8, b2: u8, b3: u8) -> (r: u32)
    ensures
        r == word_from_bytes(b0, b1, b2, b3),
{
    (b0 as u32) * 0x1000000 + (b1 as u32) * 0x10000 + (b2 as u32) * 0x100 + (b3 as u32)
}

} // verus!
