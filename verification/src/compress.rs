//! The message schedule expander and the 64-round compression engine,
//! together with the fixed round constants and the initial hash state.
use crate::words::big_sigma0;
use crate::words::big_sigma1;
use crate::words::ch;
use crate::words::maj;
use crate::words::rotate_word;
use crate::words::s0_func;
use crate::words::s1_func;
use crate::words::sigma;
use crate::words::word_from_be_bytes;
use crate::words::word_from_bytes;
use vstd::prelude::*;

verus! {

/// The 64 round constants mixed into the compression rounds, one per round.
pub const K: [u32; 64] = [
    0x428a2f98, 0x71374491, 0xb5c0fbcf, 0xe9b5dba5, 0x3956c25b, 0x59f111f1, 0x923f82a4, 0xab1c5ed5,
    0xd807aa98, 0x12835b01, 0x243185be, 0x550c7dc3, 0x72be5d74, 0x80deb1fe, 0x9bdc06a7, 0xc19bf174,
    0xe49b69c1, 0xefbe4786, 0x0fc19dc6, 0x240ca1cc, 0x2de92c6f, 0x4a7484aa, 0x5cb0a9dc, 0x76f988da,
    0x983e5152, 0xa831c66d, 0xb00327c8, 0xbf597fc7, 0xc6e00bf3, 0xd5a79147, 0x06ca6351, 0x14292967,
    0x27b70a85, 0x2e1b2138, 0x4d2c6dfc, 0x53380d13, 0x650a7354, 0x766a0abb, 0x81c2c92e, 0x92722c85,
    0xa2bfe8a1, 0xa81a664b, 0xc24b8b70, 0xc76c51a3, 0xd192e819, 0xd6990624, 0xf40e3585, 0x106aa070,
    0x19a4c116, 0x1e376c08, 0x2748774c, 0x34b0bcb5, 0x391c0cb3, 0x4ed8aa4a, 0x5b9cca4f, 0x682e6ff3,
    0x748f82ee, 0x78a5636f, 0x84c87814, 0x8cc70208, 0x90befffa, 0xa4506ceb, 0xbef9a3f7, 0xc67178f2,
];

/// The eight initial hash state words.
pub const H_INIT: [u32; 8] = [
    0x6a09e667, 0xbb67ae85, 0x3c6ef372, 0xa54ff53a, 0x510e527f, 0x9b05688c, 0x1f83d9ab, 0x5be0cd19,
];

/// The initial hash state as a sequence.
pub open spec fn initial_hash() -> Seq<u32> {
    H_INIT@
}

/// Word `i` of the message schedule of one 64-byte chunk: the first 16
/// words read the chunk big-endian, the rest mix earlier schedule words.
pub open spec fn schedule_word(chunk: Seq<u8>, i: int) -> u32
    recommends
        chunk.len() == 64,
        0 <= i < 64,
    decreases i,
{
    if i < 16 {
        word_from_bytes(chunk[4 * i], chunk[4 * i + 1], chunk[4 * i + 2], chunk[4 * i + 3])
    } else {
        schedule_word(chunk, i - 16).wrapping_add(sigma(schedule_word(chunk, i - 15), 7, 18, 3))
            .wrapping_add(schedule_word(chunk, i - 7)).wrapping_add(
            sigma(schedule_word(chunk, i - 2), 17, 19, 10),
        )
    }
}

/// One compression round: `r` holds the working registers `a..h`; the
/// result holds them after mixing in schedule word `wi` and round
/// constant `ki`, with every addition taken modulo 2^32.
pub open spec fn round_step(r: Seq<u32>, wi: u32, ki: u32) -> Seq<u32>
    recommends
        r.len() == 8,
{
    let t1 = r[7].wrapping_add(big_sigma1(r[4])).wrapping_add(ch(r[4], r[5], r[6])).wrapping_add(
        ki,
    ).wrapping_add(wi);
    let t2 = big_sigma0(r[0]).wrapping_add(maj(r[0], r[1], r[2]));
    seq![
        t1.wrapping_add(t2),
        r[0],
        r[1],
        r[2],
        r[3].wrapping_add(t1),
        r[4],
        r[5],
        r[6],
    ]
}

/// The working registers after the first `n` rounds on one chunk,
/// starting from hash state `h`.
pub open spec fn rounds(chunk: Seq<u8>, h: Seq<u32>, n: int) -> Seq<u32>
    recommends
        chunk.len() == 64,
        h.len() == 8,
        0 <= n <= 64,
    decreases n,
{
    if n <= 0 {
        h
    } else {
        round_step(rounds(chunk, h, n - 1), schedule_word(chunk, n - 1), K@[n - 1])
    }
}

/// The compression of one chunk: run all 64 rounds, then add each working
/// register back into the hash state word it started from, modulo 2^32.
pub open spec fn compress_chunk_spec(h: Seq<u32>, chunk: Seq<u8>) -> Seq<u32>
    recommends
        chunk.len() == 64,
        h.len() == 8,
{
    let r = rounds(chunk, h, 64);
    Seq::new(8, |j: int| h[j].wrapping_add(r[j]))
}

/// Expands the 64-byte chunk of `input` that starts at `off` into the
/// 64-word message schedule.
pub fn expand_schedule(input: &Vec<u8>, off: usize) -> (w: Vec<u32>)
    requires
        off + 64 <= input@.len(),
    ensures
        w@.len() == 64,
        forall|j: int|
            0 <= j < 64 ==> w@[j] == schedule_word(
                input@.subrange(off as int, off + 64),
                j,
            ),
{
    let ghost chunk: Seq<u8> = input@.subrange(off as int, off + 64);
    let ilen: usize = input.len();
    let mut w: Vec<u32> = Vec::new();

    let mut i: usize = 0;
    while i < 16
        invariant
            i <= 16,
            off + 64 <= ilen,
            ilen == input@.len(),
            chunk == input@.subrange(off as int, off + 64),
            w@.len() == i,
            forall|j: int| 0 <= j < i ==> w@[j] == schedule_word(chunk, j),
        decreases 16 - i,
    {
        let word: u32 = word_from_be_bytes(
            input[off + 4 * i],
            input[off + 4 * i + 1],
            input[off + 4 * i + 2],
            input[off + 4 * i + 3],
        );
        proof {
            assert(chunk[4 * i as int] == input@[off + 4 * i]);
            assert(chunk[4 * i + 1] == input@[off + 4 * i + 1]);
            assert(chunk[4 * i + 2] == input@[off + 4 * i + 2]);
            assert(chunk[4 * i + 3] == input@[off + 4 * i + 3]);
        }
        w.push(word);
        i = i + 1;
    }

    while i < 64
        invariant
            16 <= i <= 64,
            off + 64 <= input@.len(),
            chunk == input@.subrange(off as int, off + 64),
            w@.len() == i,
            forall|j: int| 0 <= j < i ==> w@[j] == schedule_word(chunk, j),
        decreases 64 - i,
    {
        let s0: u32 = s0_func(w[i - 15], 7, 18, 3);
        let s1: u32 = s1_func(w[i - 2], 17, 19, 10);
        let wi: u32 = w[i - 16].wrapping_add(s0).wrapping_add(w[i - 7]).wrapping_add(s1);
        proof {
            assert(w@[i - 16] == schedule_word(chunk, i - 16));
            assert(w@[i - 15] == schedule_word(chunk, i - 15));
            assert(w@[i - 7] == schedule_word(chunk, i - 7));
            assert(w@[i - 2] == schedule_word(chunk, i - 2));
            assert(wi == schedule_word(chunk, i as int));
        }
        w.push(wi);
        i = i + 1;
    }
    w
}

/// Compresses the 64-byte chunk of `input` that starts at `off` into the
/// hash state `h`: 64 rounds over the working registers, then the
/// element-wise modular addition back into the state.
pub fn compress_block(h: [u32; 8], input: &Vec<u8>, off: usize) -> (r: [u32; 8])
    requires
        off + 64 <= input@.len(),
    ensures
        r@ == compress_chunk_spec(h@, input@.subrange(off as int, off + 64)),
{
    let ghost chunk: Seq<u8> = input@.subrange(off as int, off + 64);
    let w: Vec<u32> = expand_schedule(input, off);

    let mut a: u32 = h[0];
    let mut b: u32 = h[1];
    let mut c: u32 = h[2];
    let mut d: u32 = h[3];
    let mut e: u32 = h[4];
    let mut f: u32 = h[5];
    let mut g: u32 = h[6];
    let mut hh: u32 = h[7];
    proof {
        assert(seq![a, b, c, d, e, f, g, hh] =~= rounds(chunk, h@, 0));
    }

    let mut i: usize = 0;
    while i < 64
        invariant
            i <= 64,
            w@.len() == 64,
            forall|j: int| 0 <= j < 64 ==> w@[j] == schedule_word(chunk, j),
            seq![a, b, c, d, e, f, g, hh] == rounds(chunk, h@, i as int),
        decreases 64 - i,
    {
        let s1: u32 = rotate_word(e, 6) ^ rotate_word(e, 11) ^ rotate_word(e, 25);
        let chv: u32 = (e & f) ^ (!e & g);
        let t1: u32 = hh.wrapping_add(s1).wrapping_add(chv).wrapping_add(K[i]).wrapping_add(w[i]);
        let s0: u32 = rotate_word(a, 2) ^ rotate_word(a, 13) ^ rotate_word(a, 22);
        let majv: u32 = (a & b) ^ (a & c) ^ (b & c);
        let t2: u32 = s0.wrapping_add(majv);
        proof {
            let regs: Seq<u32> = seq![a, b, c, d, e, f, g, hh];
            assert(seq![
                t1.wrapping_add(t2),
                a,
                b,
                c,
                d.wrapping_add(t1),
                e,
                f,
                g,
            ] =~= round_step(regs, w@[i as int], K@[i as int]));
            assert(rounds(chunk, h@, i + 1) == round_step(
                rounds(chunk, h@, i as int),
                schedule_word(chunk, i as int),
                K@[i as int],
            ));
        }
        hh = g;
        g = f;
        f = e;
        e = d.wrapping_add(t1);
        d = c;
        c = b;
        b = a;
        a = t1.wrapping_add(t2);
        i = i + 1;
    }

    let r: [u32; 8] = [
        h[0].wrapping_add(a),
        h[1].wrapping_add(b),
        h[2].wrapping_add(c),
        h[3].wrapping_add(d),
        h[4].wrapping_add(e),
        h[5].wrapping_add(f),
        h[6].wrapping_add(g),
        h[7].wrapping_add(hh),
    ];
    proof {
        assert(r@ =~= compress_chunk_spec(h@, chunk));
    }
    r
}

} // verus!
