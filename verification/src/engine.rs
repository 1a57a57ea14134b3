//! The digest accumulator: folds the compression function over the
//! 64-byte chunks of the padded message, in order, starting from the
//! standard initial hash state.
use crate::compress::compress_block;
use crate::compress::compress_chunk_spec;
use crate::compress::initial_hash;
use crate::compress::H_INIT;
use crate::padding::lemma_padding_properties;
use crate::padding::make_padded_vec;
use crate::padding::padded;
use vstd::prelude::*;

verus! {

/// The hash state after the first `n` 64-byte chunks of `msg` have been
/// compressed into `h`, in order.
pub open spec fn process_chunks(h: Seq<u32>, msg: Seq<u8>, n: int) -> Seq<u32>
    recommends
        h.len() == 8,
        msg.len() % 64 == 0,
        0 <= n <= msg.len() / 64,
    decreases n,
{
    if n <= 0 {
        h
    } else {
        compress_chunk_spec(process_chunks(h, msg, n - 1), msg.subrange(64 * (n - 1), 64 * n))
    }
}

/// The SHA-256 digest of a message: pad it, then fold the compression
/// function over every chunk of the padded form, starting from the
/// initial hash state.
pub open spec fn digest_spec(m: Seq<u8>) -> Seq<u32> {
    process_chunks(initial_hash(), padded(m), padded(m).len() as int / 64)
}

/// The digest is a function of the message bytes alone: two equal
/// messages always give the same 8-word digest.
pub proof fn lemma_digest_deterministic(m1: Seq<u8>, m2: Seq<u8>)
    requires
        m1 == m2,
    ensures
        digest_spec(m1) == digest_spec(m2),
{
}

/// Chunks feed the accumulator strictly in order: the state after the
/// first `k` chunks is, unchanged, the state that chunk `k` itself is
/// compressed into to give the state after `k + 1` chunks.
pub proof fn lemma_chunk_order(h: Seq<u32>, msg: Seq<u8>, k: int)
    requires
        0 <= k,
    ensures
        process_chunks(h, msg, k + 1) == compress_chunk_spec(
            process_chunks(h, msg, k),
            msg.subrange(64 * k, 64 * (k + 1)),
        ),
{
}

/// Folds every 64-byte chunk of `input` into the hash state, in order.
pub fn hash_loop(input: Vec<u8>, hash: &mut [u32; 8])
    requires
        input@.len() % 64 == 0,
    ensures
        final(hash)@ == process_chunks(old(hash)@, input@, input@.len() as int / 64),
{
    let ghost h0: Seq<u32> = hash@;
    let ilen: usize = input.len();
    let n: usize = ilen / 64;
    proof {
        assert(64 * (n as int) <= input@.len()) by {
            vstd::arithmetic::div_mod::lemma_fundamental_div_mod(input@.len() as int, 64);
        }
    }
    let mut c: usize = 0;
    while c < n
        invariant
            c <= n,
            ilen == input@.len(),
            64 * (n as int) <= ilen,
            hash@ == process_chunks(h0, input@, c as int),
        decreases n - c,
    {
        *hash = compress_block(*hash, &input, 64 * c);
        proof {
            assert(hash@ == process_chunks(h0, input@, c + 1));
        }
        c = c + 1;
    }
}

/// Computes the SHA-256 digest of a message as eight 32-bit words.
pub fn digest(message: &[u8]) -> (r: [u32; 8])
    ensures
        r@ == digest_spec(message@),
{
    let padded_vec: Vec<u8> = make_padded_vec(message);
    let mut hash: [u32; 8] = H_INIT;
    proof {
        assert(hash@ == initial_hash());
        lemma_padding_properties(message@);
    }
    hash_loop(padded_vec, &mut hash);
    hash
}

} // verus!
