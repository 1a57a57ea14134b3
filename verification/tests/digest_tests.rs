use sha256::compress::H_INIT;
use sha256::digest;
use sha256::hash_loop;
use sha256::make_padded_vec;

/// Bytes 0, 1, 2, ... used for the boundary-length messages.
fn pattern(n: usize) -> Vec<u8> {
    let mut v: Vec<u8> = Vec::new();
    for i in 0..n {
        v.push((i % 256) as u8);
    }
    v
}

fn bit_difference(x: [u32; 8], y: [u32; 8]) -> u32 {
    let mut d: u32 = 0;
    for i in 0..8 {
        d += (x[i] ^ y[i]).count_ones();
    }
    d
}

#[test]
fn digest_of_empty_message() {
    assert_eq!(
        digest(b""),
        [0xe3b0c442, 0x98fc1c14, 0x9afbf4c8, 0x996fb924, 0x27ae41e4, 0x649b934c, 0xa495991b, 0x7852b855]
    );
}

#[test]
fn digest_of_abc() {
    assert_eq!(
        digest(b"abc"),
        [0xba7816bf, 0x8f01cfea, 0x414140de, 0x5dae2223, 0xb00361a3, 0x96177a9c, 0xb410ff61, 0xf20015ad]
    );
}

#[test]
fn digest_of_two_block_message() {
    assert_eq!(
        digest(b"abcdbcdecdefdefgefghfghighijhijkijkljklmklmnlmnomnopnopq"),
        [0x248d6a61, 0xd20638b8, 0xe5c02693, 0x0c3e6039, 0xa33ce459, 0x64ff2167, 0xf6ecedd4, 0x19db06c1]
    );
}

#[test]
fn digest_is_deterministic() {
    let m = pattern(137);
    assert_eq!(digest(&m), digest(&m));
    assert_eq!(digest(b"abc"), digest(b"abc"));
}

#[test]
fn digest_at_padding_boundaries() {
    let expected: [(usize, [u32; 8]); 7] = [
        (0, [0xe3b0c442, 0x98fc1c14, 0x9afbf4c8, 0x996fb924, 0x27ae41e4, 0x649b934c, 0xa495991b, 0x7852b855]),
        (55, [0x463eb28e, 0x72f82e0a, 0x96c0a4cc, 0x53690c57, 0x1281131f, 0x672aa229, 0xe0d45ae5, 0x9b598b59]),
        (56, [0xda2ae4d6, 0xb36748f2, 0xa318f23e, 0x7ab1dfdf, 0x45acdc9d, 0x049bd80e, 0x59de82a6, 0x0895f562]),
        (63, [0x29af2686, 0xfd53374a, 0x36b08466, 0x94cc3421, 0x77e428d1, 0x647515f0, 0x78784d69, 0xcdb9e488]),
        (64, [0xfdeab9ac, 0xf3710362, 0xbd2658cd, 0xc9a29e8f, 0x9c757fcf, 0x9811603a, 0x8c447cd1, 0xd9151108]),
        (65, [0x4bfd2c8b, 0x6f1eec7a, 0x2afeb48b, 0x934ee4b2, 0x69418202, 0x7e6d0fc0, 0x75074f2f, 0xabb31781]),
        (1000, [0xa8af099b, 0xf2e87860, 0x9558dbf6, 0x9d8f88f4, 0xa31040a8, 0xcf84b549, 0xa0cfa912, 0xf12ffc3f]),
    ];
    for (n, d) in expected.iter() {
        assert_eq!(digest(&pattern(*n)), *d, "length {}", n);
    }
}

#[test]
fn single_bit_flip_changes_many_output_bits() {
    // 0x60 is 'a' (0x61) with its lowest bit flipped.
    let original = digest(b"abc");
    let flipped = digest(&[0x60, 0x62, 0x63]);
    assert_ne!(original, flipped);
    assert!(bit_difference(original, flipped) >= 100);
}

#[test]
fn distinct_short_messages_do_not_collide() {
    let corpus: [&[u8]; 6] = [b"", b"a", b"b", b"ab", b"ba", b"abc"];
    for i in 0..corpus.len() {
        for j in 0..corpus.len() {
            if i != j {
                assert_ne!(digest(corpus[i]), digest(corpus[j]));
            }
        }
    }
}

#[test]
fn hash_loop_over_padded_message_matches_digest() {
    let padded = make_padded_vec(b"abc");
    let mut state: [u32; 8] = H_INIT;
    hash_loop(padded, &mut state);
    assert_eq!(state, digest(b"abc"));
}

#[test]
fn hash_loop_carries_state_between_chunks() {
    // Run both chunks at once, then one at a time: the intermediate
    // state must feed the second chunk unchanged.
    let padded = make_padded_vec(&pattern(100));
    assert_eq!(padded.len(), 128);
    let mut all_at_once: [u32; 8] = H_INIT;
    hash_loop(padded.clone(), &mut all_at_once);

    let mut stepwise: [u32; 8] = H_INIT;
    hash_loop(padded[..64].to_vec(), &mut stepwise);
    hash_loop(padded[64..].to_vec(), &mut stepwise);
    assert_eq!(all_at_once, stepwise);
    assert_eq!(stepwise, digest(&pattern(100)));
}
