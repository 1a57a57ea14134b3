use sha256::make_padded_vec;
use sha256::words::s0_func;
use sha256::words::s1_func;
use sha256::words::word_from_be_bytes;

/// Reads the final 8 bytes of a padded message as a big-endian integer.
fn suffix_value(p: &[u8]) -> u64 {
    let mut v: u64 = 0;
    for &b in &p[p.len() - 8..] {
        v = (v << 8) | (b as u64);
    }
    v
}

#[test]
fn empty_message_pads_to_one_chunk() {
    let p = make_padded_vec(b"");
    assert_eq!(p.len(), 64);
    assert_eq!(p[0], 0x80);
    for i in 1..64 {
        assert_eq!(p[i], 0, "byte {}", i);
    }
    assert_eq!(suffix_value(&p), 0);
}

#[test]
fn padding_keeps_message_and_appends_marker() {
    let p = make_padded_vec(b"abc");
    assert_eq!(p.len(), 64);
    assert_eq!(&p[..3], b"abc");
    assert_eq!(p[3], 0x80);
    for i in 4..56 {
        assert_eq!(p[i], 0, "byte {}", i);
    }
    assert_eq!(suffix_value(&p), 24);
}

#[test]
fn padded_length_is_smallest_fitting_multiple_of_64() {
    // 55 bytes is the longest message that still fits in one chunk;
    // 56 bytes pushes the length suffix into a second chunk.
    let m55 = vec![0x61u8; 55];
    let p55 = make_padded_vec(&m55);
    assert_eq!(p55.len(), 64);
    assert_eq!(p55[55], 0x80);
    assert_eq!(suffix_value(&p55), 55 * 8);

    let m56 = vec![0x61u8; 56];
    let p56 = make_padded_vec(&m56);
    assert_eq!(p56.len(), 128);
    assert_eq!(p56[56], 0x80);
    assert_eq!(suffix_value(&p56), 56 * 8);

    let m64 = vec![0x61u8; 64];
    let p64 = make_padded_vec(&m64);
    assert_eq!(p64.len(), 128);
    assert_eq!(suffix_value(&p64), 64 * 8);
}

#[test]
fn schedule_mixing_functions_match_known_values() {
    // rotr(1, 7) | rotr(1, 18) with a zero shift term.
    assert_eq!(s0_func(1, 7, 18, 3), 0x02000000 ^ 0x00004000);
    assert_eq!(s1_func(1, 17, 19, 10), 0x00008000 ^ 0x00002000);
    assert_eq!(s0_func(0, 7, 18, 3), 0);
}

#[test]
fn words_are_read_big_endian() {
    assert_eq!(word_from_be_bytes(0x01, 0x02, 0x03, 0x04), 0x01020304);
    assert_eq!(word_from_be_bytes(0xff, 0, 0, 0), 0xff000000);
    assert_eq!(word_from_be_bytes(0, 0, 0, 0xff), 0x000000ff);
}
