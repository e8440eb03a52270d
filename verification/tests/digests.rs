use binary_inspector::hash::{byte_histogram, hex_digest, sha256_hex};

#[test]
fn sha256_of_known_inputs() {
    assert_eq!(sha256_hex(b""), "e3b0c44298fc1c149afbf4c8996fb92427ae41e4649b934ca495991b7852b855");
    assert_eq!(sha256_hex(b"abc"), "ba7816bf8f01cfea414140de5dae2223b00361a396177a9cb410ff61f20015ad");
}

#[test]
fn digests_render_as_lower_case_hex() {
    assert_eq!(hex_digest(&[0x00, 0x0f, 0xa0, 0xff]), "000fa0ff");
    assert_eq!(hex_digest(&[]), "");
}

#[test]
fn histogram_counts_each_byte() {
    let counts = byte_histogram(b"abca\x00\xff\xff");
    assert_eq!(counts.len(), 256);
    assert_eq!(counts[b'a' as usize], 2);
    assert_eq!(counts[b'b' as usize], 1);
    assert_eq!(counts[0], 1);
    assert_eq!(counts[255], 2);
    assert_eq!(counts.iter().sum::<u64>(), 7);
    assert!(byte_histogram(&[]).iter().all(|&c| c == 0));
}
