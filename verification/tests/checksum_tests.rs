use logmon::checksum::{
    hash_bytes, hex_encode, parse_checksum_line, verify_data, Algorithm, ChecksumLineError,
};

#[test]
fn hex_encoding() {
    assert_eq!(hex_encode(&[]), Vec::<u8>::new());
    assert_eq!(hex_encode(&[0x00, 0xff, 0x1a]), b"00ff1a".to_vec());
}

#[test]
fn sha256_known_answers() {
    assert_eq!(
        hash_bytes(b"", &Algorithm::Sha256),
        b"e3b0c44298fc1c149afbf4c8996fb92427ae41e4649b934ca495991b7852b855".to_vec()
    );
    assert_eq!(
        hash_bytes(b"abc", &Algorithm::Sha256),
        b"ba7816bf8f01cfea414140de5dae2223b00361a396177a9cb410ff61f20015ad".to_vec()
    );
}

#[test]
fn sha512_known_answer() {
    assert_eq!(
        hash_bytes(b"abc", &Algorithm::Sha512),
        b"ddaf35a193617abacc417349ae20413112e6fa4e89a97ea20a9eeee64b55d39a2192992a274fc1a836ba3c23a3feebbd454d4423643ce80e2a9ac94fa54ca49f"
            .to_vec()
    );
}

#[test]
fn md5_known_answers() {
    assert_eq!(
        hash_bytes(b"", &Algorithm::Md5),
        b"d41d8cd98f00b204e9800998ecf8427e".to_vec()
    );
    assert_eq!(
        hash_bytes(b"abc", &Algorithm::Md5),
        b"900150983cd24fb0d6963f7d28e17f72".to_vec()
    );
}

#[test]
fn blake2_known_answers() {
    assert_eq!(
        hash_bytes(b"abc", &Algorithm::Blake2s),
        b"508c5e8c327c14e2e1a72ba34eeb452f37458b209ed63a294d999b4c86675982".to_vec()
    );
    assert_eq!(
        hash_bytes(b"abc", &Algorithm::Blake2b),
        b"ba80a53f981c4d0d6a2797b69f12f6e94c212f14685ac4b74b12bb6fdbffa2d17d87c5392aab792dc252d5de4533cc9518d38aa8dbf1925ab92386edd4009923"
            .to_vec()
    );
}

#[test]
fn checksum_line_parsing() {
    let e = parse_checksum_line(b"d41d8cd98f00b204e9800998ecf8427e  ./testdata/empty.txt").unwrap();
    assert_eq!(e.hash, b"d41d8cd98f00b204e9800998ecf8427e".to_vec());
    assert_eq!(e.path, b"./testdata/empty.txt".to_vec());

    // Leading whitespace is skipped; tokens past the second are ignored.
    let e = parse_checksum_line(b"  abc  def  extra tokens").unwrap();
    assert_eq!(e.hash, b"abc".to_vec());
    assert_eq!(e.path, b"def".to_vec());

    assert_eq!(parse_checksum_line(b"").unwrap_err(), ChecksumLineError::MissingHash);
    assert_eq!(parse_checksum_line(b"   \t ").unwrap_err(), ChecksumLineError::MissingHash);
    assert_eq!(parse_checksum_line(b"abcdef").unwrap_err(), ChecksumLineError::MissingPath);
    assert_eq!(parse_checksum_line(b"abcdef   ").unwrap_err(), ChecksumLineError::MissingPath);
}

#[test]
fn verification_compares_hex_digest() {
    let good = b"ba7816bf8f01cfea414140de5dae2223b00361a396177a9cb410ff61f20015ad";
    assert!(verify_data(good, b"abc", &Algorithm::Sha256));
    assert!(!verify_data(good, b"abd", &Algorithm::Sha256));
    assert!(!verify_data(b"not-a-hash", b"abc", &Algorithm::Sha256));
}
