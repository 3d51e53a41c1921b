use base64::Engine;
use exifcore::encode::base64_encode;
use exifcore::hash::FileHashUtils;

#[test]
fn sha256_known_vectors() {
    assert_eq!(
        FileHashUtils::sha256_hex(b""),
        "e3b0c44298fc1c149afbf4c8996fb92427ae41e4649b934ca495991b7852b855"
    );
    assert_eq!(
        FileHashUtils::sha256_hex(b"abc"),
        "ba7816bf8f01cfea414140de5dae2223b00361a396177a9cb410ff61f20015ad"
    );
}

#[test]
fn base64_known_vectors() {
    assert_eq!(base64_encode(b""), "");
    assert_eq!(base64_encode(b"f"), "Zg==");
    assert_eq!(base64_encode(b"fo"), "Zm8=");
    assert_eq!(base64_encode(b"foo"), "Zm9v");
    assert_eq!(base64_encode(b"foob"), "Zm9vYg==");
    assert_eq!(base64_encode(b"fooba"), "Zm9vYmE=");
    assert_eq!(base64_encode(b"foobar"), "Zm9vYmFy");
    assert_eq!(base64_encode(&[0xfb, 0xff, 0x00]), "+/8A");
}

#[test]
fn base64_matches_engine() {
    let samples: &[&[u8]] = &[b"", b"a", b"ab", b"abc", b"hello world~", &[0, 1, 2, 253, 254, 255]];
    for &s in samples {
        assert_eq!(
            base64_encode(s),
            base64::engine::general_purpose::STANDARD.encode(s)
        );
    }
}
