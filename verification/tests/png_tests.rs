use exifcore::error::Error;
use exifcore::png::{get_exif_attr, is_png};

#[test]
fn png_truncated() {
    let sets: &[&[u8]] = &[b"", b"\x89", b"\x89PNG\x0d\x0a\x1a"];
    for &data in sets {
        assert_eq!(get_exif_attr(data).unwrap_err(), Error::BrokenPng);
        assert_eq!(Error::BrokenPng.message(), "Broken PNG file");
    }

    let mut data = b"\x89PNG\x0d\x0a\x1a\x0a\0\0\0\x04eXIfExif".to_vec();
    assert_eq!(get_exif_attr(&data).unwrap(), b"Exif");
    while let Some(_) = data.pop() {
        get_exif_attr(&data).unwrap_err();
    }
}

#[test]
fn no_exif() {
    let data = b"\x89PNG\x0d\x0a\x1a\x0a";
    assert_eq!(get_exif_attr(data).unwrap_err(), Error::ExifNotFound);
}

#[test]
fn empty() {
    let data = b"\x89PNG\x0d\x0a\x1a\x0a\0\0\0\0eXIfCRC_";
    assert_eq!(get_exif_attr(data).unwrap(), Vec::<u8>::new());
}

#[test]
fn non_empty() {
    let data = b"\x89PNG\x0d\x0a\x1a\x0a\0\0\0\x02eXIf\xbe\xadCRC_";
    assert_eq!(get_exif_attr(data).unwrap(), vec![0xbe, 0xad]);
}

// A chunk that is not the Exif chunk is skipped by exactly its length
// plus the four checksum bytes, and the Exif payload comes back
// unchanged.
#[test]
fn png_chunk_skip() {
    let mut data = b"\x89PNG\x0d\x0a\x1a\x0a".to_vec();
    // a 3-byte chunk of another type, with its checksum
    data.extend_from_slice(b"\0\0\0\x03IDATxyzCRC_");
    // then the Exif chunk
    data.extend_from_slice(b"\0\0\0\x05eXIfHELLOCRC_");
    assert_eq!(get_exif_attr(&data).unwrap(), b"HELLO");

    // if the skipped chunk claims one byte more, the scan lands inside
    // the Exif chunk header and fails
    let mut bad = b"\x89PNG\x0d\x0a\x1a\x0a".to_vec();
    bad.extend_from_slice(b"\0\0\0\x04IDATxyzCRC_");
    bad.extend_from_slice(b"\0\0\0\x05eXIfHELLOCRC_");
    assert!(get_exif_attr(&bad).is_err());
}

#[test]
fn png_signature_check() {
    assert!(is_png(b"\x89PNG\x0d\x0a\x1a\x0a"));
    assert!(is_png(b"\x89PNG\x0d\x0a\x1a\x0a more"));
    assert!(!is_png(b"\x89PNG\x0d\x0a\x1a"));
    assert!(!is_png(b"XPNG\x0d\x0a\x1a\x0a"));
    // a wrong signature of sufficient length is not a PNG at all
    assert_eq!(
        get_exif_attr(b"XPNG\x0d\x0a\x1a\x0a!").unwrap_err(),
        Error::NotPng
    );
}
