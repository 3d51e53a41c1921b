use exifcore::error::Error;
use exifcore::tiff::{parse_exif, is_tiff, Context, In, Parser, Tag};
use exifcore::value::Value;

#[test]
fn in_convert() {
    assert_eq!(In::primary().index(), 0);
    assert_eq!(In::thumbnail().index(), 1);
    assert_eq!(In(2).index(), 2);
    assert_eq!(In(65535).index(), 65535);
    assert_eq!(In::primary(), In(0));
}

#[test]
fn in_display() {
    assert_eq!(format!("{:10}", In::primary().display_string()), "primary   ");
    assert_eq!(format!("{:>10}", In::thumbnail().display_string()), " thumbnail");
    assert_eq!(format!("{:10}", In(2).display_string()), "IFD2      ");
    assert_eq!(format!("{:^10}", In(65535).display_string()), " IFD65535 ");
}

#[test]
fn tiff_truncated() {
    let mut data = b"MM\0\x2a\0\0\0\x08\
                     \0\x01\x01\0\0\x03\0\0\0\x01\0\x14\0\0\0\0\0\0"
        .to_vec();
    parse_exif(&data).unwrap();
    while let Some(_) = data.pop() {
        parse_exif(&data).unwrap_err();
    }
}

// Before the error is returned, the IFD is parsed multiple times
// as the 0th, 1st, ..., and n-th IFDs.
#[test]
fn inf_loop_by_next() {
    let data = b"MM\0\x2a\0\0\0\x08\
                 \0\x01\x01\0\0\x03\0\0\0\x01\0\x14\0\0\0\0\0\x08";
    let e = parse_exif(data).unwrap_err();
    assert_eq!(e, Error::IfdCountLimit);
    assert_eq!(e.message(), "Limit the IFD count to 8");
}

#[test]
fn inf_loop_by_exif_next() {
    let data = b"MM\x00\x2a\x00\x00\x00\x08\
                 \x00\x01\x87\x69\x00\x04\x00\x00\x00\x01\x00\x00\x00\x1a\
                 \x00\x00\x00\x00\
                 \x00\x01\x90\x00\x00\x07\x00\x00\x00\x040231\
                 \x00\x00\x00\x08";
    let e = parse_exif(data).unwrap_err();
    assert_eq!(e, Error::UnexpectedNextIfd);
    assert_eq!(e.message(), "Unexpected next IFD");
}

#[test]
fn unknown_field() {
    let data = b"MM\0\x2a\0\0\0\x08\
                 \0\x01\x01\0\xff\xff\0\0\0\x01\0\x14\0\0\0\0\0\0";
    let (v, _le) = parse_exif(data).unwrap();
    assert_eq!(v.len(), 1);
    assert!(matches!(v[0].value, Value::Unknown(0xffff, 1, 0x12)));
}

#[test]
fn parse_ifd_entry() {
    // BYTE (type == 1)
    let data = b"\x02\x03\x00\x01\0\0\0\x04ABCD";
    assert_eq!(
        Parser::parse_ifd_entry(data, 0, false).unwrap(),
        (0x0203, Value::Unknown(1, 4, 8))
    );
    let data = b"\x02\x03\x00\x01\0\0\0\x05\0\0\0\x0cABCDE";
    assert_eq!(
        Parser::parse_ifd_entry(data, 0, false).unwrap(),
        (0x0203, Value::Unknown(1, 5, 12))
    );
    let data = b"\x02\x03\x00\x01\0\0\0\x05\0\0\0\x0cABCD";
    assert_eq!(
        Parser::parse_ifd_entry(data, 0, false).unwrap_err(),
        Error::TruncatedFieldValue
    );

    // SHORT (type == 3)
    let data = b"X\x04\x05\x00\x03\0\0\0\x02ABCD";
    assert_eq!(
        Parser::parse_ifd_entry(data, 1, false).unwrap(),
        (0x0405, Value::Unknown(3, 2, 9))
    );
    let data = b"X\x04\x05\x00\x03\0\0\0\x03\0\0\0\x0eXABCDEF";
    assert_eq!(
        Parser::parse_ifd_entry(data, 1, false).unwrap(),
        (0x0405, Value::Unknown(3, 3, 14))
    );
    let data = b"X\x04\x05\x00\x03\0\0\0\x03\0\0\0\x0eXABCDE";
    assert_eq!(
        Parser::parse_ifd_entry(data, 1, false).unwrap_err(),
        Error::TruncatedFieldValue
    );

    // Really unknown
    let data = b"X\x01\x02\x03\x04\x05\x06\x07\x08ABCD";
    assert_eq!(
        Parser::parse_ifd_entry(data, 1, false).unwrap(),
        (0x0102, Value::Unknown(0x0304, 0x05060708, 9))
    );
}

fn lenient_parse(data: &[u8]) -> Parser {
    let mut parser = Parser::new();
    parser.continue_on_error = Some(Vec::new());
    parser.parse(data).unwrap();
    assert_eq!(parser.little_endian, false);
    parser
}

#[test]
fn continue_on_error() {
    // 0th IFD is missing.
    let data: &[u8] = b"MM\0\x2a\0\0\0\x08";
    let mut parser = Parser::new();
    assert_eq!(parser.parse(data).unwrap_err(), Error::TruncatedIfdCount);
    let parser = lenient_parse(data);
    assert!(parser.entries.is_empty());
    assert_eq!(
        parser.continue_on_error.as_ref().unwrap().as_slice(),
        &[Error::TruncatedIfdCount]
    );

    // 2nd entry is truncated.
    let data: &[u8] = b"MM\0\x2a\0\0\0\x08\
            \0\x02\x01\x00\0\x03\0\0\0\x01\0\x14\0\0\
                  \x01\x01\0\x03\0\0\0\x01\0\x15\0";
    let mut parser = Parser::new();
    assert_eq!(parser.parse(data).unwrap_err(), Error::TruncatedIfd);
    let mut parser = lenient_parse(data);
    let le = parser.little_endian;
    assert_eq!(parser.entries.len(), 1);
    let f = parser.entries[0].ref_field(data, le);
    assert_eq!(f.tag, Tag(Context::Tiff, 0x0100));
    assert_eq!(f.ifd_num, In(0));
    assert!(matches!(f.value, Value::Short(_)));
    assert_eq!(
        parser.continue_on_error.as_ref().unwrap().as_slice(),
        &[Error::TruncatedIfd]
    );

    // 1st entry broken.
    let data: &[u8] = b"MM\0\x2a\0\0\0\x08\
            \0\x02\x01\x00\0\x03\0\0\0\x03\0\0\0\x21\
                  \x01\x01\0\x03\0\0\0\x01\0\x15\0\0\
                  \0\0\0\0";
    let mut parser = Parser::new();
    assert_eq!(parser.parse(data).unwrap_err(), Error::TruncatedFieldValue);
    let mut parser = lenient_parse(data);
    let le = parser.little_endian;
    assert_eq!(parser.entries.len(), 1);
    let f = parser.entries[0].ref_field(data, le);
    assert_eq!(f.tag, Tag(Context::Tiff, 0x0101));
    assert_eq!(f.ifd_num, In(0));
    assert!(matches!(f.value, Value::Short(_)));
    assert_eq!(
        parser.continue_on_error.as_ref().unwrap().as_slice(),
        &[Error::TruncatedFieldValue]
    );

    // Exif IFD has non-zero next IFD offset.
    // Top-level next IFD is also broken.
    let data: &[u8] = b"MM\0\x2a\0\0\0\x08\
            \0\x02\x87\x69\0\x04\0\0\0\x01\0\0\0\x26\
                  \xfd\xe8\0\x09\0\0\0\x01\xfe\xdc\xba\x98\
                  \xff\xff\xff\xff\
            \0\x01\x90\x00\0\x07\0\0\0\x04\x00\x02\x03\x02\
                  \0\0\0\x01";
    let mut parser = Parser::new();
    assert_eq!(parser.parse(data).unwrap_err(), Error::UnexpectedNextIfd);
    let mut parser = lenient_parse(data);
    let le = parser.little_endian;
    assert_eq!(parser.entries.len(), 2);
    let f = parser.entries[0].ref_field(data, le);
    assert_eq!(f.tag, Tag(Context::Exif, 0x9000));
    assert_eq!(f.ifd_num, In(0));
    assert!(matches!(f.value, Value::Undefined(_, _)));
    let f = parser.entries[1].ref_field(data, le);
    assert_eq!(f.tag, Tag(Context::Tiff, 65000));
    assert_eq!(f.ifd_num, In(0));
    assert!(matches!(f.value, Value::SLong(_)));
    assert_eq!(
        parser.continue_on_error.as_ref().unwrap().as_slice(),
        &[Error::UnexpectedNextIfd, Error::TruncatedIfdCount]
    );

    // Exif IFD pointer has a bad type.
    let data: &[u8] = b"MM\0\x2a\0\0\0\x08\
            \0\x02\x87\x69\0\x09\0\0\0\x01\0\0\0\x26\
                  \xfd\xe8\0\x06\0\0\0\x03\xfe\xdc\xba\x98\
                  \0\0\0\0\
            \0\x01\x90\x00\0\x07\0\0\0\x04\x00\x02\x03\x02\
                  \0\0\0\x01";
    let mut parser = Parser::new();
    assert_eq!(parser.parse(data).unwrap_err(), Error::InvalidPointer);
    let mut parser = lenient_parse(data);
    let le = parser.little_endian;
    assert_eq!(parser.entries.len(), 1);
    let f = parser.entries[0].ref_field(data, le);
    assert_eq!(f.tag, Tag(Context::Tiff, 65000));
    assert!(matches!(f.value, Value::SByte(_)));
    assert_eq!(
        parser.continue_on_error.as_ref().unwrap().as_slice(),
        &[Error::InvalidPointer]
    );

    // Exif IFD pointer is empty.
    let data: &[u8] = b"MM\0\x2a\0\0\0\x08\
            \0\x02\x87\x69\0\x04\0\0\0\x00\0\0\0\x26\
                  \xfd\xe8\0\x08\0\0\0\x02\xfe\xdc\xba\x98\
                  \0\0\0\0\
            \0\x01\x90\x00\0\x07\0\0\0\x04\x00\x02\x03\x02\
                  \0\0\0\x01";
    let mut parser = Parser::new();
    assert_eq!(parser.parse(data).unwrap_err(), Error::InvalidPointer);
    let mut parser = lenient_parse(data);
    let le = parser.little_endian;
    assert_eq!(parser.entries.len(), 1);
    let f = parser.entries[0].ref_field(data, le);
    assert_eq!(f.tag, Tag(Context::Tiff, 65000));
    assert!(matches!(f.value, Value::SShort(_)));
    assert_eq!(
        parser.continue_on_error.as_ref().unwrap().as_slice(),
        &[Error::InvalidPointer]
    );
}

// The big-endian minimal stream parses to exactly one field: tag
// ImageWidth (0x0100), directory index 0, value Short 20, big-endian.
#[test]
fn minimal_round_trip() {
    let data = b"\x4d\x4d\x00\x2a\x00\x00\x00\x08\
                 \x00\x01\x01\x01\x00\x03\x00\x00\x00\x01\x00\x14\x00\x00\
                 \x00\x00\x00\x00";
    let (v, le) = parse_exif(data).unwrap();
    assert_eq!(le, false);
    assert_eq!(v.len(), 1);
    assert_eq!(v[0].tag, Tag(Context::Tiff, 0x0101));
    assert_eq!(v[0].ifd_num, In(0));
    assert_eq!(v[0].value, Value::Short(vec![20]));
}

// A synthetic chain of empty directories, each pointing at a fresh
// valid one: eight directories parse, the ninth trips the cap.
#[test]
fn chain_cap() {
    // each empty directory takes 6 bytes: a zero entry count and the
    // offset of the next directory
    fn chain(n: usize, terminate: bool) -> Vec<u8> {
        let mut data = b"MM\0\x2a\0\0\0\x08".to_vec();
        for i in 0..n {
            let next = if i + 1 == n && terminate {
                0
            } else {
                (8 + 6 * (i + 1)) as u32
            };
            data.extend_from_slice(&[0, 0]);
            data.extend_from_slice(&next.to_be_bytes());
        }
        data
    }
    // indices 0..=7 parse and the chain terminates: success
    let (v, _) = parse_exif(&chain(8, true)).unwrap();
    assert!(v.is_empty());
    // the chain is still alive when index 8 is reached: the cap trips
    let e = parse_exif(&chain(9, false)).unwrap_err();
    assert_eq!(e, Error::IfdCountLimit);
    let e = parse_exif(&chain(9, true)).unwrap_err();
    assert_eq!(e, Error::IfdCountLimit);
}

// Reading a field twice yields bit-identical results and performs no
// further buffer access: after the first materialization, the buffer
// and byte order no longer matter.
#[test]
fn idempotent_materialization() {
    let data: &[u8] = b"MM\0\x2a\0\0\0\x08\
                        \0\x01\x01\x01\0\x03\0\0\0\x01\0\x14\0\0\0\0\0\0";
    let mut parser = Parser::new();
    parser.parse(data).unwrap();
    let le = parser.little_endian;
    assert_eq!(parser.entries.len(), 1);
    let first = parser.entries[0].ref_field(data, le).clone();
    assert_eq!(first.value, Value::Short(vec![20]));
    // a second read, even against a scribbled buffer and the opposite
    // byte order, returns the same bits
    let junk = vec![0xffu8; data.len()];
    let second = parser.entries[0].ref_field(&junk, !le).clone();
    assert_eq!(first, second);
}

// A directory whose trailing next-offset is cut short is a structural
// fault of its own kind.
#[test]
fn truncated_next_offset() {
    let data = b"MM\0\x2a\0\0\0\x08\0\0\0\0\0";
    assert_eq!(parse_exif(data).unwrap_err(), Error::TruncatedNextOffset);
}

#[test]
fn tiff_signatures() {
    assert!(is_tiff(b"MM\x00\x2a"));
    assert!(is_tiff(b"II\x2a\x00 more"));
    assert!(!is_tiff(b"MM\x2a\x00"));
    assert!(!is_tiff(b"MM\x00"));
    // the signature gate: too short, then an unknown byte order
    assert_eq!(parse_exif(b"MM\0\x2a\0\0\0").unwrap_err(), Error::TruncatedHeader);
    assert_eq!(parse_exif(b"XX\0\x2a\0\0\0\x08").unwrap_err(), Error::InvalidByteOrder);
    assert_eq!(parse_exif(b"MM\0\x2b\0\0\0\x08").unwrap_err(), Error::InvalidFortyTwo);
}

// Removing trailing bytes from a well-formed stream that reads its very
// last byte must always fail, never crash.
#[test]
fn every_prefix_fails() {
    // little-endian variant with an out-of-line LONG value at the end
    let data = b"II\x2a\x00\x08\x00\x00\x00\
                 \x01\x00\x01\x01\x04\x00\x02\x00\x00\x00\x1a\x00\x00\x00\
                 \x00\x00\x00\x00\
                 \x01\x00\x00\x00\x02\x00\x00\x00"
        .to_vec();
    let (v, le) = parse_exif(&data).unwrap();
    assert!(le);
    assert_eq!(v[0].value, Value::Long(vec![1, 2]));
    let mut data = data;
    while let Some(_) = data.pop() {
        parse_exif(&data).unwrap_err();
    }
}
