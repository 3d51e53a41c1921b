use exifcore::datetime::DateTime;
use exifcore::error::Error;

#[test]
fn date_time() {
    let mut dt = DateTime::from_ascii(b"2016:05:04 03:02:01").unwrap();
    assert_eq!(dt.year, 2016);
    assert_eq!(dt.display_string(), "2016-05-04 03:02:01");

    dt.parse_subsec(b"987").unwrap();
    assert_eq!(dt.nanosecond.unwrap(), 987000000);
    dt.parse_subsec(b"000987").unwrap();
    assert_eq!(dt.nanosecond.unwrap(), 987000);
    dt.parse_subsec(b"987654321").unwrap();
    assert_eq!(dt.nanosecond.unwrap(), 987654321);
    dt.parse_subsec(b"9876543219").unwrap();
    assert_eq!(dt.nanosecond.unwrap(), 987654321);
    dt.parse_subsec(b"130   ").unwrap();
    assert_eq!(dt.nanosecond.unwrap(), 130000000);
    dt.parse_subsec(b"0").unwrap();
    assert_eq!(dt.nanosecond.unwrap(), 0);
    dt.parse_subsec(b"").unwrap();
    assert!(dt.nanosecond.is_none());
    dt.parse_subsec(b" ").unwrap();
    assert!(dt.nanosecond.is_none());

    dt.parse_offset(b"+00:00").unwrap();
    assert_eq!(dt.offset.unwrap(), 0);
    dt.parse_offset(b"+01:23").unwrap();
    assert_eq!(dt.offset.unwrap(), 83);
    dt.parse_offset(b"+99:99").unwrap();
    assert_eq!(dt.offset.unwrap(), 6039);
    dt.parse_offset(b"-01:23").unwrap();
    assert_eq!(dt.offset.unwrap(), -83);
    dt.parse_offset(b"-99:99").unwrap();
    assert_eq!(dt.offset.unwrap(), -6039);
    assert_eq!(dt.parse_offset(b"   :  ").unwrap_err(), Error::BlankOffsetTime);
    assert_eq!(dt.parse_offset(b"      ").unwrap_err(), Error::BlankOffsetTime);
}

#[test]
fn date_time_padding() {
    let dt = DateTime::from_ascii(b"0001:02:03 04:05:06").unwrap();
    assert_eq!(dt.year, 1);
    assert_eq!(dt.month, 2);
    assert_eq!(dt.second, 6);
    assert_eq!(dt.display_string(), "0001-02-03 04:05:06");
}

#[test]
fn date_time_errors() {
    assert_eq!(
        DateTime::from_ascii(b"    :  :     :  :  ").unwrap_err(),
        Error::BlankDateTime
    );
    assert_eq!(
        DateTime::from_ascii(b"                   ").unwrap_err(),
        Error::BlankDateTime
    );
    assert_eq!(
        DateTime::from_ascii(b"2016:05:04").unwrap_err(),
        Error::DateTimeTooShort
    );
    assert_eq!(
        DateTime::from_ascii(b"2016-05-04 03:02:01").unwrap_err(),
        Error::InvalidDateTimeDelimiter
    );
    assert_eq!(
        DateTime::from_ascii(b"201x:05:04 03:02:01").unwrap_err(),
        Error::NotANumber
    );
    let mut dt = DateTime::from_ascii(b"2016:05:04 03:02:01").unwrap();
    assert_eq!(dt.parse_subsec(b"12a").unwrap_err(), Error::NotANumber);
    assert_eq!(dt.parse_offset(b"+00-00").unwrap_err(), Error::InvalidOffsetTimeDelimiter);
    assert_eq!(dt.parse_offset(b"+00:0").unwrap_err(), Error::OffsetTimeTooShort);
    assert_eq!(dt.parse_offset(b"*00:00").unwrap_err(), Error::InvalidOffsetTimeSign);
}
