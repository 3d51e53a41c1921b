use exifcore::gps::Direction;
use exifcore::tags::Tag;

#[test]
fn tag_parse_and_get() {
    let tag = Tag::new().parse("Make : NIKON\nCamera Model Name: Z 6\nno colon line\nISO: 64\r\n");
    assert_eq!(tag.entries.len(), 3);
    assert_eq!(tag.entries[0], ("Make".to_string(), "NIKON".to_string()));
    assert_eq!(tag.get("Make").unwrap(), "NIKON");
    assert_eq!(tag.get("Camera Model Name").unwrap(), "Z 6");
    assert_eq!(tag.get("ISO").unwrap(), "64");
    assert!(tag.get("Flash").is_none());
    // the last line with a key wins
    let tag = tag.parse("Make: CANON");
    assert_eq!(tag.get("Make").unwrap(), "CANON");
    assert_eq!(tag.entries.len(), 4);
}

#[test]
fn tag_parse_colon_in_value() {
    let tag = Tag::new().parse("Date/Time Original: 2016:05:04 03:02:01");
    assert_eq!(tag.get("Date/Time Original").unwrap(), "2016:05:04 03:02:01");
}

#[test]
fn pack_tags_json() {
    let tag = Tag::new().parse("Make: NIKON\nISO: 64");
    let json = tag.pack_tags().unwrap();
    // the packed text is valid JSON holding exactly the present rows,
    // in catalogue order
    let v: serde_json::Value = serde_json::from_str(&json).unwrap();
    let arr = v.as_array().unwrap();
    assert_eq!(arr.len(), 2);
    assert_eq!(arr[0]["first"], "相机制造商");
    assert_eq!(arr[0]["second"], "NIKON");
    assert_eq!(arr[1]["first"], "ISO 感光度");
    assert_eq!(arr[1]["second"], "64");
}

#[test]
fn pack_tags_escaping() {
    let tag = Tag::new().parse("Make: quo\"te\\back");
    let json = tag.pack_tags().unwrap();
    let v: serde_json::Value = serde_json::from_str(&json).unwrap();
    assert_eq!(v[0]["second"], "quo\"te\\back");
}

#[test]
fn pack_front_tags_json() {
    let tag = Tag::new().parse(
        "Make: NIKON\nFocal Length: 35.0 mm\nFocal Length In 35mm Format: 52 mm\n\
         GPS Latitude: 31 deg 13' 26.00\"\nGPS Latitude Ref: North\nGPS Altitude: 6 m",
    );
    let json = tag.pack_front_tags().unwrap();
    let v: serde_json::Value = serde_json::from_str(&json).unwrap();
    let arr = v.as_array().unwrap();
    // Make and the plain focal length from the basic rows, then the
    // combined focal length, then the GPS summary
    assert_eq!(arr.len(), 4);
    assert_eq!(arr[0]["first"], "相机制造商");
    assert_eq!(arr[1]["first"], "焦距");
    assert_eq!(arr[1]["second"], "35.0 mm");
    assert_eq!(arr[2]["first"], "焦距");
    assert_eq!(arr[2]["second"], "35.0 mm, 等效焦距: 52 mm");
    assert_eq!(arr[3]["first"], "GPS 信息");
    assert_eq!(arr[3]["second"], "N 31 deg 13' 26.00\",,6 m");
}

#[test]
fn gps_summary() {
    let tag = Tag::new().parse(
        "GPS Latitude: 31 deg 13' 26.00\"\nGPS Latitude Ref: North\n\
         GPS Longitude: 121 deg 28' 1.00\"\nGPS Longitude Ref: E\nGPS Altitude: 6 m",
    );
    assert_eq!(
        tag.parse_gps_tags().unwrap(),
        "N 31 deg 13' 26.00\",E 121 deg 28' 1.00\",6 m"
    );
    // absent coordinates leave their parts empty
    let empty = Tag::new();
    assert_eq!(empty.parse_gps_tags().unwrap(), ",,");
}

#[test]
fn direction_from_str() {
    assert_eq!(Direction::from_str("North"), Some(Direction::North));
    assert_eq!(Direction::from_str("  south "), Some(Direction::South));
    assert_eq!(Direction::from_str("E"), Some(Direction::East));
    assert_eq!(Direction::from_str("w"), Some(Direction::West));
    assert_eq!(Direction::from_str("WEST"), Some(Direction::West));
    assert_eq!(Direction::from_str("northwest"), None);
    assert_eq!(Direction::from_str(""), None);
    assert_eq!(Direction::North.letter(), "N");
    assert_eq!(Direction::South.letter(), "S");
    assert_eq!(Direction::East.letter(), "E");
    assert_eq!(Direction::West.letter(), "W");
}

#[test]
fn pack_object_runs() {
    let tag = Tag::new().parse("Make: NIKON\nOffset Time: +08:00");
    let _exif = tag.pack_object();
}
