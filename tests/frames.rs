use sailstats::types::Timestamp;
use sailstats::yd::{YDRaw, YDRawDirection, YDRawParseError};

#[test]
fn parses_wind_frame() {
    let raw = YDRaw::from_str("17:33:21.141 R 09FD0205 FF 7D E6 18 C0 05 FB D5").unwrap();
    assert_eq!(raw.timestamp, Timestamp { hour: 17, minute: 33, millis: 21141 });
    assert_eq!(raw.direction, YDRawDirection::Received);
    assert_eq!(raw.msgid, 0x09FD0205);
    assert_eq!(raw.data, [0xFF, 0x7D, 0xE6, 0x18, 0xC0, 0x05, 0xFB, 0xD5]);
    assert_eq!(raw.pgn, 130306);
    assert_eq!(raw.prio, 2);
    assert_eq!(raw.src, 5);
    assert_eq!(raw.dest, 0xFF);
}

#[test]
fn parses_broadcast_identifier() {
    let raw = YDRaw::from_str("17:33:21.141 R 09F80115 A0 7D E6 18 C0 05 FB D5").unwrap();
    assert_eq!(raw.pgn, 129025);
    assert_eq!(raw.prio, 2);
    assert_eq!(raw.src, 0x15);
    assert_eq!(raw.dest, 0xFF);
}

#[test]
fn parses_peer_to_peer_identifier() {
    let raw = YDRaw::from_str("00:00:00.000 T 0CEA2301 00 EE 00 00 00 00 00 00").unwrap();
    assert_eq!(raw.direction, YDRawDirection::Transmitted);
    assert_eq!(raw.pgn, 0xEA00);
    assert_eq!(raw.dest, 0x23);
    assert_eq!(raw.src, 0x01);
    assert_eq!(raw.prio, 3);
}

#[test]
fn header_of_identifier() {
    assert_eq!(YDRaw::header(0x09FD0205), (2, 130306, 5, 0xFF));
    assert_eq!(YDRaw::header(0x0DF80503), (3, 129029, 3, 0xFF));
    assert_eq!(YDRaw::header(0x18EAFF00), (6, 0xEA00, 0, 0xFF));
}

#[test]
fn missing_data_bytes_are_zero_and_extra_ignored() {
    let raw = YDRaw::from_str("  01:02:03.004   R 09F80115 01 2\t").unwrap();
    assert_eq!(raw.timestamp, Timestamp { hour: 1, minute: 2, millis: 3004 });
    assert_eq!(raw.data, [1, 2, 0, 0, 0, 0, 0, 0]);
    let raw = YDRaw::from_str("01:02:03.004 R 09f80115 1 2 3 4 5 6 7 8 zz").unwrap();
    assert_eq!(raw.data, [1, 2, 3, 4, 5, 6, 7, 8]);
    assert_eq!(raw.pgn, 129025);
}

#[test]
fn line_errors() {
    assert!(matches!(YDRaw::from_str(""), Err(YDRawParseError::IteratorError)));
    assert!(matches!(YDRaw::from_str("   "), Err(YDRawParseError::IteratorError)));
    assert!(matches!(YDRaw::from_str("x7:33:21.141 R 09F80115"), Err(YDRawParseError::IntegerError)));
    assert!(matches!(YDRaw::from_str("17:3"), Err(YDRawParseError::IntegerError)));
    assert!(matches!(YDRaw::from_str("17:33:21,141 R 09F80115"), Err(YDRawParseError::FloatError)));
    assert!(matches!(YDRaw::from_str("17:33:21.1"), Err(YDRawParseError::FloatError)));
    assert!(matches!(YDRaw::from_str("17:33:21.141"), Err(YDRawParseError::IteratorError)));
    assert!(matches!(YDRaw::from_str("17:33:21.141 X 09F80115"), Err(YDRawParseError::InvalidField)));
    assert!(matches!(YDRaw::from_str("17:33:21.141 RT 09F80115"), Err(YDRawParseError::InvalidField)));
    assert!(matches!(YDRaw::from_str("17:33:21.141 R"), Err(YDRawParseError::IteratorError)));
    assert!(matches!(YDRaw::from_str("17:33:21.141 R 09G80115"), Err(YDRawParseError::IntegerError)));
    assert!(matches!(YDRaw::from_str("17:33:21.141 R 109F80115"), Err(YDRawParseError::IntegerError)));
    assert!(matches!(YDRaw::from_str("17:33:21.141 R 09F80115 01 100"), Err(YDRawParseError::IntegerError)));
    assert!(matches!(YDRaw::from_str("17:33:21.141 R 09F80115 01 0x"), Err(YDRawParseError::IntegerError)));
}

#[test]
fn identifier_with_leading_zeros_fits() {
    let raw = YDRaw::from_str("17:33:21.141 R 00FFFFFFFF").unwrap();
    assert_eq!(raw.msgid, 0xFFFF_FFFF);
    assert_eq!(raw.data, [0; 8]);
}

#[test]
fn error_descriptions() {
    assert_eq!(YDRawParseError::IteratorError.describe(), "Empty Iterator.");
    assert_eq!(YDRawParseError::InvalidField.describe(), "Invalid input.");
    assert_eq!(YDRawParseError::IntegerError.describe(), "Invalid integer.");
    assert_eq!(YDRawParseError::FloatError.describe(), "Invalid seconds.");
}

#[test]
fn frame_to_line() {
    let l = "17:33:21.141 R 09FD0205 FF 7D E6 18 C0 05 FB D5";
    assert_eq!(YDRaw::from_str(l).unwrap().to_line(), l);
    let raw = YDRaw::from_str("01:02:03.004 T 1 a 0b").unwrap();
    assert_eq!(raw.to_line(), "01:02:03.004 T 00000001 0A 0B 00 00 00 00 00 00");
}

#[test]
fn frame_text_round_trip() {
    let raw = YDRaw::from_str("23:59:59.999 T 1CEA23FE 00 ee 00 01 02 03 04 05").unwrap();
    let again = YDRaw::from_str(&raw.to_line()).unwrap();
    assert_eq!(again.timestamp, raw.timestamp);
    assert_eq!(again.direction, raw.direction);
    assert_eq!(again.msgid, raw.msgid);
    assert_eq!(again.data, raw.data);
    assert_eq!((again.prio, again.pgn, again.src, again.dest), (raw.prio, raw.pgn, raw.src, raw.dest));
}

#[test]
fn unicode_whitespace_separates_fields() {
    let raw = YDRaw::from_str("17:33:21.141\u{00A0}R\u{3000}09F80115\u{2009}01\u{85}02").unwrap();
    assert_eq!(raw.pgn, 129025);
    assert_eq!(raw.data, [1, 2, 0, 0, 0, 0, 0, 0]);
    assert!(matches!(YDRaw::from_str("17:33:21.141\u{200B}R"), Err(YDRawParseError::InvalidField)));
}

#[test]
fn time_field_must_be_exact() {
    assert!(matches!(YDRaw::from_str("17\u{e9}33:21.141 R 0"), Err(YDRawParseError::InvalidField)));
    assert!(matches!(YDRaw::from_str("17:33-21.141 R 0"), Err(YDRawParseError::InvalidField)));
    assert!(matches!(YDRaw::from_str("17:33:21.1415 R 0"), Err(YDRawParseError::InvalidField)));
    assert!(matches!(YDRaw::from_str("17:33:21.141x R 0"), Err(YDRawParseError::InvalidField)));
    assert!(YDRaw::from_str("17:33:21.141 R 0").is_ok());
}
