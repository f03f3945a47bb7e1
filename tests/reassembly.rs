use sailstats::message::{Message, N2kFromRaw, N2kMessageErr};
use sailstats::messages::{MessageValue, PgnKind};
use sailstats::parser::{NMEA2000Error, Parser};
use sailstats::yd::YDRaw;

const GNSS_ID: u32 = 0x0DF80503;

fn line(id: u32, data: &[u8]) -> String {
    let mut s = format!("17:33:21.141 R {:08X}", id);
    for b in data {
        s.push_str(&format!(" {:02X}", b));
    }
    s
}

fn gnss_payload(lat: i64, lon: i64) -> [u8; 43] {
    let mut p = [0u8; 43];
    for (i, b) in p.iter_mut().enumerate() {
        *b = i as u8 + 1;
    }
    p[7..15].copy_from_slice(&lat.to_le_bytes());
    p[15..23].copy_from_slice(&lon.to_le_bytes());
    p
}

fn gnss_frames(counter: u8, p: &[u8; 43]) -> Vec<String> {
    let mut frames = Vec::new();
    let mut first = vec![counter, 43];
    first.extend_from_slice(&p[0..6]);
    frames.push(line(GNSS_ID, &first));
    let mut k: u8 = 1;
    let mut at = 6;
    while at < 43 {
        let mut f = vec![counter | k];
        for i in 0..7 {
            f.push(if at + i < 43 { p[at + i] } else { 0xFF });
        }
        frames.push(line(GNSS_ID, &f));
        at += 7;
        k += 1;
    }
    frames
}

#[test]
fn single_frame_message_completes_at_once() {
    let mut parser = Parser::new();
    let m = parser
        .parse("17:33:21.141 R 09FD0205 FF 7D E6 18 C0 05 FB D5")
        .unwrap()
        .unwrap();
    assert_eq!(m.kind, PgnKind::Wind);
    assert_eq!(m.data, vec![0xFF, 0x7D, 0xE6, 0x18, 0xC0, 0x05, 0xFB, 0xD5]);
    assert_eq!(m.remaining_bytes, 0);
    assert_eq!(m.src, 5);
    assert!(!parser.is_pending(5, 130306));
}

#[test]
fn short_single_frame_message_keeps_catalogue_length() {
    let mut parser = Parser::new();
    let m = parser
        .parse("10:00:00.000 R 09F11307 00 10 00 00 00 AA BB CC")
        .unwrap()
        .unwrap();
    assert_eq!(m.kind, PgnKind::RateOfTurn);
    assert_eq!(m.data.len(), 5);
    assert_eq!(m.data, vec![0x00, 0x10, 0x00, 0x00, 0x00]);
    assert_eq!(m.values()[0], MessageValue::RateOfTurn(16));
}

#[test]
fn unknown_pgn_is_ignored() {
    let mut parser = Parser::new();
    assert!(parser.parse("17:33:21.141 R 0CEA2301 00 EE 00 00 00 00 00 00").unwrap().is_none());
    assert!(!parser.is_pending(1, 0xEA00));
}

#[test]
fn line_errors_map_to_engine_errors() {
    let mut parser = Parser::new();
    assert_eq!(parser.parse("").unwrap_err(), NMEA2000Error::RawFormatError);
    assert_eq!(parser.parse("17:33:21.141 Q 09FD0205").unwrap_err(), NMEA2000Error::RawFormatError);
    assert_eq!(parser.parse("aa:33:21.141 R 09FD0205").unwrap_err(), NMEA2000Error::ParseIntError);
    assert_eq!(parser.parse("17:33:21:141 R 09FD0205").unwrap_err(), NMEA2000Error::ParseFloatError);
}

#[test]
fn gnss_position_sequence_round_trip() {
    let lat: i64 = 471234567890123456;
    let lon: i64 = -1229876543210000000;
    let p = gnss_payload(lat, lon);
    let frames = gnss_frames(0x40, &p);
    assert_eq!(frames.len(), 7);
    let mut parser = Parser::new();
    for f in &frames[0..6] {
        assert!(parser.parse(f).unwrap().is_none());
        assert!(parser.is_pending(3, 129029));
    }
    let m = parser.parse(&frames[6]).unwrap().unwrap();
    assert!(!parser.is_pending(3, 129029));
    assert_eq!(m.data, p.to_vec());
    let v = m.values();
    assert_eq!(v[0], MessageValue::Latitude(lat));
    assert_eq!(v[1], MessageValue::Longitude(lon));
    if let (MessageValue::Latitude(a), MessageValue::Longitude(b)) = (v[0], v[1]) {
        assert!((a as f64 * 1e-16 - 47.123456789012345).abs() < 1e-9);
        assert!((b as f64 * 1e-16 + 122.987654321).abs() < 1e-9);
    }
}

#[test]
fn new_start_discards_partial_sequence() {
    let first = gnss_payload(1, 2);
    let second = gnss_payload(3, 4);
    let a = gnss_frames(0x20, &first);
    let b = gnss_frames(0x60, &second);
    let mut parser = Parser::new();
    assert!(parser.parse(&a[0]).unwrap().is_none());
    assert!(parser.parse(&a[1]).unwrap().is_none());
    assert!(parser.parse(&b[0]).unwrap().is_none());
    assert!(parser.is_pending(3, 129029));
    for f in &b[1..6] {
        assert!(parser.parse(f).unwrap().is_none());
    }
    let m = parser.parse(&b[6]).unwrap().unwrap();
    assert_eq!(m.data, second.to_vec());
    assert_eq!(m.counter_mask, 0x60);
}

#[test]
fn restart_right_after_start_matches_fresh_start() {
    let first = gnss_payload(1, 2);
    let second = gnss_payload(3, 4);
    let a = gnss_frames(0x20, &first);
    let b = gnss_frames(0x60, &second);
    let mut parser = Parser::new();
    assert!(parser.parse(&a[0]).unwrap().is_none());
    assert!(parser.parse(&b[0]).unwrap().is_none());
    let mut fresh = Message::new(PgnKind::GnssPositionData);
    fresh.from_raw(&YDRaw::from_str(&b[0]).unwrap()).unwrap();
    for f in &b[1..6] {
        assert!(parser.parse(f).unwrap().is_none());
    }
    let m = parser.parse(&b[6]).unwrap().unwrap();
    assert_eq!(m.timestamp, fresh.timestamp);
    assert_eq!(m.data[0..6].to_vec(), fresh.data);
}

#[test]
fn out_of_sequence_frame_drops_pending() {
    let p = gnss_payload(5, 6);
    let frames = gnss_frames(0x40, &p);
    let mut parser = Parser::new();
    assert!(parser.parse(&frames[0]).unwrap().is_none());
    assert!(parser.parse(&frames[1]).unwrap().is_none());
    // frame 3 where frame 2 is due
    assert!(parser.parse(&frames[3]).unwrap().is_none());
    assert!(!parser.is_pending(3, 129029));
    // the rest of the sequence is refused as well
    assert!(parser.parse(&frames[4]).unwrap().is_none());
    assert!(!parser.is_pending(3, 129029));
}

#[test]
fn continuation_without_start_is_refused() {
    let p = gnss_payload(5, 6);
    let frames = gnss_frames(0x40, &p);
    let mut parser = Parser::new();
    assert!(parser.parse(&frames[2]).unwrap().is_none());
    assert!(!parser.is_pending(3, 129029));
}

#[test]
fn wrong_length_first_frame_is_refused() {
    let mut parser = Parser::new();
    let l = line(GNSS_ID, &[0x40, 42, 1, 2, 3, 4, 5, 6]);
    assert!(parser.parse(&l).unwrap().is_none());
    assert!(!parser.is_pending(3, 129029));
}

#[test]
fn from_raw_reports_errors() {
    let mut m = Message::new(PgnKind::GnssPositionData);
    let bad_len = YDRaw::from_str(&line(GNSS_ID, &[0x40, 42, 1, 2, 3, 4, 5, 6])).unwrap();
    assert_eq!(m.from_raw(&bad_len), Err(N2kMessageErr::UnexpectedLength));
    assert_eq!(m.data.len(), 0);
    assert_eq!(m.remaining_bytes, 43);
    let cont = YDRaw::from_str(&line(GNSS_ID, &[0x41, 1, 2, 3, 4, 5, 6, 7])).unwrap();
    assert_eq!(m.from_raw(&cont), Err(N2kMessageErr::OutOfSequence));
    assert!(!m.is_complete());
}

#[test]
fn bookkeeping_holds_after_each_frame() {
    let p = gnss_payload(7, 8);
    let frames = gnss_frames(0xA0, &p);
    let mut m = Message::new(PgnKind::GnssPositionData);
    assert_eq!(m.data.len() + m.remaining_bytes, 43);
    for (i, f) in frames.iter().enumerate() {
        m.from_raw(&YDRaw::from_str(f).unwrap()).unwrap();
        assert_eq!(m.data.len() + m.remaining_bytes, 43);
        assert_eq!(m.next_packet as usize, i + 1);
    }
    assert!(m.is_complete());
    assert_eq!(m.data, p.to_vec());
}

#[test]
fn sources_are_reassembled_apart() {
    let p = gnss_payload(9, 10);
    let frames = gnss_frames(0x40, &p);
    let other: Vec<String> = frames.iter().map(|f| f.replace("0DF80503", "0DF80504")).collect();
    let mut parser = Parser::new();
    assert!(parser.parse(&frames[0]).unwrap().is_none());
    assert!(parser.parse(&other[0]).unwrap().is_none());
    assert!(parser.is_pending(3, 129029));
    assert!(parser.is_pending(4, 129029));
    for i in 1..6 {
        assert!(parser.parse(&frames[i]).unwrap().is_none());
        assert!(parser.parse(&other[i]).unwrap().is_none());
    }
    assert_eq!(parser.parse(&frames[6]).unwrap().unwrap().src, 3);
    assert_eq!(parser.parse(&other[6]).unwrap().unwrap().src, 4);
}

#[test]
fn catalogue_lookup() {
    assert_eq!(PgnKind::from_pgn(130306), Some(PgnKind::Wind));
    assert_eq!(PgnKind::from_pgn(127245), Some(PgnKind::Rudder));
    assert_eq!(PgnKind::from_pgn(126992), None);
    assert_eq!(PgnKind::GnssPositionData.bytes(), 43);
    assert!(PgnKind::GnssPositionData.is_fast());
    assert!(!PgnKind::Attitude.is_fast());
    assert_eq!(PgnKind::Attitude.bytes(), 7);
    assert_eq!(PgnKind::Speed.pgn(), 128259);
}

#[test]
fn malformed_time_separators_drop_the_line() {
    let mut parser = Parser::new();
    assert_eq!(
        parser.parse("17\u{e9}33:21.141 R 09FD0205 FF 7D E6 18 C0 05 FB D5").unwrap_err(),
        NMEA2000Error::RawFormatError
    );
    assert!(parser.parse("17:33:21.141 R 09FD0205 FF 7D E6 18 C0 05 FB D5").unwrap().is_some());
}
