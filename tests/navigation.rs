use sailstats::messages::{MessageValue, PgnKind};
use sailstats::parser::Parser;
use sailstats::report::ChangeReporter;
use sailstats::state::{to_date_time, State, RUDDER_LIMIT};
use sailstats::types::Timestamp;

fn rudder_line(raw: i16) -> String {
    let b = raw.to_le_bytes();
    format!("08:00:01.500 R 09F10D07 00 FF FF FF {:02X} {:02X} FF FF", b[0], b[1])
}

#[test]
fn new_state_is_zero() {
    let s = State::new(true);
    assert_eq!(s.timestamp, Timestamp::zero());
    assert_eq!(s.awa, 0);
    assert_eq!(s.latitude, 0);
    assert_eq!(s.rudder_angle, 0);
    assert!(s.nmea_date);
    assert!(!s.got_nmea_date);
}

#[test]
fn headline_lists_fields() {
    assert_eq!(
        State::headline(),
        "time;awa;aws;latitude;longitude;hdg;cog;sog;stw;rot;pitch;yaw;roll;rudder_angle"
    );
}

#[test]
fn wind_line_updates_state_in_one_step() {
    let mut parser = Parser::new();
    let mut state = State::new(false);
    let m = parser
        .parse("17:33:21.141 R 09FD0205 FF 7D E6 18 C0 05 FB D5")
        .unwrap()
        .unwrap();
    state.update(&m);
    assert_eq!(state.aws, 59005);
    assert_eq!(state.awa, 49176);
    assert_eq!(state.timestamp, Timestamp { hour: 17, minute: 33, millis: 21141 });
    assert_eq!(state.latitude, 0);
}

#[test]
fn position_line_updates_state_in_one_step() {
    let mut parser = Parser::new();
    let mut state = State::new(false);
    let m = parser
        .parse("17:33:21.141 R 09F80115 A0 7D E6 18 C0 05 FB D5")
        .unwrap()
        .unwrap();
    assert_eq!(m.kind.pgn(), 129025);
    state.update(&m);
    assert_eq!(state.latitude, 417758624 * 1_000_000_000);
    assert_eq!(state.longitude, -704969280 * 1_000_000_000);
    assert_eq!(state.timestamp, Timestamp { hour: 17, minute: 33, millis: 21141 });
    assert_eq!(state.awa, 0);
    assert!((state.latitude as f64 * 1e-16 - 41.7758624).abs() < 1e-9);
}

#[test]
fn implausible_rudder_angle_is_ignored() {
    let mut parser = Parser::new();
    let mut state = State::new(false);
    let m = parser.parse(&rudder_line(1234)).unwrap().unwrap();
    state.update(&m);
    assert_eq!(state.rudder_angle, 1234);
    // pi + 0.0001 rad
    let m = parser.parse(&rudder_line(31417)).unwrap().unwrap();
    state.update(&m);
    assert_eq!(state.rudder_angle, 1234);
    assert_eq!(state.timestamp, Timestamp { hour: 8, minute: 0, millis: 1500 });
    let m = parser.parse(&rudder_line(31416)).unwrap().unwrap();
    state.update(&m);
    assert_eq!(state.rudder_angle, 1234);
    let m = parser.parse(&rudder_line(0)).unwrap().unwrap();
    state.update(&m);
    assert_eq!(state.rudder_angle, 0);
    assert_eq!(state.rudder_angle as f64 * 1e-4 * 180.0 / std::f64::consts::PI, 0.0);
    let m = parser.parse(&rudder_line(-RUDDER_LIMIT)).unwrap().unwrap();
    state.update(&m);
    assert_eq!(state.rudder_angle, -31415);
    assert!((-31415.0f64 * 1e-4) >= -std::f64::consts::PI);
    assert!((31416.0f64 * 1e-4) > std::f64::consts::PI);
}

#[test]
fn attitude_heading_and_speeds() {
    let mut parser = Parser::new();
    let mut state = State::new(false);
    for l in [
        "12:00:00.000 R 09F11907 00 10 27 F0 D8 01 00 FF",
        "12:00:00.100 R 09F11207 00 39 30 00 00 00 00 FC",
        "12:00:00.200 R 09F80203 00 FC 10 27 F4 01 FF FF",
        "12:00:00.300 R 09F50323 00 2C 01 FF FF FF FF FF",
    ] {
        let m = parser.parse(l).unwrap().unwrap();
        state.update(&m);
    }
    assert_eq!(state.yaw, 10000);
    assert_eq!(state.pitch, -10000);
    assert_eq!(state.roll, 1);
    assert_eq!(state.hdg, 12345);
    assert_eq!(state.cog, 10000);
    assert_eq!(state.sog, 500);
    assert_eq!(state.stw, 300);
    assert_eq!(state.timestamp, Timestamp { hour: 12, minute: 0, millis: 300 });
}

#[test]
fn values_of_attitude_message() {
    let mut parser = Parser::new();
    let m = parser
        .parse("12:00:00.000 R 09F11907 00 10 27 F0 D8 01 00 FF")
        .unwrap()
        .unwrap();
    assert_eq!(m.kind, PgnKind::Attitude);
    assert_eq!(m.data.len(), 7);
    assert_eq!(
        m.values(),
        vec![
            MessageValue::Yaw(10000),
            MessageValue::Pitch(-10000),
            MessageValue::Roll(1),
            MessageValue::Timestamp(Timestamp { hour: 12, minute: 0, millis: 0 }),
        ]
    );
}

#[test]
fn bus_date_values() {
    let mut state = State::new(true);
    state.merge_values(&vec![MessageValue::Date(19000), MessageValue::Time(36_000_000)]);
    assert!(!state.got_nmea_date);
    state.apply(MessageValue::LocalOffset(-90));
    assert!(state.got_nmea_date);
    assert_eq!(state.date_time(), 19000 * 86400 + 3600 - 90 * 60);
    assert_eq!(to_date_time(1, 10_000, 1), 86400 + 1 + 60);
    assert_eq!(to_date_time(65535, 864_000_000, -32768), 65535 * 86400 + 86400 - 32768 * 60);
}

#[test]
fn unchanged_state_is_reported_once() {
    let t0 = Timestamp::zero();
    let t1 = Timestamp { hour: 1, minute: 2, millis: 3 };
    let mut r = ChangeReporter::new(t0, true);
    assert!(!r.tick(t0));
    assert!(r.tick(t1));
    assert!(!r.tick(t1));
    assert!(!r.tick(t1));
    let mut always = ChangeReporter::new(t0, false);
    assert!(always.tick(t0));
    assert!(always.tick(t0));
}
