//! Frames in the Yacht Devices raw text format:
//!
//! `hh:mm:ss.ddd D msgid b0 b1 b2 b3 b4 b5 b6 b7`
//!
//! where `D` is `R` (received from the bus) or `T` (transmitted to it), `msgid` is
//! the 29-bit CAN identifier in hexadecimal and `b0`..`b7` the data bytes in
//! hexadecimal. Priority, PGN, source and destination are derived from `msgid`
//! following ISO 11783.
use vstd::prelude::*;
use crate::types::{Timestamp, TPgn, TPrio, TSrc, TDest};
use crate::text::{
    digit_char, fields, field_views, hex_number, hex_value, lemma_fields_join, lemma_fields_word,
    lemma_padded_digits, no_space, padded_digits, parse_hex, push_char, push_padded, split_fields,
};

verus! {

broadcast use vstd::array::group_array_axioms;

/// Whether a frame was received from the bus or transmitted to it.
#[derive(Clone, Copy, Debug, PartialEq, Eq, Structural)]
pub enum YDRawDirection {
    Received,
    Transmitted,
}

/// Why a line is not a frame.
#[derive(Clone, Copy, Debug, PartialEq, Eq, Structural)]
pub enum YDRawParseError {
    /// The hour, the minute, the identifier or a data byte is not a number.
    IntegerError,
    /// The seconds are not of the form `ss.ddd`.
    FloatError,
    /// The time, the direction or the identifier is missing.
    IteratorError,
    /// The direction is neither `R` nor `T`, or the time is not of the form
    /// `hh:mm:ss.ddd`.
    InvalidField,
}

impl YDRawParseError {
    /// A short description of the error.
    pub fn describe(&self) -> (r: &'static str)
        ensures
            r@ == match self {
                YDRawParseError::IntegerError => "Invalid integer."@,
                YDRawParseError::FloatError => "Invalid seconds."@,
                YDRawParseError::IteratorError => "Empty Iterator."@,
                YDRawParseError::InvalidField => "Invalid input."@,
            },
    {
        match self {
            YDRawParseError::IntegerError => "Invalid integer.",
            YDRawParseError::FloatError => "Invalid seconds.",
            YDRawParseError::IteratorError => "Empty Iterator.",
            YDRawParseError::InvalidField => "Invalid input.",
        }
    }
}

/// What the reassembly of a message reads of a frame.
pub struct FrameView {
    pub timestamp: Timestamp,
    pub prio: TPrio,
    pub pgn: TPgn,
    pub src: TSrc,
    pub dest: TDest,
    pub data: Seq<u8>,
}

/// One frame: the parsed fields and the values derived from the identifier.
#[derive(Clone, Copy, Debug)]
pub struct YDRaw {
    pub timestamp: Timestamp,
    pub direction: YDRawDirection,
    pub msgid: u32,
    pub data: [u8; 8],
    pub prio: TPrio,
    pub pgn: TPgn,
    pub src: TSrc,
    pub dest: TDest,
}

/// Frames as Yacht Devices gateways write them use the same format.
pub type YDWGRaw = YDRaw;

pub type YDWGDirection = YDRawDirection;

pub type YDWGParseError = YDRawParseError;

impl View for YDRaw {
    type V = FrameView;

    open spec fn view(&self) -> FrameView {
        FrameView {
            timestamp: self.timestamp,
            prio: self.prio,
            pgn: self.pgn,
            src: self.src,
            dest: self.dest,
            data: self.data@,
        }
    }
}

/// Priority: bits 26 to 28 of the identifier.
pub open spec fn prio_of(id: u32) -> u8 {
    ((id >> 26u32) & 7u32) as u8
}

/// PDU format byte: bits 16 to 23.
pub open spec fn pf_of(id: u32) -> u8 {
    ((id >> 16u32) & 0xFFu32) as u8
}

/// PDU specific byte: bits 8 to 15.
pub open spec fn ps_of(id: u32) -> u8 {
    ((id >> 8u32) & 0xFFu32) as u8
}

/// Reserved and data page bits: bits 24 and 25.
pub open spec fn rdp_of(id: u32) -> u32 {
    (id >> 24u32) & 3u32
}

/// Source address: the low byte.
pub open spec fn src_of(id: u32) -> u8 {
    (id & 0xFFu32) as u8
}

/// The PGN: without the PDU specific byte for a peer-to-peer format (`pf < 240`),
/// with it for a broadcast one.
pub open spec fn pgn_of(id: u32) -> u32 {
    if pf_of(id) < 240 {
        (rdp_of(id) << 16u32) | ((pf_of(id) as u32) << 8u32)
    } else {
        (rdp_of(id) << 16u32) | ((pf_of(id) as u32) << 8u32) | (ps_of(id) as u32)
    }
}

/// The destination: the PDU specific byte for a peer-to-peer format, else broadcast.
pub open spec fn dest_of(id: u32) -> u8 {
    if pf_of(id) < 240 {
        ps_of(id)
    } else {
        0xFF
    }
}

/// The frame that a time, an identifier and data bytes make.
pub open spec fn frame_of(timestamp: Timestamp, id: u32, data: Seq<u8>) -> FrameView {
    FrameView {
        timestamp,
        prio: prio_of(id),
        pgn: pgn_of(id),
        src: src_of(id),
        dest: dest_of(id),
        data,
    }
}

pub open spec fn is_digit_at(t: Seq<char>, k: int) -> bool {
    0 <= k < t.len() && 48 <= t[k] as u32 <= 57
}

pub open spec fn digit_at(t: Seq<char>, k: int) -> int {
    t[k] as u32 - 48
}

/// Two decimal digits at positions `a` and `a + 1` of the time field.
pub open spec fn two_digits(t: Seq<char>, a: int) -> Option<u8> {
    if is_digit_at(t, a) && is_digit_at(t, a + 1) {
        Some((digit_at(t, a) * 10 + digit_at(t, a + 1)) as u8)
    } else {
        None
    }
}

/// The seconds `ss.ddd` at positions 6 to 11 of the time field, in thousandths.
pub open spec fn seconds_millis(t: Seq<char>) -> Option<u32> {
    if is_digit_at(t, 6) && is_digit_at(t, 7) && t.len() > 8 && t[8] == '.' && is_digit_at(t, 9)
        && is_digit_at(t, 10) && is_digit_at(t, 11) {
        Some(
            (digit_at(t, 6) * 10000 + digit_at(t, 7) * 1000 + digit_at(t, 9) * 100 + digit_at(t, 10)
                * 10 + digit_at(t, 11)) as u32,
        )
    } else {
        None
    }
}

/// The time field is exactly `hh:mm:ss.ddd` long, with `:` after the hour
/// and after the minute.
pub open spec fn time_separators(t: Seq<char>) -> bool {
    t.len() == 12 && t[2] == ':' && t[5] == ':'
}

pub open spec fn direction_of(t: Seq<char>) -> Option<YDRawDirection> {
    if t == seq!['R'] {
        Some(YDRawDirection::Received)
    } else if t == seq!['T'] {
        Some(YDRawDirection::Transmitted)
    } else {
        None
    }
}

/// The eight data bytes: those of the fields after the identifier, at most
/// eight of them, and zero where fewer are given.
pub open spec fn data_bytes(f: Seq<Seq<char>>) -> Seq<u8> {
    Seq::new(8, |k: int| if 3 + k < f.len() { hex_value(f[3 + k]) as u8 } else { 0u8 })
}

/// Some data field among the first eight is not a hexadecimal byte.
pub open spec fn bad_data_field(f: Seq<Seq<char>>) -> bool {
    exists|k: int| 0 <= k < 8 && 3 + k < f.len() && #[trigger] hex_number(f[3 + k], 255) is None
}

/// What a line holds: time, direction, identifier and data bytes, or the first
/// error met when the fields are read in order.
pub open spec fn line_fields(s: Seq<char>) -> Result<
    (Timestamp, YDRawDirection, u32, Seq<u8>),
    YDRawParseError,
> {
    let f = fields(s);
    if f.len() < 1 {
        Err(YDRawParseError::IteratorError)
    } else if two_digits(f[0], 0) is None || two_digits(f[0], 3) is None {
        Err(YDRawParseError::IntegerError)
    } else if seconds_millis(f[0]) is None {
        Err(YDRawParseError::FloatError)
    } else if !time_separators(f[0]) {
        Err(YDRawParseError::InvalidField)
    } else if f.len() < 2 {
        Err(YDRawParseError::IteratorError)
    } else if direction_of(f[1]) is None {
        Err(YDRawParseError::InvalidField)
    } else if f.len() < 3 {
        Err(YDRawParseError::IteratorError)
    } else if hex_number(f[2], 0xFFFF_FFFF) is None {
        Err(YDRawParseError::IntegerError)
    } else if bad_data_field(f) {
        Err(YDRawParseError::IntegerError)
    } else {
        let ts = Timestamp {
            hour: two_digits(f[0], 0)->Some_0,
            minute: two_digits(f[0], 3)->Some_0,
            millis: seconds_millis(f[0])->Some_0,
        };
        Ok((ts, direction_of(f[1])->Some_0, hex_value(f[2]) as u32, data_bytes(f)))
    }
}

/// The data bytes as text: each one as two upper-case hexadecimal digits,
/// after a space.
pub open spec fn bytes_text(d: Seq<u8>) -> Seq<char>
    decreases d.len(),
{
    if d.len() == 0 {
        seq![]
    } else {
        bytes_text(d.drop_last()) + seq![' '] + padded_digits(d.last() as nat, 16, 2)
    }
}

pub open spec fn direction_char(d: YDRawDirection) -> char {
    match d {
        YDRawDirection::Received => 'R',
        YDRawDirection::Transmitted => 'T',
    }
}

/// A time as text: two-digit hour, minute and seconds, and three-digit thousandths.
pub open spec fn time_text(ts: Timestamp) -> Seq<char> {
    padded_digits(ts.hour as nat, 10, 2) + seq![':'] + padded_digits(ts.minute as nat, 10, 2)
        + seq![':'] + padded_digits(ts.millis as nat / 1000, 10, 2) + seq!['.'] + padded_digits(
        ts.millis as nat % 1000,
        10,
        3,
    )
}

/// A frame in the raw format: time, direction, identifier as eight
/// hexadecimal digits, and the eight data bytes.
pub open spec fn line_of(raw: YDRaw) -> Seq<char> {
    time_text(raw.timestamp) + seq![' ', direction_char(raw.direction), ' '] + padded_digits(
        raw.msgid as nat,
        16,
        8,
    ) + bytes_text(raw.data@)
}

/// Each data byte as a field of two hexadecimal digits.
pub open spec fn hex_words(d: Seq<u8>) -> Seq<Seq<char>> {
    Seq::new(d.len(), |k: int| padded_digits(d[k] as nat, 16, 2))
}

proof fn lemma_bytes_text_fields(x: Seq<char>, d: Seq<u8>)
    ensures
        fields(x + bytes_text(d)) == fields(x) + hex_words(d),
    decreases d.len(),
{
    if d.len() == 0 {
        assert(x + bytes_text(d) =~= x);
        assert(fields(x) + hex_words(d) =~= fields(x));
    } else {
        let d2 = d.drop_last();
        let w = padded_digits(d.last() as nat, 16, 2);
        lemma_bytes_text_fields(x, d2);
        assert(x + bytes_text(d) =~= (x + bytes_text(d2)) + seq![' '] + w);
        lemma_fields_join(x + bytes_text(d2), w);
        lemma_padded_digits(d.last() as nat, 16, 2);
        lemma_fields_word(w);
        assert(fields(x) + hex_words(d2) + seq![w] =~= fields(x) + hex_words(d));
    }
}

proof fn lemma_two_digit_text(n: nat)
    requires
        n < 100,
    ensures
        padded_digits(n, 10, 2) == seq![digit_char(n / 10), digit_char(n % 10)],
{
    reveal_with_fuel(padded_digits, 3);
    assert(padded_digits(n / 10, 10, 1) == seq![digit_char(n / 10)]);
    assert(seq![digit_char(n / 10)].push(digit_char(n % 10)) =~= seq![
        digit_char(n / 10),
        digit_char(n % 10),
    ]);
}

proof fn lemma_three_digit_text(n: nat)
    requires
        n < 1000,
    ensures
        padded_digits(n, 10, 3) == seq![
            digit_char(n / 100),
            digit_char(n / 10 % 10),
            digit_char(n % 10),
        ],
{
    reveal_with_fuel(padded_digits, 3);
    lemma_two_digit_text(n / 10);
    assert(n / 10 / 10 == n / 100);
    assert(seq![digit_char(n / 100), digit_char(n / 10 % 10)].push(digit_char(n % 10)) =~= seq![
        digit_char(n / 100),
        digit_char(n / 10 % 10),
        digit_char(n % 10),
    ]);
}

proof fn lemma_decimal_char(d: nat)
    requires
        d < 10,
    ensures
        48 <= digit_char(d) as u32 <= 57,
        digit_char(d) as u32 - 48 == d,
        !crate::text::is_space(digit_char(d)),
{
}

/// Reading back a formatted frame gives its time, direction, identifier and
/// data bytes, for every time of at most two-digit hour, minute and seconds.
pub proof fn lemma_line_round_trip(raw: YDRaw)
    requires
        raw.timestamp.hour <= 99,
        raw.timestamp.minute <= 99,
        raw.timestamp.millis <= 99999,
    ensures
        line_fields(line_of(raw)) == Ok::<
            (Timestamp, YDRawDirection, u32, Seq<u8>),
            YDRawParseError,
        >((raw.timestamp, raw.direction, raw.msgid, raw.data@)),
{
    let ts = raw.timestamp;
    let h = ts.hour as nat;
    let m = ts.minute as nat;
    let sec = ts.millis as nat / 1000;
    let ms = ts.millis as nat % 1000;
    lemma_two_digit_text(h);
    lemma_two_digit_text(m);
    lemma_two_digit_text(sec);
    lemma_three_digit_text(ms);
    lemma_decimal_char(h / 10);
    lemma_decimal_char(h % 10);
    lemma_decimal_char(m / 10);
    lemma_decimal_char(m % 10);
    lemma_decimal_char(sec / 10);
    lemma_decimal_char(sec % 10);
    lemma_decimal_char(ms / 100);
    lemma_decimal_char(ms / 10 % 10);
    lemma_decimal_char(ms % 10);
    let t = time_text(ts);
    assert(t =~= seq![
        digit_char(h / 10),
        digit_char(h % 10),
        ':',
        digit_char(m / 10),
        digit_char(m % 10),
        ':',
        digit_char(sec / 10),
        digit_char(sec % 10),
        '.',
        digit_char(ms / 100),
        digit_char(ms / 10 % 10),
        digit_char(ms % 10),
    ]);
    assert(no_space(t));
    assert(time_separators(t));
    let dch = seq![direction_char(raw.direction)];
    let h8 = padded_digits(raw.msgid as nat, 16, 8);
    let d = raw.data@;
    let rest2 = h8 + bytes_text(d);
    let rest1 = dch + seq![' '] + rest2;
    assert(line_of(raw) =~= t + seq![' '] + rest1);
    lemma_fields_join(t, rest1);
    lemma_fields_join(dch, rest2);
    lemma_bytes_text_fields(h8, d);
    lemma_fields_word(t);
    assert(no_space(dch));
    lemma_fields_word(dch);
    lemma_padded_digits(raw.msgid as nat, 16, 8);
    lemma_fields_word(h8);
    let f = fields(line_of(raw));
    assert(f =~= seq![t, dch, h8] + hex_words(d));
    assert(two_digits(t, 0) == Some(ts.hour));
    assert(two_digits(t, 3) == Some(ts.minute));
    assert(seconds_millis(t) == Some(ts.millis));
    assert(direction_of(dch) == Some(raw.direction));
    assert(hex_number(h8, 0xFFFF_FFFF) == Some(raw.msgid as nat));
    assert forall|k: int| 0 <= k < 8 implies #[trigger] hex_number(f[3 + k], 255) == Some(
        d[k] as nat,
    ) by {
        assert(f[3 + k] == padded_digits(d[k] as nat, 16, 2));
        lemma_padded_digits(d[k] as nat, 16, 2);
    }
    assert(!bad_data_field(f));
    assert(d.len() == 8);
    assert forall|k: int| 0 <= k < 8 implies data_bytes(f)[k] == d[k] by {
        assert(hex_number(f[3 + k], 255) == Some(d[k] as nat));
    }
    assert(data_bytes(f) =~= d);
}

fn is_digit(c: char) -> (r: bool)
    ensures
        r == (48 <= c as u32 <= 57),
{
    let u = c as u32;
    48 <= u && u <= 57
}

fn digit(c: char) -> (r: u32)
    requires
        48 <= c as u32 <= 57,
    ensures
        r == c as u32 - 48,
{
    c as u32 - 48
}

fn read_two_digits(t: &Vec<char>, a: usize) -> (r: Option<u8>)
    requires
        a <= 3,
    ensures
        r == two_digits(t@, a as int),
{
    if a + 1 < t.len() && is_digit(t[a]) && is_digit(t[a + 1]) {
        Some((digit(t[a]) * 10 + digit(t[a + 1])) as u8)
    } else {
        None
    }
}

fn read_seconds(t: &Vec<char>) -> (r: Option<u32>)
    ensures
        r == seconds_millis(t@),
{
    if t.len() >= 12 && is_digit(t[6]) && is_digit(t[7]) && t[8] == '.' && is_digit(t[9])
        && is_digit(t[10]) && is_digit(t[11]) {
        Some(
            digit(t[6]) * 10000 + digit(t[7]) * 1000 + digit(t[9]) * 100 + digit(t[10]) * 10
                + digit(t[11]),
        )
    } else {
        None
    }
}

fn check_separators(t: &Vec<char>) -> (r: bool)
    ensures
        r == time_separators(t@),
{
    t.len() == 12 && t[2] == ':' && t[5] == ':'
}

fn read_direction(t: &Vec<char>) -> (r: Option<YDRawDirection>)
    ensures
        r == direction_of(t@),
{
    if t.len() == 1 && t[0] == 'R' {
        assert(t@ =~= seq!['R']);
        Some(YDRawDirection::Received)
    } else if t.len() == 1 && t[0] == 'T' {
        assert(t@ =~= seq!['T']);
        Some(YDRawDirection::Transmitted)
    } else {
        assert(t@.len() != 1 ==> t@ != seq!['R'] && t@ != seq!['T']);
        None
    }
}

impl YDRaw {
    /// The priority, PGN, source and destination that the identifier `id` gives.
    pub fn header(id: u32) -> (r: (TPrio, TPgn, TSrc, TDest))
        ensures
            r.0 == prio_of(id),
            r.1 == pgn_of(id),
            r.2 == src_of(id),
            r.3 == dest_of(id),
    {
        let pf: u8 = ((id >> 16u32) & 0xFFu32) as u8;
        let ps: u8 = ((id >> 8u32) & 0xFFu32) as u8;
        let rdp: u32 = (id >> 24u32) & 3u32;
        let src: u8 = (id & 0xFFu32) as u8;
        let prio: u8 = ((id >> 26u32) & 7u32) as u8;
        if pf < 240 {
            (prio, (rdp << 16u32) | ((pf as u32) << 8u32), src, ps)
        } else {
            (prio, (rdp << 16u32) | ((pf as u32) << 8u32) | (ps as u32), src, 0xFF)
        }
    }

    /// The frame in the raw format.
    pub fn to_line(&self) -> (r: String)
        ensures
            r@ == line_of(*self),
    {
        let mut s = String::new();
        let ts = self.timestamp;
        push_padded(&mut s, ts.hour as u32, 10, 2);
        push_char(&mut s, ':');
        push_padded(&mut s, ts.minute as u32, 10, 2);
        push_char(&mut s, ':');
        push_padded(&mut s, ts.millis / 1000, 10, 2);
        push_char(&mut s, '.');
        push_padded(&mut s, ts.millis % 1000, 10, 3);
        push_char(&mut s, ' ');
        match self.direction {
            YDRawDirection::Received => push_char(&mut s, 'R'),
            YDRawDirection::Transmitted => push_char(&mut s, 'T'),
        }
        push_char(&mut s, ' ');
        push_padded(&mut s, self.msgid, 16, 8);
        let ghost head = s@;
        let mut k: usize = 0;
        assert(self.data@.take(0) =~= seq![]);
        assert(s@ =~= head + bytes_text(self.data@.take(0)));
        while k < 8
            invariant
                k <= 8,
                s@ == head + bytes_text(self.data@.take(k as int)),
            decreases 8 - k,
        {
            push_char(&mut s, ' ');
            push_padded(&mut s, self.data[k] as u32, 16, 2);
            assert(self.data@.take(k + 1).drop_last() =~= self.data@.take(k as int));
            assert(s@ =~= head + bytes_text(self.data@.take(k + 1)));
            k += 1;
        }
        assert(self.data@.take(8) =~= self.data@);
        assert(s@ =~= line_of(*self));
        s
    }

    /// Reads one line of the raw format.
    pub fn from_str(s: &str) -> (r: Result<YDRaw, YDRawParseError>)
        ensures
            match line_fields(s@) {
                Ok((ts, dir, id, d)) => match r {
                    Ok(raw) => raw.timestamp == ts && raw.direction == dir && raw.msgid == id
                        && raw@ == frame_of(ts, id, d),
                    Err(_) => false,
                },
                Err(e) => r == Err::<YDRaw, YDRawParseError>(e),
            },
    {
        let f = split_fields(s);
        let ghost fs = fields(s@);
        assert(f@.len() == fs.len());
        assert(forall|k: int| 0 <= k < f@.len() ==> #[trigger] f@[k]@ == fs[k]) by {
            assert forall|k: int| 0 <= k < f@.len() implies #[trigger] f@[k]@ == fs[k] by {
                assert(field_views(f@)[k] == f@[k]@);
            }
        }
        if f.len() < 1 {
            return Err(YDRawParseError::IteratorError);
        }
        let hour = match read_two_digits(&f[0], 0) {
            Some(h) => h,
            None => return Err(YDRawParseError::IntegerError),
        };
        let minute = match read_two_digits(&f[0], 3) {
            Some(m) => m,
            None => return Err(YDRawParseError::IntegerError),
        };
        let millis = match read_seconds(&f[0]) {
            Some(m) => m,
            None => return Err(YDRawParseError::FloatError),
        };
        if !check_separators(&f[0]) {
            return Err(YDRawParseError::InvalidField);
        }
        if f.len() < 2 {
            return Err(YDRawParseError::IteratorError);
        }
        let direction = match read_direction(&f[1]) {
            Some(d) => d,
            None => return Err(YDRawParseError::InvalidField),
        };
        if f.len() < 3 {
            return Err(YDRawParseError::IteratorError);
        }
        let msgid = match parse_hex(&f[2], 0xFFFF_FFFF) {
            Some(id) => id,
            None => return Err(YDRawParseError::IntegerError),
        };
        let mut data: [u8; 8] = [0u8; 8];
        let mut k: usize = 0;
        while k < 8 && 3 + k < f.len()
            invariant
                k <= 8,
                3 + k <= f@.len(),
                fs == fields(s@),
                f@.len() == fs.len(),
                two_digits(fs[0], 0) == Some(hour),
                two_digits(fs[0], 3) == Some(minute),
                seconds_millis(fs[0]) == Some(millis),
                time_separators(fs[0]),
                direction_of(fs[1]) == Some(direction),
                hex_number(fs[2], 0xFFFF_FFFF) == Some(msgid as nat),
                forall|j: int| 0 <= j < f@.len() ==> #[trigger] f@[j]@ == fs[j],
                forall|j: int|
                    0 <= j < k ==> hex_number(#[trigger] fs[3 + j], 255) is Some && data@[j]
                        == hex_value(fs[3 + j]) as u8,
                forall|j: int| k <= j < 8 ==> data@[j] == 0,
            decreases 8 - k,
        {
            match parse_hex(&f[3 + k], 255) {
                Some(b) => {
                    data[k] = b as u8;
                },
                None => {
                    assert(hex_number(fs[3 + k as int], 255) is None);
                    assert(0 <= k < 8 && 3 + k < fs.len());
                    assert(bad_data_field(fs));
                    return Err(YDRawParseError::IntegerError);
                },
            }
            k += 1;
        }
        assert(!bad_data_field(fs)) by {
            assert forall|j: int| 0 <= j < 8 && 3 + j < fs.len() implies #[trigger] hex_number(
                fs[3 + j],
                255,
            ) is Some by {
                assert(j < k);
            }
        }
        assert(data@.len() == 8);
        assert forall|j: int| 0 <= j < 8 implies data@[j] == data_bytes(fs)[j] by {
            if j >= k {
                assert(3 + j >= fs.len());
            } else {
                assert(hex_number(fs[3 + j], 255) is Some);
            }
        }
        assert(data@ =~= data_bytes(fs));
        let (prio, pgn, src, dest) = YDRaw::header(msgid);
        Ok(
            YDRaw {
                timestamp: Timestamp { hour, minute, millis },
                direction,
                msgid,
                data,
                prio,
                pgn,
                src,
                dest,
            },
        )
    }
}

} // verus!
