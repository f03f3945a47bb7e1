//! The catalogue of decoded PGNs and the value decoder.
//!
//! Decoded values are kept in the fixed-point units of the bus, so that no
//! precision is lost before output:
//! - speeds in 0.01 m/s, angles and headings in 0.0001 rad;
//! - latitude and longitude in 1e-16 degree (PGN 129025 sends 1e-7 degree,
//!   which is scaled up exactly);
//! - rate of turn in 3.125e-8 rad/s.
use vstd::prelude::*;
use crate::types::{Timestamp, TPgn};

verus! {

/// The kinds of message that are decoded, one per supported PGN.
#[derive(Clone, Copy, Debug, PartialEq, Eq, Structural)]
pub enum PgnKind {
    /// Wind data, PGN 130306.
    Wind,
    /// Position, rapid update, PGN 129025.
    PositionRapidUpdate,
    /// GNSS position data, PGN 129029 (a fast packet).
    GnssPositionData,
    /// Vessel heading, PGN 127250.
    VesselHeading,
    /// Course and speed over ground, rapid update, PGN 129026.
    CogSogRapidUpdate,
    /// Speed through water, PGN 128259.
    Speed,
    /// Rate of turn, PGN 127251.
    RateOfTurn,
    /// Attitude, PGN 127257.
    Attitude,
    /// Rudder, PGN 127245.
    Rudder,
}

impl PgnKind {
    pub open spec fn spec_pgn(self) -> TPgn {
        match self {
            PgnKind::Wind => 130306,
            PgnKind::PositionRapidUpdate => 129025,
            PgnKind::GnssPositionData => 129029,
            PgnKind::VesselHeading => 127250,
            PgnKind::CogSogRapidUpdate => 129026,
            PgnKind::Speed => 128259,
            PgnKind::RateOfTurn => 127251,
            PgnKind::Attitude => 127257,
            PgnKind::Rudder => 127245,
        }
    }

    /// Length in bytes of the assembled message.
    pub open spec fn spec_bytes(self) -> nat {
        match self {
            PgnKind::GnssPositionData => 43,
            PgnKind::RateOfTurn => 5,
            PgnKind::Attitude => 7,
            _ => 8,
        }
    }

    /// Whether the message spans several frames.
    pub open spec fn spec_fast(self) -> bool {
        self == PgnKind::GnssPositionData
    }

    pub fn pgn(&self) -> (r: TPgn)
        ensures
            r == self.spec_pgn(),
    {
        match self {
            PgnKind::Wind => 130306,
            PgnKind::PositionRapidUpdate => 129025,
            PgnKind::GnssPositionData => 129029,
            PgnKind::VesselHeading => 127250,
            PgnKind::CogSogRapidUpdate => 129026,
            PgnKind::Speed => 128259,
            PgnKind::RateOfTurn => 127251,
            PgnKind::Attitude => 127257,
            PgnKind::Rudder => 127245,
        }
    }

    pub fn bytes(&self) -> (r: usize)
        ensures
            r == self.spec_bytes(),
    {
        match self {
            PgnKind::GnssPositionData => 43,
            PgnKind::RateOfTurn => 5,
            PgnKind::Attitude => 7,
            _ => 8,
        }
    }

    pub fn is_fast(&self) -> (r: bool)
        ensures
            r == self.spec_fast(),
    {
        match self {
            PgnKind::GnssPositionData => true,
            _ => false,
        }
    }

    /// Looks up a PGN in the catalogue.
    pub fn from_pgn(pgn: TPgn) -> (r: Option<PgnKind>)
        ensures
            r == kind_of(pgn),
    {
        if pgn == 130306 {
            Some(PgnKind::Wind)
        } else if pgn == 129025 {
            Some(PgnKind::PositionRapidUpdate)
        } else if pgn == 129029 {
            Some(PgnKind::GnssPositionData)
        } else if pgn == 127250 {
            Some(PgnKind::VesselHeading)
        } else if pgn == 129026 {
            Some(PgnKind::CogSogRapidUpdate)
        } else if pgn == 128259 {
            Some(PgnKind::Speed)
        } else if pgn == 127251 {
            Some(PgnKind::RateOfTurn)
        } else if pgn == 127257 {
            Some(PgnKind::Attitude)
        } else if pgn == 127245 {
            Some(PgnKind::Rudder)
        } else {
            None
        }
    }
}

/// The catalogue entry of a PGN, if it is decoded.
pub open spec fn kind_of(pgn: TPgn) -> Option<PgnKind> {
    if pgn == 130306 {
        Some(PgnKind::Wind)
    } else if pgn == 129025 {
        Some(PgnKind::PositionRapidUpdate)
    } else if pgn == 129029 {
        Some(PgnKind::GnssPositionData)
    } else if pgn == 127250 {
        Some(PgnKind::VesselHeading)
    } else if pgn == 129026 {
        Some(PgnKind::CogSogRapidUpdate)
    } else if pgn == 128259 {
        Some(PgnKind::Speed)
    } else if pgn == 127251 {
        Some(PgnKind::RateOfTurn)
    } else if pgn == 127257 {
        Some(PgnKind::Attitude)
    } else if pgn == 127245 {
        Some(PgnKind::Rudder)
    } else {
        None
    }
}

/// The catalogue is one table: each kind is found under its own PGN, every
/// message fits in 255 bytes, one frame holds a whole single-frame message and
/// the first frame of a fast packet is full.
pub proof fn lemma_catalogue(k: PgnKind)
    ensures
        kind_of(k.spec_pgn()) == Some(k),
        k.spec_bytes() <= 255,
        !k.spec_fast() ==> k.spec_bytes() <= 8,
        k.spec_fast() ==> k.spec_bytes() >= 6,
{
}

/// One decoded quantity, in the units of the bus (see the module documentation).
#[derive(Clone, Copy, Debug, PartialEq, Eq, Structural)]
pub enum MessageValue {
    /// Apparent wind angle, 0.0001 rad.
    WindAngle(u16),
    /// Apparent wind speed, 0.01 m/s.
    WindSpeed(u16),
    /// Latitude, 1e-16 degree.
    Latitude(i64),
    /// Longitude, 1e-16 degree.
    Longitude(i64),
    /// Heading, 0.0001 rad.
    Heading(u16),
    /// Course over ground, 0.0001 rad.
    CourseOverGround(u16),
    /// Speed over ground, 0.01 m/s.
    SpeedOverGround(u16),
    /// Speed through water, 0.01 m/s.
    SpeedThroughWater(u16),
    /// Rate of turn, 3.125e-8 rad/s.
    RateOfTurn(i32),
    /// Yaw, 0.0001 rad.
    Yaw(i16),
    /// Pitch, 0.0001 rad.
    Pitch(i16),
    /// Roll, 0.0001 rad.
    Roll(i16),
    /// Rudder angle, 0.0001 rad.
    RudderAngle(i16),
    /// Time of the frame that started the message.
    Timestamp(Timestamp),
    /// Days since 1 January 1970.
    Date(u16),
    /// Time since midnight, 0.0001 s.
    Time(u32),
    /// Local offset, minutes.
    LocalOffset(i16),
}

/// Unsigned little-endian integer of `n` bytes of `d` from `i` on.
pub open spec fn le_unsigned(d: Seq<u8>, i: int, n: nat) -> nat
    decreases n,
{
    if n == 0 {
        0
    } else {
        d[i] as nat + 256 * le_unsigned(d, i + 1, (n - 1) as nat)
    }
}

pub open spec fn le_u16(d: Seq<u8>, i: int) -> u16 {
    le_unsigned(d, i, 2) as u16
}

pub open spec fn le_i16(d: Seq<u8>, i: int) -> i16 {
    let u = le_unsigned(d, i, 2);
    (if u >= 0x8000 {
        u - 0x1_0000
    } else {
        u as int
    }) as i16
}

pub open spec fn le_i32(d: Seq<u8>, i: int) -> i32 {
    let u = le_unsigned(d, i, 4);
    (if u >= 0x8000_0000 {
        u - 0x1_0000_0000
    } else {
        u as int
    }) as i32
}

pub open spec fn le_i64(d: Seq<u8>, i: int) -> i64 {
    let u = le_unsigned(d, i, 8);
    (if u >= 0x8000_0000_0000_0000 {
        u - 0x1_0000_0000_0000_0000
    } else {
        u as int
    }) as i64
}

/// The values that a complete message of kind `k` with bytes `d`, started at
/// `ts`, decodes to.
pub open spec fn decode(k: PgnKind, d: Seq<u8>, ts: Timestamp) -> Seq<MessageValue> {
    match k {
        PgnKind::Wind => seq![
            MessageValue::WindSpeed(le_u16(d, 1)),
            MessageValue::WindAngle(le_u16(d, 3)),
            MessageValue::Timestamp(ts),
        ],
        PgnKind::PositionRapidUpdate => seq![
            MessageValue::Latitude((le_i32(d, 0) * 1_000_000_000) as i64),
            MessageValue::Longitude((le_i32(d, 4) * 1_000_000_000) as i64),
            MessageValue::Timestamp(ts),
        ],
        PgnKind::GnssPositionData => seq![
            MessageValue::Latitude(le_i64(d, 7)),
            MessageValue::Longitude(le_i64(d, 15)),
            MessageValue::Timestamp(ts),
        ],
        PgnKind::VesselHeading => seq![
            MessageValue::Heading(le_u16(d, 1)),
            MessageValue::Timestamp(ts),
        ],
        PgnKind::CogSogRapidUpdate => seq![
            MessageValue::CourseOverGround(le_u16(d, 2)),
            MessageValue::SpeedOverGround(le_u16(d, 4)),
            MessageValue::Timestamp(ts),
        ],
        PgnKind::Speed => seq![
            MessageValue::SpeedThroughWater(le_u16(d, 1)),
            MessageValue::Timestamp(ts),
        ],
        PgnKind::RateOfTurn => seq![
            MessageValue::RateOfTurn(le_i32(d, 1)),
            MessageValue::Timestamp(ts),
        ],
        PgnKind::Attitude => seq![
            MessageValue::Yaw(le_i16(d, 1)),
            MessageValue::Pitch(le_i16(d, 3)),
            MessageValue::Roll(le_i16(d, 5)),
            MessageValue::Timestamp(ts),
        ],
        PgnKind::Rudder => seq![
            MessageValue::RudderAngle(le_i16(d, 4)),
            MessageValue::Timestamp(ts),
        ],
    }
}

/// Reads an unsigned little-endian integer of `n` bytes.
fn read_le(d: &Vec<u8>, i: usize, n: usize) -> (r: u64)
    requires
        1 <= n <= 8,
        i + n <= d@.len(),
    ensures
        r == le_unsigned(d@, i as int, n as nat),
        r < pow256(n as nat),
{
    let len = d.len();
    let mut acc: u64 = 0;
    let mut j: usize = n;
    while j > 0
        invariant
            len == d@.len(),
            j <= n <= 8,
            i + n <= d@.len(),
            acc == le_unsigned(d@, i + j, (n - j) as nat),
            acc < pow256((n - j) as nat),
        decreases j,
    {
        j -= 1;
        proof {
            lemma_pow256_step((n - j - 1) as nat);
            assert(acc * 256 + 255 < pow256((n - j) as nat)) by (nonlinear_arith)
                requires
                    acc < pow256((n - j - 1) as nat),
                    pow256((n - j) as nat) == 256 * pow256((n - j - 1) as nat),
            ;
        }
        acc = acc * 256 + d[i + j] as u64;
    }
    acc
}

/// `256` to the power `n`.
pub open spec fn pow256(n: nat) -> nat
    decreases n,
{
    if n == 0 {
        1
    } else {
        256 * pow256((n - 1) as nat)
    }
}

proof fn lemma_pow256_step(n: nat)
    requires
        n < 8,
    ensures
        pow256(n + 1) == 256 * pow256(n),
        pow256(n + 1) <= 0x1_0000_0000_0000_0000,
{
    reveal_with_fuel(pow256, 9);
}

fn read_u16(d: &Vec<u8>, i: usize) -> (r: u16)
    requires
        i + 2 <= d@.len(),
    ensures
        r == le_u16(d@, i as int),
{
    proof {
        reveal_with_fuel(pow256, 3);
    }
    read_le(d, i, 2) as u16
}

fn read_i16(d: &Vec<u8>, i: usize) -> (r: i16)
    requires
        i + 2 <= d@.len(),
    ensures
        r == le_i16(d@, i as int),
{
    proof {
        reveal_with_fuel(pow256, 3);
    }
    let u = read_le(d, i, 2);
    if u >= 0x8000 {
        (u as i64 - 0x1_0000) as i16
    } else {
        u as i16
    }
}

fn read_i32(d: &Vec<u8>, i: usize) -> (r: i32)
    requires
        i + 4 <= d@.len(),
    ensures
        r == le_i32(d@, i as int),
{
    proof {
        reveal_with_fuel(pow256, 5);
    }
    let u = read_le(d, i, 4);
    if u >= 0x8000_0000 {
        (u as i64 - 0x1_0000_0000) as i32
    } else {
        u as i32
    }
}

fn read_i64(d: &Vec<u8>, i: usize) -> (r: i64)
    requires
        i + 8 <= d@.len(),
    ensures
        r == le_i64(d@, i as int),
{
    proof {
        reveal_with_fuel(pow256, 9);
    }
    let u = read_le(d, i, 8);
    if u >= 0x8000_0000_0000_0000 {
        -((0xFFFF_FFFF_FFFF_FFFFu64 - u) as i64) - 1
    } else {
        u as i64
    }
}

/// Decodes a complete message of kind `k` with bytes `d`, started at `ts`.
pub fn values_of(k: PgnKind, d: &Vec<u8>, ts: Timestamp) -> (r: Vec<MessageValue>)
    requires
        d@.len() >= k.spec_bytes(),
    ensures
        r@ == decode(k, d@, ts),
{
    let v = match k {
        PgnKind::Wind => vec![
            MessageValue::WindSpeed(read_u16(d, 1)),
            MessageValue::WindAngle(read_u16(d, 3)),
            MessageValue::Timestamp(ts),
        ],
        PgnKind::PositionRapidUpdate => {
            let lat = read_i32(d, 0) as i64 * 1_000_000_000;
            let long = read_i32(d, 4) as i64 * 1_000_000_000;
            vec![
                MessageValue::Latitude(lat),
                MessageValue::Longitude(long),
                MessageValue::Timestamp(ts),
            ]
        },
        PgnKind::GnssPositionData => vec![
            MessageValue::Latitude(read_i64(d, 7)),
            MessageValue::Longitude(read_i64(d, 15)),
            MessageValue::Timestamp(ts),
        ],
        PgnKind::VesselHeading => vec![
            MessageValue::Heading(read_u16(d, 1)),
            MessageValue::Timestamp(ts),
        ],
        PgnKind::CogSogRapidUpdate => vec![
            MessageValue::CourseOverGround(read_u16(d, 2)),
            MessageValue::SpeedOverGround(read_u16(d, 4)),
            MessageValue::Timestamp(ts),
        ],
        PgnKind::Speed => vec![
            MessageValue::SpeedThroughWater(read_u16(d, 1)),
            MessageValue::Timestamp(ts),
        ],
        PgnKind::RateOfTurn => vec![
            MessageValue::RateOfTurn(read_i32(d, 1)),
            MessageValue::Timestamp(ts),
        ],
        PgnKind::Attitude => vec![
            MessageValue::Yaw(read_i16(d, 1)),
            MessageValue::Pitch(read_i16(d, 3)),
            MessageValue::Roll(read_i16(d, 5)),
            MessageValue::Timestamp(ts),
        ],
        PgnKind::Rudder => vec![
            MessageValue::RudderAngle(read_i16(d, 4)),
            MessageValue::Timestamp(ts),
        ],
    };
    assert(v@ =~= decode(k, d@, ts));
    v
}

} // verus!
