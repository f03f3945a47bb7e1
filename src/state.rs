//! The navigation state: the latest decoded value of each quantity.
use vstd::prelude::*;
use crate::types::Timestamp;
use crate::messages::{decode, MessageValue};
use crate::message::Message;

verus! {

/// Largest magnitude of a plausible rudder angle, in 0.0001 rad: the largest
/// value within [-π, π].
pub const RUDDER_LIMIT: i16 = 31415;

/// The latest values of the navigation data, in the units of the bus (see
/// [`MessageValue`]).
#[derive(Clone, Copy, Debug, PartialEq, Eq, Structural)]
pub struct State {
    /// Days since 1 January 1970, as the bus gave them.
    pub days: u16,
    /// Time since midnight in 0.0001 s, as the bus gave it.
    pub seconds: u32,
    /// Local offset in minutes, as the bus gave it.
    pub localoffset: i16,
    /// Time of the latest update.
    pub timestamp: Timestamp,
    pub awa: u16,
    pub aws: u16,
    pub latitude: i64,
    pub longitude: i64,
    pub hdg: u16,
    pub cog: u16,
    pub sog: u16,
    pub stw: u16,
    pub rot: i32,
    pub pitch: i16,
    pub yaw: i16,
    pub roll: i16,
    pub rudder_angle: i16,
    /// Whether output dates come from the bus rather than the system clock.
    pub nmea_date: bool,
    /// Whether the bus has given a complete date, which the local offset ends.
    pub got_nmea_date: bool,
}

/// A rudder angle within [-π, π]; others are sensor noise.
pub open spec fn rudder_plausible(r: i16) -> bool {
    -RUDDER_LIMIT <= r <= RUDDER_LIMIT
}

/// The state after one value: the field of its quantity is overwritten, all
/// others are kept. An implausible rudder angle changes nothing.
pub open spec fn merge(s: State, v: MessageValue) -> State {
    match v {
        MessageValue::Timestamp(t) => State { timestamp: t, ..s },
        MessageValue::Date(d) => State { days: d, ..s },
        MessageValue::Time(t) => State { seconds: t, ..s },
        MessageValue::LocalOffset(o) => State { localoffset: o, got_nmea_date: true, ..s },
        MessageValue::WindSpeed(x) => State { aws: x, ..s },
        MessageValue::WindAngle(x) => State { awa: x, ..s },
        MessageValue::Latitude(x) => State { latitude: x, ..s },
        MessageValue::Longitude(x) => State { longitude: x, ..s },
        MessageValue::Heading(x) => State { hdg: x, ..s },
        MessageValue::CourseOverGround(x) => State { cog: x, ..s },
        MessageValue::SpeedOverGround(x) => State { sog: x, ..s },
        MessageValue::SpeedThroughWater(x) => State { stw: x, ..s },
        MessageValue::RateOfTurn(x) => State { rot: x, ..s },
        MessageValue::Yaw(x) => State { yaw: x, ..s },
        MessageValue::Pitch(x) => State { pitch: x, ..s },
        MessageValue::Roll(x) => State { roll: x, ..s },
        MessageValue::RudderAngle(x) => if rudder_plausible(x) {
            State { rudder_angle: x, ..s }
        } else {
            s
        },
    }
}

/// The state after the values `vals`, in order.
pub open spec fn merge_all(s: State, vals: Seq<MessageValue>) -> State
    decreases vals.len(),
{
    if vals.len() == 0 {
        s
    } else {
        merge(merge_all(s, vals.drop_last()), vals.last())
    }
}

/// Seconds since 1 January 1970 of a bus date, time of day (0.0001 s) and
/// local offset (minutes).
pub fn to_date_time(days: u16, seconds: u32, localoffset: i16) -> (r: i64)
    ensures
        r == days * 86400 + seconds / 10000 + localoffset * 60,
{
    days as i64 * 86400 + (seconds / 10000) as i64 + localoffset as i64 * 60
}

impl State {
    /// The state at startup: every value zero, no date from the bus yet.
    pub fn new(nmea_date: bool) -> (r: State)
        ensures
            r == (State {
                days: 0,
                seconds: 0,
                localoffset: 0,
                timestamp: Timestamp { hour: 0, minute: 0, millis: 0 },
                awa: 0,
                aws: 0,
                latitude: 0,
                longitude: 0,
                hdg: 0,
                cog: 0,
                sog: 0,
                stw: 0,
                rot: 0,
                pitch: 0,
                yaw: 0,
                roll: 0,
                rudder_angle: 0,
                nmea_date,
                got_nmea_date: false,
            }),
    {
        State {
            days: 0,
            seconds: 0,
            localoffset: 0,
            timestamp: Timestamp::zero(),
            awa: 0,
            aws: 0,
            latitude: 0,
            longitude: 0,
            hdg: 0,
            cog: 0,
            sog: 0,
            stw: 0,
            rot: 0,
            pitch: 0,
            yaw: 0,
            roll: 0,
            rudder_angle: 0,
            nmea_date,
            got_nmea_date: false,
        }
    }

    /// The header line of the CSV output, fields separated by `;`.
    pub fn headline() -> (r: String)
        ensures
            r@ == "time;awa;aws;latitude;longitude;hdg;cog;sog;stw;rot;pitch;yaw;roll;rudder_angle"@,
    {
        String::from_str("time;awa;aws;latitude;longitude;hdg;cog;sog;stw;rot;pitch;yaw;roll;rudder_angle")
    }

    /// Seconds since 1 January 1970 of the date, time and offset that the bus gave.
    pub fn date_time(&self) -> (r: i64)
        ensures
            r == self.days * 86400 + self.seconds / 10000 + self.localoffset * 60,
    {
        to_date_time(self.days, self.seconds, self.localoffset)
    }

    /// Merges one value.
    pub fn apply(&mut self, v: MessageValue)
        ensures
            *final(self) == merge(*old(self), v),
    {
        match v {
            MessageValue::Timestamp(t) => self.timestamp = t,
            MessageValue::Date(d) => self.days = d,
            MessageValue::Time(t) => self.seconds = t,
            MessageValue::LocalOffset(o) => {
                self.localoffset = o;
                self.got_nmea_date = true;
            },
            MessageValue::WindSpeed(x) => self.aws = x,
            MessageValue::WindAngle(x) => self.awa = x,
            MessageValue::Latitude(x) => self.latitude = x,
            MessageValue::Longitude(x) => self.longitude = x,
            MessageValue::Heading(x) => self.hdg = x,
            MessageValue::CourseOverGround(x) => self.cog = x,
            MessageValue::SpeedOverGround(x) => self.sog = x,
            MessageValue::SpeedThroughWater(x) => self.stw = x,
            MessageValue::RateOfTurn(x) => self.rot = x,
            MessageValue::Yaw(x) => self.yaw = x,
            MessageValue::Pitch(x) => self.pitch = x,
            MessageValue::Roll(x) => self.roll = x,
            MessageValue::RudderAngle(x) => {
                if -RUDDER_LIMIT <= x && x <= RUDDER_LIMIT {
                    self.rudder_angle = x;
                }
            },
        }
    }

    /// Merges the values `values`, in order.
    pub fn merge_values(&mut self, values: &Vec<MessageValue>)
        ensures
            *final(self) == merge_all(*old(self), values@),
    {
        let mut i: usize = 0;
        while i < values.len()
            invariant
                i <= values@.len(),
                *self == merge_all(*old(self), values@.take(i as int)),
            decreases values@.len() - i,
        {
            assert(values@.take(i + 1).drop_last() =~= values@.take(i as int));
            self.apply(values[i]);
            i += 1;
        }
        assert(values@.take(values@.len() as int) =~= values@);
    }

    /// Merges the values of a complete message.
    pub fn update(&mut self, message: &Message)
        requires
            message.data@.len() >= message.kind.spec_bytes(),
        ensures
            *final(self) == merge_all(
                *old(self),
                decode(message.kind, message.data@, message.timestamp),
            ),
    {
        let values = message.values();
        self.merge_values(&values);
    }
}

} // verus!
