//! Plain value types shared by the frame parser, the reassembly engine and the state.
use vstd::prelude::*;

verus! {

/// Parameter group number.
pub type TPgn = u32;

/// Priority.
pub type TPrio = u8;

/// Source address.
pub type TSrc = u8;

/// Destination address.
pub type TDest = u8;

/// Data bytes.
pub type TData = Vec<u8>;

/// Wall-clock time attached to a frame by the capture source: hour, minute,
/// and the seconds of the minute in thousandths (`21.141 s` is `21141`).
#[derive(Clone, Copy, Debug, PartialEq, Eq, Structural)]
pub struct Timestamp {
    pub hour: u8,
    pub minute: u8,
    pub millis: u32,
}

impl Timestamp {
    /// Midnight, the time a fresh state starts with.
    pub fn zero() -> (r: Timestamp)
        ensures
            r.hour == 0 && r.minute == 0 && r.millis == 0,
    {
        Timestamp { hour: 0, minute: 0, millis: 0 }
    }
}

} // verus!
