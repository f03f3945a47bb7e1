//! When the periodic report writes a line.
use vstd::prelude::*;
use crate::types::Timestamp;

verus! {

/// Decides, at each tick of the report interval, whether the state is written.
#[derive(Clone, Copy, Debug)]
pub struct ChangeReporter {
    /// Time of the state at the previous tick.
    pub last: Timestamp,
    /// Write only when the state's time has moved since the previous tick.
    pub only_on_change: bool,
}

/// The reporter after a tick that sees a state of time `current`, and whether
/// that tick writes.
pub open spec fn tick(r: ChangeReporter, current: Timestamp) -> (ChangeReporter, bool) {
    (ChangeReporter { last: current, ..r }, !r.only_on_change || r.last != current)
}

/// With the only-on-change policy, a state whose time has not moved since the
/// previous tick is not written again.
pub proof fn lemma_unchanged_state_written_once(r: ChangeReporter, current: Timestamp)
    requires
        r.only_on_change,
    ensures
        !tick(tick(r, current).0, current).1,
{
}

impl ChangeReporter {
    /// A reporter whose previous tick saw time `initial`.
    pub fn new(initial: Timestamp, only_on_change: bool) -> (r: ChangeReporter)
        ensures
            r.last == initial,
            r.only_on_change == only_on_change,
    {
        ChangeReporter { last: initial, only_on_change }
    }

    /// One tick that sees a state of time `current`: whether to write it.
    pub fn tick(&mut self, current: Timestamp) -> (r: bool)
        ensures
            (*final(self), r) == tick(*old(self), current),
    {
        let write = !self.only_on_change || self.last != current;
        self.last = current;
        write
    }
}

} // verus!
