//! One latency measurement and the instant at which it was taken.

use crate::timestamp::{Instant, Timestamp, MIN_SECS};
use vstd::prelude::*;

verus! {

/// The mathematical value of an entry: a latency and a UTC instant.
pub struct Sample {
    /// Round-trip latency in milliseconds.
    pub ping: u32,
    /// The instant of the attempt.
    pub time: Instant,
}

/// One successful probe: the measured latency and the time of the attempt.
#[derive(Clone, Copy, Debug, PartialEq, Eq)]
pub struct PingEntry {
    ping: u32,
    time: Timestamp,
}

impl View for PingEntry {
    type V = Sample;

    closed spec fn view(&self) -> Sample {
        Sample { ping: self.ping, time: self.time@ }
    }
}

impl PingEntry {
    /// A placeholder that no probe produces: latency zero at the earliest
    /// instant.
    pub fn empty() -> (entry: PingEntry)
        ensures
            entry@ == (Sample { ping: 0, time: Instant { secs: MIN_SECS as int, nanos: 0 } }),
    {
        PingEntry { ping: 0, time: Timestamp::earliest() }
    }

    /// The entry of a probe that was started at `time` and took `ping`
    /// milliseconds.
    pub fn new(ping: u32, time: Timestamp) -> (entry: PingEntry)
        ensures
            entry@ == (Sample { ping, time: time@ }),
    {
        PingEntry { ping, time }
    }

    /// The measured latency in milliseconds.
    pub fn ping(&self) -> (ping: u32)
        ensures
            ping == self@.ping,
    {
        self.ping
    }

    /// The instant of the attempt.
    pub fn time(&self) -> (time: Timestamp)
        ensures
            time@ == self@.time,
    {
        self.time
    }
}

} // verus!
