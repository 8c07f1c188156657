//! UTC instants, and their RFC 3339 text.
//!
//! An instant is held as whole seconds since the Unix epoch and nanoseconds
//! since the last whole second. The text is chrono's: this module gives it a
//! name and states the little that the rest of the library relies on.

use vstd::prelude::*;

verus! {

/// Seconds since the Unix epoch of the earliest instant a timestamp can
/// hold: midnight UTC on January 1st of the year -262143.
pub const MIN_SECS: i64 = -8_334_601_228_800;

/// Seconds since the Unix epoch of the last second a timestamp can hold:
/// 23:59:59 UTC on December 31st of the year 262142.
pub const MAX_SECS: i64 = 8_210_266_876_799;

/// Seconds since the Unix epoch of midnight UTC on January 1st of the year
/// 0000, the first instant whose year RFC 3339 can write.
pub const FIRST_RFC3339_SECS: i64 = -62_167_219_200;

/// Seconds since the Unix epoch of 23:59:59 UTC on December 31st of the year
/// 9999, the last second whose year RFC 3339 can write.
pub const LAST_RFC3339_SECS: i64 = 253_402_300_799;

/// The mathematical value of a timestamp.
pub struct Instant {
    /// Whole seconds since the Unix epoch.
    pub secs: int,
    /// Nanoseconds since the last whole second.
    pub nanos: int,
}

impl Instant {
    /// Whether a timestamp can hold this instant. A nanosecond count of a
    /// thousand million or more stands for a leap second, and is accepted
    /// only in the last second of a minute.
    pub open spec fn valid(self) -> bool {
        &&& MIN_SECS <= self.secs <= MAX_SECS
        &&& 0 <= self.nanos < 2_000_000_000
        &&& (self.nanos >= 1_000_000_000 ==> self.secs % 60 == 59)
    }

    /// Whether this instant lies in a year of four digits, `0000` to `9999`.
    pub open spec fn four_digit_year(self) -> bool {
        FIRST_RFC3339_SECS <= self.secs <= LAST_RFC3339_SECS
    }
}

/// The text that chrono writes for the UTC instant of `secs` seconds and
/// `nanos` nanoseconds since the Unix epoch: date and time of day separated
/// by `T`, fractional seconds in as many groups of three digits as the
/// nanoseconds need, and `Z` for UTC.
pub uninterp spec fn rfc3339_text(secs: int, nanos: int) -> Seq<char>;

/// The instant that chrono reads from `text` as RFC 3339, as seconds and
/// nanoseconds since the Unix epoch; `None` where chrono refuses the text.
pub uninterp spec fn rfc3339_instant(text: Seq<char>) -> Option<(i64, u32)>;

/// The timestamp that `text` denotes: chrono must read it as RFC 3339, and a
/// timestamp must be able to hold the instant.
pub open spec fn parsed_instant(text: Seq<char>) -> Option<Instant> {
    match rfc3339_instant(text) {
        Some((secs, nanos)) => {
            let instant = Instant { secs: secs as int, nanos: nanos as int };
            if instant.valid() {
                Some(instant)
            } else {
                None
            }
        },
        None => None,
    }
}

/// Writes an instant as RFC 3339 text.
///
/// Calls chrono's `DateTime::from_timestamp` and, on the date and time it
/// gives, `DateTime::to_rfc3339_opts` with `SecondsFormat::AutoSi` and `Z`
/// for UTC. The contract names the text. It also claims that chrono reads
/// that text back as the same instant, for an instant in a year of four
/// digits: the text is then valid RFC 3339 and loses no digit of the
/// nanoseconds. A year outside `0000` to `9999` is written with a sign,
/// which `DateTime::parse_from_rfc3339` refuses, so nothing is claimed
/// there.
#[verifier::external_body]
fn format_rfc3339(secs: i64, nanos: u32) -> (text: String)
    requires
        (Instant { secs: secs as int, nanos: nanos as int }).valid(),
    ensures
        text@ == rfc3339_text(secs as int, nanos as int),
        FIRST_RFC3339_SECS <= secs <= LAST_RFC3339_SECS ==> rfc3339_instant(text@) == Some(
            (secs, nanos),
        ),
{
    chrono::DateTime::from_timestamp(secs, nanos).unwrap().to_rfc3339_opts(
        chrono::SecondsFormat::AutoSi,
        true,
    )
}

/// Reads RFC 3339 text as an instant.
///
/// Calls chrono's `DateTime::parse_from_rfc3339` and takes the seconds and
/// nanoseconds since the Unix epoch of what it returns, whatever offset the
/// text gave. The contract names that result; chrono's error becomes `None`.
#[verifier::external_body]
fn read_rfc3339(text: &str) -> (instant: Option<(i64, u32)>)
    ensures
        instant == rfc3339_instant(text@),
{
    match chrono::DateTime::parse_from_rfc3339(text) {
        Ok(time) => Some((time.timestamp(), time.timestamp_subsec_nanos())),
        Err(_) => None,
    }
}

/// A UTC instant with nanosecond precision. Every timestamp is valid; `new`
/// refuses anything else.
#[derive(Clone, Copy, Debug, PartialEq, Eq)]
pub struct Timestamp {
    secs: i64,
    nanos: u32,
}

impl View for Timestamp {
    type V = Instant;

    closed spec fn view(&self) -> Instant {
        Instant { secs: self.secs as int, nanos: self.nanos as int }
    }
}

impl Timestamp {
    #[verifier::type_invariant]
    spec fn well_formed(self) -> bool {
        (Instant { secs: self.secs as int, nanos: self.nanos as int }).valid()
    }

    /// The earliest instant.
    pub fn earliest() -> (time: Timestamp)
        ensures
            time@ == (Instant { secs: MIN_SECS as int, nanos: 0 }),
    {
        Timestamp { secs: MIN_SECS, nanos: 0 }
    }

    /// The instant of `secs` seconds and `nanos` nanoseconds since the Unix
    /// epoch; `None` when no timestamp can hold it.
    pub fn new(secs: i64, nanos: u32) -> (time: Option<Timestamp>)
        ensures
            time is Some <==> (Instant { secs: secs as int, nanos: nanos as int }).valid(),
            time is Some ==> time->0@ == (Instant { secs: secs as int, nanos: nanos as int }),
    {
        if secs < MIN_SECS || secs > MAX_SECS || nanos >= 2_000_000_000 {
            return None;
        }
        if nanos >= 1_000_000_000 && !last_second_of_minute(secs) {
            return None;
        }
        Some(Timestamp { secs, nanos })
    }

    /// Whole seconds since the Unix epoch.
    pub fn secs(&self) -> (secs: i64)
        ensures
            secs == self@.secs,
            self@.valid(),
    {
        proof {
            use_type_invariant(self);
        }
        self.secs
    }

    /// Nanoseconds since the last whole second; a thousand million or more
    /// in a leap second.
    pub fn nanos(&self) -> (nanos: u32)
        ensures
            nanos == self@.nanos,
            self@.valid(),
    {
        proof {
            use_type_invariant(self);
        }
        self.nanos
    }

    /// This instant as RFC 3339 text. Read back, the text gives this instant
    /// again, provided its year has four digits.
    pub fn to_rfc3339(&self) -> (text: String)
        ensures
            text@ == rfc3339_text(self@.secs, self@.nanos),
            self@.four_digit_year() ==> parsed_instant(text@) == Some(self@),
    {
        proof {
            use_type_invariant(self);
        }
        format_rfc3339(self.secs, self.nanos)
    }

    /// Reads RFC 3339 text, with any offset from UTC, as the instant it
    /// denotes.
    pub fn parse_rfc3339(text: &str) -> (time: Option<Timestamp>)
        ensures
            match parsed_instant(text@) {
                Some(instant) => time is Some && time->0@ == instant,
                None => time is None,
            },
    {
        match read_rfc3339(text) {
            Some((secs, nanos)) => Timestamp::new(secs, nanos),
            None => None,
        }
    }
}

/// Whether `secs` is the last second of its minute.
fn last_second_of_minute(secs: i64) -> (last: bool)
    requires
        MIN_SECS <= secs <= MAX_SECS,
    ensures
        last == (secs as int % 60 == 59),
{
    let shifted: i64 = secs - MIN_SECS;
    assert(shifted as int % 60 == secs as int % 60) by {
        assert(MIN_SECS as int == -138_910_020_480 * 60);
    }
    shifted % 60 == 59
}

} // verus!
