//! Instants and calendar days as plain integers.
//!
//! An instant is a count of nanoseconds from 1970-01-01 00:00:00 UTC on a
//! time line without leap seconds: every day has 86 400 seconds. A calendar
//! day is a count of such days from 1970-01-01.

use vstd::prelude::*;

verus! {

/// Nanoseconds in one second.
pub const NANOS_PER_SEC: u32 = 1_000_000_000;

/// Seconds in one day.
pub const SECS_PER_DAY: i64 = 86_400;

/// Nanoseconds in one day.
pub const NANOS_PER_DAY: i64 = 86_400_000_000_000;

/// The quotient of `a` by a positive `b`, rounded toward zero.
pub open spec fn toward_zero(a: int, b: int) -> int {
    if a >= 0 {
        a / b
    } else {
        -((-a) / b)
    }
}

/// A calendar day, counted from 1970-01-01.
#[derive(Clone, Copy, Debug, PartialEq, Eq, Structural)]
pub struct Date {
    pub day: i32,
}

impl Date {
    /// The instant at which this day begins.
    pub open spec fn midnight(self) -> int {
        self.day * NANOS_PER_DAY
    }
}

/// The instant at which a window of `weeks` weeks that ends with the day
/// `today` begins: midnight, seven days times `weeks` before `today`.
pub open spec fn window_start(today: Date, weeks: u32) -> int {
    (today.day - 7 * weeks) * NANOS_PER_DAY
}

/// `chrono::format::ParseError`, of which nothing is read.
#[verifier::external_type_specification]
#[verifier::external_body]
pub struct ExParseError(chrono::format::ParseError);

/// What a text is read as by the rules for a date and time with an offset
/// from UTC (RFC 3339, and the relaxed forms that chrono takes for it): the
/// whole seconds from the epoch to that instant in UTC, and the nanoseconds
/// into the second, which are a full second or more where the text numbers
/// a second 60. `None` where the text is no such date and time.
pub uninterp spec fn utc_reading(text: Seq<char>) -> Option<(i64, u32)>;

/// The instant that a clock reading stands for: so many nanoseconds after
/// so many seconds from the epoch. `None` where the nanoseconds reach two
/// seconds, or are a full second after the last second that can be held.
pub open spec fn reading_instant(secs: i64, nanos: u32) -> Option<int> {
    if nanos < NANOS_PER_SEC || (nanos < 2 * NANOS_PER_SEC && secs < i64::MAX) {
        Some(secs * NANOS_PER_SEC + nanos)
    } else {
        None
    }
}

/// The instant that `text` names, in nanoseconds from the epoch.
pub open spec fn instant(text: Seq<char>) -> Option<int> {
    match utc_reading(text) {
        Some((secs, nanos)) => reading_instant(secs, nanos),
        None => None,
    }
}

/// `str::parse` to a `chrono::DateTime<chrono::Utc>`, then `timestamp` and
/// `timestamp_subsec_nanos` of the result: the reading of `text`, or the
/// parser's error where `text` has none.
#[verifier::external_body]
fn read_utc(text: &str) -> (r: Result<(i64, u32), chrono::format::ParseError>)
    ensures
        match r {
            Ok(reading) => utc_reading(text@) == Some(reading),
            Err(_) => utc_reading(text@) is None,
        },
{
    text.parse::<chrono::DateTime<chrono::Utc>>().map(
        |at| (at.timestamp(), at.timestamp_subsec_nanos()),
    )
}

/// An instant without a time zone: whole seconds from the epoch and the
/// nanoseconds into that second. The nanoseconds never reach a full second.
#[derive(Clone, Copy, Debug, PartialEq, Eq)]
pub struct Timestamp {
    secs: i64,
    nanos: u32,
}

impl View for Timestamp {
    type V = int;

    /// Nanoseconds from the epoch.
    closed spec fn view(&self) -> int {
        self.secs * NANOS_PER_SEC + self.nanos
    }
}

impl Timestamp {
    #[verifier::type_invariant]
    closed spec fn in_second(self) -> bool {
        self.nanos < NANOS_PER_SEC
    }

    /// The calendar day that holds the instant.
    pub open spec fn day(self) -> int {
        self@ / (NANOS_PER_DAY as int)
    }

    /// The instant `nanos` nanoseconds after `secs` seconds from the epoch,
    /// where `nanos` is less than a second.
    pub fn new(secs: i64, nanos: u32) -> (r: Option<Timestamp>)
        ensures
            nanos < NANOS_PER_SEC <==> r is Some,
            r matches Some(t) ==> t@ == secs * NANOS_PER_SEC + nanos,
    {
        if nanos < NANOS_PER_SEC {
            Some(Timestamp { secs, nanos })
        } else {
            None
        }
    }

    /// The instant that a clock reading stands for. A reading may number a
    /// second 60: it then holds the last second of the minute and a full
    /// second or more of nanoseconds, and stands for the instant that many
    /// nanoseconds after that second. `None` where the nanoseconds reach two
    /// seconds, or where the carried second cannot be held.
    pub fn from_reading(secs: i64, nanos: u32) -> (r: Option<Timestamp>)
        ensures
            match r {
                Some(t) => reading_instant(secs, nanos) == Some(t@),
                None => reading_instant(secs, nanos) is None,
            },
    {
        if nanos < NANOS_PER_SEC {
            Some(Timestamp { secs, nanos })
        } else if nanos - NANOS_PER_SEC < NANOS_PER_SEC && secs < i64::MAX {
            Some(Timestamp { secs: secs + 1, nanos: nanos - NANOS_PER_SEC })
        } else {
            None
        }
    }

    /// The instant that `text` names.
    pub fn parse(text: &str) -> (r: Option<Timestamp>)
        ensures
            match r {
                Some(t) => instant(text@) == Some(t@),
                None => instant(text@) is None,
            },
    {
        match read_utc(text) {
            Ok(reading) => Timestamp::from_reading(reading.0, reading.1),
            Err(_) => None,
        }
    }

    /// Whole seconds from the epoch, rounded down.
    pub fn secs(&self) -> (r: i64)
        ensures
            r == self@ / (NANOS_PER_SEC as int),
    {
        proof {
            use_type_invariant(self);
        }
        self.secs
    }

    /// Nanoseconds into the second.
    pub fn nanos(&self) -> (r: u32)
        ensures
            r == self@ % (NANOS_PER_SEC as int),
            r < NANOS_PER_SEC,
    {
        proof {
            use_type_invariant(self);
        }
        self.nanos
    }

    /// The calendar day that holds the instant, counted from 1970-01-01.
    pub fn day_number(&self) -> (r: i64)
        ensures
            r == self.day(),
            -0x8000_0000_0000 < r < 0x8000_0000_0000,
    {
        proof {
            use_type_invariant(self);
        }
        if self.secs >= 0 {
            self.secs / SECS_PER_DAY
        } else {
            -((-(self.secs + 1)) / SECS_PER_DAY) - 1
        }
    }

    /// Whole days from `earlier` to this instant, rounded toward zero:
    /// negative where this instant is the earlier one.
    pub fn days_since(&self, earlier: &Timestamp) -> (r: i64)
        ensures
            r == toward_zero(self@ - earlier@, NANOS_PER_DAY as int),
    {
        proof {
            use_type_invariant(self);
            use_type_invariant(earlier);
        }
        let span: i128 = (self.secs as i128 - earlier.secs as i128) * (NANOS_PER_SEC as i128) + (
        self.nanos as i128 - earlier.nanos as i128);
        let days = span / (NANOS_PER_DAY as i128);
        days as i64
    }

    /// Whether the instant is later than the beginning of the window of
    /// `weeks` weeks that ends with the day `today`.
    pub fn after_window_start(&self, today: Date, weeks: u32) -> (r: bool)
        ensures
            r == (self@ > window_start(today, weeks)),
    {
        proof {
            use_type_invariant(self);
        }
        let day: i128 = today.day as i128 - 7 * (weeks as i128);
        let begins: i128 = day * 86_400;
        assert(window_start(today, weeks) == begins * 1_000_000_000);
        let secs = self.secs as i128;
        secs > begins || (secs == begins && self.nanos > 0)
    }
}

} // verus!
