//! Instants and the deadline rule.
//!
//! Timestamps are written `YYYY/MM/DD-HH:MM:SS`. Reading one is left to
//! `chrono`; what comes back is kept as two plain integers, on which the
//! ordering and the two-hour rule are defined and proved here.

use vstd::prelude::*;
use crate::text::is_digit;

verus! {

/// Number of seconds in the two hours before departure during which
/// reservations can no longer be made or cancelled.
pub const DEADLINE_SECONDS: i64 = 7200;

/// Nanosecond count from which a second is a leap second.
pub const LEAP_NANOS: u32 = 1_000_000_000;

/// A point on the naive local time line.
///
/// `secs` counts the seconds since 1970-01-01 00:00:00. `nanos` is the
/// fraction of the second; a value of one billion or more marks a leap
/// second, written `HH:MM:60`, which is kept as the 59th second with the
/// fraction raised by one billion. Instants are ordered by `secs`, then by
/// `nanos`.
#[derive(Clone, Copy, Debug, PartialEq, Eq, Structural)]
pub struct Instant {
    pub secs: i64,
    pub nanos: u32,
}

impl Instant {
    /// `self` is not earlier than `other`.
    pub open spec fn at_or_after(self, other: Instant) -> bool {
        self.secs > other.secs || (self.secs == other.secs && self.nanos >= other.nanos)
    }

    /// `self` is strictly earlier than `other`.
    pub open spec fn before(self, other: Instant) -> bool {
        !self.at_or_after(other)
    }

    /// Seconds component of the instant two hours before this one. A leap
    /// second counts as a full second of its own, so two hours before
    /// `HH:MM:60` is the start of the next minute, two hours earlier.
    pub open spec fn deadline_secs(self) -> int {
        if self.nanos >= LEAP_NANOS {
            self.secs + 1 - DEADLINE_SECONDS
        } else {
            self.secs - DEADLINE_SECONDS
        }
    }

    /// Fraction component of the instant two hours before this one.
    pub open spec fn deadline_nanos(self) -> int {
        if self.nanos >= LEAP_NANOS {
            self.nanos - LEAP_NANOS
        } else {
            self.nanos as int
        }
    }

    /// Executable form of [`Instant::at_or_after`].
    pub fn is_at_or_after(&self, other: &Instant) -> (r: bool)
        ensures
            r == self.at_or_after(*other),
    {
        self.secs > other.secs || (self.secs == other.secs && self.nanos >= other.nanos)
    }
}

/// The deadline rule: `now` is at or after the instant two hours before
/// `departure`.
pub open spec fn too_late(now: Instant, departure: Instant) -> bool {
    now.secs > departure.deadline_secs() || (now.secs == departure.deadline_secs() && now.nanos
        >= departure.deadline_nanos())
}

/// A departure comes before another. A departure that cannot be read
/// (`None`) comes before every departure that can.
pub open spec fn departs_before(a: Option<Instant>, b: Option<Instant>) -> bool {
    match (a, b) {
        (None, Some(_)) => true,
        (Some(x), Some(y)) => x.before(y),
        _ => false,
    }
}

/// Executable form of [`departs_before`].
pub fn is_departure_before(a: &Option<Instant>, b: &Option<Instant>) -> (r: bool)
    ensures
        r == departs_before(*a, *b),
{
    match (a, b) {
        (None, Some(_)) => true,
        (Some(x), Some(y)) => !x.is_at_or_after(y),
        _ => false,
    }
}

/// What `chrono` reads from `text` under the format `format`: the seconds
/// since 1970-01-01 00:00:00 and the nanosecond fraction of the date and
/// time read, or `None` where `text` does not match `format` or names no
/// date and time.
pub uninterp spec fn naive_datetime_from_str(text: Seq<char>, format: Seq<char>) -> Option<
    (i64, u32),
>;

/// The instant named by a pair of seconds and nanoseconds.
pub open spec fn instant_of(parts: Option<(i64, u32)>) -> Option<Instant> {
    match parts {
        Some((secs, nanos)) => Some(Instant { secs, nanos }),
        None => None,
    }
}

/// The format of every timestamp, as `chrono` writes it.
pub open spec fn timestamp_format() -> Seq<char> {
    "%Y/%m/%d-%H:%M:%S"@
}

/// Calls `chrono::NaiveDateTime::parse_from_str` on `text` with `format` and
/// hands the date and time read back as an [`Instant`], through
/// `DateTime::timestamp` and `DateTime::timestamp_subsec_nanos` of its
/// `and_utc` form. Not proved: that the result is the one named by
/// [`naive_datetime_from_str`], that is, that `chrono` gives the same answer
/// for the same two strings every time. It is stated for the timestamp
/// format only, on which `chrono` reads numbers and literal marks and does
/// not panic.
#[verifier::external_body]
fn read_naive_datetime(text: &str, format: &str) -> (r: Option<Instant>)
    requires
        format@ == timestamp_format(),
    ensures
        r == instant_of(naive_datetime_from_str(text@, format@)),
{
    match chrono::NaiveDateTime::parse_from_str(text, format) {
        Ok(datetime) => Some(
            Instant {
                secs: datetime.and_utc().timestamp(),
                nanos: datetime.and_utc().timestamp_subsec_nanos(),
            },
        ),
        Err(_) => None,
    }
}

/// Number of characters of a timestamp.
pub const TIMESTAMP_LENGTH: usize = 19;

/// The mark that a timestamp has at position `i`, counted from 0: a slash
/// after the year and after the month, a hyphen after the day, a colon
/// after the hour and after the minute. `None` where it has a digit.
pub open spec fn timestamp_mark(i: int) -> Option<char> {
    if i == 4 || i == 7 {
        Some('/')
    } else if i == 10 {
        Some('-')
    } else if i == 13 || i == 16 {
        Some(':')
    } else {
        None
    }
}

/// `text` has at position `i` what a timestamp has there.
pub open spec fn fits_timestamp_at(text: Seq<char>, i: int) -> bool {
    match timestamp_mark(i) {
        Some(mark) => text[i] == mark,
        None => is_digit(text[i]),
    }
}

/// `text` is written `YYYY/MM/DD-HH:MM:SS`: nineteen characters, digits
/// but for the five marks.
pub open spec fn has_timestamp_shape(text: Seq<char>) -> bool {
    &&& text.len() == TIMESTAMP_LENGTH
    &&& forall|i: int| 0 <= i < TIMESTAMP_LENGTH ==> fits_timestamp_at(text, i)
}

/// The instant that a timestamp names: `None` where the text is not
/// written `YYYY/MM/DD-HH:MM:SS` or names no date and time of day.
pub open spec fn timestamp_instant(text: Seq<char>) -> Option<Instant> {
    if has_timestamp_shape(text) {
        instant_of(naive_datetime_from_str(text, timestamp_format()))
    } else {
        None
    }
}

/// The instant at which a flight leaves on `date`, given its departure
/// time of day: the timestamp made of the date, a hyphen and the time.
pub open spec fn departure_instant(date: Seq<char>, time: Seq<char>) -> Option<Instant> {
    timestamp_instant(date + seq!['-'] + time)
}

/// Whether `text` is written `YYYY/MM/DD-HH:MM:SS`.
pub fn is_timestamp_shaped(text: &str) -> (r: bool)
    ensures
        r == has_timestamp_shape(text@),
{
    if text.unicode_len() != TIMESTAMP_LENGTH {
        return false;
    }
    let mut i: usize = 0;
    while i < TIMESTAMP_LENGTH
        invariant
            i <= TIMESTAMP_LENGTH,
            text@.len() == TIMESTAMP_LENGTH,
            forall|j: int| 0 <= j < i ==> fits_timestamp_at(text@, j),
        decreases TIMESTAMP_LENGTH - i,
    {
        let c: char = text.get_char(i);
        let fits: bool = if i == 4 || i == 7 {
            c == '/'
        } else if i == 10 {
            c == '-'
        } else if i == 13 || i == 16 {
            c == ':'
        } else {
            let code: u32 = c as u32;
            48 <= code && code <= 57
        };
        if !fits {
            assert(!fits_timestamp_at(text@, i as int));
            return false;
        }
        i += 1;
    }
    true
}

/// Reads a timestamp.
pub fn parse_timestamp(text: &str) -> (r: Option<Instant>)
    ensures
        r == timestamp_instant(text@),
{
    if is_timestamp_shaped(text) {
        read_naive_datetime(text, "%Y/%m/%d-%H:%M:%S")
    } else {
        None
    }
}

} // verus!
