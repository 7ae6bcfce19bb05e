//! Points in time as plain values, and what `chrono` computes on them.

use vstd::prelude::*;
use chrono::{DateTime, Duration, Utc};
use crate::text::{digit, text_before};

verus! {

/// A point in time: whole seconds since the Unix epoch, and nanoseconds into
/// that second. A value of a second or more in `nanos` is a leap second.
#[derive(Clone, Copy, Debug, PartialEq, Eq, Structural)]
pub struct Timestamp {
    pub secs: i64,
    pub nanos: u32,
}

/// The first second that a timestamp can stand for.
pub const MIN_SECS: i64 = -8_334_601_228_800;

/// The last second that a timestamp can stand for.
pub const MAX_SECS: i64 = 8_210_266_876_799;

/// The first second of the year 0.
pub const YEAR_0_SECS: i64 = -62_167_219_200;

/// The last second of the year 9999.
pub const YEAR_9999_SECS: i64 = 253_402_300_799;

impl Timestamp {
    /// The seconds lie in the range of the calendar, and a leap second can
    /// only follow the last second of a minute.
    pub open spec fn valid(self) -> bool {
        &&& MIN_SECS <= self.secs <= MAX_SECS
        &&& self.nanos < 2_000_000_000
        &&& self.nanos >= 1_000_000_000 ==> self.secs as int % 60 == 59
    }

    /// A value that a clock can show: not before the epoch, no leap second.
    pub open spec fn on_clock(self) -> bool {
        0 <= self.secs <= MAX_SECS && self.nanos < 1_000_000_000
    }

    /// A value that a four-digit year can express.
    pub open spec fn four_digit_year(self) -> bool {
        self.valid() && YEAR_0_SECS <= self.secs <= YEAR_9999_SECS
    }

    /// Whether this point lies before the other.
    pub open spec fn before(self, other: Timestamp) -> bool {
        self.secs < other.secs || (self.secs == other.secs && self.nanos < other.nanos)
    }

    /// The point that lies `secs` seconds earlier.
    pub open spec fn earlier_by(self, secs: int) -> Timestamp {
        Timestamp { secs: (self.secs - secs) as i64, nanos: self.nanos }
    }

    /// Whether going back by `secs` seconds stays in the calendar.
    pub open spec fn reaches_back(self, secs: int) -> bool {
        MIN_SECS <= self.secs - secs <= MAX_SECS
    }

    /// Whether this point lies before the other.
    pub fn is_before(&self, other: &Timestamp) -> (result: bool)
        ensures
            result == self.before(*other),
    {
        self.secs < other.secs || (self.secs == other.secs && self.nanos < other.nanos)
    }

    /// The current time.
    pub fn now() -> (now: Timestamp)
        ensures
            now.on_clock(),
            now.valid(),
    {
        clock_now()
    }

    /// The point that lies `minutes` minutes earlier.
    pub fn minutes_earlier(&self, minutes: i64) -> (result: Timestamp)
        requires
            self.valid(),
            self.nanos < 1_000_000_000,
            self.reaches_back(60 * minutes),
        ensures
            result == self.earlier_by(60 * minutes),
            result.valid(),
    {
        minus_minutes(*self, minutes)
    }

    /// The point that lies `hours` hours earlier.
    pub fn hours_earlier(&self, hours: i64) -> (result: Timestamp)
        requires
            self.valid(),
            self.nanos < 1_000_000_000,
            self.reaches_back(3600 * hours),
        ensures
            result == self.earlier_by(3600 * hours),
            result.valid(),
    {
        minus_hours(*self, hours)
    }
}

// ---- what chrono computes ----

/// `Utc::now`: whatever the clock shows, it is a valid time at or after the
/// epoch and no leap second. `Utc::now` panics where the system clock stands
/// before the epoch or past the calendar.
#[verifier::external_body]
fn clock_now() -> (now: Timestamp)
    ensures
        now.on_clock(),
        now.valid(),
{
    let now = Utc::now();
    Timestamp { secs: now.timestamp(), nanos: now.timestamp_subsec_nanos() }
}

/// `DateTime<Utc> - Duration::minutes(..)`, away from leap seconds: sixty
/// seconds a minute, the fraction of the second stays.
#[verifier::external_body]
fn minus_minutes(t: Timestamp, minutes: i64) -> (result: Timestamp)
    requires
        t.valid(),
        t.nanos < 1_000_000_000,
        t.reaches_back(60 * minutes),
    ensures
        result == t.earlier_by(60 * minutes),
        result.valid(),
{
    let earlier = DateTime::from_timestamp(t.secs, t.nanos).unwrap() - Duration::minutes(minutes);
    Timestamp { secs: earlier.timestamp(), nanos: earlier.timestamp_subsec_nanos() }
}

/// `DateTime<Utc> - Duration::hours(..)`, away from leap seconds: 3600 seconds
/// an hour, the fraction of the second stays.
#[verifier::external_body]
fn minus_hours(t: Timestamp, hours: i64) -> (result: Timestamp)
    requires
        t.valid(),
        t.nanos < 1_000_000_000,
        t.reaches_back(3600 * hours),
    ensures
        result == t.earlier_by(3600 * hours),
        result.valid(),
{
    let earlier = DateTime::from_timestamp(t.secs, t.nanos).unwrap() - Duration::hours(hours);
    Timestamp { secs: earlier.timestamp(), nanos: earlier.timestamp_subsec_nanos() }
}

/// The text that `DateTime::<Utc>::to_rfc3339` writes.
pub uninterp spec fn rfc3339_text(secs: i64, nanos: u32) -> Seq<char>;

/// The point in time that `DateTime::parse_from_rfc3339` reads, in UTC.
pub uninterp spec fn rfc3339_instant(text: Seq<char>) -> Option<(i64, u32)>;

/// Whether a text stands in the order of the texts of points in time as `t`
/// stands in the order of the points, in the years 0 to 9999.
pub open spec fn stands_for(text: Seq<char>, t: Timestamp) -> bool {
    forall|other: Timestamp|
        other.four_digit_year() ==> (text_before(
            #[trigger] rfc3339_text(other.secs, other.nanos),
            text,
        ) <==> other.before(t))
}

/// Whether a text is the timestamp of `t`. In the years 0 to 9999 it reads back as
/// `t`.
pub open spec fn is_stamp_of(text: Seq<char>, t: Timestamp) -> bool {
    &&& text == rfc3339_text(t.secs, t.nanos)
    &&& t.four_digit_year() ==> rfc3339_instant(text) == Some((t.secs, t.nanos))
}

/// A number below 100 in two decimal digits.
pub open spec fn two_digits(n: nat) -> Seq<char> {
    seq![digit(n / 10), digit(n % 10)]
}

/// The notation of an offset from UTC in minutes, such as `+01:30`.
pub open spec fn offset_text(minutes: int) -> Seq<char> {
    let size = (if minutes < 0 {
        -minutes
    } else {
        minutes
    }) as nat;
    seq![
        if minutes < 0 {
            '-'
        } else {
            '+'
        },
    ] + two_digits(size / 60) + seq![':'] + two_digits(size % 60)
}

/// The text of a clock that shows `local` and is `minutes` minutes ahead of UTC:
/// the text of `local` with its six characters of offset replaced.
pub open spec fn local_text(local: Timestamp, minutes: int) -> Seq<char> {
    let text = rfc3339_text(local.secs, local.nanos);
    text.take(text.len() - 6) + offset_text(minutes)
}

/// `DateTime::<Utc>::to_rfc3339`. In the years 0 to 9999 what it writes is read
/// back as the same point in time, and the order of two texts is the order of the
/// two points.
#[verifier::external_body]
pub(crate) fn to_rfc3339(t: &Timestamp) -> (text: String)
    requires
        t.valid(),
    ensures
        is_stamp_of(text@, *t),
        t.four_digit_year() ==> stands_for(text@, *t),
{
    DateTime::from_timestamp(t.secs, t.nanos).unwrap().to_rfc3339()
}

/// `DateTime::parse_from_rfc3339`, with the result taken to UTC: `None` where
/// the text is refused, and a valid point in time otherwise. A text that
/// `to_rfc3339` writes in the years 0 to 9999 is read as the point it was written
/// from, and stands in the order of the points; with another offset from UTC, of
/// less than a day, it is read as the point that lies by that offset earlier.
#[verifier::external_body]
pub(crate) fn parse_rfc3339(text: &str) -> (t: Option<Timestamp>)
    ensures
        match t {
            Some(t) => rfc3339_instant(text@) == Some((t.secs, t.nanos)) && t.valid(),
            None => rfc3339_instant(text@) is None,
        },
        forall|written: Timestamp|
            written.four_digit_year() && text@ == #[trigger] rfc3339_text(
                written.secs,
                written.nanos,
            ) ==> t == Some(written),
        t matches Some(t) ==> (t.four_digit_year() && text@ == rfc3339_text(t.secs, t.nanos)
            ==> stands_for(text@, t)),
        forall|local: Timestamp, minutes: int|
            local.four_digit_year() && -1440 < minutes < 1440 && text@ == #[trigger] local_text(
                local,
                minutes,
            ) ==> t == Some(local.earlier_by(60 * minutes)),
{
    let t = DateTime::parse_from_rfc3339(text).ok()?.with_timezone(&Utc);
    Some(Timestamp { secs: t.timestamp(), nanos: t.timestamp_subsec_nanos() })
}

} // verus!
