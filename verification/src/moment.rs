//! Points in time: an instant together with the date and time of day that
//! the local calendar shows for it.

use crate::calendar::CivilDate;
use crate::calendar::Ymd;
use crate::text::is_digit;
use chrono::{DateTime, Datelike, Local, NaiveDate, TimeZone, Timelike};
use vstd::prelude::*;

verus! {

/// The last second of a day, counted from midnight.
pub const LAST_SECOND: u32 = 86_399;

/// The last instant, in seconds since 1970, at which the clock is handed to
/// the natural-language grammar: the end of the year 9999.
pub const GRAMMAR_CLOCK_MAX: i64 = 253_402_300_799;

/// The longest phrase, in characters, that is handed to the natural-language
/// grammar.
pub const GRAMMAR_TEXT_MAX: usize = 256;

/// An instant with its local calendar date and time of day.
///
/// `timestamp` and `nanos` place the instant on the time line: whole seconds
/// since 1970-01-01T00:00:00Z and the nanoseconds within that second (a leap
/// second shows as a value of a thousand million or more). Instants are
/// ordered by these two alone. `date` and `second_of_day` are what the local
/// calendar and clock show at that instant.
#[derive(Clone, Copy, Debug, PartialEq, Eq, Structural)]
pub struct PointInTime {
    pub timestamp: i64,
    pub nanos: u32,
    pub date: CivilDate,
    pub second_of_day: u32,
}

impl PointInTime {
    /// The fields are in their ranges and the date is representable.
    pub open spec fn well_formed(self) -> bool {
        &&& self.date@.representable()
        &&& self.second_of_day <= LAST_SECOND
        &&& self.nanos < 2_000_000_000
    }

    /// This is the last second of the local day `day`.
    pub open spec fn is_end_of(self, day: Ymd) -> bool {
        &&& self.well_formed()
        &&& self.date@ == day
        &&& self.second_of_day == LAST_SECOND
        &&& self.nanos == 0
    }

    /// This instant comes strictly before `other`.
    pub open spec fn precedes(self, other: PointInTime) -> bool {
        self.timestamp < other.timestamp || (self.timestamp == other.timestamp && self.nanos
            < other.nanos)
    }

    /// This is the same instant as `other`.
    pub open spec fn same_instant(self, other: PointInTime) -> bool {
        self.timestamp == other.timestamp && self.nanos == other.nanos
    }

    /// Whether the fields are in their ranges and the date is representable.
    pub fn is_well_formed(&self) -> (r: bool)
        ensures
            r == self.well_formed(),
    {
        self.date.is_representable() && self.second_of_day <= LAST_SECOND && self.nanos
            < 2_000_000_000
    }

    /// Whether this instant comes strictly before `other`.
    pub fn is_before(&self, other: &PointInTime) -> (r: bool)
        ensures
            r == self.precedes(*other),
    {
        self.timestamp < other.timestamp || (self.timestamp == other.timestamp && self.nanos
            < other.nanos)
    }

    /// The present moment by the system clock, in the local time zone.
    pub fn now() -> (r: PointInTime)
        ensures
            r.well_formed(),
    {
        local_now()
    }
}

/// Whether a clock reading may be handed to the natural-language grammar: an
/// instant from 1970 to the end of 9999, outside a leap second. The
/// grammar computes with the clock without guarding its arithmetic; within
/// these bounds, and on phrases that `grammar_reads` admits, it stays in
/// range.
pub open spec fn grammar_clock(now: PointInTime) -> bool {
    0 <= now.timestamp <= GRAMMAR_CLOCK_MAX && now.nanos < 1_000_000_000
}

/// Whether a phrase may be handed to the natural-language grammar: at most
/// `GRAMMAR_TEXT_MAX` characters, all of them ASCII, no number of more than
/// four digits, and a digit after each full stop that is not the last
/// character. The grammar slices words by bytes, multiplies the numbers it
/// reads and takes what follows a full stop for a fraction, each without
/// a guard; other phrases are kept from it and count as unread.
pub open spec fn grammar_reads(text: Seq<char>) -> bool {
    &&& text.len() <= GRAMMAR_TEXT_MAX
    &&& forall|i: int| 0 <= i < text.len() ==> #[trigger] text[i] <= '\x7f'
    &&& forall|i: int|
        0 <= i && i + 4 < text.len() ==> !(is_digit(#[trigger] text[i]) && is_digit(text[i + 1])
            && is_digit(text[i + 2]) && is_digit(text[i + 3]) && is_digit(text[i + 4]))
    &&& forall|i: int|
        0 <= i && i + 1 < text.len() && #[trigger] text[i] == '.' ==> is_digit(text[i + 1])
}

/// Calls `Local::now` and reads the instant and the local calendar fields
/// off the result. Trusted: the reading is well formed, whatever the clock
/// shows.
#[verifier::external_body]
pub(crate) fn local_now() -> (r: PointInTime)
    ensures
        r.well_formed(),
{
    let t = Local::now();
    let date = CivilDate { year: t.year(), month: t.month(), day: t.day() };
    let second_of_day = t.num_seconds_from_midnight();
    PointInTime { timestamp: t.timestamp(), nanos: t.timestamp_subsec_nanos(), date, second_of_day }
}

/// Calls `Local.from_local_datetime` for 23:59:59 on `date` and takes the
/// result where it is unique. Trusted: a result is the last second of that
/// local day; whether there is one depends on the time zone, which may skip
/// that second or show it twice. `date` is representable, so the backend
/// has the day and its last second.
#[verifier::external_body]
pub(crate) fn local_end_of_day(date: CivilDate) -> (r: Option<PointInTime>)
    requires
        date@.representable(),
    ensures
        r matches Some(p) ==> p.is_end_of(date@),
{
    let day = NaiveDate::from_ymd_opt(date.year, date.month, date.day).unwrap();
    let t = Local.from_local_datetime(&day.and_hms_opt(23, 59, 59).unwrap()).single()?;
    let date = CivilDate { year: t.year(), month: t.month(), day: t.day() };
    let second_of_day = t.num_seconds_from_midnight();
    Some(PointInTime { timestamp: t.timestamp(), nanos: t.timestamp_subsec_nanos(), date, second_of_day })
}

/// Calls `chrono_english::parse_date_string` in the US dialect, with the
/// instant of `now` in the local zone as the moment that relative phrases
/// start from. Trusted: a result is well formed; what the grammar reads is
/// not stated. The two conditions keep the grammar within what it can
/// take, and the instant within what the backend can rebuild.
#[verifier::external_body]
pub(crate) fn natural_language_date(text: &str, now: &PointInTime) -> (r: Option<PointInTime>)
    requires
        grammar_reads(text@),
        grammar_clock(*now),
    ensures
        r matches Some(p) ==> p.well_formed(),
{
    let base = Local.timestamp_opt(now.timestamp, now.nanos).unwrap();
    let t = chrono_english::parse_date_string(text, base, chrono_english::Dialect::Us).ok()?;
    let date = CivilDate { year: t.year(), month: t.month(), day: t.day() };
    let second_of_day = t.num_seconds_from_midnight();
    Some(PointInTime { timestamp: t.timestamp(), nanos: t.timestamp_subsec_nanos(), date, second_of_day })
}

/// Calls `DateTime::parse_from_rfc3339` and `DateTime::with_timezone` for the
/// local zone. Trusted: a result is well formed; which texts give one is
/// not stated.
#[verifier::external_body]
pub(crate) fn rfc3339_moment(text: &str) -> (r: Option<PointInTime>)
    ensures
        r matches Some(p) ==> p.well_formed(),
{
    let t = DateTime::parse_from_rfc3339(text).ok()?.with_timezone(&Local);
    let date = CivilDate { year: t.year(), month: t.month(), day: t.day() };
    let second_of_day = t.num_seconds_from_midnight();
    Some(PointInTime { timestamp: t.timestamp(), nanos: t.timestamp_subsec_nanos(), date, second_of_day })
}

/// Whether a phrase may be handed to the natural-language grammar.
pub fn grammar_can_read(text: &Vec<char>) -> (r: bool)
    ensures
        r == grammar_reads(text@),
{
    let n = text.len();
    if n > GRAMMAR_TEXT_MAX {
        return false;
    }
    let mut run: usize = 0;
    let mut i: usize = 0;
    while i < n
        invariant
            i <= n,
            n == text.len(),
            run <= 4,
            run <= i,
            forall|k: int| i - run <= k < i ==> is_digit(#[trigger] text@[k]),
            run < i ==> !is_digit(text@[i - run - 1]),
            forall|k: int| 0 <= k < i ==> #[trigger] text@[k] <= '\x7f',
            forall|k: int|
                0 <= k && k + 4 < i ==> !(is_digit(#[trigger] text@[k]) && is_digit(text@[k + 1])
                    && is_digit(text@[k + 2]) && is_digit(text@[k + 3]) && is_digit(text@[k + 4])),
            forall|k: int|
                0 <= k && k + 1 < i && #[trigger] text@[k] == '.' ==> is_digit(text@[k + 1]),
        decreases n - i,
    {
        let c = text[i];
        if c > '\x7f' {
            return false;
        }
        if i > 0 && text[i - 1] == '.' && !(c >= '0' && c <= '9') {
            return false;
        }
        if c >= '0' && c <= '9' {
            if run == 4 {
                assert(is_digit(text@[i - 4]) && is_digit(text@[i - 3]) && is_digit(text@[i - 2])
                    && is_digit(text@[i - 1]) && is_digit(text@[i as int]));
                return false;
            }
            run += 1;
        } else {
            run = 0;
        }
        i += 1;
    }
    true
}

} // verus!
