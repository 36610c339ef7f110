//! Calendar dates in the proleptic Gregorian calendar.
//!
//! `Ymd` is the mathematical date (unbounded integers); `CivilDate` is the
//! machine date whose view is a `Ymd`. Day arithmetic is specified by
//! iterating the successor and predecessor of a date.

use chrono::{Datelike, NaiveDate, TimeDelta};
use vstd::prelude::*;

verus! {

/// The earliest year a date may have and still be handed to the date-time backend.
pub const MIN_YEAR: i32 = -262_143;

/// The latest year a date may have and still be handed to the date-time backend.
pub const MAX_YEAR: i32 = 262_142;

/// The Gregorian leap-year rule: every fourth year, except centuries not divisible by 400.
pub open spec fn is_leap_year(year: int) -> bool {
    year % 4 == 0 && (year % 100 != 0 || year % 400 == 0)
}

/// Number of days in `month` of `year`; zero when `month` is not a month.
pub open spec fn days_in_month(year: int, month: int) -> int {
    if month < 1 || month > 12 {
        0
    } else if month == 2 {
        if is_leap_year(year) {
            29
        } else {
            28
        }
    } else if month == 4 || month == 6 || month == 9 || month == 11 {
        30
    } else {
        31
    }
}

/// A calendar date over the mathematical integers.
pub struct Ymd {
    pub year: int,
    pub month: int,
    pub day: int,
}

impl Ymd {
    /// The date exists in the calendar.
    pub open spec fn is_valid(self) -> bool {
        1 <= self.day <= days_in_month(self.year, self.month)
    }

    /// The date exists and its year lies within `MIN_YEAR ..= MAX_YEAR`.
    pub open spec fn representable(self) -> bool {
        self.is_valid() && MIN_YEAR <= self.year <= MAX_YEAR
    }

    /// The calendar day that follows this one.
    pub open spec fn next_day(self) -> Ymd {
        if self.day < days_in_month(self.year, self.month) {
            Ymd { day: self.day + 1, ..self }
        } else if self.month < 12 {
            Ymd { year: self.year, month: self.month + 1, day: 1 }
        } else {
            Ymd { year: self.year + 1, month: 1, day: 1 }
        }
    }

    /// The calendar day that precedes this one.
    pub open spec fn prev_day(self) -> Ymd {
        if self.day > 1 {
            Ymd { day: self.day - 1, ..self }
        } else if self.month > 1 {
            Ymd {
                year: self.year,
                month: self.month - 1,
                day: days_in_month(self.year, self.month - 1),
            }
        } else {
            Ymd { year: self.year - 1, month: 12, day: 31 }
        }
    }

    /// The date `n` days after this one (before it, when `n` is negative).
    pub open spec fn plus_days(self, n: int) -> Ymd
        decreases (if n >= 0 { n } else { -n }),
    {
        if n == 0 {
            self
        } else if n > 0 {
            self.plus_days(n - 1).next_day()
        } else {
            self.plus_days(n + 1).prev_day()
        }
    }

    /// The same day of the month `n` months later, the day clamped to the
    /// length of the target month. Months are counted forwards across the
    /// ends of years, and backwards within the year only: `None` when
    /// `month + n < 1`.
    pub open spec fn plus_months(self, n: int) -> Option<Ymd> {
        let total = self.month + n;
        if total < 1 {
            None
        } else {
            let year = self.year + (total - 1) / 12;
            let month = (total - 1) % 12 + 1;
            Some(Ymd { year, month, day: clamp_day(year, month, self.day) })
        }
    }

    /// The same month and day `n` years later, the day clamped to the length
    /// of the month in the target year.
    pub open spec fn plus_years(self, n: int) -> Ymd {
        Ymd {
            year: self.year + n,
            month: self.month,
            day: clamp_day(self.year + n, self.month, self.day),
        }
    }

    /// The machine date with these fields.
    pub open spec fn civil(self) -> CivilDate {
        CivilDate { year: self.year as i32, month: self.month as u32, day: self.day as u32 }
    }
}

/// `day`, or the last day of the month where the month is shorter.
pub open spec fn clamp_day(year: int, month: int, day: int) -> int {
    if day <= days_in_month(year, month) {
        day
    } else {
        days_in_month(year, month)
    }
}

/// A calendar date as the machine holds it.
#[derive(Clone, Copy, Debug, PartialEq, Eq, Structural)]
pub struct CivilDate {
    pub year: i32,
    pub month: u32,
    pub day: u32,
}

impl View for CivilDate {
    type V = Ymd;

    open spec fn view(&self) -> Ymd {
        Ymd { year: self.year as int, month: self.month as int, day: self.day as int }
    }
}

/// Whether `year` is a leap year.
pub fn leap_year(year: i32) -> (r: bool)
    ensures
        r == is_leap_year(year as int),
{
    // 2_147_484_000 is a multiple of 400 above every negated `i32`.
    let shifted: u64 = (year as i64 + 2_147_484_000) as u64;
    shifted % 4 == 0 && (shifted % 100 != 0 || shifted % 400 == 0)
}

/// The length of `month` in `year`; zero when `month` is not a month.
pub fn month_length(year: i32, month: u32) -> (r: u32)
    ensures
        r == days_in_month(year as int, month as int),
{
    if month < 1 || month > 12 {
        0
    } else if month == 2 {
        if leap_year(year) {
            29
        } else {
            28
        }
    } else if month == 4 || month == 6 || month == 9 || month == 11 {
        30
    } else {
        31
    }
}

impl CivilDate {
    /// The date with the given fields, if it exists and is representable.
    pub fn from_ymd(year: i32, month: u32, day: u32) -> (r: Option<CivilDate>)
        ensures
            r == (if (Ymd { year: year as int, month: month as int, day: day as int }).representable() {
                Some(CivilDate { year, month, day })
            } else {
                None
            }),
    {
        if MIN_YEAR <= year && year <= MAX_YEAR && 1 <= day && day <= month_length(year, month) {
            Some(CivilDate { year, month, day })
        } else {
            None
        }
    }

    /// Whether the date exists and is representable.
    pub fn is_representable(&self) -> (r: bool)
        ensures
            r == self@.representable(),
    {
        MIN_YEAR <= self.year && self.year <= MAX_YEAR && 1 <= self.day && self.day
            <= month_length(self.year, self.month)
    }
}

/// The date that `NaiveDate::parse_from_str` reads from `text` under the
/// format `format`, if it reads one.
pub uninterp spec fn date_in_format(text: Seq<char>, format: Seq<char>) -> Option<Ymd>;

/// The text that `NaiveDate::format` writes for `date` under "%Y-%m-%d".
pub uninterp spec fn iso_date_text(date: Ymd) -> Seq<char>;

/// Whether `format` is one of the six numeric date formats that the
/// interpreter tries.
pub open spec fn is_numeric_format(format: Seq<char>) -> bool {
    format == "%Y-%m-%d"@ || format == "%m/%d/%Y"@ || format == "%d/%m/%Y"@ || format
        == "%Y/%m/%d"@ || format == "%m-%d-%Y"@ || format == "%d-%m-%Y"@
}

/// Calls `NaiveDate::parse_from_str`. Trusted: the outcome is the named
/// reading of the text under the format, and a date that was read is a
/// representable one.
#[verifier::external_body]
pub(crate) fn chrono_parse(text: &str, format: &str) -> (r: Option<CivilDate>)
    requires
        is_numeric_format(format@),
    ensures
        r matches Some(d) ==> d@.representable(),
        date_in_format(text@, format@) == (match r {
            Some(d) => Some(d@),
            None => None,
        }),
{
    match NaiveDate::parse_from_str(text, format) {
        Ok(d) => Some(CivilDate { year: d.year(), month: d.month(), day: d.day() }),
        Err(_) => None,
    }
}

/// Calls `NaiveDate::checked_add_signed` with `TimeDelta::try_days`.
/// Trusted: the result is the date `days` days after `date`, and it is
/// absent exactly when that date is not representable. `date` is
/// representable, so the backend has it.
#[verifier::external_body]
pub(crate) fn chrono_plus_days(date: CivilDate, days: i64) -> (r: Option<CivilDate>)
    requires
        date@.representable(),
    ensures
        match r {
            Some(d) => d@ == date@.plus_days(days as int) && d@.representable(),
            None => !date@.plus_days(days as int).representable(),
        },
{
    let start = NaiveDate::from_ymd_opt(date.year, date.month, date.day).unwrap();
    match TimeDelta::try_days(days).and_then(|span| start.checked_add_signed(span)) {
        Some(d) => Some(CivilDate { year: d.year(), month: d.month(), day: d.day() }),
        None => None,
    }
}

/// Calls `NaiveDate::weekday` and `Weekday::num_days_from_monday`. Trusted:
/// the result is the day of the week of the date in the proleptic Gregorian
/// calendar, counted from Monday as 0.
#[verifier::external_body]
pub(crate) fn chrono_weekday(date: CivilDate) -> (r: u32)
    requires
        date@.representable(),
    ensures
        r == weekday_index(date@),
{
    let d = NaiveDate::from_ymd_opt(date.year, date.month, date.day).unwrap();
    d.weekday().num_days_from_monday()
}

/// Calls `NaiveDate::signed_duration_since` and `TimeDelta::num_days`.
/// Trusted: `later` is the date that lies the result's number of days after
/// `earlier`.
#[verifier::external_body]
pub(crate) fn chrono_days_between(later: CivilDate, earlier: CivilDate) -> (r: i64)
    requires
        later@.representable(),
        earlier@.representable(),
    ensures
        earlier@.plus_days(r as int) == later@,
{
    let a = NaiveDate::from_ymd_opt(later.year, later.month, later.day).unwrap();
    let b = NaiveDate::from_ymd_opt(earlier.year, earlier.month, earlier.day).unwrap();
    a.signed_duration_since(b).num_days()
}

/// Calls `NaiveDate::format` with "%Y-%m-%d". Trusted: the result is the
/// named text of the date.
#[verifier::external_body]
pub(crate) fn chrono_iso_text(date: CivilDate) -> (r: String)
    requires
        date@.representable(),
    ensures
        r@ == iso_date_text(date@),
{
    let d = NaiveDate::from_ymd_opt(date.year, date.month, date.day).unwrap();
    d.format("%Y-%m-%d").to_string()
}

/// The date `n` days after `today`; `today` itself where that date is not
/// representable.
pub open spec fn days_after(today: CivilDate, n: int) -> CivilDate {
    let target = today@.plus_days(n);
    if target.representable() {
        target.civil()
    } else {
        today
    }
}

/// The date `n` months after `today`, the day clamped to the month's
/// length; `today` itself where there is no such representable date.
pub open spec fn months_after(today: CivilDate, n: int) -> CivilDate {
    match today@.plus_months(n) {
        Some(target) => if target.representable() {
            target.civil()
        } else {
            today
        },
        None => today,
    }
}

/// The date `n` years after `today`, the day clamped to the month's length;
/// `today` itself where that date is not representable.
pub open spec fn years_after(today: CivilDate, n: int) -> CivilDate {
    let target = today@.plus_years(n);
    if target.representable() {
        target.civil()
    } else {
        today
    }
}

/// A measure of how late a date is: later dates have larger ranks.
pub open spec fn day_rank(date: Ymd) -> int {
    372 * date.year + 31 * date.month + date.day
}

/// Day arithmetic stays within the calendar and moves forward with the
/// count: the date `n` days after a valid date is valid, and its rank lies
/// at least `n` above the start's for `n >= 0`, at least `-n` below it for
/// `n <= 0`.
pub proof fn lemma_plus_days(date: Ymd, n: int)
    requires
        date.is_valid(),
    ensures
        date.plus_days(n).is_valid(),
        n >= 0 ==> day_rank(date.plus_days(n)) >= day_rank(date) + n,
        n <= 0 ==> day_rank(date.plus_days(n)) <= day_rank(date) + n,
    decreases (if n >= 0 { n } else { -n }),
{
    if n > 0 {
        lemma_plus_days(date, n - 1);
    } else if n < 0 {
        lemma_plus_days(date, n + 1);
    }
}

/// Each further day leads to a later date.
pub proof fn lemma_day_by_day(date: Ymd, n: int)
    requires
        date.is_valid(),
    ensures
        day_rank(date.plus_days(n)) < day_rank(date.plus_days(n + 1)),
{
    lemma_plus_days(date, n);
    lemma_plus_days(date, n + 1);
}

/// A larger count of days leads to a later date.
pub proof fn lemma_later_with_more_days(date: Ymd, a: int, b: int)
    requires
        date.is_valid(),
        a < b,
    ensures
        day_rank(date.plus_days(a)) < day_rank(date.plus_days(b)),
    decreases b - a,
{
    lemma_day_by_day(date, b - 1);
    if a < b - 1 {
        lemma_later_with_more_days(date, a, b - 1);
    }
}

/// How many days `later` lies after `earlier`; negative where it lies
/// before it.
pub open spec fn days_between(earlier: Ymd, later: Ymd) -> int {
    choose|n: int| earlier.plus_days(n) == later
}

/// A Monday to count weekdays from: the first day of 2001.
pub open spec fn a_monday() -> Ymd {
    Ymd { year: 2001, month: 1, day: 1 }
}

/// The day of the week on which `date` falls, counted from Monday as 0:
/// weekdays repeat every seven days.
pub open spec fn weekday_index(date: Ymd) -> int {
    days_between(a_monday(), date) % 7
}

/// One day more leads to the next day, one day less to the previous day,
/// whatever the count.
pub proof fn lemma_one_more_day(date: Ymd, n: int)
    requires
        date.is_valid(),
    ensures
        date.plus_days(n + 1) == date.plus_days(n).next_day(),
        date.plus_days(n - 1) == date.plus_days(n).prev_day(),
{
    lemma_plus_days(date, n - 1);
    lemma_plus_days(date, n);
    lemma_plus_days(date, n + 1);
    lemma_next_day(date.plus_days(n - 1));
    lemma_next_day(date.plus_days(n + 1));
}

/// Counts of days add up.
pub proof fn lemma_plus_days_adds(date: Ymd, a: int, b: int)
    requires
        date.is_valid(),
    ensures
        date.plus_days(a).plus_days(b) == date.plus_days(a + b),
    decreases (if b >= 0 { b } else { -b }),
{
    lemma_plus_days(date, a);
    if b > 0 {
        lemma_plus_days_adds(date, a, b - 1);
        lemma_one_more_day(date.plus_days(a), b - 1);
        lemma_one_more_day(date, a + b - 1);
    } else if b < 0 {
        lemma_plus_days_adds(date, a, b + 1);
        lemma_one_more_day(date.plus_days(a), b + 1);
        lemma_one_more_day(date, a + b + 1);
    }
}

/// No day lies between a day and the next: a date that is later than
/// another is its next day or later than that, and dates of one rank are
/// one date.
pub proof fn lemma_no_day_between(a: Ymd, b: Ymd)
    requires
        a.is_valid(),
        b.is_valid(),
    ensures
        day_rank(a) == day_rank(b) ==> a == b,
        day_rank(a) < day_rank(b) ==> day_rank(a.next_day()) <= day_rank(b),
        day_rank(a) < day_rank(b) ==> day_rank(a) <= day_rank(b.prev_day()),
{
}

/// From any date the calendar leads to any other in some count of days.
pub proof fn lemma_days_reach(a: Ymd, b: Ymd)
    requires
        a.is_valid(),
        b.is_valid(),
    ensures
        a.plus_days(days_between(a, b)) == b,
    decreases (if day_rank(b) >= day_rank(a) { day_rank(b) - day_rank(a) } else { day_rank(a) - day_rank(b) }),
{
    lemma_no_day_between(a, b);
    lemma_no_day_between(b, a);
    lemma_next_day(a);
    lemma_next_day(b);
    if day_rank(a) == day_rank(b) {
        assert(a.plus_days(0) == b);
    } else if day_rank(a) < day_rank(b) {
        let before = b.prev_day();
        lemma_days_reach(a, before);
        let n = days_between(a, before);
        lemma_one_more_day(a, n);
        assert(a.plus_days(n + 1) == b);
    } else {
        let after = b.next_day();
        lemma_days_reach(a, after);
        let n = days_between(a, after);
        lemma_one_more_day(a, n);
        assert(a.plus_days(n - 1) == b);
    }
}

/// The count of days to a date `n` days on is `n` more.
pub proof fn lemma_days_between_adds(a: Ymd, b: Ymd, n: int)
    requires
        a.is_valid(),
        b.is_valid(),
    ensures
        days_between(a, b.plus_days(n)) == days_between(a, b) + n,
{
    lemma_days_reach(a, b);
    lemma_plus_days_adds(a, days_between(a, b), n);
    lemma_days_between(a, days_between(a, b) + n);
}

/// Weekdays follow each other in a cycle of seven: the weekday `n` days on
/// is `n` weekdays on.
pub proof fn lemma_weekday_cycle(date: Ymd, n: int)
    requires
        date.is_valid(),
    ensures
        0 <= weekday_index(date) < 7,
        weekday_index(date.plus_days(n)) == (weekday_index(date) + n) % 7,
{
    lemma_days_between_adds(a_monday(), date, n);
}

/// Only one count of days leads from one date to another.
pub proof fn lemma_days_between(earlier: Ymd, n: int)
    requires
        earlier.is_valid(),
    ensures
        days_between(earlier, earlier.plus_days(n)) == n,
{
    let m = days_between(earlier, earlier.plus_days(n));
    assert(earlier.plus_days(m) == earlier.plus_days(n));
    if m < n {
        lemma_later_with_more_days(earlier, m, n);
    } else if n < m {
        lemma_later_with_more_days(earlier, n, m);
    }
}

/// A count of days beyond 64 signed bits leads out of the representable
/// dates.
pub proof fn lemma_far_days(today: CivilDate, n: int)
    requires
        today@.representable(),
        n > i64::MAX || n < i64::MIN,
    ensures
        !today@.plus_days(n).representable(),
        days_after(today, n) == today,
{
    lemma_plus_days(today@, n);
}

/// One day after a date is its next day, one day before it its previous
/// day, and the two undo each other on valid dates.
pub proof fn lemma_next_day(date: Ymd)
    requires
        date.is_valid(),
    ensures
        date.plus_days(1) == date.next_day(),
        date.plus_days(-1) == date.prev_day(),
        date.next_day().is_valid(),
        date.prev_day().is_valid(),
        date.next_day().prev_day() == date,
        date.prev_day().next_day() == date,
        date.next_day() != date,
{
    reveal_with_fuel(Ymd::plus_days, 2);
}

/// A month's arithmetic clamps the day: a date `n` months or years on keeps
/// the day of the month where the target month has it, and is the last day
/// of the target month where it has not.
pub proof fn lemma_day_clamped(today: Ymd, n: int)
    requires
        today.is_valid(),
    ensures
        today.plus_years(n).is_valid(),
        today.plus_years(n).day == today.day || today.plus_years(n).day == days_in_month(
            today.year + n,
            today.month,
        ),
        today.plus_months(n) matches Some(target) ==> target.is_valid() && (target.day == today.day
            || target.day == days_in_month(target.year, target.month)),
{
}

/// One month after the 31st of January is the last day of February: the
/// 29th in a leap year, the 28th in any other.
pub proof fn lemma_month_after_january_31(year: i32)
    requires
        MIN_YEAR <= year <= MAX_YEAR,
    ensures
        months_after(CivilDate { year, month: 1, day: 31 }, 1) == (CivilDate {
            year,
            month: 2,
            day: if is_leap_year(year as int) {
                29u32
            } else {
                28u32
            },
        }),
{
}

impl CivilDate {
    /// The date `n` days later, or this date where the calendar runs out.
    pub fn plus_days(self, n: i64) -> (r: CivilDate)
        requires
            self@.representable(),
        ensures
            r == days_after(self, n as int),
            r@.representable(),
    {
        match chrono_plus_days(self, n) {
            Some(d) => d,
            None => self,
        }
    }

    /// The date `n` months later, or this date where there is none.
    pub fn plus_months(self, n: i64) -> (r: CivilDate)
        requires
            self@.representable(),
        ensures
            r == months_after(self, n as int),
            r@.representable(),
    {
        let total: i64 = match (self.month as i64).checked_add(n) {
            Some(total) => total,
            None => {
                return self;
            },
        };
        if total < 1 {
            return self;
        }
        let year: i64 = self.year as i64 + (total - 1) / 12;
        let month: u32 = ((total - 1) % 12 + 1) as u32;
        if year < MIN_YEAR as i64 || year > MAX_YEAR as i64 {
            return self;
        }
        let length = month_length(year as i32, month);
        let day = if self.day <= length {
            self.day
        } else {
            length
        };
        CivilDate { year: year as i32, month, day }
    }

    /// The date `n` years later, or this date where there is none.
    pub fn plus_years(self, n: i64) -> (r: CivilDate)
        requires
            self@.representable(),
        ensures
            r == years_after(self, n as int),
            r@.representable(),
    {
        let year: i64 = match (self.year as i64).checked_add(n) {
            Some(year) => year,
            None => {
                return self;
            },
        };
        if year < MIN_YEAR as i64 || year > MAX_YEAR as i64 {
            return self;
        }
        let length = month_length(year as i32, self.month);
        let day = if self.day <= length {
            self.day
        } else {
            length
        };
        CivilDate { year: year as i32, month: self.month, day }
    }
}

} // verus!
