//! Due-date interpretation: keywords, numeric formats, relative phrases,
//! a natural-language grammar and bare weekday names, tried in that order;
//! and the extraction of a date phrase from the words of a description.

use crate::calendar::{
    chrono_parse, chrono_weekday, date_in_format, days_after, is_numeric_format, lemma_far_days,
    lemma_next_day,
    lemma_plus_days, lemma_weekday_cycle, months_after, weekday_index, years_after, CivilDate,
};
use crate::error::TodoError;
use crate::moment::{
    grammar_can_read, grammar_clock, grammar_reads, local_end_of_day, local_now,
    natural_language_date, PointInTime, GRAMMAR_CLOCK_MAX,
};
use crate::text::{
    decimal_i64, join_words, joined, lowercase, lowercase_of, parse_decimal, spells, to_chars,
    trim, trim_of, word_texts,
};
use vstd::prelude::*;
use vstd::string::*;

verus! {

/// The number that one of the words "one" to "ten" names.
pub open spec fn number_word(word: Seq<char>) -> Option<i64> {
    if word == "one"@ {
        Some(1i64)
    } else if word == "two"@ {
        Some(2i64)
    } else if word == "three"@ {
        Some(3i64)
    } else if word == "four"@ {
        Some(4i64)
    } else if word == "five"@ {
        Some(5i64)
    } else if word == "six"@ {
        Some(6i64)
    } else if word == "seven"@ {
        Some(7i64)
    } else if word == "eight"@ {
        Some(8i64)
    } else if word == "nine"@ {
        Some(9i64)
    } else if word == "ten"@ {
        Some(10i64)
    } else {
        None
    }
}

/// Reads a lower-case number word.
pub fn number_from_word(word: &str) -> (r: Option<i64>)
    ensures
        r == number_word(word@),
{
    let chars = to_chars(word);
    if spells(&chars, "one") {
        Some(1)
    } else if spells(&chars, "two") {
        Some(2)
    } else if spells(&chars, "three") {
        Some(3)
    } else if spells(&chars, "four") {
        Some(4)
    } else if spells(&chars, "five") {
        Some(5)
    } else if spells(&chars, "six") {
        Some(6)
    } else if spells(&chars, "seven") {
        Some(7)
    } else if spells(&chars, "eight") {
        Some(8)
    } else if spells(&chars, "nine") {
        Some(9)
    } else if spells(&chars, "ten") {
        Some(10)
    } else {
        None
    }
}

/// Converts one of the words "one" to "ten", in any letter case, to its number.
pub fn word_to_number(word: &str) -> (r: Option<i64>)
    ensures
        r == number_word(lowercase_of(word@)),
{
    let lower = lowercase(word);
    number_from_word(lower.as_str())
}

/// The position of the first space in `s` at or after `from`.
pub open spec fn first_space(s: Seq<char>, from: int) -> Option<int>
    decreases s.len() - from,
{
    if from < 0 || from >= s.len() {
        None
    } else if s[from] == ' ' {
        Some(from)
    } else {
        first_space(s, from + 1)
    }
}

/// Splits "in <amount> <unit>" into the amount and what follows the first
/// space after it. `None` unless the text starts with "in " and a space
/// follows the amount.
pub open spec fn relative_parts(t: Seq<char>) -> Option<(Seq<char>, Seq<char>)> {
    if t.len() >= 3 && t[0] == 'i' && t[1] == 'n' && t[2] == ' ' {
        match first_space(t, 3) {
            Some(i) => Some((t.subrange(3, i), t.subrange(i + 1, t.len() as int))),
            None => None,
        }
    } else {
        None
    }
}

/// The amount of a relative phrase: a decimal integer, or a number word in
/// any letter case.
pub open spec fn relative_amount(amount: Seq<char>) -> Option<i64> {
    match decimal_i64(amount) {
        Some(n) => Some(n),
        None => number_word(lowercase_of(amount)),
    }
}

/// Whether `unit` is one of the eight unit words of a relative phrase.
pub open spec fn is_time_unit(unit: Seq<char>) -> bool {
    unit == "day"@ || unit == "days"@ || unit == "week"@ || unit == "weeks"@ || unit == "month"@
        || unit == "months"@ || unit == "year"@ || unit == "years"@
}

/// The amount and unit word of the phrase "in <amount> <unit>", white space
/// around the phrase and around the unit ignored.
pub open spec fn relative_phrase(s: Seq<char>) -> Option<(i64, Seq<char>)> {
    match relative_parts(trim_of(s)) {
        Some((amount, rest)) => match relative_amount(amount) {
            Some(n) => if is_time_unit(trim_of(rest)) {
                Some((n, trim_of(rest)))
            } else {
                None
            },
            None => None,
        },
        None => None,
    }
}

/// Whether `unit` is a unit word of a relative phrase.
pub fn time_unit_word(unit: &str) -> (r: bool)
    ensures
        r == is_time_unit(unit@),
{
    let chars = to_chars(unit);
    spells(&chars, "day") || spells(&chars, "days") || spells(&chars, "week") || spells(
        &chars,
        "weeks",
    ) || spells(&chars, "month") || spells(&chars, "months") || spells(&chars, "year") || spells(
        &chars,
        "years",
    )
}

/// Finds the first space in `chars` at or after `from`.
fn find_space(chars: &Vec<char>, from: usize) -> (r: Option<usize>)
    requires
        from <= chars.len(),
    ensures
        match r {
            Some(i) => first_space(chars@, from as int) == Some(i as int) && from <= i
                < chars.len(),
            None => first_space(chars@, from as int) is None,
        },
{
    let mut i: usize = from;
    while i < chars.len()
        invariant
            from <= i <= chars.len(),
            first_space(chars@, from as int) == first_space(chars@, i as int),
        decreases chars.len() - i,
    {
        if chars[i] == ' ' {
            return Some(i);
        }
        i += 1;
    }
    None
}

/// Splits "in <amount> <unit>" into the amount and what follows the first
/// space after it, both as they stand in `t`.
pub fn split_relative(t: &str) -> (r: Option<(&str, &str)>)
    ensures
        match r {
            Some((amount, rest)) => relative_parts(t@) == Some((amount@, rest@)),
            None => relative_parts(t@) is None,
        },
{
    let chars = to_chars(t);
    let len = chars.len();
    if !(len >= 3 && chars[0] == 'i' && chars[1] == 'n' && chars[2] == ' ') {
        return None;
    }
    match find_space(&chars, 3) {
        Some(space) => Some((t.substring_char(3, space), t.substring_char(space + 1, len))),
        None => None,
    }
}

/// Reads the amount of a relative phrase: a decimal integer, or a number
/// word in any letter case.
pub fn read_amount(amount: &str) -> (r: Option<i64>)
    ensures
        r == relative_amount(amount@),
{
    let chars = to_chars(amount);
    assert(chars@.subrange(0, chars.len() as int) =~= amount@);
    match parse_decimal(&chars, 0, chars.len()) {
        Some(n) => Some(n),
        None => word_to_number(amount),
    }
}

/// Reads "in <amount> <unit>": the amount as a number and the unit word as
/// it stands in `s`.
pub fn parse_in_n_unit(s: &str) -> (r: Option<(i64, &str)>)
    ensures
        match r {
            Some((n, unit)) => relative_phrase(s@) == Some((n, unit@)),
            None => relative_phrase(s@) is None,
        },
{
    let (amount, rest) = match split_relative(trim(s)) {
        Some(parts) => parts,
        None => {
            return None;
        },
    };
    let n = match read_amount(amount) {
        Some(n) => n,
        None => {
            return None;
        },
    };
    let unit = trim(rest);
    if time_unit_word(unit) {
        Some((n, unit))
    } else {
        None
    }
}

/// The fixed words that name a day: the one table behind the interpreter's
/// keyword stages and the extractor's single-word allow-list.
#[derive(Clone, Copy, Debug, PartialEq, Eq, Structural)]
pub enum Keyword {
    Today,
    Tomorrow,
    /// A day of the week, counted from Monday as 0.
    Weekday(u32),
}

/// The keyword that `t` spells: "today", "tomorrow", or the full name or
/// three-letter abbreviation of a weekday, all in lower case.
pub open spec fn keyword_of(t: Seq<char>) -> Option<Keyword> {
    if t == "today"@ {
        Some(Keyword::Today)
    } else if t == "tomorrow"@ {
        Some(Keyword::Tomorrow)
    } else if t == "monday"@ || t == "mon"@ {
        Some(Keyword::Weekday(0))
    } else if t == "tuesday"@ || t == "tue"@ {
        Some(Keyword::Weekday(1))
    } else if t == "wednesday"@ || t == "wed"@ {
        Some(Keyword::Weekday(2))
    } else if t == "thursday"@ || t == "thu"@ {
        Some(Keyword::Weekday(3))
    } else if t == "friday"@ || t == "fri"@ {
        Some(Keyword::Weekday(4))
    } else if t == "saturday"@ || t == "sat"@ {
        Some(Keyword::Weekday(5))
    } else if t == "sunday"@ || t == "sun"@ {
        Some(Keyword::Weekday(6))
    } else {
        None
    }
}

/// Looks `t` up in the keyword table.
pub fn keyword(t: &str) -> (r: Option<Keyword>)
    ensures
        r == keyword_of(t@),
{
    let chars = to_chars(t);
    if spells(&chars, "today") {
        Some(Keyword::Today)
    } else if spells(&chars, "tomorrow") {
        Some(Keyword::Tomorrow)
    } else if spells(&chars, "monday") || spells(&chars, "mon") {
        Some(Keyword::Weekday(0))
    } else if spells(&chars, "tuesday") || spells(&chars, "tue") {
        Some(Keyword::Weekday(1))
    } else if spells(&chars, "wednesday") || spells(&chars, "wed") {
        Some(Keyword::Weekday(2))
    } else if spells(&chars, "thursday") || spells(&chars, "thu") {
        Some(Keyword::Weekday(3))
    } else if spells(&chars, "friday") || spells(&chars, "fri") {
        Some(Keyword::Weekday(4))
    } else if spells(&chars, "saturday") || spells(&chars, "sat") {
        Some(Keyword::Weekday(5))
    } else if spells(&chars, "sunday") || spells(&chars, "sun") {
        Some(Keyword::Weekday(6))
    } else {
        None
    }
}

/// The first reading that there is, from the position `from` on.
pub open spec fn first_some(readings: Seq<Option<CivilDate>>, from: int) -> Option<CivilDate>
    decreases readings.len() - from,
{
    if from < 0 || from >= readings.len() {
        None
    } else if readings[from] is Some {
        readings[from]
    } else {
        first_some(readings, from + 1)
    }
}

/// What each of the six numeric formats reads from `t`, in the order in
/// which they are tried: year-month-day with hyphens first, then
/// month/day/year, day/month/year, year/month/day, month-day-year and
/// day-month-year.
pub open spec fn format_readings(t: Seq<char>) -> Seq<Option<CivilDate>> {
    seq![
        reading(t, "%Y-%m-%d"@),
        reading(t, "%m/%d/%Y"@),
        reading(t, "%d/%m/%Y"@),
        reading(t, "%Y/%m/%d"@),
        reading(t, "%m-%d-%Y"@),
        reading(t, "%d-%m-%Y"@),
    ]
}

/// What one format reads from `t`.
pub open spec fn reading(t: Seq<char>, format: Seq<char>) -> Option<CivilDate> {
    match date_in_format(t, format) {
        Some(day) => Some(day.civil()),
        None => None,
    }
}

/// The date that `t` writes in numbers: the first of the six formats that
/// reads a date decides.
pub open spec fn absolute_date(t: Seq<char>) -> Option<CivilDate> {
    first_some(format_readings(t), 0)
}

/// The first reading that there is.
pub fn first_reading(readings: &Vec<Option<CivilDate>>) -> (r: Option<CivilDate>)
    ensures
        r == first_some(readings@, 0),
{
    let mut i: usize = 0;
    while i < readings.len()
        invariant
            i <= readings.len(),
            first_some(readings@, 0) == first_some(readings@, i as int),
        decreases readings.len() - i,
    {
        if readings[i].is_some() {
            return readings[i];
        }
        i += 1;
    }
    None
}

/// Reads `t` under one of the six numeric formats.
fn read_format(t: &str, format: &str) -> (r: Option<CivilDate>)
    requires
        is_numeric_format(format@),
    ensures
        r == reading(t@, format@),
        r matches Some(d) ==> d@.representable(),
{
    chrono_parse(t, format)
}

/// Reads `t` as a date written in numbers.
pub fn parse_absolute(t: &str) -> (r: Option<CivilDate>)
    ensures
        r == absolute_date(t@),
        r matches Some(d) ==> d@.representable(),
{
    let mut readings: Vec<Option<CivilDate>> = Vec::new();
    readings.push(read_format(t, "%Y-%m-%d"));
    readings.push(read_format(t, "%m/%d/%Y"));
    readings.push(read_format(t, "%d/%m/%Y"));
    readings.push(read_format(t, "%Y/%m/%d"));
    readings.push(read_format(t, "%m-%d-%Y"));
    readings.push(read_format(t, "%d-%m-%Y"));
    assert(readings@ =~= format_readings(t@));
    let found = first_reading(&readings);
    proof {
        lemma_first_some(readings@, 0);
    }
    found
}

/// The first reading that there is stands among the readings.
pub proof fn lemma_first_some(readings: Seq<Option<CivilDate>>, from: int)
    requires
        0 <= from,
    ensures
        first_some(readings, from) matches Some(d) ==> exists|i: int|
            from <= i < readings.len() && #[trigger] readings[i] == Some(d),
    decreases readings.len() - from,
{
    if from < readings.len() && readings[from] is None {
        lemma_first_some(readings, from + 1);
    }
}

/// The date that lies `n` units after `today`. Days and weeks count days;
/// months and years keep the day of the month, clamped to the length of the
/// target month. Where the target is not a representable date, or `unit`
/// is no unit word, the result is `today`.
pub open spec fn relative_target(today: CivilDate, n: i64, unit: Seq<char>) -> CivilDate {
    if unit == "day"@ || unit == "days"@ {
        days_after(today, n as int)
    } else if unit == "week"@ || unit == "weeks"@ {
        days_after(today, n * 7)
    } else if unit == "month"@ || unit == "months"@ {
        months_after(today, n as int)
    } else if unit == "year"@ || unit == "years"@ {
        years_after(today, n as int)
    } else {
        today
    }
}

/// The date `n` units after `today`.
pub fn relative_date(today: CivilDate, n: i64, unit: &str) -> (r: CivilDate)
    requires
        today@.representable(),
    ensures
        r == relative_target(today, n, unit@),
        r@.representable(),
{
    let chars = to_chars(unit);
    if spells(&chars, "day") || spells(&chars, "days") {
        today.plus_days(n)
    } else if spells(&chars, "week") || spells(&chars, "weeks") {
        match n.checked_mul(7) {
            Some(days) => today.plus_days(days),
            None => {
                proof {
                    lemma_far_days(today, n * 7);
                }
                today
            },
        }
    } else if spells(&chars, "month") || spells(&chars, "months") {
        today.plus_months(n)
    } else if spells(&chars, "year") || spells(&chars, "years") {
        today.plus_years(n)
    } else {
        today
    }
}

/// A text as the interpreter reads it: trimmed, then in lower case.
pub open spec fn normalized(s: Seq<char>) -> Seq<char> {
    lowercase_of(trim_of(s))
}

/// The day that the calendar stages give, from what each stage reads: the
/// keywords "today" and "tomorrow" first, then a date written in numbers,
/// then a relative phrase. `None` where no stage reads anything.
pub open spec fn calendar_choice(
    word: Option<Keyword>,
    absolute: Option<CivilDate>,
    relative: Option<(i64, Seq<char>)>,
    today: CivilDate,
) -> Option<CivilDate> {
    if word == Some(Keyword::Today) {
        Some(today)
    } else if word == Some(Keyword::Tomorrow) {
        Some(days_after(today, 1))
    } else if absolute is Some {
        absolute
    } else {
        match relative {
            Some((n, unit)) => Some(relative_target(today, n, unit)),
            None => None,
        }
    }
}

/// The day that the calendar stages give for the normalised text `t`:
/// "today", "tomorrow", a date written in numbers, or a relative phrase, in
/// this order. `None` where no calendar stage reads `t`.
pub open spec fn calendar_target(t: Seq<char>, today: CivilDate) -> Option<CivilDate> {
    calendar_choice(keyword_of(t), absolute_date(t), relative_phrase(t), today)
}

/// Chooses among what the calendar stages read.
pub fn choose_calendar_date(
    word: Option<Keyword>,
    absolute: Option<CivilDate>,
    relative: Option<(i64, &str)>,
    today: CivilDate,
) -> (r: Option<CivilDate>)
    requires
        today@.representable(),
        absolute matches Some(d) ==> d@.representable(),
    ensures
        r == calendar_choice(
            word,
            absolute,
            match relative {
                Some((n, unit)) => Some((n, unit@)),
                None => None,
            },
            today,
        ),
        r matches Some(d) ==> d@.representable(),
{
    match word {
        Some(Keyword::Today) => {
            return Some(today);
        },
        Some(Keyword::Tomorrow) => {
            return Some(today.plus_days(1));
        },
        _ => {},
    }
    if absolute.is_some() {
        return absolute;
    }
    match relative {
        Some((n, unit)) => Some(relative_date(today, n, unit)),
        None => None,
    }
}

/// How many days ahead the weekday `target` lies when today's weekday is
/// `current`: none when they are the same day.
pub open spec fn days_ahead(target: int, current: int) -> int {
    if target >= current {
        target - current
    } else {
        7 - current + target
    }
}

/// The day that a bare weekday name stands for: the next day of that name
/// on or after `today`.
pub open spec fn weekday_target(t: Seq<char>, today: CivilDate) -> Option<CivilDate> {
    match keyword_of(t) {
        Some(Keyword::Weekday(target)) => Some(
            days_after(today, days_ahead(target as int, weekday_index(today@))),
        ),
        _ => None,
    }
}

/// Applies the calendar stages to the normalised text `t`.
pub fn calendar_date(t: &str, today: CivilDate) -> (r: Option<CivilDate>)
    requires
        today@.representable(),
    ensures
        r == calendar_target(t@, today),
        r matches Some(d) ==> d@.representable(),
{
    choose_calendar_date(keyword(t), parse_absolute(t), parse_in_n_unit(t), today)
}

/// Applies the weekday stage to the normalised text `t`.
pub fn weekday_date(t: &str, today: CivilDate) -> (r: Option<CivilDate>)
    requires
        today@.representable(),
    ensures
        r == weekday_target(t@, today),
        r matches Some(d) ==> d@.representable(),
{
    match keyword(t) {
        Some(Keyword::Weekday(target)) => {
            let current = chrono_weekday(today);
            let ahead: i64 = if target >= current {
                (target - current) as i64
            } else {
                (7 - current + target) as i64
            };
            Some(today.plus_days(ahead))
        },
        _ => None,
    }
}

/// What the interpreter will do with a text once the clock is read.
#[derive(Clone, Copy, Debug, PartialEq, Eq, Structural)]
pub enum DatePlan {
    /// A calendar stage decided: the result is the last second of this day.
    EndOfDay(CivilDate),
    /// No calendar stage reads the text. Where `grammar` holds, the
    /// natural-language grammar is asked and its answer returned as it is.
    /// Where it gives none, the result is the last second of `fallback`,
    /// the day of a bare weekday name; without that the text is no date.
    Consult { grammar: bool, fallback: Option<CivilDate> },
}

/// The plan for the normalised text `t` at the moment `now`.
pub open spec fn date_plan(t: Seq<char>, now: PointInTime) -> DatePlan {
    match calendar_target(t, now.date) {
        Some(day) => DatePlan::EndOfDay(day),
        None => DatePlan::Consult {
            grammar: grammar_reads(t) && grammar_clock(now),
            fallback: weekday_target(t, now.date),
        },
    }
}

/// The day whose last second a plan asks for, before the grammar has
/// spoken.
pub open spec fn planned_day(plan: DatePlan) -> Option<CivilDate> {
    match plan {
        DatePlan::EndOfDay(day) => Some(day),
        DatePlan::Consult { grammar, fallback } => fallback,
    }
}

/// Makes the plan for the normalised text `t` at the moment `now`.
pub fn plan_date(t: &str, now: &PointInTime) -> (r: DatePlan)
    requires
        now.well_formed(),
    ensures
        r == date_plan(t@, *now),
        planned_day(r) matches Some(d) ==> d@.representable(),
{
    match calendar_date(t, now.date) {
        Some(day) => DatePlan::EndOfDay(day),
        None => {
            let chars = to_chars(t);
            let grammar = grammar_can_read(&chars) && 0 <= now.timestamp && now.timestamp
                <= GRAMMAR_CLOCK_MAX && now.nanos < 1_000_000_000;
            DatePlan::Consult { grammar, fallback: weekday_date(t, now.date) }
        },
    }
}

/// The message of the failure to read `t` as a date.
pub open spec fn unparsable_message(t: Seq<char>) -> Seq<char> {
    "Unable to parse date: '"@ + t
        + "'. Try formats like: YYYY-MM-DD, today, tomorrow, monday, etc."@
}

/// Whether `e` is the failure to read `t` as a date.
pub open spec fn is_unparsable(e: TodoError, t: Seq<char>) -> bool {
    e matches TodoError::DateParse(m) && m@ == unparsable_message(t)
}

/// The failure to read the normalised text `t` as a date.
pub fn unparsable(t: &str) -> (r: TodoError)
    ensures
        is_unparsable(r, t@),
{
    let mut message = String::from_str("Unable to parse date: '");
    message.append(t);
    message.append("'. Try formats like: YYYY-MM-DD, today, tomorrow, monday, etc.");
    TodoError::DateParse(message)
}

/// The point in time that a plan leads to, given what the grammar answered
/// (`natural`) and the last second of the planned day in the local time
/// zone (`end_of_day`); `None` where the text is no date.
pub open spec fn concluded(
    plan: DatePlan,
    natural: Option<PointInTime>,
    end_of_day: Option<PointInTime>,
) -> Option<PointInTime> {
    match plan {
        DatePlan::EndOfDay(day) => end_of_day,
        DatePlan::Consult { grammar, fallback } => if grammar && natural is Some {
            natural
        } else if fallback is Some {
            end_of_day
        } else {
            None
        },
    }
}

/// Carries a plan out on the answers of the grammar and of the time zone.
pub fn conclude(
    t: &str,
    plan: DatePlan,
    natural: Option<PointInTime>,
    end_of_day: Option<PointInTime>,
) -> (r: Result<PointInTime, TodoError>)
    ensures
        match r {
            Ok(p) => concluded(plan, natural, end_of_day) == Some(p),
            Err(e) => concluded(plan, natural, end_of_day) is None && is_unparsable(e, t@),
        },
{
    let found = match plan {
        DatePlan::EndOfDay(_) => end_of_day,
        DatePlan::Consult { grammar, fallback } => if grammar && natural.is_some() {
            natural
        } else if fallback.is_some() {
            end_of_day
        } else {
            None
        },
    };
    match found {
        Some(p) => Ok(p),
        None => Err(unparsable(t)),
    }
}

/// Whether `r` is a result that the plan for the normalised text `t`
/// admits. A success is the last second of the planned day, or, where the
/// grammar is asked, any well-formed point in time. A failure carries the
/// message for `t`; it is the only outcome where neither the grammar is
/// asked nor a day is planned.
pub open spec fn plan_admits(
    t: Seq<char>,
    plan: DatePlan,
    r: Result<PointInTime, TodoError>,
) -> bool {
    match r {
        Ok(p) => match plan {
            DatePlan::EndOfDay(day) => p.is_end_of(day@),
            DatePlan::Consult { grammar, fallback } => (grammar && p.well_formed()) || (
            fallback matches Some(day) && p.is_end_of(day@)),
        },
        Err(e) => is_unparsable(e, t),
    }
}

/// Whether `r` is a result that the text `s` admits at the moment `now`.
pub open spec fn date_admits(
    s: Seq<char>,
    now: PointInTime,
    r: Result<PointInTime, TodoError>,
) -> bool {
    plan_admits(normalized(s), date_plan(normalized(s), now), r)
}

/// Interprets `date_str` as a due date, with `now` as the present moment.
///
/// The text is trimmed and put in lower case. Keywords, dates in numbers
/// and relative phrases give the last second of their day in the local
/// time zone. Any other text goes to the natural-language grammar, whose
/// answer is returned as it is; a bare weekday name that the grammar leaves
/// unread gives the last second of the next such day. The grammar and the
/// time zone decide whether there is a result; what it is when there is one,
/// `date_admits` says. The calendar stages count from the date of `now`,
/// the grammar from its instant.
pub fn parse_date_at(date_str: &str, now: &PointInTime) -> (r: Result<PointInTime, TodoError>)
    requires
        now.well_formed(),
    ensures
        date_admits(date_str@, *now, r),
{
    let text = lowercase(trim(date_str));
    let t = text.as_str();
    let plan = plan_date(t, now);
    let natural = match plan {
        DatePlan::Consult { grammar: true, fallback } => natural_language_date(t, now),
        _ => None,
    };
    let end_of_day = match plan {
        DatePlan::EndOfDay(day) => local_end_of_day(day),
        DatePlan::Consult { grammar, fallback: Some(day) } => if natural.is_none() {
            local_end_of_day(day)
        } else {
            None
        },
        _ => None,
    };
    conclude(t, plan, natural, end_of_day)
}

/// Interprets `date_str` as a due date at the present moment.
///
/// The result is one that `parse_date_at` admits for a reading of the
/// clock.
pub fn parse_date(date_str: &str) -> (r: Result<PointInTime, TodoError>)
    ensures
        exists|now: PointInTime| now.well_formed() && #[trigger] date_admits(date_str@, now, r),
{
    let now = local_now();
    parse_date_at(date_str, &now)
}

/// A run of `size` consecutive words that begins at the word `start`.
#[derive(Clone, Copy, Debug, PartialEq, Eq, Structural)]
pub struct Window {
    pub start: usize,
    pub size: usize,
}

/// The longest phrase, in words, that the extractor tries.
pub const MAX_WINDOW: usize = 4;

/// The windows of `size` words over `count` words, from left to right.
pub open spec fn windows_of_size(count: int, size: int) -> Seq<Window> {
    Seq::new(
        (if count >= size {
            count - size + 1
        } else {
            0
        }) as nat,
        |i: int| Window { start: i as usize, size: size as usize },
    )
}

/// The windows over `count` words in the order in which the extractor
/// tries them: four words, then three, two and one, each size from left to
/// right.
pub open spec fn scan_order(count: int) -> Seq<Window> {
    windows_of_size(count, 4) + windows_of_size(count, 3) + windows_of_size(count, 2)
        + windows_of_size(count, 1)
}

/// The phrase that a window spells: its words joined by single spaces.
pub open spec fn window_phrase(words: Seq<Seq<char>>, w: Window) -> Seq<char> {
    joined(words.subrange(w.start as int, w.start + w.size))
}

/// Whether a result for this window counts: a window of one word only if
/// the word stands in the keyword table exactly as written.
pub open spec fn window_eligible(words: Seq<Seq<char>>, w: Window) -> bool {
    w.size > 1 || keyword_of(words[w.start as int]) is Some
}

/// The result of the first window, from the position `from` on, that is
/// eligible and was read as a date.
pub open spec fn first_accepted(
    words: Seq<Seq<char>>,
    windows: Seq<Window>,
    outcomes: Seq<Option<PointInTime>>,
    from: int,
) -> Option<PointInTime>
    decreases windows.len() - from,
{
    if from < 0 || from >= windows.len() {
        None
    } else if outcomes[from] is Some && window_eligible(words, windows[from]) {
        outcomes[from]
    } else {
        first_accepted(words, windows, outcomes, from + 1)
    }
}

/// The date phrase that the extractor selects among the words, given for
/// each window of the scan order what the interpreter made of its phrase:
/// the longest eligible phrase that was read as a date, the leftmost among
/// phrases of one length.
pub open spec fn selected_phrase(
    words: Seq<Seq<char>>,
    outcomes: Seq<Option<PointInTime>>,
) -> Option<PointInTime> {
    first_accepted(words, scan_order(words.len() as int), outcomes, 0)
}

/// Appends the windows of `size` words over `count` words.
fn push_windows(windows: &mut Vec<Window>, count: usize, size: usize)
    requires
        size >= 1,
    ensures
        final(windows)@ == old(windows)@ + windows_of_size(count as int, size as int),
{
    if count < size {
        assert(windows@ =~= windows@ + windows_of_size(count as int, size as int));
        return ;
    }
    let ghost before = windows@;
    let last: usize = count - size;
    let mut start: usize = 0;
    while start <= last
        invariant
            start <= last + 1,
            last == count - size,
            size >= 1,
            windows@ == before + windows_of_size(count as int, size as int).take(start as int),
        decreases last + 1 - start,
    {
        windows.push(Window { start, size });
        assert(windows@ =~= before + windows_of_size(count as int, size as int).take(
            start + 1,
        ));
        start += 1;
    }
    assert(windows@ =~= before + windows_of_size(count as int, size as int));
}

/// The windows over `count` words in the order in which they are tried.
pub fn scan_windows(count: usize) -> (r: Vec<Window>)
    ensures
        r@ == scan_order(count as int),
{
    let mut windows: Vec<Window> = Vec::new();
    push_windows(&mut windows, count, 4);
    push_windows(&mut windows, count, 3);
    push_windows(&mut windows, count, 2);
    push_windows(&mut windows, count, 1);
    assert(windows@ =~= scan_order(count as int));
    windows
}

/// Every window of the scan order lies within the words and has from one
/// to four words.
pub proof fn lemma_scan_order_within(count: int, k: int)
    requires
        0 <= count <= usize::MAX,
        0 <= k < scan_order(count).len(),
    ensures
        1 <= scan_order(count)[k].size <= MAX_WINDOW,
        scan_order(count)[k].start + scan_order(count)[k].size <= count,
{
}

/// Selects the date phrase among `words`, given for each window of the scan
/// order what the interpreter made of its phrase.
pub fn select_phrase(words: &[&str], outcomes: &Vec<Option<PointInTime>>) -> (r: Option<
    PointInTime,
>)
    requires
        outcomes.len() == scan_order(words.len() as int).len(),
    ensures
        r == selected_phrase(word_texts(words@), outcomes@),
{
    let windows = scan_windows(words.len());
    let ghost texts = word_texts(words@);
    let mut k: usize = 0;
    while k < windows.len()
        invariant
            k <= windows.len(),
            windows@ == scan_order(words.len() as int),
            outcomes.len() == windows.len(),
            texts == word_texts(words@),
            first_accepted(texts, windows@, outcomes@, 0) == first_accepted(
                texts,
                windows@,
                outcomes@,
                k as int,
            ),
        decreases windows.len() - k,
    {
        let w = windows[k];
        proof {
            lemma_scan_order_within(words.len() as int, k as int);
        }
        if outcomes[k].is_some() && (w.size > 1 || keyword(words[w.start]).is_some()) {
            return outcomes[k];
        }
        k += 1;
    }
    None
}

/// Whether `outcomes` holds, for each window of the scan order over the
/// words, a result that the window's phrase admits at the moment `now`:
/// where it holds a point in time, the interpreter may have read the phrase
/// as that.
pub open spec fn outcomes_admitted(
    words: Seq<Seq<char>>,
    now: PointInTime,
    outcomes: Seq<Option<PointInTime>>,
) -> bool {
    &&& outcomes.len() == scan_order(words.len() as int).len()
    &&& forall|k: int|
        0 <= k < outcomes.len() && #[trigger] outcomes[k] is Some ==> date_admits(
            window_phrase(words, scan_order(words.len() as int)[k]),
            now,
            Ok(outcomes[k]->0),
        )
}

/// Finds the due date in the words of a description, with `now` as the
/// present moment.
///
/// Every window of one to four words is joined by spaces and interpreted
/// with `parse_date_at`; the result is what `selected_phrase` selects
/// among the outcomes.
pub fn parse_date_from_words_at(words: &[&str], now: &PointInTime) -> (r: Option<PointInTime>)
    requires
        now.well_formed(),
    ensures
        exists|outcomes: Seq<Option<PointInTime>>| #[trigger]
            outcomes_admitted(word_texts(words@), *now, outcomes) && r == selected_phrase(
                word_texts(words@),
                outcomes,
            ),
{
    let windows = scan_windows(words.len());
    let ghost texts = word_texts(words@);
    let mut outcomes: Vec<Option<PointInTime>> = Vec::new();
    let mut k: usize = 0;
    while k < windows.len()
        invariant
            k <= windows.len(),
            now.well_formed(),
            windows@ == scan_order(words.len() as int),
            texts == word_texts(words@),
            outcomes.len() == k,
            forall|j: int|
                0 <= j < k && #[trigger] outcomes@[j] is Some ==> date_admits(
                    window_phrase(texts, windows@[j]),
                    *now,
                    Ok(outcomes@[j]->0),
                ),
        decreases windows.len() - k,
    {
        let w = windows[k];
        proof {
            lemma_scan_order_within(words.len() as int, k as int);
        }
        let phrase = join_words(words, w.start, w.size);
        let outcome = match parse_date_at(phrase.as_str(), now) {
            Ok(p) => Some(p),
            Err(_) => None,
        };
        outcomes.push(outcome);
        k += 1;
    }
    assert(outcomes_admitted(texts, *now, outcomes@));
    select_phrase(words, &outcomes)
}

/// Finds the due date in the words of a description at the present moment.
///
/// The result is one that `parse_date_from_words_at` admits for a reading
/// of the clock.
pub fn parse_date_from_words(words: &[&str]) -> (r: Option<PointInTime>)
    ensures
        exists|now: PointInTime, outcomes: Seq<Option<PointInTime>>|
            now.well_formed() && #[trigger] outcomes_admitted(word_texts(words@), now, outcomes)
                && r == selected_phrase(word_texts(words@), outcomes),
{
    let now = local_now();
    parse_date_from_words_at(words, &now)
}

/// "today" is read as today and "tomorrow" as the day after it: the two
/// differ by exactly one calendar day.
pub proof fn lemma_today_and_tomorrow(today: CivilDate)
    requires
        today@.representable(),
        today@.next_day().representable(),
    ensures
        calendar_target("today"@, today) == Some(today),
        calendar_target("tomorrow"@, today) == Some(today@.next_day().civil()),
        today@.next_day().civil()@ == today@.next_day(),
        today@.next_day() != today@,
{
    reveal_strlit("today");
    reveal_strlit("tomorrow");
    lemma_next_day(today@);
    assert("today"@ != "tomorrow"@) by {
        assert("today"@.len() == 5);
        assert("tomorrow"@.len() == 8);
    }
}

/// At any moment the results for "today" and "tomorrow", where the time
/// zone has them, are the last seconds of two days that follow each other.
pub proof fn lemma_today_then_tomorrow(now: PointInTime, first: PointInTime, second: PointInTime)
    requires
        now.well_formed(),
        now.date@.next_day().representable(),
        plan_admits("today"@, date_plan("today"@, now), Ok(first)),
        plan_admits("tomorrow"@, date_plan("tomorrow"@, now), Ok(second)),
    ensures
        first.is_end_of(now.date@),
        second.is_end_of(now.date@.next_day()),
        second.date@ == first.date@.next_day(),
{
    lemma_today_and_tomorrow(now.date);
}

/// A weekday name on its own day stands for that day, not for the same day
/// a week later.
pub proof fn lemma_weekday_name_on_its_day(t: Seq<char>, today: CivilDate)
    requires
        today@.representable(),
        keyword_of(t) is Some,
        keyword_of(t)->0 is Weekday,
        keyword_of(t)->0->Weekday_0 == weekday_index(today@),
    ensures
        weekday_target(t, today) == Some(today),
{
}

/// Where a weekday name on its own day falls to the weekday stage, the
/// result is the last second of today. (Where the grammar is asked, it
/// answers first, and its answer need not be today.)
pub proof fn lemma_weekday_today_without_grammar(t: Seq<char>, now: PointInTime, p: PointInTime)
    requires
        now.well_formed(),
        keyword_of(t) is Some,
        keyword_of(t)->0 is Weekday,
        keyword_of(t)->0->Weekday_0 == weekday_index(now.date@),
        calendar_target(t, now.date) is None,
        !(grammar_reads(t) && grammar_clock(now)),
        plan_admits(t, date_plan(t, now), Ok(p)),
    ensures
        p.is_end_of(now.date@),
{
}

/// The day that a weekday name stands for bears that name, and no day from
/// today up to it does: it is the next such day on or after today.
pub proof fn lemma_weekday_target_is_next(t: Seq<char>, today: CivilDate, target: u32)
    requires
        today@.representable(),
        keyword_of(t) == Some(Keyword::Weekday(target)),
        today@.plus_days(days_ahead(target as int, weekday_index(today@))).representable(),
    ensures
        weekday_target(t, today) is Some,
        weekday_index(weekday_target(t, today)->0@) == target,
        weekday_target(t, today)->0@ == today@.plus_days(
            days_ahead(target as int, weekday_index(today@)),
        ),
        0 <= days_ahead(target as int, weekday_index(today@)) < 7,
        forall|n: int|
            0 <= n < days_ahead(target as int, weekday_index(today@)) ==> weekday_index(
                #[trigger] today@.plus_days(n),
            ) != target,
{
    let current = weekday_index(today@);
    let ahead = days_ahead(target as int, current);
    lemma_weekday_cycle(today@, ahead);
    lemma_plus_days(today@, ahead);
    assert forall|n: int| 0 <= n < ahead implies weekday_index(#[trigger] today@.plus_days(n))
        != target by {
        lemma_weekday_cycle(today@, n);
    }
}

/// The day that a weekday name stands for lies at most six days ahead.
pub proof fn lemma_weekday_within_a_week(target: int, current: int)
    requires
        0 <= target < 7,
        0 <= current < 7,
    ensures
        0 <= days_ahead(target, current) < 7,
        days_ahead(target, current) == 0 <==> target == current,
        (current + days_ahead(target, current)) % 7 == target,
{
}

/// A relative phrase in days or weeks counts days from today: `n` of them
/// for days, seven times `n` for weeks.
pub proof fn lemma_relative_days(today: CivilDate, n: i64)
    ensures
        relative_target(today, n, "days"@) == days_after(today, n as int),
        relative_target(today, n, "day"@) == days_after(today, n as int),
        relative_target(today, n, "weeks"@) == days_after(today, n * 7),
        relative_target(today, n, "week"@) == days_after(today, n * 7),
{
    reveal_strlit("day");
    reveal_strlit("days");
    reveal_strlit("week");
    reveal_strlit("weeks");
    assert("week"@ != "day"@ && "week"@ != "days"@ && "weeks"@ != "day"@ && "weeks"@ != "days"@)
        by {
        assert("day"@.len() == 3);
        assert("days"@.len() == 4);
        assert("week"@.len() == 4);
        assert("weeks"@.len() == 5);
        assert("week"@[0] == 'w');
        assert("days"@[0] == 'd');
    }
}

/// A date written in numbers is read without the clock: where the text is
/// one, every result is the last second of the day it writes.
pub proof fn lemma_absolute_date_decides(t: Seq<char>, now: PointInTime, p: PointInTime)
    requires
        keyword_of(t) is None,
        absolute_date(t) is Some,
        plan_admits(t, date_plan(t, now), Ok(p)),
    ensures
        p.is_end_of(absolute_date(t)->0@),
{
}

/// The scan order goes from long windows to short ones and, among windows
/// of one length, from left to right.
pub proof fn lemma_scan_order_descends(count: int, k: int, j: int)
    requires
        0 <= count <= usize::MAX,
        0 <= k < j < scan_order(count).len(),
    ensures
        scan_order(count)[k].size > scan_order(count)[j].size || (scan_order(count)[k].size
            == scan_order(count)[j].size && scan_order(count)[k].start < scan_order(
            count,
        )[j].start),
{
}

/// The scan order holds every window of one to four words that lies within
/// the words, and there are at most four windows to a word.
pub proof fn lemma_scan_order_complete(count: int, start: int, size: int)
    requires
        0 <= count <= usize::MAX,
        1 <= size <= MAX_WINDOW,
        0 <= start,
        start + size <= count,
    ensures
        scan_order(count).contains(Window { start: start as usize, size: size as usize }),
        scan_order(count).len() <= 4 * count,
{
    let w = Window { start: start as usize, size: size as usize };
    let four = windows_of_size(count, 4).len() as int;
    let three = windows_of_size(count, 3).len() as int;
    let two = windows_of_size(count, 2).len() as int;
    let offset: int = if size == 4 {
        0
    } else if size == 3 {
        four
    } else if size == 2 {
        four + three
    } else {
        four + three + two
    };
    assert(windows_of_size(count, size)[start] == w);
    assert(scan_order(count)[offset + start] == w);
}

/// A single word that does not stand in the keyword table is never taken
/// for a date, whatever the interpreter makes of it.
pub proof fn lemma_lone_word_needs_keyword(word: Seq<char>, outcomes: Seq<Option<PointInTime>>)
    requires
        keyword_of(word) is None,
    ensures
        selected_phrase(seq![word], outcomes) is None,
{
    let words = seq![word];
    assert(scan_order(1) =~= seq![Window { start: 0, size: 1 }]);
    reveal_with_fuel(first_accepted, 2);
}

/// What the extractor selects is the outcome of an eligible window, and
/// every eligible window tried before it gave no date.
pub proof fn lemma_selected_is_first(
    words: Seq<Seq<char>>,
    windows: Seq<Window>,
    outcomes: Seq<Option<PointInTime>>,
    from: int,
)
    requires
        0 <= from,
        outcomes.len() == windows.len(),
    ensures
        match first_accepted(words, windows, outcomes, from) {
            Some(p) => exists|k: int|
                from <= k < windows.len() && #[trigger] outcomes[k] == Some(p) && window_eligible(
                    words,
                    windows[k],
                ) && forall|j: int|
                    from <= j < k ==> !(#[trigger] outcomes[j] is Some && window_eligible(
                        words,
                        windows[j],
                    )),
            None => forall|j: int|
                from <= j < windows.len() ==> !(#[trigger] outcomes[j] is Some && window_eligible(
                    words,
                    windows[j],
                )),
        },
    decreases windows.len() - from,
{
    if from < windows.len() {
        if outcomes[from] is Some && window_eligible(words, windows[from]) {
            assert(outcomes[from] == Some(outcomes[from]->0));
        } else {
            lemma_selected_is_first(words, windows, outcomes, from + 1);
        }
    }
}

} // verus!
