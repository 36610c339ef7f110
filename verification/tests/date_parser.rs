use chrono::{Datelike, Local, TimeZone, Timelike};
use todo_cli::calendar::CivilDate;
use todo_cli::date_parser::{
    calendar_date, choose_calendar_date, conclude, first_reading, keyword, number_from_word,
    parse_absolute, parse_date, parse_date_at, parse_date_from_words, parse_date_from_words_at,
    parse_in_n_unit, plan_date, read_amount, relative_date, scan_windows, select_phrase,
    split_relative, time_unit_word, unparsable, weekday_date, word_to_number, DatePlan, Keyword,
    Window,
};
use todo_cli::error::TodoError;
use todo_cli::moment::PointInTime;

fn date(year: i32, month: u32, day: u32) -> CivilDate {
    CivilDate { year, month, day }
}

/// The point in time that the local clock shows as the given date and time.
fn moment(year: i32, month: u32, day: u32, hour: u32, minute: u32, second: u32) -> PointInTime {
    let t = Local.with_ymd_and_hms(year, month, day, hour, minute, second).earliest().unwrap();
    PointInTime {
        timestamp: t.timestamp(),
        nanos: 0,
        date: CivilDate { year: t.year(), month: t.month(), day: t.day() },
        second_of_day: t.num_seconds_from_midnight(),
    }
}

fn end_of(year: i32, month: u32, day: u32) -> PointInTime {
    moment(year, month, day, 23, 59, 59)
}

fn message(text: &str) -> String {
    format!(
        "Unable to parse date: '{}'. Try formats like: YYYY-MM-DD, today, tomorrow, monday, etc.",
        text
    )
}

#[test]
fn test_parse_today() {
    let result = parse_date("today");
    assert!(result.is_ok());
}

#[test]
fn test_parse_tomorrow() {
    let result = parse_date("tomorrow");
    assert!(result.is_ok());
}

#[test]
fn test_parse_iso_date() {
    let result = parse_date("2025-07-15");
    assert!(result.is_ok());
}

#[test]
fn test_parse_invalid_date() {
    let result = parse_date("invalid");
    assert!(result.is_err());
}

#[test]
fn today_and_tomorrow_differ_by_one_day() {
    let now = PointInTime::now();
    let today = parse_date_at("today", &now).unwrap();
    let tomorrow = parse_date_at("tomorrow", &now).unwrap();
    assert_eq!(today.date, now.date);
    assert_eq!(tomorrow.date, now.date.plus_days(1));
    assert_eq!(today.second_of_day, 86_399);
    assert_eq!(tomorrow.second_of_day, 86_399);
    assert!(today.is_before(&tomorrow));
    let natural = chrono::NaiveDate::from_ymd_opt(now.date.year, now.date.month, now.date.day)
        .unwrap()
        .succ_opt()
        .unwrap();
    assert_eq!(tomorrow.date, date(natural.year(), natural.month(), natural.day()));
}

#[test]
fn today_at_a_given_moment() {
    let now = moment(2025, 7, 15, 8, 30, 0);
    assert_eq!(parse_date_at("today", &now).unwrap(), end_of(2025, 7, 15));
    assert_eq!(parse_date_at("tomorrow", &now).unwrap(), end_of(2025, 7, 16));
    assert_eq!(parse_date_at("  ToDay ", &now).unwrap(), end_of(2025, 7, 15));
    let eve = moment(2025, 12, 31, 23, 59, 59);
    assert_eq!(parse_date_at("tomorrow", &eve).unwrap(), end_of(2026, 1, 1));
}

#[test]
fn iso_date_is_the_end_of_that_day() {
    let p = parse_date("2025-07-15").unwrap();
    assert_eq!(p.date, date(2025, 7, 15));
    assert_eq!(p.second_of_day, 23 * 3600 + 59 * 60 + 59);
    assert_eq!(p.nanos, 0);
    assert_eq!(p, end_of(2025, 7, 15));
    let local = Local.timestamp_opt(p.timestamp, p.nanos).unwrap();
    assert_eq!((local.year(), local.month(), local.day()), (2025, 7, 15));
    assert_eq!((local.hour(), local.minute(), local.second()), (23, 59, 59));
}

#[test]
fn invalid_garbage_is_a_date_parse_error() {
    match parse_date("invalid-garbage") {
        Err(TodoError::DateParse(m)) => assert_eq!(m, message("invalid-garbage")),
        other => panic!("unexpected {:?}", other),
    }
}

#[test]
fn the_error_echoes_the_normalised_input() {
    match parse_date("  Some Day SOON ") {
        Err(TodoError::DateParse(m)) => assert_eq!(m, message("some day soon")),
        other => panic!("unexpected {:?}", other),
    }
    match unparsable("x") {
        TodoError::DateParse(m) => assert_eq!(m, message("x")),
        other => panic!("unexpected {:?}", other),
    }
}

#[test]
fn in_two_days_and_in_one_week() {
    let now = moment(2025, 7, 15, 12, 0, 0);
    assert_eq!(parse_date_at("in 2 days", &now).unwrap(), end_of(2025, 7, 17));
    assert_eq!(parse_date_at("in one week", &now).unwrap(), end_of(2025, 7, 22));
    assert_eq!(parse_date_at("in 1 day", &now).unwrap(), end_of(2025, 7, 16));
    assert_eq!(parse_date_at("IN TWO WEEKS", &now).unwrap(), end_of(2025, 7, 29));
    assert_eq!(parse_date_at("in 0 days", &now).unwrap(), end_of(2025, 7, 15));
    assert_eq!(parse_date_at("in -5 days", &now).unwrap(), end_of(2025, 7, 10));
    assert_eq!(parse_date_at("in 3 years", &now).unwrap(), end_of(2028, 7, 15));
    assert_eq!(parse_date_at("in ten months", &now).unwrap(), end_of(2026, 5, 15));
}

#[test]
fn relative_phrases_count_from_the_clock() {
    let now = PointInTime::now();
    let later = parse_date_at("in 2 days", &now).unwrap();
    assert_eq!(later.date, now.date.plus_days(2));
    let week = parse_date_at("in one week", &now).unwrap();
    assert_eq!(week.date, now.date.plus_days(7));
    assert!(parse_date("in 2 days").is_ok());
}

#[test]
fn one_month_after_january_31() {
    let plain = moment(2025, 1, 31, 9, 0, 0);
    assert_eq!(parse_date_at("in 1 month", &plain).unwrap(), end_of(2025, 2, 28));
    let leap = moment(2024, 1, 31, 9, 0, 0);
    assert_eq!(parse_date_at("in 1 month", &leap).unwrap(), end_of(2024, 2, 29));
    let century = moment(2000, 1, 31, 9, 0, 0);
    assert_eq!(parse_date_at("in one month", &century).unwrap(), end_of(2000, 2, 29));
    assert_eq!(calendar_date("in 1 month", date(1900, 1, 31)), Some(date(1900, 2, 28)));
    assert_eq!(calendar_date("in 1 month", date(2025, 1, 31)), Some(date(2025, 2, 28)));
    assert_eq!(calendar_date("in 1 year", date(2024, 2, 29)), Some(date(2025, 2, 28)));
}

#[test]
fn relative_phrases_out_of_range_give_today() {
    let today = date(2025, 7, 15);
    assert_eq!(calendar_date("in 9223372036854775807 days", today), Some(today));
    assert_eq!(calendar_date("in 9223372036854775807 weeks", today), Some(today));
    assert_eq!(calendar_date("in 999999999 years", today), Some(today));
    assert_eq!(calendar_date("in -3 months", date(2025, 2, 10)), Some(date(2025, 2, 10)));
    assert_eq!(relative_date(today, 5, "fortnights"), today);
}

#[test]
fn relative_dates_by_unit() {
    let today = date(2025, 7, 15);
    assert_eq!(relative_date(today, 2, "day"), date(2025, 7, 17));
    assert_eq!(relative_date(today, 2, "days"), date(2025, 7, 17));
    assert_eq!(relative_date(today, 2, "week"), date(2025, 7, 29));
    assert_eq!(relative_date(today, 2, "weeks"), date(2025, 7, 29));
    assert_eq!(relative_date(today, 2, "month"), date(2025, 9, 15));
    assert_eq!(relative_date(today, 2, "months"), date(2025, 9, 15));
    assert_eq!(relative_date(today, 2, "year"), date(2027, 7, 15));
    assert_eq!(relative_date(today, 2, "years"), date(2027, 7, 15));
}

#[test]
fn number_words() {
    let words = ["one", "two", "three", "four", "five", "six", "seven", "eight", "nine", "ten"];
    for (i, word) in words.iter().enumerate() {
        assert_eq!(word_to_number(word), Some(i as i64 + 1));
        assert_eq!(number_from_word(word), Some(i as i64 + 1));
    }
    assert_eq!(word_to_number("TEN"), Some(10));
    assert_eq!(word_to_number("Three"), Some(3));
    assert_eq!(number_from_word("Three"), None);
    assert_eq!(word_to_number("eleven"), None);
    assert_eq!(word_to_number("zero"), None);
    assert_eq!(word_to_number(""), None);
    assert_eq!(word_to_number("1"), None);
    assert_eq!(word_to_number(" one"), None);
}

#[test]
fn in_n_unit_is_read() {
    assert_eq!(parse_in_n_unit("in 2 days"), Some((2, "days")));
    assert_eq!(parse_in_n_unit("in one week"), Some((1, "week")));
    assert_eq!(parse_in_n_unit("in 1 month"), Some((1, "month")));
    assert_eq!(parse_in_n_unit("in 10 years"), Some((10, "years")));
    assert_eq!(parse_in_n_unit("  in 3 months  "), Some((3, "months")));
    assert_eq!(parse_in_n_unit("in 3   months"), Some((3, "months")));
    assert_eq!(parse_in_n_unit("in 3 \tmonths"), Some((3, "months")));
    assert_eq!(parse_in_n_unit("in -5 days"), Some((-5, "days")));
    assert_eq!(parse_in_n_unit("in +5 days"), Some((5, "days")));
    assert_eq!(parse_in_n_unit("in TEN day"), Some((10, "day")));
    assert_eq!(parse_in_n_unit("in 007 weeks"), Some((7, "weeks")));
    assert_eq!(parse_in_n_unit("in 9223372036854775807 year"), Some((i64::MAX, "year")));
}

#[test]
fn in_n_unit_rejects_other_phrases() {
    assert_eq!(parse_in_n_unit("2 days"), None);
    assert_eq!(parse_in_n_unit("in 2 fortnights"), None);
    assert_eq!(parse_in_n_unit("in days"), None);
    assert_eq!(parse_in_n_unit("in 2"), None);
    assert_eq!(parse_in_n_unit("in  2 days"), None);
    assert_eq!(parse_in_n_unit("in 2 days ago"), None);
    assert_eq!(parse_in_n_unit("in eleven days"), None);
    assert_eq!(parse_in_n_unit("in 9223372036854775808 days"), None);
    assert_eq!(parse_in_n_unit("In 2 days"), None);
    assert_eq!(parse_in_n_unit("in 2 Days"), None);
    assert_eq!(parse_in_n_unit("in\t2 days"), None);
    assert_eq!(parse_in_n_unit("in"), None);
    assert_eq!(parse_in_n_unit(""), None);
    assert_eq!(parse_in_n_unit("tomorrow"), None);
}

#[test]
fn unit_words() {
    for unit in ["day", "days", "week", "weeks", "month", "months", "year", "years"] {
        assert!(time_unit_word(unit));
    }
    assert!(!time_unit_word("hour"));
    assert!(!time_unit_word("Day"));
    assert!(!time_unit_word(""));
    assert!(!time_unit_word("dayss"));
}

#[test]
fn keyword_table() {
    assert_eq!(keyword("today"), Some(Keyword::Today));
    assert_eq!(keyword("tomorrow"), Some(Keyword::Tomorrow));
    let names = [
        ("monday", "mon"),
        ("tuesday", "tue"),
        ("wednesday", "wed"),
        ("thursday", "thu"),
        ("friday", "fri"),
        ("saturday", "sat"),
        ("sunday", "sun"),
    ];
    for (i, (full, short)) in names.iter().enumerate() {
        assert_eq!(keyword(full), Some(Keyword::Weekday(i as u32)));
        assert_eq!(keyword(short), Some(Keyword::Weekday(i as u32)));
    }
    assert_eq!(keyword("Monday"), None);
    assert_eq!(keyword("tues"), None);
    assert_eq!(keyword("yesterday"), None);
    assert_eq!(keyword("5"), None);
    assert_eq!(keyword(""), None);
}

#[test]
fn dates_in_numbers() {
    assert_eq!(parse_absolute("2025-07-15"), Some(date(2025, 7, 15)));
    assert_eq!(parse_absolute("07/15/2025"), Some(date(2025, 7, 15)));
    assert_eq!(parse_absolute("15/07/2025"), Some(date(2025, 7, 15)));
    assert_eq!(parse_absolute("2025/07/15"), Some(date(2025, 7, 15)));
    assert_eq!(parse_absolute("07-15-2025"), Some(date(2025, 7, 15)));
    assert_eq!(parse_absolute("15-07-2025"), Some(date(2025, 7, 15)));
    assert_eq!(parse_absolute("2024-02-29"), Some(date(2024, 2, 29)));
    assert_eq!(parse_absolute("2025-02-29"), None);
    assert_eq!(parse_absolute("2025-13-01"), None);
    assert_eq!(parse_absolute("15.07.2025"), None);
    assert_eq!(parse_absolute("july 15"), None);
    assert_eq!(parse_absolute(""), None);
}

#[test]
fn ambiguous_dates_go_to_the_first_format() {
    // Month first wins where both readings exist.
    assert_eq!(parse_absolute("03/04/2025"), Some(date(2025, 3, 4)));
    assert_eq!(parse_absolute("03-04-2025"), Some(date(2025, 3, 4)));
    // Only the day-first reading exists.
    assert_eq!(parse_absolute("13/04/2025"), Some(date(2025, 4, 13)));
    assert_eq!(parse_absolute("31-12-2025"), Some(date(2025, 12, 31)));
}

#[test]
fn calendar_stages_in_order() {
    let today = date(2025, 7, 15);
    assert_eq!(calendar_date("today", today), Some(today));
    assert_eq!(calendar_date("tomorrow", today), Some(date(2025, 7, 16)));
    assert_eq!(calendar_date("2025-12-25", today), Some(date(2025, 12, 25)));
    assert_eq!(calendar_date("12/25/2025", today), Some(date(2025, 12, 25)));
    assert_eq!(calendar_date("in 2 days", today), Some(date(2025, 7, 17)));
    assert_eq!(calendar_date("in one week", today), Some(date(2025, 7, 22)));
    assert_eq!(calendar_date("monday", today), None);
    assert_eq!(calendar_date("next friday", today), None);
    assert_eq!(calendar_date("Today", today), None);
    assert_eq!(calendar_date("", today), None);
}

#[test]
fn monday_on_a_monday_is_today() {
    let monday = date(2025, 7, 14);
    assert_eq!(weekday_date("monday", monday), Some(monday));
    assert_eq!(weekday_date("mon", monday), Some(monday));
}

#[test]
fn weekday_names_give_the_next_such_day() {
    let tuesday = date(2025, 7, 15);
    assert_eq!(weekday_date("tuesday", tuesday), Some(date(2025, 7, 15)));
    assert_eq!(weekday_date("wed", tuesday), Some(date(2025, 7, 16)));
    assert_eq!(weekday_date("friday", tuesday), Some(date(2025, 7, 18)));
    assert_eq!(weekday_date("sun", tuesday), Some(date(2025, 7, 20)));
    assert_eq!(weekday_date("monday", tuesday), Some(date(2025, 7, 21)));
    assert_eq!(weekday_date("sunday", date(2025, 7, 14)), Some(date(2025, 7, 20)));
    assert_eq!(weekday_date("thursday", date(2024, 2, 29)), Some(date(2024, 2, 29)));
    assert_eq!(weekday_date("today", tuesday), None);
    assert_eq!(weekday_date("someday", tuesday), None);
}

#[test]
fn plans() {
    let now = moment(2025, 7, 15, 12, 0, 0);
    assert_eq!(plan_date("today", &now), DatePlan::EndOfDay(date(2025, 7, 15)));
    assert_eq!(plan_date("2025-12-25", &now), DatePlan::EndOfDay(date(2025, 12, 25)));
    assert_eq!(plan_date("in 2 days", &now), DatePlan::EndOfDay(date(2025, 7, 17)));
    assert_eq!(
        plan_date("friday", &now),
        DatePlan::Consult { grammar: true, fallback: Some(date(2025, 7, 18)) }
    );
    assert_eq!(
        plan_date("next friday", &now),
        DatePlan::Consult { grammar: true, fallback: None }
    );
    assert_eq!(
        plan_date("friday 123456", &now),
        DatePlan::Consult { grammar: false, fallback: None }
    );
    assert_eq!(
        plan_date("vendredi à midi", &now),
        DatePlan::Consult { grammar: false, fallback: None }
    );
    let long_ago = PointInTime { timestamp: -1, ..now };
    assert_eq!(
        plan_date("friday", &long_ago),
        DatePlan::Consult { grammar: false, fallback: Some(date(2025, 7, 18)) }
    );
}

#[test]
fn conclusions() {
    let eod = end_of(2025, 7, 18);
    let noon = moment(2025, 7, 25, 12, 0, 0);
    let day = date(2025, 7, 18);
    assert_eq!(conclude("x", DatePlan::EndOfDay(day), None, Some(eod)).unwrap(), eod);
    assert_eq!(conclude("x", DatePlan::EndOfDay(day), Some(noon), Some(eod)).unwrap(), eod);
    assert!(conclude("x", DatePlan::EndOfDay(day), Some(noon), None).is_err());
    let ask = DatePlan::Consult { grammar: true, fallback: Some(day) };
    assert_eq!(conclude("x", ask, Some(noon), Some(eod)).unwrap(), noon);
    assert_eq!(conclude("x", ask, None, Some(eod)).unwrap(), eod);
    assert!(conclude("x", ask, None, None).is_err());
    let skip = DatePlan::Consult { grammar: false, fallback: Some(day) };
    assert_eq!(conclude("x", skip, Some(noon), Some(eod)).unwrap(), eod);
    let nothing = DatePlan::Consult { grammar: false, fallback: None };
    assert!(conclude("x", nothing, Some(noon), Some(eod)).is_err());
    let only_grammar = DatePlan::Consult { grammar: true, fallback: None };
    assert_eq!(conclude("x", only_grammar, Some(noon), None).unwrap(), noon);
    match conclude("some text", only_grammar, None, Some(eod)) {
        Err(TodoError::DateParse(m)) => assert_eq!(m, message("some text")),
        other => panic!("unexpected {:?}", other),
    }
}

#[test]
fn the_grammar_reads_what_the_calendar_stages_leave() {
    let now = moment(2025, 7, 15, 12, 0, 0);
    let friday = parse_date_at("next friday", &now).unwrap();
    assert_eq!(friday.date, date(2025, 7, 18));
    assert_eq!(friday.second_of_day, 0);
    let evening = parse_date_at("friday 8pm", &now).unwrap();
    assert_eq!(evening.date, date(2025, 7, 18));
    assert_eq!(evening.second_of_day, 20 * 3600);
    let april = parse_date_at("April 1, 2026", &now).unwrap();
    assert_eq!(april.date, date(2026, 4, 1));
    let days = parse_date_at("2 days", &now).unwrap();
    assert_eq!(days.date, date(2025, 7, 17));
    assert_eq!(days.second_of_day, 12 * 3600);
}

#[test]
fn the_weekday_stage_serves_where_the_grammar_is_not_asked() {
    let now = moment(2025, 7, 14, 12, 0, 0);
    let before_the_grammar = PointInTime { timestamp: -1, ..now };
    assert_eq!(
        parse_date_at("monday", &before_the_grammar).unwrap(),
        end_of(2025, 7, 14)
    );
    assert_eq!(
        parse_date_at("wed", &before_the_grammar).unwrap(),
        end_of(2025, 7, 16)
    );
    assert!(parse_date_at("next friday", &before_the_grammar).is_err());
}

#[test]
fn scan_order_is_longest_first_then_left_to_right() {
    let w = |start: usize, size: usize| Window { start, size };
    assert_eq!(scan_windows(0), vec![]);
    assert_eq!(scan_windows(1), vec![w(0, 1)]);
    assert_eq!(scan_windows(3), vec![w(0, 3), w(0, 2), w(1, 2), w(0, 1), w(1, 1), w(2, 1)]);
    assert_eq!(
        scan_windows(5),
        vec![
            w(0, 4), w(1, 4),
            w(0, 3), w(1, 3), w(2, 3),
            w(0, 2), w(1, 2), w(2, 2), w(3, 2),
            w(0, 1), w(1, 1), w(2, 1), w(3, 1), w(4, 1),
        ]
    );
}

#[test]
fn selection_prefers_the_longest_then_the_leftmost() {
    let a = end_of(2025, 1, 1);
    let b = end_of(2025, 1, 2);
    let c = end_of(2025, 1, 3);
    let words = ["x", "next", "friday"];
    // windows: (0,3) (0,2) (1,2) (0,1) (1,1) (2,1)
    assert_eq!(select_phrase(&words, &vec![None, None, Some(a), None, None, Some(b)]), Some(a));
    assert_eq!(select_phrase(&words, &vec![Some(c), Some(b), Some(a), None, None, None]), Some(c));
    assert_eq!(select_phrase(&words, &vec![None, Some(b), Some(a), None, None, None]), Some(b));
    assert_eq!(select_phrase(&words, &vec![None, None, None, None, None, Some(b)]), Some(b));
    assert_eq!(select_phrase(&words, &vec![None, None, None, None, None, None]), None);
    // A single word counts only where it is a keyword as written.
    assert_eq!(select_phrase(&words, &vec![None, None, None, Some(a), Some(b), None]), None);
    assert_eq!(select_phrase(&["Friday"], &vec![Some(a)]), None);
    assert_eq!(select_phrase(&["friday"], &vec![Some(a)]), Some(a));
    assert_eq!(select_phrase(&["5"], &vec![Some(a)]), None);
    assert_eq!(select_phrase(&[], &vec![]), None);
}

#[test]
fn a_date_phrase_is_found_among_the_words() {
    let now = moment(2025, 7, 15, 12, 0, 0);
    let found = parse_date_from_words_at(&["call", "mom", "next", "friday"], &now).unwrap();
    assert_eq!(found.date, date(2025, 7, 18));
    assert_eq!(parse_date_from_words_at(&["buy", "5", "apples"], &now), None);
    assert_eq!(
        parse_date_from_words_at(&["pay", "rent", "in", "2", "days"], &now),
        Some(end_of(2025, 7, 17))
    );
    assert_eq!(
        parse_date_from_words_at(&["meeting", "2025-12-25", "room", "4"], &now),
        None
    );
    assert_eq!(
        parse_date_from_words_at(&["report", "tomorrow"], &now),
        Some(end_of(2025, 7, 16))
    );
    assert_eq!(parse_date_from_words_at(&[], &now), None);
}

#[test]
fn an_upcoming_friday_is_found() {
    let found = parse_date_from_words(&["call", "mom", "next", "friday"]).unwrap();
    let day = chrono::NaiveDate::from_ymd_opt(found.date.year, found.date.month, found.date.day)
        .unwrap();
    assert_eq!(day.weekday(), chrono::Weekday::Fri);
    let today = Local::now().date_naive();
    let ahead = (day - today).num_days();
    assert!((0..=7).contains(&ahead));
    assert_eq!(parse_date_from_words(&["buy", "5", "apples"]), None);
}

#[test]
fn single_words_need_the_allow_list() {
    assert!(parse_date_from_words(&["friday"]).is_some());
    assert!(parse_date_from_words(&["today"]).is_some());
    assert!(parse_date_from_words(&["sat"]).is_some());
    assert_eq!(parse_date_from_words(&["5"]), None);
    assert_eq!(parse_date_from_words(&["Friday"]), None);
    assert_eq!(parse_date_from_words(&["2025-07-15"]), None);
    assert_eq!(parse_date_from_words(&["april"]), None);
}

#[test]
fn the_grammar_takes_every_phrase_it_is_given() {
    let pieces = [
        " ", " ", " ", "0", "1", "2", "3", "5", "9", "12", "30", "59", "99", "2017", "9999", "0000",
        ":", ".", "-", "/", "+", ",", "am", "pm", "a", "p", "m", "h", "d", "w", "y", "s", "ago",
        "next", "last", "now", "yesterday", "mon", "tuesday", "fri", "sunday", "jan", "february",
        "apr", "dec", "sec", "min", "hour", "day", "week", "month", "year", "T", "Z", "z", "'",
        "\"", "_", "x", "\t", "\n", "\0", "*", "(", "#", "e", "E", "0x", "utc",
    ];
    let clocks = [
        moment(2025, 7, 15, 12, 0, 0),
        moment(2024, 2, 29, 23, 59, 59),
        moment(1970, 1, 2, 0, 0, 0),
        moment(9999, 12, 30, 12, 0, 0),
        moment(2025, 12, 31, 0, 0, 0),
    ];
    let mut seed: u64 = 2025;
    let mut next = move |bound: usize| {
        seed = seed.wrapping_mul(6364136223846793005).wrapping_add(1442695040888963407);
        ((seed >> 33) as usize) % bound
    };
    let mut asked = 0;
    for round in 0..30_000 {
        let mut phrase = String::new();
        for _ in 0..(1 + next(7)) {
            phrase.push_str(pieces[next(pieces.len())]);
        }
        let now = &clocks[round % clocks.len()];
        if let DatePlan::Consult { grammar: true, .. } = plan_date(&phrase, now) {
            asked += 1;
        }
        if let Ok(p) = parse_date_at(&phrase, now) {
            assert!(p.is_well_formed());
        }
    }
    assert!(asked > 10_000);
}

#[test]
fn weekdays_count_from_a_monday_in_cycles_of_seven() {
    let at = |d: CivilDate| PointInTime { timestamp: 0, nanos: 0, date: d, second_of_day: 0 };
    let monday = date(2001, 1, 1);
    let mut day = date(1899, 12, 25);
    for step in 0..400 {
        let since = todo_cli::renderer::days_until(&at(day), &at(monday));
        let expected = since.rem_euclid(7) as u32;
        let by_chrono = chrono::NaiveDate::from_ymd_opt(day.year, day.month, day.day)
            .unwrap()
            .weekday()
            .num_days_from_monday();
        assert_eq!(by_chrono, expected);
        let names = ["mon", "tue", "wed", "thu", "fri", "sat", "sun"];
        assert_eq!(weekday_date(names[expected as usize], day), Some(day));
        let next = weekday_date(names[((expected + 1) % 7) as usize], day).unwrap();
        assert_eq!(next, day.plus_days(1));
        let last = weekday_date(names[((expected + 6) % 7) as usize], day).unwrap();
        assert_eq!(last, day.plus_days(6));
        day = day.plus_days(97 + step);
    }
    for (y, m, d) in [(-262_143, 1, 1), (-1, 12, 31), (0, 1, 1), (1, 1, 1), (1582, 10, 10), (262_142, 12, 25)] {
        let day = date(y, m, d);
        let since = todo_cli::renderer::days_until(&at(day), &at(monday));
        let by_chrono = chrono::NaiveDate::from_ymd_opt(y, m, d).unwrap().weekday();
        assert_eq!(by_chrono.num_days_from_monday() as i64, since.rem_euclid(7));
    }
}

#[test]
fn relative_phrases_are_split_at_the_first_space() {
    assert_eq!(split_relative("in 2 days"), Some(("2", "days")));
    assert_eq!(split_relative("in one week"), Some(("one", "week")));
    assert_eq!(split_relative("in 2  days ago"), Some(("2", " days ago")));
    assert_eq!(split_relative("in  2 days"), Some(("", "2 days")));
    assert_eq!(split_relative("in 2 "), Some(("2", "")));
    assert_eq!(split_relative("in é ü"), Some(("é", "ü")));
    assert_eq!(split_relative("in 2"), None);
    assert_eq!(split_relative("in "), None);
    assert_eq!(split_relative("in"), None);
    assert_eq!(split_relative(" in 2 days"), None);
    assert_eq!(split_relative("on 2 days"), None);
    assert_eq!(split_relative("IN 2 days"), None);
    assert_eq!(split_relative(""), None);
}

#[test]
fn amounts_are_numbers_or_number_words() {
    assert_eq!(read_amount("2"), Some(2));
    assert_eq!(read_amount("-2"), Some(-2));
    assert_eq!(read_amount("+12"), Some(12));
    assert_eq!(read_amount("two"), Some(2));
    assert_eq!(read_amount("Two"), Some(2));
    assert_eq!(read_amount("TEN"), Some(10));
    assert_eq!(read_amount("eleven"), None);
    assert_eq!(read_amount("2x"), None);
    assert_eq!(read_amount(""), None);
    assert_eq!(read_amount("9223372036854775808"), None);
}

#[test]
fn the_first_reading_decides() {
    let a = date(2025, 3, 4);
    let b = date(2025, 4, 3);
    assert_eq!(first_reading(&vec![None, Some(a), Some(b), None]), Some(a));
    assert_eq!(first_reading(&vec![Some(b), Some(a)]), Some(b));
    assert_eq!(first_reading(&vec![None, None, None, None, None, Some(b)]), Some(b));
    assert_eq!(first_reading(&vec![None, None]), None);
    assert_eq!(first_reading(&vec![]), None);
}

#[test]
fn calendar_stages_take_precedence_in_order() {
    let today = date(2025, 7, 15);
    let other = date(2030, 1, 1);
    let phrase = Some((2i64, "days"));
    assert_eq!(choose_calendar_date(Some(Keyword::Today), Some(other), phrase, today), Some(today));
    assert_eq!(
        choose_calendar_date(Some(Keyword::Tomorrow), Some(other), phrase, today),
        Some(date(2025, 7, 16))
    );
    assert_eq!(
        choose_calendar_date(Some(Keyword::Weekday(4)), Some(other), phrase, today),
        Some(other)
    );
    assert_eq!(choose_calendar_date(None, Some(other), phrase, today), Some(other));
    assert_eq!(choose_calendar_date(None, None, phrase, today), Some(date(2025, 7, 17)));
    assert_eq!(
        choose_calendar_date(Some(Keyword::Weekday(0)), None, Some((1, "month")), today),
        Some(date(2025, 8, 15))
    );
    assert_eq!(choose_calendar_date(Some(Keyword::Weekday(0)), None, None, today), None);
    assert_eq!(choose_calendar_date(None, None, None, today), None);
}
