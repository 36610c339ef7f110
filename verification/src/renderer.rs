//! What the display decides before anything is printed: how a date reads
//! relative to today, and which emphasis a task's parts get.

use crate::calendar::{
    chrono_days_between, chrono_iso_text, days_between, iso_date_text, lemma_days_between, Ymd,
};
use crate::moment::{local_now, PointInTime};
use crate::task::Task;
use crate::text::{decimal_digits, decimal_string};
use vstd::prelude::*;
use vstd::string::*;

verus! {

/// How a date reads that lies `days` days after today: by a word for
/// today and the days next to it, by a count within a week, and as
/// year-month-day beyond.
pub open spec fn relative_label(days: int, date: Ymd) -> Seq<char> {
    if days == 0 {
        "today"@
    } else if days == 1 {
        "tomorrow"@
    } else if days == -1 {
        "yesterday"@
    } else if 2 <= days <= 7 {
        "in "@ + decimal_digits(days as nat) + " days"@
    } else if -7 <= days <= -2 {
        decimal_digits((-days) as nat) + " days ago"@
    } else {
        iso_date_text(date)
    }
}

/// How many days the day of `date` lies after the day of `now`.
pub fn days_until(date: &PointInTime, now: &PointInTime) -> (r: i64)
    requires
        date.well_formed(),
        now.well_formed(),
    ensures
        r == days_between(now.date@, date.date@),
        now.date@.plus_days(r as int) == date.date@,
{
    let days = chrono_days_between(date.date, now.date);
    proof {
        lemma_days_between(now.date@, days as int);
    }
    days
}

/// Writes `date` relative to the day of `now`.
pub fn format_relative_date_at(date: &PointInTime, now: &PointInTime) -> (r: String)
    requires
        date.well_formed(),
        now.well_formed(),
    ensures
        r@ == relative_label(days_between(now.date@, date.date@), date.date@),
{
    let days = days_until(date, now);
    if days == 0 {
        String::from_str("today")
    } else if days == 1 {
        String::from_str("tomorrow")
    } else if days == -1 {
        String::from_str("yesterday")
    } else if 2 <= days && days <= 7 {
        let mut label = String::from_str("in ");
        label.append(decimal_string(days as u64).as_str());
        label.append(" days");
        label
    } else if -7 <= days && days <= -2 {
        let mut label = decimal_string((-days) as u64);
        label.append(" days ago");
        label
    } else {
        chrono_iso_text(date.date)
    }
}

/// Writes `date` relative to today: `format_relative_date_at` at a reading
/// of the clock.
pub fn format_relative_date(date: &PointInTime) -> (r: String)
    requires
        date.well_formed(),
    ensures
        exists|today: Ymd| #[trigger]
            today.representable() && r@ == relative_label(
                days_between(today, date.date@),
                date.date@,
            ),
{
    let now = local_now();
    let label = format_relative_date_at(date, &now);
    assert(now.date@.representable());
    label
}

/// The emphasis of a due date in the list.
#[derive(Clone, Copy, Debug, PartialEq, Eq, Structural)]
pub enum DueStyle {
    /// The task is overdue.
    Overdue,
    /// The task is due today.
    Today,
    /// The task is due within three days.
    Soon,
    /// Any other due date.
    Plain,
}

/// The emphasis of a due date that lies `days_until` days ahead.
pub fn due_style(days_until: i64, overdue: bool) -> (r: DueStyle)
    ensures
        r == (if overdue {
            DueStyle::Overdue
        } else if days_until == 0 {
            DueStyle::Today
        } else if 1 <= days_until <= 3 {
            DueStyle::Soon
        } else {
            DueStyle::Plain
        }),
{
    if overdue {
        DueStyle::Overdue
    } else if days_until == 0 {
        DueStyle::Today
    } else if 1 <= days_until && days_until <= 3 {
        DueStyle::Soon
    } else {
        DueStyle::Plain
    }
}

/// The emphasis of a task's description.
#[derive(Clone, Copy, Debug, PartialEq, Eq, Structural)]
pub enum DescriptionStyle {
    /// The task is completed.
    Done,
    /// The task is open and overdue.
    Overdue,
    /// Any other task.
    Plain,
}

/// The emphasis of a task's description at the moment `now`.
pub fn description_style(task: &Task, now: &PointInTime) -> (r: DescriptionStyle)
    ensures
        r == (if task.completed {
            DescriptionStyle::Done
        } else if task.overdue_at(*now) {
            DescriptionStyle::Overdue
        } else {
            DescriptionStyle::Plain
        }),
{
    if task.completed {
        DescriptionStyle::Done
    } else if task.is_overdue_at(now) {
        DescriptionStyle::Overdue
    } else {
        DescriptionStyle::Plain
    }
}

/// The tasks that are completed.
pub open spec fn is_completed() -> spec_fn(Task) -> bool {
    |task: Task| task.completed
}

/// The tasks that are overdue at `now`.
pub open spec fn is_overdue_at(now: PointInTime) -> spec_fn(Task) -> bool {
    |task: Task| task.overdue_at(now)
}

/// How many tasks are completed and how many are overdue at `now`.
pub fn count_done_and_overdue(tasks: &Vec<Task>, now: &PointInTime) -> (r: (usize, usize))
    ensures
        r.0 == tasks@.filter(is_completed()).len(),
        r.1 == tasks@.filter(is_overdue_at(*now)).len(),
{
    let mut done: usize = 0;
    let mut overdue: usize = 0;
    let mut i: usize = 0;
    assert(tasks@.take(0) =~= Seq::<Task>::empty());
    while i < tasks.len()
        invariant
            i <= tasks.len(),
            done <= i,
            overdue <= i,
            done == tasks@.take(i as int).filter(is_completed()).len(),
            overdue == tasks@.take(i as int).filter(is_overdue_at(*now)).len(),
        decreases tasks.len() - i,
    {
        proof {
            let seen = tasks@.take(i as int);
            assert(tasks@.take(i + 1) =~= seen.push(tasks@[i as int]));
            seen.lemma_filter_push(tasks@[i as int], is_completed());
            seen.lemma_filter_push(tasks@[i as int], is_overdue_at(*now));
        }
        if tasks[i].completed {
            done += 1;
        }
        if tasks[i].is_overdue_at(now) {
            overdue += 1;
        }
        i += 1;
    }
    assert(tasks@.take(tasks.len() as int) =~= tasks@);
    (done, overdue)
}

} // verus!
