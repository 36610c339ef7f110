use std::cmp::Ordering;
use todo_cli::calendar::CivilDate;
use todo_cli::moment::PointInTime;
use todo_cli::task::{compare_instants, compare_tasks, is_shown_after, tags_contain, Task};

fn instant(timestamp: i64, nanos: u32) -> PointInTime {
    PointInTime {
        timestamp,
        nanos,
        date: CivilDate { year: 2025, month: 7, day: 15 },
        second_of_day: 0,
    }
}

fn ranked(id: u64, completed: bool, due: Option<i64>, priority: Option<u8>, created: i64) -> Task {
    let mut task = Task::new_at(id, format!("task {}", id), instant(created, 0));
    task.completed = completed;
    task.due_date = due.map(|d| instant(d, 0));
    task.priority = priority;
    task
}

#[test]
fn a_new_task_is_open_and_bare() {
    let task = Task::new(7, "write report".to_string());
    assert_eq!(task.id, 7);
    assert_eq!(task.description, "write report");
    assert_eq!(task.priority, None);
    assert_eq!(task.due_date, None);
    assert!(task.tags.is_empty());
    assert!(!task.completed);
    assert_eq!(task.completed_at, None);
    assert!(task.created_at.is_well_formed());
    let now = chrono::Local::now().timestamp();
    assert!((task.created_at.timestamp - now).abs() <= 5);
}

#[test]
fn a_new_task_at_a_given_moment() {
    let created = instant(1_000, 5);
    let task = Task::new_at(3, "x".to_string(), created);
    assert_eq!(task.id, 3);
    assert_eq!(task.created_at, created);
    assert!(!task.completed);
}

#[test]
fn instants_compare_by_seconds_then_nanoseconds() {
    assert_eq!(compare_instants(&instant(1, 0), &instant(2, 0)), Ordering::Less);
    assert_eq!(compare_instants(&instant(2, 0), &instant(1, 999)), Ordering::Greater);
    assert_eq!(compare_instants(&instant(1, 5), &instant(1, 6)), Ordering::Less);
    assert_eq!(compare_instants(&instant(1, 6), &instant(1, 5)), Ordering::Greater);
    assert_eq!(compare_instants(&instant(1, 5), &instant(1, 5)), Ordering::Equal);
    assert_eq!(compare_instants(&instant(-5, 0), &instant(0, 0)), Ordering::Less);
    // The calendar fields play no part in the order.
    let mut other = instant(1, 5);
    other.date = CivilDate { year: 1999, month: 1, day: 1 };
    other.second_of_day = 77;
    assert_eq!(compare_instants(&instant(1, 5), &other), Ordering::Equal);
}

#[test]
fn open_tasks_come_before_completed_ones() {
    let open = ranked(1, false, None, None, 100);
    let done = ranked(2, true, Some(1), Some(1), 0);
    assert_eq!(compare_tasks(&open, &done), Ordering::Less);
    assert_eq!(compare_tasks(&done, &open), Ordering::Greater);
    assert_eq!(open.cmp(&done), Ordering::Less);
    assert!(is_shown_after(&done, &open));
    assert!(!is_shown_after(&open, &done));
}

#[test]
fn earlier_due_dates_come_first_whatever_the_priority() {
    let sooner = ranked(1, false, Some(10), Some(5), 100);
    let later = ranked(2, false, Some(20), Some(1), 0);
    assert_eq!(compare_tasks(&sooner, &later), Ordering::Less);
    assert_eq!(compare_tasks(&later, &sooner), Ordering::Greater);
    let dated = ranked(3, false, Some(1_000_000), None, 100);
    let undated = ranked(4, false, None, Some(1), 0);
    assert_eq!(compare_tasks(&dated, &undated), Ordering::Less);
    assert_eq!(compare_tasks(&undated, &dated), Ordering::Greater);
}

#[test]
fn priorities_break_ties_of_due_dates() {
    let urgent = ranked(1, false, Some(10), Some(1), 100);
    let relaxed = ranked(2, false, Some(10), Some(4), 0);
    assert_eq!(compare_tasks(&urgent, &relaxed), Ordering::Less);
    assert_eq!(compare_tasks(&relaxed, &urgent), Ordering::Greater);
    let ranked_task = ranked(3, false, None, Some(5), 100);
    let unranked = ranked(4, false, None, None, 0);
    assert_eq!(compare_tasks(&ranked_task, &unranked), Ordering::Less);
    assert_eq!(compare_tasks(&unranked, &ranked_task), Ordering::Greater);
    // Priorities outside 1 to 5 compare as the numbers they are.
    let zero = ranked(5, false, None, Some(0), 100);
    let huge = ranked(6, false, None, Some(255), 0);
    assert_eq!(compare_tasks(&zero, &huge), Ordering::Less);
    assert_eq!(compare_tasks(&zero, &ranked_task), Ordering::Less);
}

#[test]
fn creation_breaks_the_last_tie() {
    let older = ranked(9, true, Some(10), Some(2), 50);
    let newer = ranked(1, true, Some(10), Some(2), 60);
    assert_eq!(compare_tasks(&older, &newer), Ordering::Less);
    assert_eq!(compare_tasks(&newer, &older), Ordering::Greater);
    let twin = ranked(77, true, Some(10), Some(2), 50);
    assert_eq!(compare_tasks(&older, &twin), Ordering::Equal);
    assert_eq!(compare_tasks(&twin, &older), Ordering::Equal);
    assert_eq!(compare_tasks(&older, &older), Ordering::Equal);
}

#[test]
fn the_order_tolerates_tasks_that_break_the_completion_rule() {
    let mut odd = ranked(1, false, None, None, 0);
    odd.completed_at = Some(instant(5, 0));
    let mut odder = ranked(2, true, None, None, 0);
    odder.completed_at = None;
    assert_eq!(compare_tasks(&odd, &odder), Ordering::Less);
    assert_eq!(compare_tasks(&odder, &odd), Ordering::Greater);
}

#[test]
fn the_order_is_total_and_transitive_on_samples() {
    let mut tasks = Vec::new();
    let mut id = 0;
    for completed in [false, true] {
        for due in [None, Some(1), Some(2)] {
            for priority in [None, Some(1), Some(3)] {
                for created in [0, 1] {
                    id += 1;
                    tasks.push(ranked(id, completed, due, priority, created));
                }
            }
        }
    }
    for a in &tasks {
        for b in &tasks {
            let ab = compare_tasks(a, b);
            let ba = compare_tasks(b, a);
            assert_eq!(ab, ba.reverse());
            assert_eq!(ab == Ordering::Equal, a.id == b.id);
            for c in &tasks {
                if ab == Ordering::Less && compare_tasks(b, c) == Ordering::Less {
                    assert_eq!(compare_tasks(a, c), Ordering::Less);
                }
            }
        }
    }
}

#[test]
fn tasks_are_equal_by_identifier_and_ordered_by_rank() {
    let a = ranked(1, false, Some(10), None, 0);
    let b = ranked(1, true, None, Some(3), 5);
    let c = ranked(2, false, Some(10), None, 0);
    assert!(a == b);
    assert!(a != c);
    assert_eq!(a.partial_cmp(&c), Some(Ordering::Equal));
    assert_eq!(a.partial_cmp(&b), Some(Ordering::Less));
    assert!(a < b);
    assert!(b > c);
    assert!(a <= c && a >= c);
}

#[test]
fn tag_filters() {
    let mut task = Task::new(1, "x".to_string());
    task.tags = vec!["work".to_string(), "urgent".to_string()];
    assert!(task.matches_tag_filter(None, None));
    assert!(task.matches_tag_filter(Some("work"), None));
    assert!(task.matches_tag_filter(Some("urgent"), None));
    assert!(!task.matches_tag_filter(Some("home"), None));
    assert!(!task.matches_tag_filter(Some("Work"), None));
    assert!(!task.matches_tag_filter(Some("wor"), None));
    assert!(task.matches_tag_filter(None, Some("home")));
    assert!(!task.matches_tag_filter(None, Some("work")));
    assert!(task.matches_tag_filter(Some("work"), Some("home")));
    assert!(!task.matches_tag_filter(Some("work"), Some("urgent")));
    assert!(!task.matches_tag_filter(Some("work"), Some("work")));
    assert!(!task.matches_tag_filter(Some("home"), Some("home")));
    let bare = Task::new(2, "y".to_string());
    assert!(bare.matches_tag_filter(None, Some("work")));
    assert!(!bare.matches_tag_filter(Some("work"), None));
    assert!(!bare.matches_tag_filter(Some(""), None));
    assert!(tags_contain(&task.tags, "urgent"));
    assert!(!tags_contain(&task.tags, ""));
}

#[test]
fn overdue_needs_an_open_task_with_a_past_due_date() {
    let now = instant(100, 0);
    let mut task = ranked(1, false, Some(99), None, 0);
    assert!(task.is_overdue_at(&now));
    task.due_date = Some(instant(100, 0));
    assert!(!task.is_overdue_at(&now));
    task.due_date = Some(instant(101, 0));
    assert!(!task.is_overdue_at(&now));
    task.due_date = Some(instant(99, 999_999_999));
    assert!(task.is_overdue_at(&now));
    task.completed = true;
    assert!(!task.is_overdue_at(&now));
    task.completed = false;
    task.due_date = None;
    assert!(!task.is_overdue_at(&now));
}

#[test]
fn overdue_by_the_clock() {
    let mut task = Task::new(1, "x".to_string());
    assert!(!task.is_overdue());
    task.due_date = Some(instant(0, 0));
    assert!(task.is_overdue());
    task.due_date = Some(instant(253_402_300_799, 0));
    assert!(!task.is_overdue());
    task.due_date = Some(instant(0, 0));
    task.completed = true;
    assert!(!task.is_overdue());
}

#[test]
fn completing_sets_the_flag_and_the_moment() {
    let mut task = ranked(4, false, Some(10), Some(2), 1);
    task.tags = vec!["a".to_string()];
    let at = instant(500, 1);
    task.complete_at(at);
    assert!(task.completed);
    assert_eq!(task.completed_at, Some(at));
    assert_eq!(task.id, 4);
    assert_eq!(task.due_date, Some(instant(10, 0)));
    assert_eq!(task.priority, Some(2));
    assert_eq!(task.tags, vec!["a".to_string()]);
    let mut other = Task::new(5, "y".to_string());
    other.complete();
    assert!(other.completed);
    let at = other.completed_at.unwrap();
    assert!(at.is_well_formed());
    assert!(!at.is_before(&other.created_at));
}
