//! Tasks, the order in which they are shown, and tag matching.

use crate::moment::{local_now, PointInTime};
use crate::text::same_text;
use std::cmp::Ordering;
use vstd::prelude::*;

verus! {

/// One task of the list.
#[derive(Debug, Clone)]
pub struct Task {
    /// The identifier under which the task is looked up.
    pub id: u64,
    /// What is to be done.
    pub description: String,
    /// Urgency from 1 (highest) to 5, if any.
    pub priority: Option<u8>,
    /// When the task is due, if it has a due date.
    pub due_date: Option<PointInTime>,
    /// The tags attached to the task.
    pub tags: Vec<String>,
    /// Whether the task is done.
    pub completed: bool,
    /// When the task was created.
    pub created_at: PointInTime,
    /// When the task was completed, if it is.
    pub completed_at: Option<PointInTime>,
}

/// Whether a priority is acceptable: absent, or from 1 to 5.
pub open spec fn priority_ok(priority: Option<u8>) -> bool {
    priority matches Some(p) ==> 1 <= p <= 5
}

/// How two instants compare on the time line.
pub open spec fn instant_order(a: PointInTime, b: PointInTime) -> Ordering {
    if a.precedes(b) {
        Ordering::Less
    } else if b.precedes(a) {
        Ordering::Greater
    } else {
        Ordering::Equal
    }
}

/// How two optional due dates compare: a task with a due date comes before
/// one without, and the earlier of two due dates comes first.
pub open spec fn due_order(a: Option<PointInTime>, b: Option<PointInTime>) -> Ordering {
    match (a, b) {
        (Some(x), Some(y)) => instant_order(x, y),
        (Some(_), None) => Ordering::Less,
        (None, Some(_)) => Ordering::Greater,
        (None, None) => Ordering::Equal,
    }
}

/// How two optional priorities compare: a task with a priority comes before
/// one without, and the smaller of two priorities comes first.
pub open spec fn priority_order(a: Option<u8>, b: Option<u8>) -> Ordering {
    match (a, b) {
        (Some(x), Some(y)) => if x < y {
            Ordering::Less
        } else if x > y {
            Ordering::Greater
        } else {
            Ordering::Equal
        },
        (Some(_), None) => Ordering::Less,
        (None, Some(_)) => Ordering::Greater,
        (None, None) => Ordering::Equal,
    }
}

/// The order in which tasks are shown. Open tasks come before completed
/// ones; among those, the due date decides; then the priority; then the
/// moment of creation, the earlier first.
pub open spec fn task_order(a: Task, b: Task) -> Ordering {
    if !a.completed && b.completed {
        Ordering::Less
    } else if a.completed && !b.completed {
        Ordering::Greater
    } else if due_order(a.due_date, b.due_date) != Ordering::Equal {
        due_order(a.due_date, b.due_date)
    } else if priority_order(a.priority, b.priority) != Ordering::Equal {
        priority_order(a.priority, b.priority)
    } else {
        instant_order(a.created_at, b.created_at)
    }
}

/// Whether `tags` holds the tag `tag`, letter for letter.
pub open spec fn has_tag(tags: Seq<String>, tag: Seq<char>) -> bool {
    exists|i: int| 0 <= i < tags.len() && (#[trigger] tags[i])@ == tag
}

/// Whether tags pass the tag filter: the tag to include, if one is given,
/// is among them, and the tag to exclude, if one is given, is not.
pub open spec fn tags_pass(
    tags: Seq<String>,
    include_tag: Option<&str>,
    exclude_tag: Option<&str>,
) -> bool {
    &&& include_tag matches Some(tag) ==> has_tag(tags, tag@)
    &&& exclude_tag matches Some(tag) ==> !has_tag(tags, tag@)
}

/// Compares two instants.
pub fn compare_instants(a: &PointInTime, b: &PointInTime) -> (r: Ordering)
    ensures
        r == instant_order(*a, *b),
{
    if a.is_before(b) {
        Ordering::Less
    } else if b.is_before(a) {
        Ordering::Greater
    } else {
        Ordering::Equal
    }
}

/// Compares two tasks for display: `Less` means that `a` is shown first.
pub fn compare_tasks(a: &Task, b: &Task) -> (r: Ordering)
    ensures
        r == task_order(*a, *b),
{
    if !a.completed && b.completed {
        return Ordering::Less;
    }
    if a.completed && !b.completed {
        return Ordering::Greater;
    }
    match (&a.due_date, &b.due_date) {
        (Some(x), Some(y)) => {
            let order = compare_instants(x, y);
            if !matches!(order, Ordering::Equal) {
                return order;
            }
        },
        (Some(_), None) => {
            return Ordering::Less;
        },
        (None, Some(_)) => {
            return Ordering::Greater;
        },
        (None, None) => {},
    }
    match (a.priority, b.priority) {
        (Some(x), Some(y)) => {
            if x < y {
                return Ordering::Less;
            }
            if x > y {
                return Ordering::Greater;
            }
        },
        (Some(_), None) => {
            return Ordering::Less;
        },
        (None, Some(_)) => {
            return Ordering::Greater;
        },
        (None, None) => {},
    }
    compare_instants(&a.created_at, &b.created_at)
}

/// Whether `tags` holds the tag `tag`.
pub fn tags_contain(tags: &Vec<String>, tag: &str) -> (r: bool)
    ensures
        r == has_tag(tags@, tag@),
{
    let mut i: usize = 0;
    while i < tags.len()
        invariant
            i <= tags.len(),
            forall|k: int| 0 <= k < i ==> (#[trigger] tags@[k])@ != tag@,
        decreases tags.len() - i,
    {
        if same_text(tags[i].as_str(), tag) {
            return true;
        }
        i += 1;
    }
    false
}

impl Task {
    /// The task keeps the rules of its fields: a priority lies from 1 to 5,
    /// and a moment of completion is recorded if and only if the task is
    /// completed. The display order and the filter do not rely on it.
    pub open spec fn well_formed(self) -> bool {
        &&& priority_ok(self.priority)
        &&& self.completed_at is Some <==> self.completed
    }

    /// A new open task created at `created_at`, without priority, due date
    /// or tags.
    pub fn new_at(id: u64, description: String, created_at: PointInTime) -> (r: Task)
        ensures
            r.well_formed(),
            r.id == id,
            r.description == description,
            r.priority is None,
            r.due_date is None,
            r.tags@.len() == 0,
            !r.completed,
            r.created_at == created_at,
            r.completed_at is None,
    {
        Task {
            id,
            description,
            priority: None,
            due_date: None,
            tags: Vec::new(),
            completed: false,
            created_at,
            completed_at: None,
        }
    }

    /// A new open task created now, without priority, due date or tags.
    pub fn new(id: u64, description: String) -> (r: Task)
        ensures
            r.well_formed(),
            r.id == id,
            r.description == description,
            r.priority is None,
            r.due_date is None,
            r.tags@.len() == 0,
            !r.completed,
            r.created_at.well_formed(),
            r.completed_at is None,
    {
        Task::new_at(id, description, local_now())
    }

    /// The task is open and its due date lies before `now`.
    pub open spec fn overdue_at(self, now: PointInTime) -> bool {
        self.due_date matches Some(due) && !self.completed && due.precedes(now)
    }

    /// Whether the task is open and was due before `now`.
    pub fn is_overdue_at(&self, now: &PointInTime) -> (r: bool)
        ensures
            r == self.overdue_at(*now),
    {
        match &self.due_date {
            Some(due) => !self.completed && due.is_before(now),
            None => false,
        }
    }

    /// Whether the task is open and its due date has passed. A task without
    /// a due date and a completed task are never overdue.
    pub fn is_overdue(&self) -> (r: bool)
        ensures
            r ==> self.due_date is Some && !self.completed,
            exists|now: PointInTime| now.well_formed() && r == #[trigger] self.overdue_at(now),
    {
        let now = local_now();
        self.is_overdue_at(&now)
    }

    /// Marks the task as completed at `now`.
    pub fn complete_at(&mut self, now: PointInTime)
        ensures
            priority_ok(old(self).priority) ==> final(self).well_formed(),
            final(self).completed,
            final(self).completed_at == Some(now),
            final(self).id == old(self).id,
            final(self).description == old(self).description,
            final(self).priority == old(self).priority,
            final(self).due_date == old(self).due_date,
            final(self).tags == old(self).tags,
            final(self).created_at == old(self).created_at,
    {
        self.completed = true;
        self.completed_at = Some(now);
    }

    /// Marks the task as completed now.
    pub fn complete(&mut self)
        ensures
            priority_ok(old(self).priority) ==> final(self).well_formed(),
            final(self).completed,
            final(self).completed_at matches Some(at) && at.well_formed(),
            final(self).id == old(self).id,
            final(self).description == old(self).description,
            final(self).priority == old(self).priority,
            final(self).due_date == old(self).due_date,
            final(self).tags == old(self).tags,
            final(self).created_at == old(self).created_at,
    {
        let now = local_now();
        self.complete_at(now);
    }

    /// Whether the task passes the tag filter.
    pub fn matches_tag_filter(&self, include_tag: Option<&str>, exclude_tag: Option<&str>) -> (r:
        bool)
        ensures
            r == tags_pass(self.tags@, include_tag, exclude_tag),
    {
        if let Some(tag) = include_tag {
            if !tags_contain(&self.tags, tag) {
                return false;
            }
        }
        if let Some(tag) = exclude_tag {
            if tags_contain(&self.tags, tag) {
                return false;
            }
        }
        true
    }
}

/// Whether two optional due dates are the same instant, or both absent.
pub open spec fn same_due(a: Option<PointInTime>, b: Option<PointInTime>) -> bool {
    match (a, b) {
        (Some(x), Some(y)) => x.same_instant(y),
        (None, None) => true,
        _ => false,
    }
}

/// Whether two tasks agree in every field that the display order reads:
/// completion, the instant of the due date, priority and the instant of
/// creation. Identifiers play no part in it.
pub open spec fn same_rank(a: Task, b: Task) -> bool {
    &&& a.completed == b.completed
    &&& same_due(a.due_date, b.due_date)
    &&& a.priority == b.priority
    &&& a.created_at.same_instant(b.created_at)
}

/// An open task is shown before a completed one, whatever their due dates
/// and priorities.
pub proof fn lemma_open_before_completed(a: Task, b: Task)
    requires
        !a.completed,
        b.completed,
    ensures
        task_order(a, b) == Ordering::Less,
        task_order(b, a) == Ordering::Greater,
{
}

/// Of two open tasks with due dates, the one that is due earlier is shown
/// first, whatever their priorities.
pub proof fn lemma_earlier_due_first(a: Task, b: Task)
    requires
        !a.completed,
        !b.completed,
        a.due_date is Some,
        b.due_date is Some,
        a.due_date->0.precedes(b.due_date->0),
    ensures
        task_order(a, b) == Ordering::Less,
{
}

/// The display order is total: of two tasks exactly one is shown first, or
/// they agree in every field that the order reads.
pub proof fn lemma_task_order_total(a: Task, b: Task)
    ensures
        task_order(a, b) == Ordering::Equal <==> same_rank(a, b),
        task_order(a, b) == Ordering::Less <==> task_order(b, a) == Ordering::Greater,
        task_order(a, b) == Ordering::Greater <==> task_order(b, a) == Ordering::Less,
        task_order(a, b) == Ordering::Less || task_order(b, a) == Ordering::Less || same_rank(a, b),
        !(task_order(a, b) == Ordering::Less && task_order(b, a) == Ordering::Less),
        !(task_order(a, b) == Ordering::Less && same_rank(a, b)),
        !(task_order(b, a) == Ordering::Less && same_rank(a, b)),
{
}

/// The display order is transitive: a task shown before a second that is
/// shown before a third is shown before the third.
pub proof fn lemma_task_order_transitive(a: Task, b: Task, c: Task)
    requires
        task_order(a, b) == Ordering::Less,
        task_order(b, c) == Ordering::Less,
    ensures
        task_order(a, c) == Ordering::Less,
{
}

/// Whether `a` is shown after `b`.
pub open spec fn shown_after(a: Task, b: Task) -> bool {
    task_order(a, b) == Ordering::Greater
}

/// Whether `a` is shown after `b`.
pub fn is_shown_after(a: &Task, b: &Task) -> (r: bool)
    ensures
        r == shown_after(*a, *b),
{
    matches!(compare_tasks(a, b), Ordering::Greater)
}

/// A task that is shown after another differs from it in rank, and rank is
/// shared: tasks that agree in rank with a third agree with each other.
pub proof fn lemma_rank_classes(a: Task, b: Task, c: Task)
    ensures
        shown_after(a, b) ==> !same_rank(a, b),
        same_rank(a, a),
        same_rank(a, b) ==> same_rank(b, a),
        same_rank(a, c) && same_rank(b, c) ==> same_rank(a, b),
{
}

/// No task is shown after itself, and of two tasks at most one is shown
/// after the other.
pub proof fn lemma_shown_after_asymmetric(a: Task, b: Task)
    ensures
        !shown_after(a, a),
        shown_after(a, b) ==> !shown_after(b, a),
{
}

/// Where `a` is not shown after `b`, nor `b` after `c`, `a` is not shown
/// after `c`.
pub proof fn lemma_shown_after_chain(a: Task, b: Task, c: Task)
    requires
        !shown_after(a, b),
        !shown_after(b, c),
    ensures
        !shown_after(a, c),
{
}

impl Task {
    /// How the task compares with `other` in display order.
    pub fn cmp(&self, other: &Task) -> (r: Ordering)
        ensures
            r == task_order(*self, *other),
    {
        compare_tasks(self, other)
    }
}

/// Two tasks are the same task when they have the same identifier.
impl PartialEq for Task {
    fn eq(&self, other: &Self) -> (r: bool) {
        self.id == other.id
    }
}

impl vstd::std_specs::cmp::PartialEqSpecImpl for Task {
    open spec fn obeys_eq_spec() -> bool {
        true
    }

    open spec fn eq_spec(&self, other: &Self) -> bool {
        self.id == other.id
    }
}

impl Eq for Task {

}

/// Tasks are ordered as they are shown.
impl PartialOrd for Task {
    fn partial_cmp(&self, other: &Self) -> (r: Option<Ordering>) {
        Some(compare_tasks(self, other))
    }
}

impl vstd::std_specs::cmp::PartialOrdSpecImpl for Task {
    open spec fn obeys_partial_cmp_spec() -> bool {
        true
    }

    open spec fn partial_cmp_spec(&self, other: &Self) -> Option<Ordering> {
        Some(task_order(*self, *other))
    }
}

} // verus!
