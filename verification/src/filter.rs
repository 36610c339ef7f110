//! Selecting the tasks to show and putting them in display order.

use crate::task::{
    is_shown_after, lemma_rank_classes, lemma_shown_after_asymmetric, lemma_shown_after_chain,
    same_rank, shown_after, tags_pass, Task,
};
use vstd::prelude::*;

verus! {

/// Whether a task passes the filter: it is open unless completed tasks are
/// to be shown, it carries the tag to include if one is given, and it does
/// not carry the tag to exclude if one is given.
pub open spec fn task_passes(
    task: Task,
    include_tag: Option<&str>,
    exclude_tag: Option<&str>,
    show_completed: bool,
) -> bool {
    (show_completed || !task.completed) && tags_pass(task.tags@, include_tag, exclude_tag)
}

/// The filter as a predicate on tasks.
pub open spec fn passing(
    include_tag: Option<&str>,
    exclude_tag: Option<&str>,
    show_completed: bool,
) -> spec_fn(Task) -> bool {
    |task: Task| task_passes(task, include_tag, exclude_tag, show_completed)
}

/// The tasks that a sequence of references refers to.
pub open spec fn referents(refs: Seq<&Task>) -> Seq<Task> {
    Seq::new(refs.len(), |i: int| *refs[i])
}

/// The tasks that pass the filter, in their order in `tasks`.
pub fn filter_tasks<'a>(
    tasks: &'a [Task],
    include_tag: Option<&str>,
    exclude_tag: Option<&str>,
    show_completed: bool,
) -> (r: Vec<&'a Task>)
    ensures
        referents(r@) == tasks@.filter(passing(include_tag, exclude_tag, show_completed)),
{
    let ghost pred = passing(include_tag, exclude_tag, show_completed);
    let mut kept: Vec<&'a Task> = Vec::new();
    let mut i: usize = 0;
    assert(tasks@.take(0).filter(pred) =~= Seq::<Task>::empty());
    while i < tasks.len()
        invariant
            i <= tasks.len(),
            pred == passing(include_tag, exclude_tag, show_completed),
            referents(kept@) == tasks@.take(i as int).filter(pred),
        decreases tasks.len() - i,
    {
        let task = &tasks[i];
        let ghost seen = tasks@.take(i as int);
        proof {
            assert(tasks@.take(i + 1) =~= seen.push(tasks@[i as int]));
            seen.lemma_filter_push(tasks@[i as int], pred);
        }
        let ghost before = kept@;
        if (show_completed || !task.completed) && task.matches_tag_filter(include_tag, exclude_tag) {
            kept.push(task);
            assert(referents(kept@) =~= referents(before).push(tasks@[i as int]));
        }
        i += 1;
    }
    assert(tasks@.take(tasks.len() as int) =~= tasks@);
    kept
}

/// A filter that asks for a tag and forbids the same tag lets no task
/// pass.
pub proof fn lemma_contradictory_filter_is_empty(
    tasks: Seq<Task>,
    tag: &str,
    show_completed: bool,
)
    ensures
        tasks.filter(passing(Some(tag), Some(tag), show_completed)).len() == 0,
{
    let pred = passing(Some(tag), Some(tag), show_completed);
    assert forall|task: Task| !(#[trigger] pred(task)) by {}
    tasks.lemma_all_neg_filter_empty(pred);
}

/// Whether the tasks stand in display order: none is shown after a later
/// one.
pub open spec fn in_display_order(tasks: Seq<&Task>) -> bool {
    forall|i: int, j: int|
        0 <= i <= j < tasks.len() ==> !shown_after(*#[trigger] tasks[i], *#[trigger] tasks[j])
}

/// Where a task goes into tasks in display order: behind the last task
/// that is not shown after it.
pub open spec fn insertion_point(sorted: Seq<&Task>, task: &Task) -> int
    decreases sorted.len(),
{
    if sorted.len() == 0 {
        0
    } else if shown_after(*sorted.last(), *task) {
        insertion_point(sorted.drop_last(), task)
    } else {
        sorted.len() as int
    }
}

/// The tasks in display order, tasks of equal rank in the order in which
/// they stand in `tasks`: each task in turn is put into the order of those
/// before it.
pub open spec fn sorted_tasks(tasks: Seq<&Task>) -> Seq<&Task>
    decreases tasks.len(),
{
    if tasks.len() == 0 {
        Seq::empty()
    } else {
        let sorted = sorted_tasks(tasks.drop_last());
        sorted.insert(insertion_point(sorted, tasks.last()), tasks.last())
    }
}

/// The insertion point lies within the sequence; every task from it on is
/// shown after the new task, and the task before it is not.
pub proof fn lemma_insertion_point(sorted: Seq<&Task>, task: &Task)
    ensures
        0 <= insertion_point(sorted, task) <= sorted.len(),
        forall|k: int|
            insertion_point(sorted, task) <= k < sorted.len() ==> shown_after(
                *#[trigger] sorted[k],
                *task,
            ),
        insertion_point(sorted, task) > 0 ==> !shown_after(
            *sorted[insertion_point(sorted, task) - 1],
            *task,
        ),
    decreases sorted.len(),
{
    if sorted.len() > 0 && shown_after(*sorted.last(), *task) {
        let rest = sorted.drop_last();
        lemma_insertion_point(rest, task);
        assert forall|k: int| insertion_point(sorted, task) <= k < sorted.len() implies shown_after(
            *#[trigger] sorted[k],
            *task,
        ) by {
            if k < rest.len() {
                assert(sorted[k] == rest[k]);
            }
        }
    }
}

/// Putting a task at its insertion point keeps the display order.
pub proof fn lemma_insert_keeps_order(sorted: Seq<&Task>, task: &Task)
    requires
        in_display_order(sorted),
    ensures
        in_display_order(sorted.insert(insertion_point(sorted, task), task)),
{
    let p = insertion_point(sorted, task);
    let after = sorted.insert(p, task);
    lemma_insertion_point(sorted, task);
    assert forall|i: int, j: int| 0 <= i <= j < after.len() implies !shown_after(
        *#[trigger] after[i],
        *#[trigger] after[j],
    ) by {
        if i == j {
            lemma_shown_after_asymmetric(*after[i], *after[j]);
        } else if j == p {
            assert(after[i] == sorted[i]);
            lemma_shown_after_chain(*sorted[i], *sorted[p - 1], *task);
        } else if i == p {
            assert(after[j] == sorted[j - 1]);
            lemma_shown_after_asymmetric(*sorted[j - 1], *task);
        } else {
            let i0 = if i < p {
                i
            } else {
                i - 1
            };
            let j0 = if j < p {
                j
            } else {
                j - 1
            };
            assert(after[i] == sorted[i0]);
            assert(after[j] == sorted[j0]);
        }
    }
}

/// Sorting gives the same tasks, each as often as before, in display
/// order.
pub proof fn lemma_sorted_tasks(tasks: Seq<&Task>)
    ensures
        in_display_order(sorted_tasks(tasks)),
        sorted_tasks(tasks).to_multiset() == tasks.to_multiset(),
        sorted_tasks(tasks).len() == tasks.len(),
    decreases tasks.len(),
{
    broadcast use vstd::seq_lib::group_to_multiset_ensures;

    if tasks.len() > 0 {
        let rest = tasks.drop_last();
        let sorted = sorted_tasks(rest);
        lemma_sorted_tasks(rest);
        lemma_insertion_point(sorted, tasks.last());
        lemma_insert_keeps_order(sorted, tasks.last());
        assert(tasks =~= rest.push(tasks.last()));
    } else {
        assert(tasks.to_multiset() =~= Seq::<&Task>::empty().to_multiset());
    }
}

/// The tasks that agree with `task` in rank.
pub open spec fn of_rank<'a>(task: Task) -> spec_fn(&'a Task) -> bool {
    |other: &'a Task| same_rank(*other, task)
}

/// Sorting is stable: the tasks of one rank stand in the same order before
/// and after.
pub proof fn lemma_sorting_is_stable<'a>(tasks: Seq<&'a Task>, task: Task)
    ensures
        sorted_tasks(tasks).filter(of_rank(task)) == tasks.filter(of_rank(task)),
    decreases tasks.len(),
{
    let pred = of_rank(task);
    if tasks.len() == 0 {
        assert(sorted_tasks(tasks) =~= tasks);
    } else {
        let rest = tasks.drop_last();
        let last = tasks.last();
        let sorted = sorted_tasks(rest);
        let p = insertion_point(sorted, last);
        let front = sorted.take(p);
        let back = sorted.skip(p);
        lemma_sorting_is_stable(rest, task);
        lemma_insertion_point(sorted, last);
        assert(tasks =~= rest.push(last));
        rest.lemma_filter_push(last, pred);
        assert(sorted =~= front + back);
        assert(sorted.insert(p, last) =~= front.push(last) + back);
        Seq::filter_distributes_over_add(front, back, pred);
        Seq::filter_distributes_over_add(front.push(last), back, pred);
        front.lemma_filter_push(last, pred);
        if pred(last) {
            assert forall|i: int| 0 <= i < back.len() implies !pred(#[trigger] back[i]) by {
                assert(back[i] == sorted[p + i]);
                lemma_rank_classes(*back[i], *last, task);
            }
            assert(back.all(|other: &'a Task| !pred(other)));
            back.lemma_all_neg_filter_empty(pred);
            assert(back.filter(pred) =~= Seq::<&Task>::empty());
            assert(front.filter(pred).push(last) + back.filter(pred) =~= (front.filter(pred)
                + back.filter(pred)).push(last));
        }
    }
}

/// The tasks in display order, tasks of equal rank in the order in which
/// they stand in `tasks`.
pub fn sorted<'a>(tasks: &[&'a Task]) -> (r: Vec<&'a Task>)
    ensures
        r@ == sorted_tasks(tasks@),
        in_display_order(r@),
        r@.to_multiset() == tasks@.to_multiset(),
        r@.len() == tasks@.len(),
{
    let mut sorted: Vec<&'a Task> = Vec::new();
    let mut i: usize = 0;
    assert(tasks@.take(0) =~= Seq::<&Task>::empty());
    while i < tasks.len()
        invariant
            i <= tasks.len(),
            sorted@ == sorted_tasks(tasks@.take(i as int)),
        decreases tasks.len() - i,
    {
        let task = tasks[i];
        let ghost seen = tasks@.take(i as int);
        proof {
            lemma_sorted_tasks(seen);
            assert(tasks@.take(i + 1).drop_last() =~= seen);
        }
        let mut p: usize = sorted.len();
        assert(sorted@.take(p as int) =~= sorted@);
        while p > 0 && is_shown_after(sorted[p - 1], task)
            invariant
                p <= sorted.len(),
                insertion_point(sorted@, task) == insertion_point(sorted@.take(p as int), task),
            decreases p,
        {
            assert(sorted@.take(p as int).drop_last() =~= sorted@.take(p - 1));
            p -= 1;
        }
        sorted.insert(p, task);
        i += 1;
    }
    proof {
        assert(tasks@.take(tasks.len() as int) =~= tasks@);
        lemma_sorted_tasks(tasks@);
    }
    sorted
}

/// Puts the tasks in display order. Tasks of equal rank keep the order in
/// which they stood.
pub fn sort_tasks(tasks: &mut [&Task])
    ensures
        final(tasks)@ == sorted_tasks(old(tasks)@),
        in_display_order(final(tasks)@),
        final(tasks)@.to_multiset() == old(tasks)@.to_multiset(),
{
    let sorted = sorted(tasks);
    let mut k: usize = 0;
    while k < tasks.len()
        invariant
            k <= tasks.len(),
            tasks@.len() == sorted@.len(),
            forall|j: int| 0 <= j < k ==> tasks@[j] == sorted@[j],
        decreases tasks.len() - k,
    {
        tasks[k] = sorted[k];
        k += 1;
    }
    assert(tasks@ =~= sorted@);
}

} // verus!
