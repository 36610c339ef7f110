//! What the commands decide: which words of a description are tags, which
//! input is refused, and how a task is added, edited and completed.

use crate::date_parser::{is_unparsable, normalized, parse_date_at};
use crate::error::TodoError;
use crate::moment::{local_now, rfc3339_moment, PointInTime};
use crate::storage::{lemma_position_of, position_of, TaskStorage};
use crate::task::{has_tag, priority_ok, tags_contain, Task};
use crate::text::{join_strings, joined, texts, to_chars, trim, trim_of};
use vstd::prelude::*;
use vstd::string::*;

verus! {

/// The tag that a word of a description names: what follows a leading '@',
/// if anything follows.
pub open spec fn tag_of(word: Seq<char>) -> Option<Seq<char>> {
    if word.len() > 1 && word[0] == '@' {
        Some(word.skip(1))
    } else {
        None
    }
}

/// `tags` with `tag` added at the end unless it is among them.
pub open spec fn with_tag(tags: Seq<Seq<char>>, tag: Seq<char>) -> Seq<Seq<char>> {
    if tags.contains(tag) {
        tags
    } else {
        tags.push(tag)
    }
}

/// The words of a description that are not tags, in order.
pub open spec fn plain_words(words: Seq<Seq<char>>) -> Seq<Seq<char>>
    decreases words.len(),
{
    if words.len() == 0 {
        Seq::empty()
    } else if tag_of(words.last()) is Some {
        plain_words(words.drop_last())
    } else {
        plain_words(words.drop_last()).push(words.last())
    }
}

/// `tags` followed by the tags that the words of a description name, each
/// tag once.
pub open spec fn gathered_tags(words: Seq<Seq<char>>, tags: Seq<Seq<char>>) -> Seq<Seq<char>>
    decreases words.len(),
{
    if words.len() == 0 {
        tags
    } else {
        match tag_of(words.last()) {
            Some(tag) => with_tag(gathered_tags(words.drop_last(), tags), tag),
            None => gathered_tags(words.drop_last(), tags),
        }
    }
}

/// `has_tag` says of strings what `contains` says of their texts.
pub proof fn lemma_has_tag(tags: Seq<String>, tag: Seq<char>)
    ensures
        has_tag(tags, tag) == texts(tags).contains(tag),
{
    if has_tag(tags, tag) {
        let i = choose|i: int| 0 <= i < tags.len() && (#[trigger] tags[i])@ == tag;
        assert(texts(tags)[i] == tag);
    }
    if texts(tags).contains(tag) {
        let i = choose|i: int| 0 <= i < texts(tags).len() && texts(tags)[i] == tag;
        assert(tags[i]@ == tag);
    }
}

/// Adds `tag` to `tags` unless it is among them.
pub fn add_tag(tags: &mut Vec<String>, tag: &str)
    ensures
        texts(final(tags)@) == with_tag(texts(old(tags)@), tag@),
{
    proof {
        lemma_has_tag(tags@, tag@);
    }
    if !tags_contain(tags, tag) {
        let ghost before = tags@;
        tags.push(String::from_str(tag));
        assert(texts(tags@) =~= texts(before).push(tag@));
    }
}

/// Splits the words of a description into the words that stay and the
/// tags: a word that begins with '@' and goes on names a tag and leaves
/// the description. The tags found join `tags`, each once.
pub fn extract_tags(words: &Vec<String>, tags: Vec<String>) -> (r: (Vec<String>, Vec<String>))
    ensures
        texts(r.0@) == plain_words(texts(words@)),
        texts(r.1@) == gathered_tags(texts(words@), texts(tags@)),
{
    let ghost all = texts(words@);
    let ghost given = texts(tags@);
    let mut kept: Vec<String> = Vec::new();
    let mut tags = tags;
    let mut i: usize = 0;
    assert(all.take(0) =~= Seq::<Seq<char>>::empty());
    assert(texts(kept@) =~= Seq::<Seq<char>>::empty());
    while i < words.len()
        invariant
            i <= words.len(),
            all == texts(words@),
            texts(kept@) == plain_words(all.take(i as int)),
            texts(tags@) == gathered_tags(all.take(i as int), given),
        decreases words.len() - i,
    {
        let word = words[i].as_str();
        let chars = to_chars(word);
        proof {
            assert(all.take(i + 1).drop_last() =~= all.take(i as int));
            assert(all.take(i + 1).last() == word@);
        }
        if chars.len() > 1 && chars[0] == '@' {
            let tag = word.substring_char(1, chars.len());
            assert(tag@ =~= word@.skip(1));
            add_tag(&mut tags, tag);
        } else {
            let ghost before = kept@;
            kept.push(words[i].clone());
            assert(texts(kept@) =~= texts(before).push(word@));
        }
        i += 1;
    }
    assert(all.take(words.len() as int) =~= all);
    (kept, tags)
}

/// The description that the plain words make: joined by spaces and
/// trimmed.
pub fn describe(words: &Vec<String>) -> (r: String)
    ensures
        r@ == trim_of(joined(texts(words@))),
{
    let whole = join_strings(words);
    String::from_str(trim(whole.as_str()))
}

/// The position of the first blank tag at or after `from`: one that is
/// empty once trimmed.
pub open spec fn first_blank(tags: Seq<String>, from: int) -> Option<int>
    decreases tags.len() - from,
{
    if from < 0 || from >= tags.len() {
        None
    } else if trim_of(tags[from]@).len() == 0 {
        Some(from)
    } else {
        first_blank(tags, from + 1)
    }
}

/// Why input is refused, if it is: a priority outside 1 to 5 first, then
/// the first blank tag.
pub open spec fn rejection(priority: Option<u8>, tags: Seq<String>) -> Option<TodoError> {
    if !priority_ok(priority) {
        Some(TodoError::InvalidPriority(priority->0))
    } else {
        match first_blank(tags, 0) {
            Some(i) => Some(TodoError::InvalidTag(tags[i])),
            None => None,
        }
    }
}

/// Checks a priority and tags.
pub fn validate(priority: Option<u8>, tags: &Vec<String>) -> (r: Result<(), TodoError>)
    ensures
        match r {
            Ok(_) => rejection(priority, tags@) is None,
            Err(e) => rejection(priority, tags@) == Some(e),
        },
{
    if let Some(p) = priority {
        if p < 1 || p > 5 {
            return Err(TodoError::InvalidPriority(p));
        }
    }
    let mut i: usize = 0;
    while i < tags.len()
        invariant
            i <= tags.len(),
            priority_ok(priority),
            first_blank(tags@, 0) == first_blank(tags@, i as int),
        decreases tags.len() - i,
    {
        if trim(tags[i].as_str()).unicode_len() == 0 {
            return Err(TodoError::InvalidTag(tags[i].clone()));
        }
        i += 1;
    }
    Ok(())
}

/// The texts of the tags, each trimmed.
pub open spec fn trimmed_texts(tags: Seq<String>) -> Seq<Seq<char>> {
    Seq::new(tags.len(), |i: int| trim_of(tags[i]@))
}

/// The tags, each trimmed.
pub fn trim_all(tags: &Vec<String>) -> (r: Vec<String>)
    ensures
        texts(r@) == trimmed_texts(tags@),
{
    let mut trimmed: Vec<String> = Vec::new();
    let mut i: usize = 0;
    while i < tags.len()
        invariant
            i <= tags.len(),
            texts(trimmed@) == trimmed_texts(tags@).take(i as int),
        decreases tags.len() - i,
    {
        let ghost before = trimmed@;
        trimmed.push(String::from_str(trim(tags[i].as_str())));
        assert(texts(trimmed@) =~= texts(before).push(trim_of(tags@[i as int]@)));
        assert(trimmed_texts(tags@).take(i + 1) =~= trimmed_texts(tags@).take(i as int).push(
            trim_of(tags@[i as int]@),
        ));
        i += 1;
    }
    assert(trimmed_texts(tags@).take(tags.len() as int) =~= trimmed_texts(tags@));
    trimmed
}

/// Reads a due date as a command gets it: a full date and time with zone
/// offset is taken as it is; any other text is interpreted as a due date
/// at the moment `now`.
pub fn resolve_due(due: &str, now: &PointInTime) -> (r: Result<PointInTime, TodoError>)
    requires
        now.well_formed(),
    ensures
        match r {
            Ok(p) => p.well_formed(),
            Err(e) => is_unparsable(e, normalized(due@)),
        },
{
    match rfc3339_moment(due) {
        Some(p) => Ok(p),
        None => parse_date_at(due, now),
    }
}

/// Whether `task` is the task that a command adds under the identifier
/// `id` at the moment `now`.
pub open spec fn is_added_task(
    task: Task,
    id: u64,
    description: String,
    priority: Option<u8>,
    due: Option<String>,
    tags: Seq<String>,
    now: PointInTime,
) -> bool {
    &&& task.id == id
    &&& task.description == description
    &&& task.priority == priority
    &&& texts(task.tags@) == trimmed_texts(tags)
    &&& !task.completed
    &&& task.created_at == now
    &&& task.completed_at is None
    &&& due is None ==> task.due_date is None
    &&& due is Some ==> task.due_date is Some && task.due_date->0.well_formed()
}

/// Whether a command that adds a task at the moment `now` may take the
/// tasks from `before` to `after` with the result `r`.
///
/// A priority outside 1 to 5 is refused, then a blank tag, then a due date
/// that cannot be read; nothing is stored then. Otherwise the task is
/// stored last, open, under the next identifier, with the tags trimmed.
pub open spec fn adds_task(
    before: TaskStorage,
    after: TaskStorage,
    description: String,
    priority: Option<u8>,
    due: Option<String>,
    tags: Seq<String>,
    now: PointInTime,
    r: Result<u64, TodoError>,
) -> bool {
    match r {
        Ok(id) => {
            &&& rejection(priority, tags) is None
            &&& id == before.next_id
            &&& after.next_id == id + 1
            &&& after.tasks@.len() == before.tasks@.len() + 1
            &&& after.tasks@.drop_last() == before.tasks@
            &&& is_added_task(after.tasks@.last(), id, description, priority, due, tags, now)
        },
        Err(e) => {
            &&& after.tasks@ == before.tasks@
            &&& after.next_id == before.next_id
            &&& rejection(priority, tags) matches Some(x) ==> e == x
            &&& rejection(priority, tags) is None ==> due is Some && is_unparsable(
                e,
                normalized(due->0@),
            )
        },
    }
}

/// A task that a command adds keeps the rules of its fields.
pub proof fn lemma_added_task_is_well_formed(
    task: Task,
    id: u64,
    description: String,
    priority: Option<u8>,
    due: Option<String>,
    tags: Seq<String>,
    now: PointInTime,
)
    requires
        rejection(priority, tags) is None,
        is_added_task(task, id, description, priority, due, tags, now),
    ensures
        task.well_formed(),
{
}

/// Adds a task at the moment `now` and returns its identifier.
pub fn add_task_at(
    storage: &mut TaskStorage,
    description: String,
    priority: Option<u8>,
    due: Option<String>,
    tags: Vec<String>,
    now: &PointInTime,
) -> (r: Result<u64, TodoError>)
    requires
        old(storage).next_id < u64::MAX,
        now.well_formed(),
    ensures
        adds_task(*old(storage), *final(storage), description, priority, due, tags@, *now, r),
        old(storage).well_formed() ==> final(storage).well_formed(),
{
    match validate(priority, &tags) {
        Err(e) => {
            return Err(e);
        },
        Ok(_) => {},
    }
    let due_date = match &due {
        Some(text) => match resolve_due(text.as_str(), now) {
            Ok(p) => Some(p),
            Err(e) => {
                return Err(e);
            },
        },
        None => None,
    };
    let mut task = Task::new_at(0, description, *now);
    task.priority = priority;
    task.tags = trim_all(&tags);
    task.due_date = due_date;
    let ghost before = storage.tasks@;
    let id = storage.add_task(task);
    assert(storage.tasks@.drop_last() =~= before);
    Ok(id)
}

/// Adds a task now and returns its identifier: `add_task_at` at a reading
/// of the clock.
pub fn add_task(
    storage: &mut TaskStorage,
    description: String,
    priority: Option<u8>,
    due: Option<String>,
    tags: Vec<String>,
) -> (r: Result<u64, TodoError>)
    requires
        old(storage).next_id < u64::MAX,
    ensures
        exists|now: PointInTime|
            now.well_formed() && #[trigger] adds_task(
                *old(storage),
                *final(storage),
                description,
                priority,
                due,
                tags@,
                now,
                r,
            ),
        old(storage).well_formed() ==> final(storage).well_formed(),
{
    let now = local_now();
    add_task_at(storage, description, priority, due, tags, &now)
}

/// `task` as it is once completed at `now`.
pub open spec fn completed_task(task: Task, now: PointInTime) -> Task {
    Task { completed: true, completed_at: Some(now), ..task }
}

/// Whether completing the task `id` at the moment `now` may take the tasks
/// from `before` to `after` with the result `r`: the result tells whether
/// anything changed, for a task that is completed already stays as it is;
/// an identifier that no task has is refused.
pub open spec fn completes_task(
    before: Seq<Task>,
    after: Seq<Task>,
    id: u64,
    now: PointInTime,
    r: Result<bool, TodoError>,
) -> bool {
    match r {
        Ok(changed) => {
            &&& position_of(before, id) matches Some(i)
            &&& changed == !before[i].completed
            &&& after == (if changed {
                before.update(i, completed_task(before[i], now))
            } else {
                before
            })
        },
        Err(e) => {
            &&& position_of(before, id) is None
            &&& e == TodoError::TaskNotFound(id)
            &&& after == before
        },
    }
}

/// Completing a task keeps the rules of its fields and the identifiers of
/// all tasks.
pub proof fn lemma_completing_keeps_well_formed(
    before: TaskStorage,
    after: TaskStorage,
    id: u64,
    now: PointInTime,
    r: Result<bool, TodoError>,
)
    requires
        completes_task(before.tasks@, after.tasks@, id, now, r),
        after.next_id == before.next_id,
    ensures
        before.well_formed() ==> after.well_formed(),
        r is Ok ==> (before.tasks@[position_of(before.tasks@, id)->0].well_formed()
            ==> after.tasks@[position_of(before.tasks@, id)->0].well_formed()),
{
    lemma_position_of(before.tasks@, id);
    if before.well_formed() {
        assert forall|i: int| 0 <= i < after.tasks@.len() implies (#[trigger] after.tasks@[i]).id
            == before.tasks@[i].id by {}
    }
}

/// Completes the task `id` at the moment `now`.
pub fn complete_task_at(storage: &mut TaskStorage, id: u64, now: &PointInTime) -> (r: Result<
    bool,
    TodoError,
>)
    ensures
        final(storage).next_id == old(storage).next_id,
        completes_task(old(storage).tasks@, final(storage).tasks@, id, *now, r),
{
    let i = match storage.position(id) {
        Some(i) => i,
        None => {
            return Err(TodoError::TaskNotFound(id));
        },
    };
    if storage.tasks[i].completed {
        return Ok(false);
    }
    let ghost before = storage.tasks@;
    let mut task = storage.tasks.remove(i);
    task.complete_at(*now);
    storage.tasks.insert(i, task);
    assert(storage.tasks@ =~= before.update(i as int, completed_task(before[i as int], *now)));
    Ok(true)
}

/// Completes the task `id` now: `complete_task_at` at a reading of the
/// clock.
pub fn complete_task(storage: &mut TaskStorage, id: u64) -> (r: Result<bool, TodoError>)
    ensures
        final(storage).next_id == old(storage).next_id,
        exists|now: PointInTime|
            now.well_formed() && #[trigger] completes_task(
                old(storage).tasks@,
                final(storage).tasks@,
                id,
                now,
                r,
            ),
{
    let now = local_now();
    complete_task_at(storage, id, &now)
}

/// `tags` followed by those of `added` that are not among them, each once.
pub open spec fn merged_tags(tags: Seq<Seq<char>>, added: Seq<Seq<char>>) -> Seq<Seq<char>>
    decreases added.len(),
{
    if added.len() == 0 {
        tags
    } else {
        with_tag(merged_tags(tags, added.drop_last()), added.last())
    }
}

/// Whether `after` is `before` as an edit leaves it: a new description and
/// a new priority replace the old ones where they are given, a due date
/// that is given is read anew, and the new tags, trimmed, join the old
/// ones.
pub open spec fn is_edited_task(
    before: Task,
    after: Task,
    description: Option<String>,
    priority: Option<u8>,
    due: Option<String>,
    tags: Seq<String>,
) -> bool {
    &&& after.id == before.id
    &&& after.completed == before.completed
    &&& after.created_at == before.created_at
    &&& after.completed_at == before.completed_at
    &&& after.description == (match description {
        Some(d) => d,
        None => before.description,
    })
    &&& after.priority == (match priority {
        Some(p) => Some(p),
        None => before.priority,
    })
    &&& due is None ==> after.due_date == before.due_date
    &&& due is Some ==> after.due_date is Some && after.due_date->0.well_formed()
    &&& texts(after.tags@) == merged_tags(texts(before.tags@), trimmed_texts(tags))
}

/// Whether an edit of the task `id` may take the tasks from `before` to
/// `after` with the result `r`.
///
/// A priority outside 1 to 5 is refused, then a blank tag, then an
/// identifier that no task has, then a due date that cannot be read;
/// nothing changes then. Otherwise the task is edited where it stands.
pub open spec fn edits_task(
    before: Seq<Task>,
    after: Seq<Task>,
    id: u64,
    description: Option<String>,
    priority: Option<u8>,
    due: Option<String>,
    tags: Seq<String>,
    r: Result<(), TodoError>,
) -> bool {
    match r {
        Ok(_) => {
            &&& rejection(priority, tags) is None
            &&& position_of(before, id) matches Some(i)
            &&& after.len() == before.len()
            &&& is_edited_task(before[i], after[i], description, priority, due, tags)
            &&& forall|k: int| 0 <= k < before.len() && k != i ==> after[k] == before[k]
        },
        Err(e) => {
            &&& after == before
            &&& rejection(priority, tags) matches Some(x) ==> e == x
            &&& rejection(priority, tags) is None && position_of(before, id) is None ==> e
                == TodoError::TaskNotFound(id)
            &&& rejection(priority, tags) is None && position_of(before, id) is Some ==> due
                is Some && is_unparsable(e, normalized(due->0@))
        },
    }
}

/// An edit keeps the rules of a task's fields and the identifiers of all
/// tasks.
pub proof fn lemma_editing_keeps_well_formed(
    before: TaskStorage,
    after: TaskStorage,
    id: u64,
    description: Option<String>,
    priority: Option<u8>,
    due: Option<String>,
    tags: Seq<String>,
    r: Result<(), TodoError>,
)
    requires
        edits_task(before.tasks@, after.tasks@, id, description, priority, due, tags, r),
        after.next_id == before.next_id,
    ensures
        before.well_formed() ==> after.well_formed(),
        r is Ok ==> (before.tasks@[position_of(before.tasks@, id)->0].well_formed()
            ==> after.tasks@[position_of(before.tasks@, id)->0].well_formed()),
{
    lemma_position_of(before.tasks@, id);
    if before.well_formed() && r is Ok {
        assert forall|i: int| 0 <= i < after.tasks@.len() implies (#[trigger] after.tasks@[i]).id
            == before.tasks@[i].id by {}
    }
}

/// Edits the task `id` at the moment `now`.
pub fn edit_task_at(
    storage: &mut TaskStorage,
    id: u64,
    description: Option<String>,
    priority: Option<u8>,
    due: Option<String>,
    tags: Vec<String>,
    now: &PointInTime,
) -> (r: Result<(), TodoError>)
    requires
        now.well_formed(),
    ensures
        final(storage).next_id == old(storage).next_id,
        edits_task(
            old(storage).tasks@,
            final(storage).tasks@,
            id,
            description,
            priority,
            due,
            tags@,
            r,
        ),
{
    match validate(priority, &tags) {
        Err(e) => {
            return Err(e);
        },
        Ok(_) => {},
    }
    let i = match storage.position(id) {
        Some(i) => i,
        None => {
            return Err(TodoError::TaskNotFound(id));
        },
    };
    let due_date = match &due {
        Some(text) => match resolve_due(text.as_str(), now) {
            Ok(p) => Some(p),
            Err(e) => {
                return Err(e);
            },
        },
        None => None,
    };
    let ghost before = storage.tasks@;
    let mut task = storage.tasks.remove(i);
    if let Some(d) = description {
        task.description = d;
    }
    if let Some(p) = priority {
        task.priority = Some(p);
    }
    if let Some(p) = due_date {
        task.due_date = Some(p);
    }
    let ghost old_tags = texts(task.tags@);
    let ghost added = trimmed_texts(tags@);
    let mut k: usize = 0;
    assert(added.take(0) =~= Seq::<Seq<char>>::empty());
    while k < tags.len()
        invariant
            k <= tags.len(),
            added == trimmed_texts(tags@),
            texts(task.tags@) == merged_tags(old_tags, added.take(k as int)),
            task.id == before[i as int].id,
            task.completed == before[i as int].completed,
            task.created_at == before[i as int].created_at,
            task.completed_at == before[i as int].completed_at,
            task.description == (match description {
                Some(d) => d,
                None => before[i as int].description,
            }),
            task.priority == (match priority {
                Some(p) => Some(p),
                None => before[i as int].priority,
            }),
            task.due_date == (match due_date {
                Some(p) => Some(p),
                None => before[i as int].due_date,
            }),
        decreases tags.len() - k,
    {
        proof {
            assert(added.take(k + 1).drop_last() =~= added.take(k as int));
        }
        add_tag(&mut task.tags, trim(tags[k].as_str()));
        k += 1;
    }
    assert(added.take(tags.len() as int) =~= added);
    storage.tasks.insert(i, task);
    assert(storage.tasks@ =~= before.update(i as int, task));
    Ok(())
}

/// Edits the task `id` now: `edit_task_at` at a reading of the clock.
pub fn edit_task(
    storage: &mut TaskStorage,
    id: u64,
    description: Option<String>,
    priority: Option<u8>,
    due: Option<String>,
    tags: Vec<String>,
) -> (r: Result<(), TodoError>)
    ensures
        final(storage).next_id == old(storage).next_id,
        edits_task(
            old(storage).tasks@,
            final(storage).tasks@,
            id,
            description,
            priority,
            due,
            tags@,
            r,
        ),
{
    let now = local_now();
    edit_task_at(storage, id, description, priority, due, tags, &now)
}

} // verus!
