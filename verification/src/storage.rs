//! The collection of tasks and the counter from which identifiers come.

use crate::error::TodoError;
use crate::filter::{filter_tasks, passing, referents};
use crate::task::Task;
use vstd::prelude::*;

verus! {

/// All tasks, in the order in which they were added, and the identifier
/// that the next task will get.
#[derive(Debug)]
pub struct TaskStorage {
    /// The tasks.
    pub tasks: Vec<Task>,
    /// The identifier of the next task.
    pub next_id: u64,
}

/// The position of the first task with the identifier `id` at or after
/// `from`.
pub open spec fn first_with_id(tasks: Seq<Task>, id: u64, from: int) -> Option<int>
    decreases tasks.len() - from,
{
    if from < 0 || from >= tasks.len() {
        None
    } else if tasks[from].id == id {
        Some(from)
    } else {
        first_with_id(tasks, id, from + 1)
    }
}

/// The position of the first task with the identifier `id`.
pub open spec fn position_of(tasks: Seq<Task>, id: u64) -> Option<int> {
    first_with_id(tasks, id, 0)
}

/// The position found lies within the tasks and holds a task with the
/// identifier, and no earlier position does; where none is found, no task
/// has the identifier.
pub proof fn lemma_first_with_id(tasks: Seq<Task>, id: u64, from: int)
    requires
        0 <= from,
    ensures
        match first_with_id(tasks, id, from) {
            Some(i) => from <= i < tasks.len() && tasks[i].id == id && forall|k: int|
                from <= k < i ==> (#[trigger] tasks[k]).id != id,
            None => forall|k: int| from <= k < tasks.len() ==> (#[trigger] tasks[k]).id != id,
        },
    decreases tasks.len() - from,
{
    if from < tasks.len() && tasks[from].id != id {
        lemma_first_with_id(tasks, id, from + 1);
    }
}

/// A position that a lookup gives lies within the tasks.
pub proof fn lemma_position_of(tasks: Seq<Task>, id: u64)
    ensures
        position_of(tasks, id) matches Some(i) ==> 0 <= i < tasks.len() && tasks[i].id == id,
{
    lemma_first_with_id(tasks, id, 0);
}

/// `task` under the identifier `id`.
pub open spec fn with_id(task: Task, id: u64) -> Task {
    Task { id, ..task }
}

impl Default for TaskStorage {
    /// No tasks; the first identifier is 1.
    fn default() -> (r: Self)
        ensures
            r.tasks@.len() == 0,
            r.next_id == 1,
    {
        TaskStorage { tasks: Vec::new(), next_id: 1 }
    }
}

impl TaskStorage {
    /// Identifiers are positive, each task has its own, and all lie below
    /// the next one to be given.
    pub open spec fn well_formed(self) -> bool {
        &&& self.next_id >= 1
        &&& forall|i: int| 0 <= i < self.tasks@.len() ==> 1 <= (#[trigger] self.tasks@[i]).id
            < self.next_id
        &&& forall|i: int, j: int|
            0 <= i < j < self.tasks@.len() ==> (#[trigger] self.tasks@[i]).id
                != (#[trigger] self.tasks@[j]).id
    }

    /// The position of the first task with the identifier `id`.
    pub fn position(&self, id: u64) -> (r: Option<usize>)
        ensures
            match r {
                Some(i) => position_of(self.tasks@, id) == Some(i as int) && i < self.tasks@.len()
                    && self.tasks@[i as int].id == id,
                None => position_of(self.tasks@, id) is None && forall|k: int|
                    0 <= k < self.tasks@.len() ==> (#[trigger] self.tasks@[k]).id != id,
            },
    {
        let mut i: usize = 0;
        while i < self.tasks.len()
            invariant
                i <= self.tasks.len(),
                position_of(self.tasks@, id) == first_with_id(self.tasks@, id, i as int),
                forall|k: int| 0 <= k < i ==> (#[trigger] self.tasks@[k]).id != id,
            decreases self.tasks.len() - i,
        {
            if self.tasks[i].id == id {
                return Some(i);
            }
            i += 1;
        }
        None
    }

    /// Adds `task` at the end under the next identifier, which is returned.
    pub fn add_task(&mut self, task: Task) -> (id: u64)
        requires
            old(self).next_id < u64::MAX,
        ensures
            id == old(self).next_id,
            final(self).next_id == old(self).next_id + 1,
            final(self).tasks@ == old(self).tasks@.push(with_id(task, id)),
            old(self).well_formed() ==> final(self).well_formed(),
    {
        let mut task = task;
        let id = self.next_id;
        task.id = id;
        self.next_id = id + 1;
        self.tasks.push(task);
        id
    }

    /// The first task with the identifier `id`.
    pub fn get_task(&self, id: u64) -> (r: Option<&Task>)
        ensures
            match r {
                Some(task) => position_of(self.tasks@, id) matches Some(i) && *task
                    == self.tasks@[i],
                None => position_of(self.tasks@, id) is None,
            },
    {
        match self.position(id) {
            Some(i) => Some(&self.tasks[i]),
            None => None,
        }
    }

    /// The first task with the identifier `id`, to be changed in place.
    pub fn get_task_mut(&mut self, id: u64) -> (r: Option<&mut Task>)
        ensures
            match r {
                Some(task) => position_of(old(self).tasks@, id) matches Some(i) && *task == old(
                    self,
                ).tasks@[i] && final(self).tasks@ == old(self).tasks@.update(i, *final(task))
                    && final(self).next_id == old(self).next_id,
                None => position_of(old(self).tasks@, id) is None && *final(self) == *old(self),
            },
    {
        match self.position(id) {
            Some(i) => Some(&mut self.tasks[i]),
            None => None,
        }
    }

    /// Removes the first task with the identifier `id`.
    pub fn delete_task(&mut self, id: u64) -> (r: Result<(), TodoError>)
        ensures
            final(self).next_id == old(self).next_id,
            match r {
                Ok(_) => position_of(old(self).tasks@, id) matches Some(i) && final(self).tasks@
                    == old(self).tasks@.remove(i),
                Err(e) => position_of(old(self).tasks@, id) is None && e == TodoError::TaskNotFound(
                    id,
                ) && final(self).tasks@ == old(self).tasks@,
            },
            old(self).well_formed() ==> final(self).well_formed(),
    {
        match self.position(id) {
            Some(i) => {
                self.tasks.remove(i);
                Ok(())
            },
            None => Err(TodoError::TaskNotFound(id)),
        }
    }

    /// The tasks that pass the filter, in the order in which they were
    /// added.
    pub fn get_filtered_tasks(
        &self,
        include_tag: Option<&str>,
        exclude_tag: Option<&str>,
        show_completed: bool,
    ) -> (r: Vec<&Task>)
        ensures
            referents(r@) == self.tasks@.filter(passing(include_tag, exclude_tag, show_completed)),
    {
        filter_tasks(self.tasks.as_slice(), include_tag, exclude_tag, show_completed)
    }
}

} // verus!
