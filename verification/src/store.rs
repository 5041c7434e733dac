//! The task store: a keyed collection of task records with verified
//! lifecycle rules, a monotonic id allocator, and a log of the
//! notifications each committed transition emits.

use vstd::prelude::*;

use crate::keyed::{
    ascending_keys, lemma_ascending_implies_distinct, lemma_map_of_contains, lemma_map_of_index,
    lemma_map_of_push, lemma_map_of_remove, lemma_map_of_update, map_of,
};
use crate::task::{clamp_priority, clamped_priority, Error, Task, DESCRIPTION_MAX, TITLE_MAX};

verus! {

/// Notification payload for a committed creation.
#[derive(Debug, PartialEq, Eq)]
pub struct TaskCreated {
    pub task_id: u32,
    pub title: String,
    pub priority: u8,
}

/// Notification payload for a committed completion.
#[derive(Debug, PartialEq, Eq)]
pub struct TaskCompleted {
    pub task_id: u32,
}

/// Notification payload for a committed deletion.
#[derive(Debug, PartialEq, Eq)]
pub struct TaskDeleted {
    pub task_id: u32,
}

/// One notification, as handed to the store's observer. The store's state
/// is fully consistent before the notification is recorded, and partial
/// updates emit none.
#[derive(Debug, PartialEq, Eq)]
pub enum Event {
    TaskCreated(TaskCreated),
    TaskCompleted(TaskCompleted),
    TaskDeleted(TaskDeleted),
}

/// The record a partial update leaves: each field that was handed in
/// replaces the stored one (the priority clamped), the rest stay.
pub open spec fn updated_task(t: Task, title: Option<String>, priority: Option<u8>) -> Task {
    Task {
        title: if title is Some {
            title->0
        } else {
            t.title
        },
        description: t.description,
        priority: if priority is Some {
            clamped_priority(priority->0)
        } else {
            t.priority
        },
        completed: t.completed,
        created_at: t.created_at,
    }
}

/// The record a completion leaves: only the flag flips.
pub open spec fn completed_task(t: Task) -> Task {
    Task {
        title: t.title,
        description: t.description,
        priority: t.priority,
        completed: true,
        created_at: t.created_at,
    }
}

/// The keyed task store. Ids are allocated by a monotonic counter that
/// starts at 1 and is never reused; entries are kept in ascending id
/// order.
pub struct TaskManager {
    tasks: Vec<(u32, Task)>,
    created: u32,
    now: u64,
    events: Vec<Event>,
}

impl View for TaskManager {
    type V = Map<u32, Task>;

    /// The store seen as a map from id to stored record.
    closed spec fn view(&self) -> Map<u32, Task> {
        map_of(self.tasks@)
    }
}

impl TaskManager {
    /// The notifications emitted so far, oldest first.
    pub closed spec fn emitted(&self) -> Seq<Event> {
        self.events@
    }

    /// How many tasks have ever been created here: a high-water mark that
    /// deletions never lower, and the last id handed out.
    pub closed spec fn created_count(&self) -> u32 {
        self.created
    }

    /// The timestamp the environment last supplied; stamped onto each
    /// record at creation.
    pub closed spec fn clock(&self) -> u64 {
        self.now
    }

    /// Every constructor establishes this and every operation preserves
    /// it: entries in ascending id order, ids drawn from `1..=created`,
    /// and each record within the store's rules.
    pub closed spec fn wf(&self) -> bool {
        &&& ascending_keys(self.tasks@)
        &&& forall|i: int|
            0 <= i < self.tasks@.len() ==> 1 <= (#[trigger] self.tasks@[i]).0 <= self.created
        &&& forall|i: int| 0 <= i < self.tasks@.len() ==> (#[trigger] self.tasks@[i]).1.wf()
    }

    /// An empty store: nothing stored, nothing emitted, no id handed out.
    pub fn new() -> (r: TaskManager)
        ensures
            r.wf(),
            r@ == Map::<u32, Task>::empty(),
            r.emitted() == Seq::<Event>::empty(),
            r.created_count() == 0,
            r.clock() == 0,
    {
        TaskManager { tasks: Vec::new(), created: 0, now: 0, events: Vec::new() }
    }

    /// Takes the timestamp the environment supplies; later creations are
    /// stamped with it. Stored records and the log are untouched.
    pub fn set_clock(&mut self, now: u64)
        ensures
            final(self)@ == old(self)@,
            final(self).emitted() == old(self).emitted(),
            final(self).created_count() == old(self).created_count(),
            final(self).clock() == now,
            old(self).wf() ==> final(self).wf(),
    {
        self.now = now;
    }

    /// The emitted notifications, oldest first, for the observer to drain.
    pub fn events(&self) -> (r: &Vec<Event>)
        ensures
            r@ == self.emitted(),
    {
        &self.events
    }

    /// The number of tasks ever created: a high-water mark, not the live
    /// count, so deletions do not lower it.
    pub fn get_total_tasks(&self) -> (r: u32)
        ensures
            r == self.created_count(),
    {
        self.created
    }

    /// Where the entry for `task_id` sits, if anywhere.
    fn index_of(&self, task_id: u32) -> (r: Option<usize>)
        ensures
            match r {
                Some(i) => i < self.tasks@.len() && self.tasks@[i as int].0 == task_id,
                None => forall|i: int|
                    0 <= i < self.tasks@.len() ==> (#[trigger] self.tasks@[i]).0 != task_id,
            },
    {
        let mut i: usize = 0;
        while i < self.tasks.len()
            invariant
                i <= self.tasks@.len(),
                forall|k: int| 0 <= k < i ==> (#[trigger] self.tasks@[k]).0 != task_id,
            decreases self.tasks@.len() - i,
        {
            if self.tasks[i].0 == task_id {
                return Some(i);
            }
            i += 1;
        }
        None
    }

    /// Stores a new task under a fresh id and logs a creation event.
    /// The requested priority is clamped, never rejected; the record is
    /// stamped with the clock; oversized text and an exhausted id space
    /// are the only refusals, and both leave the store untouched.
    pub fn create_task(&mut self, title: String, description: String, priority: u8) -> (r: Result<
        u32,
        Error,
    >)
        requires
            old(self).wf(),
        ensures
            final(self).wf(),
            final(self).clock() == old(self).clock(),
            match r {
                Ok(id) => {
                    &&& title@.len() <= TITLE_MAX
                    &&& description@.len() <= DESCRIPTION_MAX
                    &&& old(self).created_count() < u32::MAX
                    &&& id == old(self).created_count() + 1
                    &&& !old(self)@.contains_key(id)
                    &&& final(self)@ == old(self)@.insert(
                        id,
                        (Task {
                            title: title,
                            description: description,
                            priority: clamped_priority(priority),
                            completed: false,
                            created_at: old(self).clock(),
                        }),
                    )
                    &&& final(self).created_count() == id
                    &&& final(self).emitted() == old(self).emitted().push(
                        Event::TaskCreated(
                            (TaskCreated {
                                task_id: id,
                                title: title,
                                priority: clamped_priority(priority),
                            }),
                        ),
                    )
                },
                Err(Error::FieldTooLarge) => {
                    &&& title@.len() > TITLE_MAX || description@.len() > DESCRIPTION_MAX
                    &&& *final(self) == *old(self)
                },
                Err(Error::IdSpaceExhausted) => {
                    &&& title@.len() <= TITLE_MAX
                    &&& description@.len() <= DESCRIPTION_MAX
                    &&& old(self).created_count() == u32::MAX
                    &&& *final(self) == *old(self)
                },
                Err(_) => false,
            },
    {
        if title.as_str().unicode_len() > TITLE_MAX {
            return Err(Error::FieldTooLarge);
        }
        if description.as_str().unicode_len() > DESCRIPTION_MAX {
            return Err(Error::FieldTooLarge);
        }
        if self.created == u32::MAX {
            return Err(Error::IdSpaceExhausted);
        }
        let task_id = self.created + 1;
        let priority = clamp_priority(priority);
        let event_title = title.clone();
        let task = Task { title, description, priority, completed: false, created_at: self.now };
        proof {
            lemma_ascending_implies_distinct(self.tasks@);
            lemma_map_of_contains(self.tasks@, task_id);
            lemma_map_of_push(self.tasks@, task_id, task);
        }
        self.tasks.push((task_id, task));
        self.created = task_id;
        self.events.push(
            Event::TaskCreated(TaskCreated { task_id, title: event_title, priority }),
        );
        Ok(task_id)
    }

    /// Returns a copy of the record stored under `task_id`, or `NotFound`.
    /// No side effects, so repeated calls return the same record.
    pub fn get_task(&self, task_id: u32) -> (r: Result<Task, Error>)
        requires
            self.wf(),
        ensures
            match r {
                Ok(t) => self@.contains_key(task_id) && t == self@[task_id],
                Err(e) => e == Error::NotFound && !self@.contains_key(task_id),
            },
    {
        proof {
            lemma_ascending_implies_distinct(self.tasks@);
            lemma_map_of_contains(self.tasks@, task_id);
        }
        match self.index_of(task_id) {
            Some(i) => {
                proof {
                    lemma_map_of_index(self.tasks@, i as int);
                }
                let entry = &self.tasks[i];
                Ok(
                    Task {
                        title: entry.1.title.clone(),
                        description: entry.1.description.clone(),
                        priority: entry.1.priority,
                        completed: entry.1.completed,
                        created_at: entry.1.created_at,
                    },
                )
            },
            None => Err(Error::NotFound),
        }
    }

    /// Partially updates the record under `task_id`: a field handed in
    /// replaces the stored one (priority clamped, title within the size
    /// ceiling), an absent field is left untouched, and handing in
    /// neither changes nothing at all. No notification is emitted.
    pub fn update_task(
        &mut self,
        task_id: u32,
        title: Option<String>,
        priority: Option<u8>,
    ) -> (r: Result<(), Error>)
        requires
            old(self).wf(),
        ensures
            final(self).wf(),
            final(self).emitted() == old(self).emitted(),
            final(self).created_count() == old(self).created_count(),
            final(self).clock() == old(self).clock(),
            match r {
                Ok(_) => {
                    &&& old(self)@.contains_key(task_id)
                    &&& (title matches Some(t) ==> t@.len() <= TITLE_MAX)
                    &&& final(self)@ == old(self)@.insert(
                        task_id,
                        updated_task(old(self)@[task_id], title, priority),
                    )
                },
                Err(Error::NotFound) => {
                    &&& !old(self)@.contains_key(task_id)
                    &&& *final(self) == *old(self)
                },
                Err(Error::FieldTooLarge) => {
                    &&& old(self)@.contains_key(task_id)
                    &&& (title matches Some(t) && t@.len() > TITLE_MAX)
                    &&& *final(self) == *old(self)
                },
                Err(_) => false,
            },
            old(self)@.contains_key(task_id) && (title matches Some(t) ==> t@.len() <= TITLE_MAX)
                ==> r is Ok,
            r is Ok && priority is Some ==> final(self)@.contains_key(task_id)
                && final(self)@[task_id].priority == clamped_priority(priority->0),
            old(self)@.contains_key(task_id) && title is None && priority is None ==> r is Ok
                && final(self)@ == old(self)@,
    {
        proof {
            lemma_ascending_implies_distinct(self.tasks@);
            lemma_map_of_contains(self.tasks@, task_id);
        }
        match self.index_of(task_id) {
            None => Err(Error::NotFound),
            Some(i) => {
                match &title {
                    Some(t) => {
                        if t.as_str().unicode_len() > TITLE_MAX {
                            proof {
                                lemma_map_of_index(self.tasks@, i as int);
                            }
                            return Err(Error::FieldTooLarge);
                        }
                    },
                    None => {},
                }
                let ghost s0 = self.tasks@;
                proof {
                    lemma_map_of_index(s0, i as int);
                }
                let (id, old_task) = self.tasks.remove(i);
                let new_task = Task {
                    title: match title {
                        Some(t) => t,
                        None => old_task.title,
                    },
                    description: old_task.description,
                    priority: match priority {
                        Some(p) => clamp_priority(p),
                        None => old_task.priority,
                    },
                    completed: old_task.completed,
                    created_at: old_task.created_at,
                };
                self.tasks.insert(i, (id, new_task));
                proof {
                    assert(self.tasks@ =~= s0.update(i as int, (id, new_task)));
                    lemma_map_of_update(s0, i as int, new_task);
                    assert forall|a: int, b: int|
                        0 <= a < b < self.tasks@.len() implies self.tasks@[a].0
                        < self.tasks@[b].0 by {
                        assert(s0[a].0 < s0[b].0);
                    }
                    if title is None && priority is None {
                        assert(map_of(s0).insert(task_id, new_task) =~= map_of(s0));
                    }
                }
                Ok(())
            },
        }
    }

    /// Replaces the stored priority (clamped) of the record under
    /// `task_id`; everything else is left untouched, and nothing is
    /// emitted. Refused only with `NotFound`.
    pub fn update_priority(&mut self, task_id: u32, new_priority: u8) -> (r: Result<(), Error>)
        requires
            old(self).wf(),
        ensures
            final(self).wf(),
            final(self).emitted() == old(self).emitted(),
            final(self).created_count() == old(self).created_count(),
            final(self).clock() == old(self).clock(),
            match r {
                Ok(_) => {
                    &&& old(self)@.contains_key(task_id)
                    &&& final(self)@ == old(self)@.insert(
                        task_id,
                        updated_task(old(self)@[task_id], None, Some(new_priority)),
                    )
                },
                Err(Error::NotFound) => {
                    &&& !old(self)@.contains_key(task_id)
                    &&& *final(self) == *old(self)
                },
                Err(_) => false,
            },
    {
        self.update_task(task_id, None, Some(new_priority))
    }

    /// Completes the pending record under `task_id` and logs a completion
    /// event. Completion is one-way: a second call on the same id is
    /// refused with `AlreadyCompleted` rather than silently ignored.
    pub fn complete_task(&mut self, task_id: u32) -> (r: Result<(), Error>)
        requires
            old(self).wf(),
        ensures
            final(self).wf(),
            final(self).created_count() == old(self).created_count(),
            final(self).clock() == old(self).clock(),
            match r {
                Ok(_) => {
                    &&& old(self)@.contains_key(task_id)
                    &&& !old(self)@[task_id].completed
                    &&& final(self)@ == old(self)@.insert(
                        task_id,
                        completed_task(old(self)@[task_id]),
                    )
                    &&& final(self).emitted() == old(self).emitted().push(
                        Event::TaskCompleted((TaskCompleted { task_id })),
                    )
                },
                Err(Error::AlreadyCompleted) => {
                    &&& old(self)@.contains_key(task_id)
                    &&& old(self)@[task_id].completed
                    &&& *final(self) == *old(self)
                },
                Err(Error::NotFound) => {
                    &&& !old(self)@.contains_key(task_id)
                    &&& *final(self) == *old(self)
                },
                Err(_) => false,
            },
    {
        proof {
            lemma_ascending_implies_distinct(self.tasks@);
            lemma_map_of_contains(self.tasks@, task_id);
        }
        match self.index_of(task_id) {
            None => Err(Error::NotFound),
            Some(i) => {
                proof {
                    lemma_map_of_index(self.tasks@, i as int);
                }
                if self.tasks[i].1.completed {
                    return Err(Error::AlreadyCompleted);
                }
                let ghost s0 = self.tasks@;
                let (id, old_task) = self.tasks.remove(i);
                let new_task = Task {
                    title: old_task.title,
                    description: old_task.description,
                    priority: old_task.priority,
                    completed: true,
                    created_at: old_task.created_at,
                };
                self.tasks.insert(i, (id, new_task));
                self.events.push(Event::TaskCompleted(TaskCompleted { task_id }));
                proof {
                    assert(self.tasks@ =~= s0.update(i as int, (id, new_task)));
                    lemma_map_of_update(s0, i as int, new_task);
                    assert forall|a: int, b: int|
                        0 <= a < b < self.tasks@.len() implies self.tasks@[a].0
                        < self.tasks@[b].0 by {
                        assert(s0[a].0 < s0[b].0);
                    }
                }
                Ok(())
            },
        }
    }

    /// Removes the record under `task_id` and logs a deletion event. The
    /// id is never handed out again. Refused only with `NotFound`.
    pub fn delete_task(&mut self, task_id: u32) -> (r: Result<(), Error>)
        requires
            old(self).wf(),
        ensures
            final(self).wf(),
            final(self).created_count() == old(self).created_count(),
            final(self).clock() == old(self).clock(),
            match r {
                Ok(_) => {
                    &&& old(self)@.contains_key(task_id)
                    &&& final(self)@ == old(self)@.remove(task_id)
                    &&& final(self).emitted() == old(self).emitted().push(
                        Event::TaskDeleted((TaskDeleted { task_id })),
                    )
                },
                Err(Error::NotFound) => {
                    &&& !old(self)@.contains_key(task_id)
                    &&& *final(self) == *old(self)
                },
                Err(_) => false,
            },
    {
        proof {
            lemma_ascending_implies_distinct(self.tasks@);
            lemma_map_of_contains(self.tasks@, task_id);
        }
        match self.index_of(task_id) {
            None => Err(Error::NotFound),
            Some(i) => {
                let ghost s0 = self.tasks@;
                self.tasks.remove(i);
                self.events.push(Event::TaskDeleted(TaskDeleted { task_id }));
                proof {
                    lemma_map_of_remove(s0, i as int);
                    assert forall|a: int, b: int|
                        0 <= a < b < self.tasks@.len() implies self.tasks@[a].0
                        < self.tasks@[b].0 by {
                        if b < i as int {
                            assert(s0[a].0 < s0[b].0);
                        } else if a < i as int {
                            assert(s0[a].0 < s0[b + 1].0);
                        } else {
                            assert(s0[a + 1].0 < s0[b + 1].0);
                        }
                    }
                }
                Ok(())
            },
        }
    }

    /// Copies out all stored records, in ascending id order, keyed by id.
    pub fn list(&self) -> (r: Vec<(u32, Task)>)
        requires
            self.wf(),
        ensures
            map_of(r@) == self@,
            ascending_keys(r@),
    {
        let mut out: Vec<(u32, Task)> = Vec::new();
        let mut i: usize = 0;
        while i < self.tasks.len()
            invariant
                i <= self.tasks@.len(),
                out@.len() == i,
                forall|k: int| 0 <= k < i ==> out@[k] == self.tasks@[k],
            decreases self.tasks@.len() - i,
        {
            let entry = &self.tasks[i];
            out.push(
                (
                    entry.0,
                    Task {
                        title: entry.1.title.clone(),
                        description: entry.1.description.clone(),
                        priority: entry.1.priority,
                        completed: entry.1.completed,
                        created_at: entry.1.created_at,
                    },
                ),
            );
            i += 1;
        }
        proof {
            assert(out@ =~= self.tasks@);
        }
        out
    }
}

impl Default for TaskManager {
    /// Same as `new`: an empty store.
    fn default() -> (r: Self)
        ensures
            r.wf(),
            r@ == Map::<u32, Task>::empty(),
            r.emitted() == Seq::<Event>::empty(),
            r.created_count() == 0,
            r.clock() == 0,
    {
        TaskManager::new()
    }
}

/// Every record a well-formed store holds obeys the task rules: its
/// priority lies in `[PRIORITY_MIN, PRIORITY_MAX]` and its text fields
/// are within the size ceiling, whatever was asked at creation or update.
pub proof fn lemma_stored_tasks_wf(m: &TaskManager)
    requires
        m.wf(),
    ensures
        forall|task_id: u32| #[trigger] m@.contains_key(task_id) ==> m@[task_id].wf(),
{
    assert forall|task_id: u32| #[trigger] m@.contains_key(task_id) implies m@[task_id].wf() by {
        lemma_ascending_implies_distinct(m.tasks@);
        lemma_map_of_contains(m.tasks@, task_id);
        let i = choose|i: int| 0 <= i < m.tasks@.len() && (#[trigger] m.tasks@[i]).0 == task_id;
        lemma_map_of_index(m.tasks@, i);
    }
}

/// A fresh creation reads back exactly: in the view `create_task` leaves,
/// the new id maps to the record it stored, which is what `get_task`
/// then returns by its own contract.
pub proof fn lemma_create_then_get(m: Map<u32, Task>, task_id: u32, t: Task)
    ensures
        m.insert(task_id, t).contains_key(task_id),
        m.insert(task_id, t)[task_id] == t,
{
}

/// Completion is one-way: the view a successful `complete_task` leaves
/// holds the record completed, so by `complete_task`'s contract a second
/// call on the same id can only be refused with `AlreadyCompleted`, and
/// `get_task` shows the flag set either way.
pub proof fn lemma_complete_is_one_way(m: Map<u32, Task>, task_id: u32)
    requires
        m.contains_key(task_id),
    ensures
        m.insert(task_id, completed_task(m[task_id])).contains_key(task_id),
        m.insert(task_id, completed_task(m[task_id]))[task_id].completed,
{
}

/// A deleted id is gone: the view `delete_task` leaves has no entry under
/// it, so by their contracts a later `get_task`, `delete_task` or
/// `complete_task` on that id is refused with `NotFound`.
pub proof fn lemma_deleted_id_is_gone(m: Map<u32, Task>, task_id: u32)
    ensures
        !m.remove(task_id).contains_key(task_id),
{
}

} // verus!
