use vstd::prelude::*;
use vstd::string::StringExecFns;

use crate::error::{CommandError, StoreError};
use crate::task::{
    greatest_id, has_id, lemma_max_id_bounds, max_id, models, next_id, next_id_of, well_formed,
    Task, TaskModel,
};
use crate::text::{decimal, decimal_string, is_blank, trimmed, views};

verus! {

/// `s` with a new open task for `text` at its end, under the next identifier.
pub open spec fn appended(s: Seq<TaskModel>, text: Seq<char>) -> Seq<TaskModel> {
    s.push(TaskModel { id: next_id_of(s) as usize, description: text, done: false })
}

/// `s` with every task that carries `id` marked finished.
pub open spec fn marked_done(s: Seq<TaskModel>, id: usize) -> Seq<TaskModel> {
    Seq::new(
        s.len(),
        |k: int|
            if s[k].id == id {
                TaskModel { id: s[k].id, description: s[k].description, done: true }
            } else {
                s[k]
            },
    )
}

/// `s` without the tasks that carry `id`, the others in their order.
pub open spec fn without(s: Seq<TaskModel>, id: usize) -> Seq<TaskModel>
    decreases s.len(),
{
    if s.len() == 0 {
        s
    } else if s.last().id == id {
        without(s.drop_last(), id)
    } else {
        without(s.drop_last(), id).push(s.last())
    }
}

/// Adding a task: refused for blank text or when no identifier is left.
pub open spec fn apply_add(s: Seq<TaskModel>, text: Seq<char>) -> Result<Seq<TaskModel>, CommandError> {
    if trimmed(text).len() == 0 {
        Err(CommandError::InvalidInput)
    } else if max_id(s) >= usize::MAX {
        Err(CommandError::IdsExhausted)
    } else {
        Ok(appended(s, text))
    }
}

/// Marking a task finished: refused when no task carries `id`.
pub open spec fn apply_done(s: Seq<TaskModel>, id: usize) -> Result<Seq<TaskModel>, CommandError> {
    if has_id(s, id) {
        Ok(marked_done(s, id))
    } else {
        Err(CommandError::NotFound(id))
    }
}

/// Removing a task: refused when no task carries `id`.
pub open spec fn apply_remove(s: Seq<TaskModel>, id: usize) -> Result<Seq<TaskModel>, CommandError> {
    if has_id(s, id) {
        Ok(without(s, id))
    } else {
        Err(CommandError::NotFound(id))
    }
}

/// Clearing: nothing is left.
pub open spec fn apply_clear(s: Seq<TaskModel>) -> Seq<TaskModel> {
    Seq::empty()
}

/// What a stored sequence of tasks becomes when read back: itself, if it
/// keeps the invariant.
pub open spec fn reloaded(s: Seq<TaskModel>) -> Option<Seq<TaskModel>> {
    if well_formed(s) {
        Some(s)
    } else {
        None
    }
}

/// The line that shows one task: `[x] 3: text` when finished, `[ ] 3: text` when open.
pub open spec fn task_line(t: TaskModel) -> Seq<char> {
    (if t.done {
        "[x] "@
    } else {
        "[ ] "@
    }) + decimal(t.id as nat) + ": "@ + t.description
}

/// The line shown for an empty collection.
pub open spec fn empty_notice() -> Seq<char> {
    "No tasks found."@
}

/// The lines that show `s`: one per task in order, or the empty notice alone.
pub open spec fn listing(s: Seq<TaskModel>) -> Seq<Seq<char>> {
    if s.len() == 0 {
        seq![empty_notice()]
    } else {
        s.map_values(|t: TaskModel| task_line(t))
    }
}

/// With no task carrying `id`, removing it changes nothing.
proof fn lemma_without_absent(s: Seq<TaskModel>, id: usize)
    requires
        !has_id(s, id),
    ensures
        without(s, id) == s,
    decreases s.len(),
{
    if s.len() > 0 {
        let rest = s.drop_last();
        assert forall|i: int| 0 <= i < rest.len() implies rest[i].id != id by {
            assert(rest[i] == s[i]);
        }
        lemma_without_absent(rest, id);
        assert(s.len() > 0 && s[s.len() - 1].id != id);
        assert(rest.push(s.last()) =~= s);
    }
}

/// No task of `without(s, id)` carries `id`.
pub proof fn lemma_without_drops_id(s: Seq<TaskModel>, id: usize)
    ensures
        !has_id(without(s, id), id),
    decreases s.len(),
{
    if s.len() > 0 {
        lemma_without_drops_id(s.drop_last(), id);
        let r = without(s.drop_last(), id);
        if s.last().id != id {
            assert forall|i: int| 0 <= i < r.len() + 1 implies r.push(s.last())[i].id != id by {
                if i < r.len() {
                    assert(r.push(s.last())[i] == r[i]);
                }
            }
        }
    }
}

/// With unique identifiers, removing the task at its index is `without`.
proof fn lemma_remove_at(s: Seq<TaskModel>, i: int, id: usize)
    requires
        forall|a: int, b: int| 0 <= a < s.len() && 0 <= b < s.len() && a != b ==> s[a].id != s[b].id,
        0 <= i < s.len(),
        s[i].id == id,
    ensures
        s.remove(i) == without(s, id),
    decreases s.len(),
{
    let rest = s.drop_last();
    if i == s.len() - 1 {
        assert forall|k: int| 0 <= k < rest.len() implies rest[k].id != id by {
            assert(rest[k] == s[k]);
        }
        lemma_without_absent(rest, id);
        assert(s.remove(i) =~= rest);
    } else {
        lemma_remove_at(rest, i, id);
        assert(s.last().id != id);
        assert(s.remove(i) =~= rest.remove(i).push(s.last()));
    }
}

/// The collection of tasks, in the order in which they were added.
pub struct TaskList {
    tasks: Vec<Task>,
}

impl View for TaskList {
    type V = Seq<TaskModel>;

    closed spec fn view(&self) -> Seq<TaskModel> {
        models(self.tasks@)
    }
}

impl TaskList {
    /// The invariant: identifiers are positive and unique.
    pub open spec fn wf(&self) -> bool {
        well_formed(self@)
    }

    /// An empty collection.
    pub fn new() -> (r: TaskList)
        ensures
            r@ == Seq::<TaskModel>::empty(),
            r.wf(),
    {
        let r = TaskList { tasks: Vec::new() };
        assert(r@ =~= Seq::<TaskModel>::empty());
        r
    }

    /// Takes a stored sequence of tasks as a collection, provided that its
    /// identifiers are positive and unique.
    pub fn from_tasks(tasks: Vec<Task>) -> (r: Result<TaskList, StoreError>)
        ensures
            r is Ok <==> well_formed(models(tasks@)),
            r matches Ok(l) ==> Some(l@) == reloaded(models(tasks@)) && l.wf(),
            r matches Err(StoreError::ZeroId) ==> exists|i: int|
                0 <= i < tasks@.len() && tasks@[i].id == 0,
            r matches Err(StoreError::DuplicateId(id)) ==> exists|i: int, j: int|
                0 <= i < j < tasks@.len() && tasks@[i].id == id && tasks@[j].id == id,
    {
        let mut i: usize = 0;
        while i < tasks.len()
            invariant
                i <= tasks@.len(),
                well_formed(models(tasks@.subrange(0, i as int))),
            decreases tasks@.len() - i,
        {
            let id = tasks[i].id;
            if id == 0 {
                assert(models(tasks@)[i as int].id == 0);
                return Err(StoreError::ZeroId);
            }
            let mut j: usize = 0;
            while j < i
                invariant
                    i < tasks@.len(),
                    j <= i,
                    id == tasks@[i as int].id,
                    forall|k: int| 0 <= k < j ==> tasks@[k].id != id,
                decreases i - j,
            {
                if tasks[j].id == id {
                    assert(models(tasks@)[j as int].id == models(tasks@)[i as int].id);
                    return Err(StoreError::DuplicateId(id));
                }
                j = j + 1;
            }
            proof {
                let prev = models(tasks@.subrange(0, i as int));
                let next = models(tasks@.subrange(0, i as int + 1));
                assert forall|k: int| 0 <= k < i implies next[k] == prev[k] && prev[k] == tasks@[k]@ by {}
                assert(next[i as int] == tasks@[i as int]@);
            }
            i = i + 1;
        }
        assert(tasks@.subrange(0, i as int) =~= tasks@);
        Ok(TaskList { tasks })
    }

    /// The tasks in order, as they are stored.
    pub fn tasks(&self) -> (r: &[Task])
        ensures
            models(r@) == self@,
    {
        self.tasks.as_slice()
    }

    /// How many tasks there are.
    pub fn len(&self) -> (r: usize)
        ensures
            r == self@.len(),
    {
        self.tasks.len()
    }

    /// Whether there are no tasks.
    pub fn is_empty(&self) -> (r: bool)
        ensures
            r == (self@.len() == 0),
    {
        self.tasks.len() == 0
    }

    /// The index of the task that carries `id`, if one does.
    pub fn position(&self, id: usize) -> (r: Option<usize>)
        ensures
            r matches Some(i) ==> i < self@.len() && self@[i as int].id == id,
            r is None <==> !has_id(self@, id),
    {
        let mut i: usize = 0;
        while i < self.tasks.len()
            invariant
                i <= self@.len(),
                self@.len() == self.tasks@.len(),
                forall|k: int| 0 <= k < i ==> self@[k].id != id,
            decreases self@.len() - i,
        {
            if self.tasks[i].id == id {
                assert(self@[i as int].id == id);
                return Some(i);
            }
            i = i + 1;
        }
        None
    }

    /// Appends an open task for `description` under the next identifier and
    /// returns that identifier; refused when no identifier is left.
    pub fn push(&mut self, description: String) -> (r: Result<usize, CommandError>)
        requires
            old(self).wf(),
        ensures
            final(self).wf(),
            max_id(old(self)@) < usize::MAX ==> r == Ok::<usize, CommandError>(
                next_id_of(old(self)@) as usize,
            ) && final(self)@ == appended(old(self)@, description@),
            max_id(old(self)@) >= usize::MAX ==> r == Err::<usize, CommandError>(
                CommandError::IdsExhausted,
            ) && final(self)@ == old(self)@,
    {
        if greatest_id(self.tasks.as_slice()) == usize::MAX {
            return Err(CommandError::IdsExhausted);
        }
        let id = next_id(self.tasks.as_slice());
        proof {
            lemma_max_id_bounds(self@);
        }
        self.tasks.push(Task { id, description, done: false });
        assert(self@ =~= appended(old(self)@, description@));
        Ok(id)
    }

    /// Adds an open task for `description` and returns its identifier;
    /// refused for a description of nothing but whitespace, and when no
    /// identifier is left.
    pub fn add(&mut self, description: String) -> (r: Result<usize, CommandError>)
        requires
            old(self).wf(),
        ensures
            final(self).wf(),
            match apply_add(old(self)@, description@) {
                Ok(t) => r == Ok::<usize, CommandError>(next_id_of(old(self)@) as usize)
                    && final(self)@ == t,
                Err(e) => r == Err::<usize, CommandError>(e) && final(self)@ == old(self)@,
            },
    {
        if is_blank(description.as_str()) {
            return Err(CommandError::InvalidInput);
        }
        self.push(description)
    }

    /// Marks the task that carries `id` finished; refused when none does.
    pub fn mark_done(&mut self, id: usize) -> (r: Result<(), CommandError>)
        requires
            old(self).wf(),
        ensures
            final(self).wf(),
            match apply_done(old(self)@, id) {
                Ok(t) => r is Ok && final(self)@ == t,
                Err(e) => r == Err::<(), CommandError>(e) && final(self)@ == old(self)@,
            },
    {
        match self.position(id) {
            None => Err(CommandError::NotFound(id)),
            Some(i) => {
                let mut t = self.tasks.remove(i);
                t.done = true;
                self.tasks.insert(i, t);
                assert(self@ =~= marked_done(old(self)@, id));
                Ok(())
            },
        }
    }

    /// Removes the task that carries `id`, the others keeping their
    /// identifiers and order; refused when none does.
    pub fn remove(&mut self, id: usize) -> (r: Result<(), CommandError>)
        requires
            old(self).wf(),
        ensures
            final(self).wf(),
            match apply_remove(old(self)@, id) {
                Ok(t) => r is Ok && final(self)@ == t,
                Err(e) => r == Err::<(), CommandError>(e) && final(self)@ == old(self)@,
            },
    {
        match self.position(id) {
            None => Err(CommandError::NotFound(id)),
            Some(i) => {
                self.tasks.remove(i);
                proof {
                    lemma_remove_at(old(self)@, i as int, id);
                    assert(self@ =~= old(self)@.remove(i as int));
                }
                Ok(())
            },
        }
    }

    /// Removes every task.
    pub fn clear(&mut self)
        requires
            old(self).wf(),
        ensures
            final(self).wf(),
            final(self)@ == apply_clear(old(self)@),
    {
        self.tasks.clear();
        assert(self@ =~= apply_clear(old(self)@));
    }

    /// The lines that show the collection.
    pub fn listing(&self) -> (r: Vec<String>)
        ensures
            views(r@) == listing(self@),
    {
        let mut r: Vec<String> = Vec::new();
        if self.tasks.len() == 0 {
            r.push(String::from_str("No tasks found."));
            assert(views(r@) =~= listing(self@));
            return r;
        }
        let mut i: usize = 0;
        while i < self.tasks.len()
            invariant
                i <= self.tasks@.len(),
                views(r@) =~= self@.subrange(0, i as int).map_values(|t: TaskModel| task_line(t)),
            decreases self.tasks@.len() - i,
        {
            let ghost before = r@;
            let l = line(&self.tasks[i]);
            assert(self.tasks@[i as int]@ == self@[i as int]);
            r.push(l);
            assert(r@ == before.push(l));
            assert(views(r@) =~= views(before).push(l@));
            assert(views(r@) =~= self@.subrange(0, i as int + 1).map_values(
                |t: TaskModel| task_line(t),
            ));
            i = i + 1;
        }
        assert(self@.subrange(0, i as int) =~= self@);
        r
    }
}

/// The line that shows one task.
fn line(t: &Task) -> (r: String)
    ensures
        r@ == task_line(t@),
{
    let mark = if t.done {
        String::from_str("[x] ")
    } else {
        String::from_str("[ ] ")
    };
    mark.concat(decimal_string(t.id).as_str()).concat(": ").concat(t.description.as_str())
}

} // verus!
