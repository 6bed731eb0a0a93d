use vstd::prelude::*;

verus! {

/// One entry of the list: a positive identifier, its text, and whether it is finished.
pub struct Task {
    pub id: usize,
    pub description: String,
    pub done: bool,
}

/// What a task stands for in contracts.
pub struct TaskModel {
    pub id: usize,
    pub description: Seq<char>,
    pub done: bool,
}

impl View for Task {
    type V = TaskModel;

    open spec fn view(&self) -> TaskModel {
        TaskModel { id: self.id, description: self.description@, done: self.done }
    }
}

/// The views of a sequence of tasks.
pub open spec fn models(s: Seq<Task>) -> Seq<TaskModel> {
    s.map_values(|t: Task| t@)
}

/// Whether some task of `s` carries `id`.
pub open spec fn has_id(s: Seq<TaskModel>, id: usize) -> bool {
    exists|i: int| 0 <= i < s.len() && s[i].id == id
}

/// No two tasks of `s` share an identifier.
pub open spec fn ids_unique(s: Seq<TaskModel>) -> bool {
    forall|i: int, j: int| 0 <= i < s.len() && 0 <= j < s.len() && i != j ==> s[i].id != s[j].id
}

/// The invariant of a collection: identifiers are positive and unique.
pub open spec fn well_formed(s: Seq<TaskModel>) -> bool {
    &&& ids_unique(s)
    &&& forall|i: int| 0 <= i < s.len() ==> s[i].id > 0
}

/// The greatest identifier in `s`, or 0 when `s` is empty.
pub open spec fn max_id(s: Seq<TaskModel>) -> nat
    decreases s.len(),
{
    if s.len() == 0 {
        0
    } else {
        let rest = max_id(s.drop_last());
        if s.last().id as nat > rest { s.last().id as nat } else { rest }
    }
}

/// The identifier that the next added task receives.
pub open spec fn next_id_of(s: Seq<TaskModel>) -> nat {
    max_id(s) + 1
}

/// Every identifier of `s` is at most `max_id(s)`.
pub proof fn lemma_max_id_bounds(s: Seq<TaskModel>)
    ensures
        forall|i: int| 0 <= i < s.len() ==> s[i].id <= max_id(s),
    decreases s.len(),
{
    if s.len() > 0 {
        lemma_max_id_bounds(s.drop_last());
        assert forall|i: int| 0 <= i < s.len() implies s[i].id <= max_id(s) by {
            if i < s.len() - 1 {
                assert(s[i] == s.drop_last()[i]);
            }
        }
    }
}

/// A positive `max_id(s)` is the identifier of some task of `s`.
pub proof fn lemma_max_id_attained(s: Seq<TaskModel>)
    ensures
        max_id(s) == 0 || exists|i: int| 0 <= i < s.len() && s[i].id as nat == max_id(s),
    decreases s.len(),
{
    if s.len() > 0 {
        lemma_max_id_attained(s.drop_last());
        let rest = s.drop_last();
        if max_id(s) != s.last().id && max_id(rest) > 0 {
            let i = choose|i: int| 0 <= i < rest.len() && rest[i].id as nat == max_id(rest);
            assert(s[i] == rest[i]);
        }
    }
}

/// The greatest identifier among `tasks`, or 0 when there is none.
pub fn greatest_id(tasks: &[Task]) -> (r: usize)
    ensures
        r as nat == max_id(models(tasks@)),
{
    let mut best: usize = 0;
    let mut i: usize = 0;
    while i < tasks.len()
        invariant
            i <= tasks@.len(),
            best as nat == max_id(models(tasks@.subrange(0, i as int))),
        decreases tasks@.len() - i,
    {
        assert(models(tasks@.subrange(0, i as int + 1)).drop_last() =~= models(
            tasks@.subrange(0, i as int),
        ));
        if tasks[i].id > best {
            best = tasks[i].id;
        }
        i = i + 1;
    }
    assert(tasks@.subrange(0, i as int) =~= tasks@);
    best
}

/// The identifier for a new task: one above the greatest identifier in use,
/// or 1 for an empty collection.
pub fn next_id(tasks: &[Task]) -> (r: usize)
    requires
        max_id(models(tasks@)) < usize::MAX,
    ensures
        r as nat == next_id_of(models(tasks@)),
{
    greatest_id(tasks) + 1
}

} // verus!
