use vstd::prelude::*;

use crate::error::CommandError;
use crate::list::{
    appended, apply_add, apply_clear, apply_done, apply_remove, empty_notice, lemma_without_drops_id,
    listing, marked_done, reloaded, without,
};
use crate::task::{
    has_id, lemma_max_id_attained, lemma_max_id_bounds, max_id, next_id_of, well_formed,
    TaskModel,
};

verus! {

/// A change that bears on identifiers.
pub enum Edit {
    /// Add a task with this description.
    Add(Seq<char>),
    /// Remove the task with this identifier.
    Remove(usize),
}

/// The collection after applying `edits` to `s` in order; a refused edit
/// changes nothing.
pub open spec fn run(s: Seq<TaskModel>, edits: Seq<Edit>) -> Seq<TaskModel>
    decreases edits.len(),
{
    if edits.len() == 0 {
        s
    } else {
        let p = run(s, edits.drop_last());
        match edits.last() {
            Edit::Add(text) => match apply_add(p, text) {
                Ok(t) => t,
                Err(_) => p,
            },
            Edit::Remove(id) => match apply_remove(p, id) {
                Ok(t) => t,
                Err(_) => p,
            },
        }
    }
}

/// The identifiers that the successful additions among `edits` received, in order.
pub open spec fn assigned(s: Seq<TaskModel>, edits: Seq<Edit>) -> Seq<nat>
    decreases edits.len(),
{
    if edits.len() == 0 {
        Seq::empty()
    } else {
        let p = run(s, edits.drop_last());
        let a = assigned(s, edits.drop_last());
        match edits.last() {
            Edit::Add(text) => if apply_add(p, text) is Ok {
                a.push(next_id_of(p))
            } else {
                a
            },
            Edit::Remove(_) => a,
        }
    }
}

/// No removal among `edits` targets the greatest identifier in use at its turn.
pub open spec fn keeps_greatest(s: Seq<TaskModel>, edits: Seq<Edit>) -> bool {
    forall|k: int|
        0 <= k < edits.len() ==> (#[trigger] edits[k] matches Edit::Remove(id) ==> id != max_id(
            run(s, edits.take(k)),
        ))
}

/// A task that survives a removal is still there afterwards.
proof fn lemma_without_keeps(s: Seq<TaskModel>, id: usize, k: int)
    requires
        0 <= k < s.len(),
        s[k].id != id,
    ensures
        has_id(without(s, id), s[k].id),
    decreases s.len(),
{
    let rest = s.drop_last();
    let r = without(rest, id);
    if k == s.len() - 1 {
        assert(without(s, id)[r.len() as int] == s[k]);
    } else {
        assert(rest[k] == s[k]);
        lemma_without_keeps(rest, id, k);
        if s.last().id != id {
            let w = choose|w: int| 0 <= w < r.len() && r[w].id == s[k].id;
            assert(without(s, id)[w] == r[w]);
        }
    }
}

/// Removing any task but one with the greatest identifier keeps that greatest identifier.
proof fn lemma_remove_keeps_greatest(p: Seq<TaskModel>, id: usize)
    requires
        id != max_id(p),
    ensures
        max_id(without(p, id)) >= max_id(p),
{
    lemma_max_id_attained(p);
    if max_id(p) > 0 {
        let k = choose|k: int| 0 <= k < p.len() && p[k].id as nat == max_id(p);
        lemma_without_keeps(p, id, k);
        let w = without(p, id);
        let j = choose|j: int| 0 <= j < w.len() && w[j].id == p[k].id;
        lemma_max_id_bounds(w);
    }
}

/// Identifiers are handed out in increasing order: along any run of
/// additions and removals in which no removal takes the task with the
/// greatest identifier, each identifier that an addition receives exceeds
/// every identifier of the starting collection and every one handed out
/// before it, so no two are alike.
pub proof fn lemma_ids_increase(s: Seq<TaskModel>, edits: Seq<Edit>)
    requires
        keeps_greatest(s, edits),
    ensures
        forall|i: int, j: int|
            0 <= i < j < assigned(s, edits).len() ==> assigned(s, edits)[i] < assigned(s, edits)[j],
        forall|i: int| 0 <= i < assigned(s, edits).len() ==> assigned(s, edits)[i] > max_id(s),
        forall|i: int|
            0 <= i < assigned(s, edits).len() ==> assigned(s, edits)[i] <= max_id(run(s, edits)),
        max_id(run(s, edits)) >= max_id(s),
    decreases edits.len(),
{
    if edits.len() > 0 {
        let prev = edits.drop_last();
        assert forall|k: int| 0 <= k < prev.len() implies (#[trigger] prev[k] matches Edit::Remove(
            id,
        ) ==> id != max_id(run(s, prev.take(k)))) by {
            assert(prev.take(k) =~= edits.take(k));
            assert(prev[k] == edits[k]);
        }
        lemma_ids_increase(s, prev);
        let p = run(s, prev);
        let a = assigned(s, prev);
        let last = edits.last();
        assert(edits.take(edits.len() - 1) =~= prev);
        assert(edits[edits.len() - 1] == last);
        match last {
            Edit::Add(text) => {
                if apply_add(p, text) is Ok {
                    let t = appended(p, text);
                    assert(t.drop_last() =~= p);
                    assert(max_id(t) == max_id(p) + 1);
                    let b = assigned(s, edits);
                    assert(b == a.push(next_id_of(p)));
                    assert forall|i: int| 0 <= i < b.len() implies b[i] <= max_id(run(s, edits)) by {
                        if i < a.len() {
                            assert(b[i] == a[i]);
                        }
                    }
                    assert forall|i: int, j: int| 0 <= i < j < b.len() implies b[i] < b[j] by {
                        if j < a.len() {
                            assert(b[i] == a[i] && b[j] == a[j]);
                        } else {
                            assert(b[i] == a[i]);
                        }
                    }
                    assert forall|i: int| 0 <= i < b.len() implies b[i] > max_id(s) by {
                        if i < a.len() {
                            assert(b[i] == a[i]);
                        }
                    }
                }
            },
            Edit::Remove(id) => {
                if apply_remove(p, id) is Ok {
                    lemma_remove_keeps_greatest(p, id);
                }
            },
        }
    }
}

/// Marking a finished task finished again succeeds and changes nothing.
pub proof fn lemma_done_again(s: Seq<TaskModel>, id: usize)
    requires
        well_formed(s),
        exists|i: int| 0 <= i < s.len() && s[i].id == id && s[i].done,
    ensures
        apply_done(s, id) == Ok::<Seq<TaskModel>, CommandError>(s),
{
    let i = choose|i: int| 0 <= i < s.len() && s[i].id == id && s[i].done;
    assert forall|k: int| 0 <= k < s.len() implies marked_done(s, id)[k] == s[k] by {
        if s[k].id == id {
            assert(k == i);
        }
    }
    assert(marked_done(s, id) =~= s);
}

/// Once a task is removed, marking its identifier finished fails with
/// `NotFound`; so it does when no task carried the identifier to begin with.
pub proof fn lemma_done_after_remove(s: Seq<TaskModel>, id: usize)
    ensures
        match apply_remove(s, id) {
            Ok(t) => apply_done(t, id) == Err::<Seq<TaskModel>, CommandError>(
                CommandError::NotFound(id),
            ),
            Err(_) => apply_done(s, id) == Err::<Seq<TaskModel>, CommandError>(
                CommandError::NotFound(id),
            ),
        },
{
    lemma_without_drops_id(s, id);
}

/// After clearing, whatever was there, the listing is the empty notice alone.
pub proof fn lemma_clear_lists_nothing(s: Seq<TaskModel>)
    ensures
        listing(apply_clear(s)) == seq![empty_notice()],
{
}

/// A collection that keeps the invariant is read back as itself, with
/// its tasks in the same order.
pub proof fn lemma_reload_round_trip(s: Seq<TaskModel>)
    requires
        well_formed(s),
    ensures
        reloaded(s) == Some(s),
{
}

} // verus!
