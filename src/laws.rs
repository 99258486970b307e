use vstd::prelude::*;

use crate::store::{after_toggle, created, lists, toggle_result, TaskMap};
use crate::task::TaskView;

verus! {

/// `states[i + 1]` is what `create` made of `states[i]`, returning `tasks[i]`.
pub open spec fn creation_run(states: Seq<TaskMap>, tasks: Seq<TaskView>) -> bool {
    &&& states.len() == tasks.len() + 1
    &&& forall|i: int| 0 <= i < tasks.len() ==> created(states[i], #[trigger] tasks[i], states[i + 1])
}

/// Along a run of creations, a task once created stays in the collection as
/// it was created.
proof fn lemma_created_task_stays(states: Seq<TaskMap>, tasks: Seq<TaskView>, i: int, k: int)
    requires
        creation_run(states, tasks),
        0 <= i < k <= tasks.len(),
    ensures
        states[k].contains_key(tasks[i].id),
        states[k][tasks[i].id] == tasks[i],
    decreases k - i,
{
    if k == i + 1 {
        assert(created(states[i], tasks[i], states[i + 1]));
    } else {
        lemma_created_task_stays(states, tasks, i, k - 1);
        assert(created(states[k - 1], tasks[k - 1], states[k]));
    }
}

/// Any run of `create` calls returns pairwise distinct identifiers.
pub proof fn lemma_created_ids_distinct(states: Seq<TaskMap>, tasks: Seq<TaskView>)
    requires
        creation_run(states, tasks),
    ensures
        forall|i: int, j: int| 0 <= i < j < tasks.len() ==> tasks[i].id != tasks[j].id,
{
    assert forall|i: int, j: int| 0 <= i < j < tasks.len() implies tasks[i].id != tasks[j].id by {
        lemma_created_task_stays(states, tasks, i, j);
        assert(created(states[j], tasks[j], states[j + 1]));
    }
}

/// After `n` creations on an empty collection, it holds exactly the `n`
/// created tasks: none is lost and none overwritten.
pub proof fn lemma_creations_all_kept(states: Seq<TaskMap>, tasks: Seq<TaskView>)
    requires
        creation_run(states, tasks),
        states[0] == Map::<Seq<char>, TaskView>::empty(),
    ensures
        states.last().dom().finite(),
        states.last().len() == tasks.len(),
        forall|i: int| 0 <= i < tasks.len()
            ==> #[trigger] states.last().contains_key(tasks[i].id) && states.last()[tasks[i].id] == tasks[i],
    decreases tasks.len(),
{
    let n = tasks.len() as int;
    if n > 0 {
        let s = states.drop_last();
        let t = tasks.drop_last();
        assert forall|i: int| 0 <= i < t.len() implies created(s[i], #[trigger] t[i], s[i + 1]) by {
            assert(created(states[i], tasks[i], states[i + 1]));
        }
        lemma_creations_all_kept(s, t);
        assert(created(states[n - 1], tasks[n - 1], states[n]));
        assert(s.last() == states[n - 1]);
        assert forall|i: int| 0 <= i < n
            implies #[trigger] states.last().contains_key(tasks[i].id) && states.last()[tasks[i].id] == tasks[i] by {
            lemma_created_task_stays(states, tasks, i, n);
        }
    }
}

/// A task that `create` returned is in a snapshot taken right after, with the
/// same identifier, title and completion.
pub proof fn lemma_created_then_listed(
    before: TaskMap,
    task: TaskView,
    after: TaskMap,
    snapshot: Seq<TaskView>,
)
    requires
        created(before, task, after),
        lists(after, snapshot),
    ensures
        exists|i: int| 0 <= i < snapshot.len() && snapshot[i] == task,
{
    assert(after.contains_key(task.id));
    let i = choose|i: int| 0 <= i < snapshot.len() && snapshot[i].id == task.id;
    assert(after.contains_key(snapshot[i].id));
}

/// Toggling the same identifier twice leaves the collection as it was, and
/// the second toggle hands back the task's original completion.
pub proof fn lemma_toggle_twice(m: TaskMap, id: Seq<char>)
    ensures
        after_toggle(after_toggle(m, id), id) == m,
        m.contains_key(id) ==> toggle_result(after_toggle(m, id), id) == Some(m[id]),
{
    if m.contains_key(id) {
        assert(after_toggle(after_toggle(m, id), id) =~= m);
    }
}

/// Toggling one task leaves every other task as it was, and changes neither
/// the identifier nor the title of the toggled one.
pub proof fn lemma_toggle_isolated(m: TaskMap, id: Seq<char>)
    ensures
        forall|k: Seq<char>| k != id ==> (#[trigger] after_toggle(m, id).contains_key(k) <==> m.contains_key(k)),
        forall|k: Seq<char>| k != id && m.contains_key(k) ==> #[trigger] after_toggle(m, id)[k] == m[k],
        m.contains_key(id) ==> after_toggle(m, id).contains_key(id)
            && after_toggle(m, id)[id].id == m[id].id
            && after_toggle(m, id)[id].title == m[id].title
            && after_toggle(m, id)[id].completed == !m[id].completed,
{
}

/// Toggling an identifier that is not in use signals that it was not found
/// and leaves the collection, and so its size, unchanged.
pub proof fn lemma_toggle_unknown(m: TaskMap, id: Seq<char>)
    requires
        !m.contains_key(id),
    ensures
        toggle_result(m, id) is None,
        after_toggle(m, id) == m,
        after_toggle(m, id).len() == m.len(),
{
}

} // verus!
