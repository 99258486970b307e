use vstd::prelude::*;

use crate::ids::fresh_task_id;
use crate::task::{flipped, Task, TaskView};

verus! {

/// What the store's collection is: a map from identifier to task.
pub type TaskMap = Map<Seq<char>, TaskView>;

/// Every key maps to a task that carries that key as its own identifier.
pub open spec fn keys_match(m: TaskMap) -> bool {
    forall|k: Seq<char>| #[trigger] m.contains_key(k) ==> m[k].id == k
}

/// The collection after `create` added `task`: a task under an identifier
/// that was not in use, not yet completed.
pub open spec fn created(before: TaskMap, task: TaskView, after: TaskMap) -> bool {
    &&& !before.contains_key(task.id)
    &&& !task.completed
    &&& after == before.insert(task.id, task)
}

/// What `toggle_completion(id)` returns: the flipped task, if `id` is in use.
pub open spec fn toggle_result(before: TaskMap, id: Seq<char>) -> Option<TaskView> {
    if before.contains_key(id) {
        Some(flipped(before[id]))
    } else {
        None
    }
}

/// The collection after `toggle_completion(id)`.
pub open spec fn after_toggle(before: TaskMap, id: Seq<char>) -> TaskMap {
    if before.contains_key(id) {
        before.insert(id, flipped(before[id]))
    } else {
        before
    }
}

/// `s` is a snapshot of `m`: each task of `m` exactly once, in some order.
pub open spec fn lists(m: TaskMap, s: Seq<TaskView>) -> bool {
    &&& s.len() == m.len()
    &&& forall|i: int| 0 <= i < s.len() ==> #[trigger] m.contains_key(s[i].id) && m[s[i].id] == s[i]
    &&& forall|k: Seq<char>| #[trigger] m.contains_key(k) ==> exists|i: int| 0 <= i < s.len() && s[i].id == k
    &&& forall|i: int, j: int| 0 <= i < s.len() && 0 <= j < s.len() && i != j ==> s[i].id != s[j].id
}

/// The views of a sequence of tasks.
pub open spec fn views(s: Seq<Task>) -> Seq<TaskView> {
    s.map_values(|t: Task| t@)
}

/// Why a store operation did not take place.
#[derive(Debug, PartialEq, Eq)]
pub enum StoreError {
    /// No task has the identifier asked for.
    NotFound,
    /// The identifier drawn for a new task is already in use.
    DuplicateId(String),
}

/// The collection of tasks, keyed by identifier.
pub struct TaskStore {
    tasks: Vec<Task>,
    model: Ghost<TaskMap>,
}

impl View for TaskStore {
    type V = TaskMap;

    closed spec fn view(&self) -> TaskMap {
        self.model@
    }
}

impl TaskStore {
    /// The tasks are held once each, under distinct identifiers, and agree
    /// with the map they stand for.
    pub closed spec fn wf(&self) -> bool {
        let m = self.model@;
        &&& m.dom().finite()
        &&& m.len() == self.tasks@.len()
        &&& keys_match(m)
        &&& forall|i: int| 0 <= i < self.tasks@.len()
            ==> #[trigger] m.contains_key(self.tasks@[i].id@) && m[self.tasks@[i].id@] == self.tasks@[i]@
        &&& forall|k: Seq<char>| #[trigger] m.contains_key(k)
            ==> exists|i: int| 0 <= i < self.tasks@.len() && self.tasks@[i].id@ == k
        &&& forall|i: int, j: int| 0 <= i < self.tasks@.len() && 0 <= j < self.tasks@.len() && i != j
            ==> self.tasks@[i].id@ != self.tasks@[j].id@
    }

    /// What a well-formed store tells its callers of the collection it stands for.
    pub proof fn lemma_wf(&self)
        requires
            self.wf(),
        ensures
            self@.dom().finite(),
            keys_match(self@),
    {
    }

    /// An empty store.
    pub fn new() -> (s: Self)
        ensures
            s.wf(),
            s@ == Map::<Seq<char>, TaskView>::empty(),
    {
        TaskStore { tasks: Vec::new(), model: Ghost(Map::empty()) }
    }

    /// The number of tasks.
    pub fn len(&self) -> (r: usize)
        requires
            self.wf(),
        ensures
            r == self@.len(),
    {
        self.tasks.len()
    }

    /// Where the task with identifier `id` is held, if any.
    fn position_of(&self, id: &String) -> (r: Option<usize>)
        requires
            self.wf(),
        ensures
            match r {
                Some(i) => i < self.tasks@.len() && self.tasks@[i as int].id@ == id@,
                None => !self@.contains_key(id@),
            },
    {
        let mut i: usize = 0;
        while i < self.tasks.len()
            invariant
                self.wf(),
                i <= self.tasks@.len(),
                forall|j: int| 0 <= j < i ==> self.tasks@[j].id@ != id@,
            decreases self.tasks@.len() - i,
        {
            if self.tasks[i].id == *id {
                return Some(i);
            }
            i = i + 1;
        }
        None
    }
    /// Adds a task titled `title` under `id`, not yet completed, unless `id`
    /// is already in use; then nothing changes.
    pub fn create_with_id(&mut self, id: String, title: String) -> (r: Result<Task, StoreError>)
        requires
            old(self).wf(),
        ensures
            final(self).wf(),
            r is Ok <==> !old(self)@.contains_key(id@),
            match r {
                Ok(t) => {
                    &&& t@ == (TaskView { id: id@, title: title@, completed: false })
                    &&& created(old(self)@, t@, final(self)@)
                },
                Err(e) => {
                    &&& e is DuplicateId
                    &&& e->DuplicateId_0@ == id@
                    &&& final(self)@ == old(self)@
                },
            },
    {
        match self.position_of(&id) {
            Some(_) => Err(StoreError::DuplicateId(id)),
            None => {
                let task = Task { id, title, completed: false };
                let out = task.clone();
                let ghost before = self.model@;
                self.model = Ghost(before.insert(task.id@, task@));
                self.tasks.push(task);
                proof {
                    let m = self.model@;
                    let n = self.tasks@.len() as int;
                    assert(m.dom() == before.dom().insert(out.id@));
                    assert forall|k: Seq<char>| #[trigger] m.contains_key(k)
                        implies exists|i: int| 0 <= i < n && self.tasks@[i].id@ == k by {
                        if k != out.id@ {
                            let i = choose|i: int| 0 <= i < n - 1 && old(self).tasks@[i].id@ == k;
                            assert(self.tasks@[i] == old(self).tasks@[i]);
                        } else {
                            assert(self.tasks@[n - 1].id@ == k);
                        }
                    }
                    assert forall|i: int| 0 <= i < n
                        implies #[trigger] m.contains_key(self.tasks@[i].id@) && m[self.tasks@[i].id@] == self.tasks@[i]@ by {
                        if i < n - 1 {
                            assert(self.tasks@[i] == old(self).tasks@[i]);
                            assert(before.contains_key(self.tasks@[i].id@));
                        }
                    }
                }
                Ok(out)
            },
        }
    }

    /// Adds a task titled `title`, not yet completed, under a freshly drawn
    /// random identifier. Should the identifier already be in use, nothing
    /// changes and the identifier is reported.
    pub fn create(&mut self, title: String) -> (r: Result<Task, StoreError>)
        requires
            old(self).wf(),
        ensures
            final(self).wf(),
            match r {
                Ok(t) => {
                    &&& t@.title == title@
                    &&& created(old(self)@, t@, final(self)@)
                },
                Err(e) => {
                    &&& e is DuplicateId
                    &&& old(self)@.contains_key(e->DuplicateId_0@)
                    &&& final(self)@ == old(self)@
                },
            },
    {
        let id = fresh_task_id();
        self.create_with_id(id, title)
    }

    /// Flips the completion flag of the task with identifier `id` and returns
    /// a copy of the updated task; `NotFound`, with nothing changed, when no
    /// task has that identifier.
    pub fn toggle_completion(&mut self, id: &str) -> (r: Result<Task, StoreError>)
        requires
            old(self).wf(),
        ensures
            final(self).wf(),
            final(self)@ == after_toggle(old(self)@, id@),
            match r {
                Ok(t) => toggle_result(old(self)@, id@) == Some(t@),
                Err(e) => toggle_result(old(self)@, id@) is None && e is NotFound,
            },
    {
        let key = id.to_owned();
        match self.position_of(&key) {
            None => Err(StoreError::NotFound),
            Some(i) => {
                let updated = Task {
                    id: self.tasks[i].id.clone(),
                    title: self.tasks[i].title.clone(),
                    completed: !self.tasks[i].completed,
                };
                let out = updated.clone();
                let ghost before = self.model@;
                proof {
                    assert(before.contains_key(key@));
                    assert(flipped(before[key@]) == updated@);
                }
                self.model = Ghost(before.insert(key@, updated@));
                self.tasks.set(i, updated);
                proof {
                    let m = self.model@;
                    let n = self.tasks@.len() as int;
                    assert(m.dom() =~= before.dom());
                    assert forall|k: Seq<char>| #[trigger] m.contains_key(k)
                        implies exists|j: int| 0 <= j < n && self.tasks@[j].id@ == k by {
                        let j = choose|j: int| 0 <= j < n && old(self).tasks@[j].id@ == k;
                        assert(self.tasks@[j].id@ == old(self).tasks@[j].id@);
                    }
                    assert forall|j: int| 0 <= j < n
                        implies #[trigger] m.contains_key(self.tasks@[j].id@) && m[self.tasks@[j].id@] == self.tasks@[j]@ by {
                        if j != i {
                            assert(self.tasks@[j] == old(self).tasks@[j]);
                            assert(old(self).tasks@[j].id@ != old(self).tasks@[i as int].id@);
                        }
                    }
                    assert forall|a: int, b: int| 0 <= a < n && 0 <= b < n && a != b
                        implies self.tasks@[a].id@ != self.tasks@[b].id@ by {
                        assert(self.tasks@[a].id@ == old(self).tasks@[a].id@);
                        assert(self.tasks@[b].id@ == old(self).tasks@[b].id@);
                    }
                }
                Ok(out)
            },
        }
    }

    /// A copy of every task, each once, in an unspecified order.
    pub fn list(&self) -> (r: Vec<Task>)
        requires
            self.wf(),
        ensures
            lists(self@, views(r@)),
    {
        let mut out: Vec<Task> = Vec::new();
        let mut i: usize = 0;
        while i < self.tasks.len()
            invariant
                self.wf(),
                i <= self.tasks@.len(),
                out@.len() == i,
                forall|j: int| 0 <= j < i ==> #[trigger] out@[j]@ == self.tasks@[j]@,
            decreases self.tasks@.len() - i,
        {
            out.push(self.tasks[i].clone());
            i = i + 1;
        }
        proof {
            let s = views(out@);
            let m = self@;
            assert forall|k: Seq<char>| #[trigger] m.contains_key(k)
                implies exists|j: int| 0 <= j < s.len() && s[j].id == k by {
                let j = choose|j: int| 0 <= j < self.tasks@.len() && self.tasks@[j].id@ == k;
                assert(s[j] == out@[j]@);
            }
            assert forall|j: int| 0 <= j < s.len()
                implies #[trigger] m.contains_key(s[j].id) && m[s[j].id] == s[j] by {
                assert(s[j] == self.tasks@[j]@);
            }
            assert forall|a: int, b: int| 0 <= a < s.len() && 0 <= b < s.len() && a != b
                implies s[a].id != s[b].id by {
                assert(s[a] == self.tasks@[a]@);
                assert(s[b] == self.tasks@[b]@);
            }
        }
        out
    }
}

} // verus!
