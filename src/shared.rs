use vstd::prelude::*;
use vstd::rwlock::{RwLock, RwLockPredicate};

use crate::store::{keys_match, lists, views, StoreError, TaskMap, TaskStore};
use crate::task::Task;

verus! {

/// The condition every store held by the lock meets between operations.
pub struct WellFormed;

impl RwLockPredicate<TaskStore> for WellFormed {
    open spec fn inv(self, v: TaskStore) -> bool {
        v.wf()
    }
}

/// A task store shared between concurrent callers. Each operation runs under
/// one lock, taken for the operation's map access alone: writes exclusively,
/// snapshots shared, so no caller ever sees a store mid-update.
pub struct SharedTaskStore {
    lock: RwLock<TaskStore, WellFormed>,
}

impl SharedTaskStore {
    #[verifier::type_invariant]
    spec fn lock_keeps_wf(&self) -> bool {
        self.lock.pred() == WellFormed
    }

    /// A shared store with no tasks.
    pub fn new() -> (s: Self) {
        SharedTaskStore { lock: RwLock::new(TaskStore::new(), Ghost(WellFormed)) }
    }

    /// Adds a task titled `title`, not yet completed, under a fresh
    /// identifier, as one step of the store; see `TaskStore::create`.
    pub fn create(&self, title: String) -> (r: Result<Task, StoreError>)
        ensures
            match r {
                Ok(t) => t@.title == title@ && !t@.completed,
                Err(e) => e is DuplicateId,
            },
    {
        proof {
            use_type_invariant(self);
        }
        let (mut store, handle) = self.lock.acquire_write();
        let r = store.create(title);
        handle.release_write(store);
        r
    }

    /// Flips the completion flag of the task with identifier `id`, as one
    /// step of the store; see `TaskStore::toggle_completion`.
    pub fn toggle_completion(&self, id: &str) -> (r: Result<Task, StoreError>)
        ensures
            match r {
                Ok(t) => t@.id == id@,
                Err(e) => e is NotFound,
            },
    {
        proof {
            use_type_invariant(self);
        }
        let (mut store, handle) = self.lock.acquire_write();
        proof {
            store.lemma_wf();
        }
        let r = store.toggle_completion(id);
        handle.release_write(store);
        r
    }

    /// A snapshot of every task, each once, taken at one moment.
    pub fn list(&self) -> (r: Vec<Task>)
        ensures
            exists|m: TaskMap| keys_match(m) && #[trigger] lists(m, views(r@)),
    {
        proof {
            use_type_invariant(self);
        }
        let handle = self.lock.acquire_read();
        let store = handle.borrow();
        let r = store.list();
        proof {
            store.lemma_wf();
        }
        handle.release_read();
        r
    }
}

} // verus!
