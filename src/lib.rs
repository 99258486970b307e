//! An in-memory task list: a store that creates tasks under fresh identifiers,
//! lists them, and toggles their completion, with a lock-guarded shared form
//! for concurrent callers.

mod ids;
pub mod laws;
pub mod shared;
pub mod store;
pub mod task;

pub use shared::SharedTaskStore;
pub use store::{StoreError, TaskStore};
pub use task::Task;
