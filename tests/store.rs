use std::collections::HashSet;
use std::sync::Arc;

use task_store::{SharedTaskStore, StoreError, Task, TaskStore};

fn find<'a>(tasks: &'a [Task], id: &str) -> Option<&'a Task> {
    tasks.iter().find(|t| t.id == id)
}

#[test]
fn buy_milk_scenario() {
    let mut store = TaskStore::new();
    let task = store.create("Buy milk".to_string()).unwrap();
    assert_eq!(task.title, "Buy milk");
    assert!(!task.completed);

    let once = store.toggle_completion(&task.id).unwrap();
    assert_eq!(once.id, task.id);
    assert_eq!(once.title, "Buy milk");
    assert!(once.completed);

    let twice = store.toggle_completion(&task.id).unwrap();
    assert!(!twice.completed);

    let missing = store.toggle_completion("6f1c2a9e-0d4b-4c1a-9e2f-3b5d7a8c9e01");
    assert_eq!(missing.unwrap_err(), StoreError::NotFound);
    assert_eq!(store.len(), 1);
}

#[test]
fn new_store_is_empty() {
    let store = TaskStore::new();
    assert_eq!(store.len(), 0);
    assert!(store.list().is_empty());
}

#[test]
fn create_returns_listed_task() {
    let mut store = TaskStore::new();
    let task = store.create("Write report".to_string()).unwrap();
    let listed = store.list();
    assert_eq!(listed.len(), 1);
    let found = find(&listed, &task.id).unwrap();
    assert_eq!(found.title, "Write report");
    assert!(!found.completed);
}

#[test]
fn created_ids_are_distinct() {
    let mut store = TaskStore::new();
    let mut ids = HashSet::new();
    for i in 0..200 {
        let task = store.create(format!("task {}", i)).unwrap();
        assert!(ids.insert(task.id));
    }
    assert_eq!(store.len(), 200);
    assert_eq!(store.list().len(), 200);
}

#[test]
fn created_ids_are_hyphenated_v4_uuids() {
    let mut store = TaskStore::new();
    let task = store.create("x".to_string()).unwrap();
    let chars: Vec<char> = task.id.chars().collect();
    assert_eq!(chars.len(), 36);
    for (i, c) in chars.iter().enumerate() {
        if i == 8 || i == 13 || i == 18 || i == 23 {
            assert_eq!(*c, '-');
        } else {
            assert!(c.is_ascii_hexdigit() && !c.is_ascii_uppercase());
        }
    }
    assert_eq!(chars[14], '4');
    assert!("89ab".contains(chars[19]));
    assert_ne!(task.id, task.title);
}

#[test]
fn empty_title_is_accepted() {
    let mut store = TaskStore::new();
    let task = store.create(String::new()).unwrap();
    assert_eq!(task.title, "");
    assert_eq!(store.len(), 1);
}

#[test]
fn create_with_id_inserts_under_given_id() {
    let mut store = TaskStore::new();
    let task = store.create_with_id("a".to_string(), "Buy milk".to_string()).unwrap();
    assert_eq!(task.id, "a");
    assert_eq!(task.title, "Buy milk");
    assert!(!task.completed);
    assert_eq!(store.len(), 1);
}

#[test]
fn create_with_id_rejects_id_in_use() {
    let mut store = TaskStore::new();
    store.create_with_id("a".to_string(), "first".to_string()).unwrap();
    store.toggle_completion("a").unwrap();
    let err = store.create_with_id("a".to_string(), "second".to_string()).unwrap_err();
    assert_eq!(err, StoreError::DuplicateId("a".to_string()));
    let listed = store.list();
    assert_eq!(listed.len(), 1);
    assert_eq!(listed[0].title, "first");
    assert!(listed[0].completed);
}

#[test]
fn toggle_twice_restores_completion() {
    let mut store = TaskStore::new();
    let task = store.create_with_id("k".to_string(), "t".to_string()).unwrap();
    assert!(store.toggle_completion("k").unwrap().completed);
    let back = store.toggle_completion("k").unwrap();
    assert_eq!(back.completed, task.completed);
    assert_eq!(back.title, task.title);
}

#[test]
fn toggle_leaves_other_tasks_alone() {
    let mut store = TaskStore::new();
    store.create_with_id("a".to_string(), "first".to_string()).unwrap();
    store.create_with_id("b".to_string(), "second".to_string()).unwrap();
    store.create_with_id("c".to_string(), "third".to_string()).unwrap();
    let toggled = store.toggle_completion("b").unwrap();
    assert_eq!(toggled.id, "b");
    assert_eq!(toggled.title, "second");
    assert!(toggled.completed);
    let listed = store.list();
    assert_eq!(listed.len(), 3);
    let a = find(&listed, "a").unwrap();
    assert_eq!(a.title, "first");
    assert!(!a.completed);
    let c = find(&listed, "c").unwrap();
    assert_eq!(c.title, "third");
    assert!(!c.completed);
    assert!(find(&listed, "b").unwrap().completed);
}

#[test]
fn toggle_unknown_id_changes_nothing() {
    let mut store = TaskStore::new();
    store.create_with_id("a".to_string(), "first".to_string()).unwrap();
    assert_eq!(store.toggle_completion("b"), Err(StoreError::NotFound));
    assert_eq!(store.toggle_completion(""), Err(StoreError::NotFound));
    let listed = store.list();
    assert_eq!(listed.len(), 1);
    assert_eq!(listed[0].id, "a");
    assert!(!listed[0].completed);
}

#[test]
fn toggle_on_empty_store_is_not_found() {
    let mut store = TaskStore::new();
    assert_eq!(store.toggle_completion("a"), Err(StoreError::NotFound));
    assert_eq!(store.len(), 0);
}

#[test]
fn task_clone_keeps_fields() {
    let task = Task { id: "i".to_string(), title: "t".to_string(), completed: true };
    let copy = task.clone();
    assert_eq!(copy.id, "i");
    assert_eq!(copy.title, "t");
    assert!(copy.completed);
}

#[test]
fn shared_store_operations() {
    let store = SharedTaskStore::new();
    let task = store.create("Buy milk".to_string()).unwrap();
    assert_eq!(task.title, "Buy milk");
    assert!(!task.completed);
    assert!(store.toggle_completion(&task.id).unwrap().completed);
    assert!(!store.toggle_completion(&task.id).unwrap().completed);
    assert_eq!(store.toggle_completion("nope").unwrap_err(), StoreError::NotFound);
    let listed = store.list();
    assert_eq!(listed.len(), 1);
    assert_eq!(listed[0].id, task.id);
}

#[test]
fn concurrent_creates_are_all_kept() {
    let store = Arc::new(SharedTaskStore::new());
    let rt = tokio::runtime::Builder::new_multi_thread().worker_threads(4).build().unwrap();
    let handles: Vec<_> = (0..64)
        .map(|i| {
            let store = Arc::clone(&store);
            rt.spawn(async move { store.create(format!("task {}", i)).unwrap() })
        })
        .collect();
    let mut ids = HashSet::new();
    for handle in handles {
        let task = rt.block_on(handle).unwrap();
        assert!(ids.insert(task.id));
    }
    let listed = store.list();
    assert_eq!(listed.len(), 64);
    for task in &listed {
        assert!(ids.contains(&task.id));
    }
}
