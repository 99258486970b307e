use vstd::prelude::*;

verus! {

/// The mathematical value of a task.
pub ghost struct TaskView {
    pub id: Seq<char>,
    pub title: Seq<char>,
    pub completed: bool,
}

/// One to-do item, as handed out by the store (always a copy).
#[derive(Debug, PartialEq, Eq)]
pub struct Task {
    pub id: String,
    pub title: String,
    pub completed: bool,
}

impl View for Task {
    type V = TaskView;

    open spec fn view(&self) -> TaskView {
        TaskView { id: self.id@, title: self.title@, completed: self.completed }
    }
}

impl Clone for Task {
    fn clone(&self) -> (r: Self)
        ensures
            r@ == self@,
    {
        Task { id: self.id.clone(), title: self.title.clone(), completed: self.completed }
    }
}

/// The same task with its completion flag negated.
pub open spec fn flipped(t: TaskView) -> TaskView {
    TaskView { completed: !t.completed, ..t }
}

} // verus!
