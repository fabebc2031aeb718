use vstd::prelude::*;

verus! {

/// What a task is, mathematically: its identifier, its title as characters,
/// and whether it is done.
pub struct TaskModel {
    pub id: u64,
    pub title: Seq<char>,
    pub completed: bool,
}

/// One to-do item.
#[derive(Debug)]
pub struct Task {
    pub id: u64,
    pub title: String,
    pub completed: bool,
}

impl View for Task {
    type V = TaskModel;

    open spec fn view(&self) -> TaskModel {
        TaskModel { id: self.id, title: self.title@, completed: self.completed }
    }
}

/// The characters of an optional new title.
pub open spec fn title_view(title: Option<String>) -> Option<Seq<char>> {
    match title {
        Some(s) => Some(s@),
        None => None,
    }
}

/// The task after an update: each field that is given replaces the old one,
/// each field that is absent stays as it was.
pub open spec fn patched(t: TaskModel, title: Option<Seq<char>>, completed: Option<bool>) -> TaskModel {
    TaskModel {
        id: t.id,
        title: match title {
            Some(s) => s,
            None => t.title,
        },
        completed: match completed {
            Some(c) => c,
            None => t.completed,
        },
    }
}

impl Task {
    /// A fresh task, not yet completed.
    pub fn new(id: u64, title: String) -> (r: Task)
        ensures
            r@ == (TaskModel { id: id, title: title@, completed: false }),
    {
        Task { id, title, completed: false }
    }

    /// A new task with the same fields as this one.
    pub fn duplicate(&self) -> (r: Task)
        ensures
            r@ == self@,
    {
        Task { id: self.id, title: self.title.clone(), completed: self.completed }
    }

    /// Overwrites the fields that are given and keeps the others.
    pub fn apply(&mut self, title: Option<String>, completed: Option<bool>)
        ensures
            final(self)@ == patched(old(self)@, title_view(title), completed),
    {
        match title {
            Some(t) => {
                self.title = t;
            },
            None => {},
        }
        match completed {
            Some(c) => {
                self.completed = c;
            },
            None => {},
        }
    }
}

/// The error of an operation that names a task which is not in the store.
#[derive(Debug, Clone, Copy, PartialEq, Eq, Structural)]
pub enum TaskError {
    NotFound,
}

} // verus!
