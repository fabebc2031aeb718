use vstd::prelude::*;

use crate::ids::IdGenerator;
use crate::task::{patched, title_view, Task, TaskError, TaskModel};

verus! {

/// What a store is, mathematically: its tasks in insertion order, and the
/// most recent identifier it handed out (0 before the first).
pub struct StoreModel {
    pub tasks: Seq<TaskModel>,
    pub issued: u64,
}

impl StoreModel {
    /// The store as it is at startup.
    pub open spec fn empty() -> StoreModel {
        StoreModel { tasks: Seq::empty(), issued: 0 }
    }

    /// Every task holds an identifier already handed out, and the
    /// identifiers rise strictly along the sequence (so no two are equal).
    pub open spec fn wf(self) -> bool {
        &&& forall|i: int| 0 <= i < self.tasks.len() ==> 1 <= #[trigger] self.tasks[i].id <= self.issued
        &&& forall|i: int, j: int|
            0 <= i < j < self.tasks.len() ==> #[trigger] self.tasks[i].id < #[trigger] self.tasks[j].id
    }

    pub open spec fn has(self, id: u64) -> bool {
        exists|i: int| 0 <= i < self.tasks.len() && #[trigger] self.tasks[i].id == id
    }

    /// The position of the task with identifier `id`, or -1 if there is none.
    pub open spec fn index_of(self, id: u64) -> int {
        if self.has(id) {
            choose|i: int| 0 <= i < self.tasks.len() && #[trigger] self.tasks[i].id == id
        } else {
            -1
        }
    }

    pub open spec fn lookup(self, id: u64) -> Option<TaskModel> {
        if self.has(id) {
            Some(self.tasks[self.index_of(id)])
        } else {
            None
        }
    }

    /// The task that a create with this title makes.
    pub open spec fn created(self, title: Seq<char>) -> TaskModel {
        TaskModel { id: (self.issued + 1) as u64, title: title, completed: false }
    }

    pub open spec fn after_create(self, title: Seq<char>) -> StoreModel {
        StoreModel { tasks: self.tasks.push(self.created(title)), issued: (self.issued + 1) as u64 }
    }

    pub open spec fn after_update(self, id: u64, title: Option<Seq<char>>, completed: Option<bool>) -> StoreModel {
        if self.has(id) {
            StoreModel {
                tasks: self.tasks.update(
                    self.index_of(id),
                    patched(self.tasks[self.index_of(id)], title, completed),
                ),
                issued: self.issued,
            }
        } else {
            self
        }
    }

    pub open spec fn after_delete(self, id: u64) -> StoreModel {
        if self.has(id) {
            StoreModel { tasks: self.tasks.remove(self.index_of(id)), issued: self.issued }
        } else {
            self
        }
    }
}

/// In a well-formed store, the task at position `i` is the one that
/// `index_of` finds for its identifier.
pub proof fn lemma_index_of(m: StoreModel, i: int)
    requires
        m.wf(),
        0 <= i < m.tasks.len(),
    ensures
        m.has(m.tasks[i].id),
        m.index_of(m.tasks[i].id) == i,
        m.lookup(m.tasks[i].id) == Some(m.tasks[i]),
{
    let id = m.tasks[i].id;
    assert(m.has(id));
    let j = m.index_of(id);
    if j < i {
        assert(m.tasks[j].id < m.tasks[i].id);
    } else if i < j {
        assert(m.tasks[i].id < m.tasks[j].id);
    }
}

/// The in-memory collection of tasks together with its identifier source.
pub struct TaskStore {
    tasks: Vec<Task>,
    ids: IdGenerator,
}

impl View for TaskStore {
    type V = StoreModel;

    closed spec fn view(&self) -> StoreModel {
        StoreModel { tasks: self.tasks@.map_values(|t: Task| t@), issued: self.ids.last_issued() }
    }
}

impl TaskStore {
    pub open spec fn wf(&self) -> bool {
        self@.wf()
    }

    /// An empty store that has handed out no identifier yet.
    pub fn new() -> (r: TaskStore)
        ensures
            r@ == StoreModel::empty(),
            r.wf(),
    {
        let r = TaskStore { tasks: Vec::new(), ids: IdGenerator::new() };
        assert(r@.tasks =~= Seq::<TaskModel>::empty());
        r
    }

    /// Whether a create can still be given a fresh identifier.
    pub fn can_create(&self) -> (r: bool)
        ensures
            r == (self@.issued < u64::MAX),
    {
        self.ids.can_issue()
    }

    /// A snapshot of every task, in insertion order.
    pub fn list(&self) -> (r: Vec<Task>)
        ensures
            r@.map_values(|t: Task| t@) == self@.tasks,
    {
        let mut r: Vec<Task> = Vec::new();
        let mut i: usize = 0;
        while i < self.tasks.len()
            invariant
                i <= self.tasks@.len(),
                r@.len() == i,
                forall|k: int| 0 <= k < i ==> #[trigger] r@[k]@ == self.tasks@[k]@,
            decreases self.tasks@.len() - i,
        {
            r.push(self.tasks[i].duplicate());
            i = i + 1;
        }
        assert(r@.map_values(|t: Task| t@) =~= self@.tasks);
        r
    }

    /// Adds a task with the next identifier and the given title, not yet completed.
    pub fn create(&mut self, title: String) -> (r: Task)
        requires
            old(self).wf(),
            old(self)@.issued < u64::MAX,
        ensures
            final(self).wf(),
            r@ == old(self)@.created(title@),
            final(self)@ == old(self)@.after_create(title@),
    {
        let id = self.ids.next_id();
        let task = Task::new(id, title);
        let r = task.duplicate();
        self.tasks.push(task);
        assert(self@.tasks =~= old(self)@.after_create(r@.title).tasks);
        r
    }

    /// The position of the task with identifier `id`, if there is one.
    fn find(&self, id: u64) -> (r: Option<usize>)
        requires
            self.wf(),
        ensures
            r is None <==> !self@.has(id),
            r matches Some(i) ==> i == self@.index_of(id) && i < self.tasks@.len(),
    {
        let mut i: usize = 0;
        while i < self.tasks.len()
            invariant
                i <= self.tasks@.len(),
                self.wf(),
                forall|k: int| 0 <= k < i ==> #[trigger] self.tasks@[k].id != id,
            decreases self.tasks@.len() - i,
        {
            if self.tasks[i].id == id {
                proof {
                    assert(self@.tasks[i as int] == self.tasks@[i as int]@);
                    lemma_index_of(self@, i as int);
                }
                return Some(i);
            }
            i = i + 1;
        }
        proof {
            if self@.has(id) {
                let k = choose|k: int| 0 <= k < self@.tasks.len() && #[trigger] self@.tasks[k].id == id;
                assert(self.tasks@[k].id == id);
            }
        }
        None
    }

    /// A snapshot of the task with identifier `id`, or `NotFound`.
    pub fn get(&self, id: u64) -> (r: Result<Task, TaskError>)
        requires
            self.wf(),
        ensures
            match r {
                Ok(t) => self@.lookup(id) == Some(t@),
                Err(e) => e == TaskError::NotFound && self@.lookup(id) is None,
            },
    {
        match self.find(id) {
            Some(i) => Ok(self.tasks[i].duplicate()),
            None => Err(TaskError::NotFound),
        }
    }

    /// Overwrites the given fields of the task with identifier `id` and
    /// returns it, or leaves the store as it is and returns `NotFound`.
    pub fn update(&mut self, id: u64, title: Option<String>, completed: Option<bool>) -> (r: Result<Task, TaskError>)
        requires
            old(self).wf(),
        ensures
            final(self).wf(),
            final(self)@ == old(self)@.after_update(id, title_view(title), completed),
            match r {
                Ok(t) => old(self)@.has(id) && final(self)@.lookup(id) == Some(t@),
                Err(e) => e == TaskError::NotFound && !old(self)@.has(id),
            },
    {
        match self.find(id) {
            Some(i) => {
                self.tasks[i].apply(title, completed);
                let r = self.tasks[i].duplicate();
                proof {
                    let m = old(self)@;
                    assert(self@.tasks =~= m.after_update(id, title_view(title), completed).tasks);
                    assert(self@.tasks[i as int].id == id);
                    lemma_index_of(self@, i as int);
                }
                Ok(r)
            },
            None => Err(TaskError::NotFound),
        }
    }

    /// Removes the task with identifier `id` for good, or leaves the store as
    /// it is and returns `NotFound`.
    pub fn delete(&mut self, id: u64) -> (r: Result<(), TaskError>)
        requires
            old(self).wf(),
        ensures
            final(self).wf(),
            final(self)@ == old(self)@.after_delete(id),
            r is Ok <==> old(self)@.has(id),
            r matches Err(e) ==> e == TaskError::NotFound,
    {
        match self.find(id) {
            Some(i) => {
                let _removed = self.tasks.remove(i);
                proof {
                    let m = old(self)@;
                    assert(self@.tasks =~= m.after_delete(id).tasks);
                }
                Ok(())
            },
            None => Err(TaskError::NotFound),
        }
    }
}

} // verus!
