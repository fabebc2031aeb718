use vstd::prelude::*;

use crate::store::TaskStore;
use crate::task::{title_view, Task, TaskError};

verus! {

pub const OK: u16 = 200;

pub const CREATED: u16 = 201;

pub const NO_CONTENT: u16 = 204;

pub const NOT_FOUND: u16 = 404;

/// What a reply carries besides its status.
pub enum Body {
    Empty,
    One(Task),
    Many(Vec<Task>),
}

/// The outcome of one request: an HTTP status code and a body.
pub struct Response {
    pub status: u16,
    pub body: Body,
}

/// `GET /tasks`: every task, in insertion order.
pub fn list_tasks(store: &TaskStore) -> (r: Response)
    ensures
        r.status == OK,
        r.body matches Body::Many(v) && v@.map_values(|t: Task| t@) == store@.tasks,
{
    Response { status: OK, body: Body::Many(store.list()) }
}

/// `POST /tasks`: makes a task with the given title and returns it.
pub fn create_task(store: &mut TaskStore, title: String) -> (r: Response)
    requires
        old(store).wf(),
        old(store)@.issued < u64::MAX,
    ensures
        final(store).wf(),
        final(store)@ == old(store)@.after_create(title@),
        r.status == CREATED,
        r.body matches Body::One(t) && t@ == old(store)@.created(title@),
{
    let t = store.create(title);
    Response { status: CREATED, body: Body::One(t) }
}

/// `GET /tasks/{id}`: the task, or 404 with no body.
pub fn get_task(store: &TaskStore, id: u64) -> (r: Response)
    requires
        store.wf(),
    ensures
        store@.has(id) ==> r.status == OK && (r.body matches Body::One(t) && store@.lookup(id) == Some(t@)),
        !store@.has(id) ==> r.status == NOT_FOUND && r.body is Empty,
{
    match store.get(id) {
        Ok(t) => Response { status: OK, body: Body::One(t) },
        Err(TaskError::NotFound) => Response { status: NOT_FOUND, body: Body::Empty },
    }
}

/// `PUT /tasks/{id}`: overwrites the given fields and returns the task, or
/// 404 with no body and no change.
pub fn update_task(store: &mut TaskStore, id: u64, title: Option<String>, completed: Option<bool>) -> (r: Response)
    requires
        old(store).wf(),
    ensures
        final(store).wf(),
        final(store)@ == old(store)@.after_update(id, title_view(title), completed),
        old(store)@.has(id) ==> r.status == OK && (r.body matches Body::One(t) && final(store)@.lookup(id) == Some(t@)),
        !old(store)@.has(id) ==> r.status == NOT_FOUND && r.body is Empty,
{
    match store.update(id, title, completed) {
        Ok(t) => Response { status: OK, body: Body::One(t) },
        Err(TaskError::NotFound) => Response { status: NOT_FOUND, body: Body::Empty },
    }
}

/// `DELETE /tasks/{id}`: removes the task and answers 204, or 404 with no change.
pub fn delete_task(store: &mut TaskStore, id: u64) -> (r: Response)
    requires
        old(store).wf(),
    ensures
        final(store).wf(),
        final(store)@ == old(store)@.after_delete(id),
        r.body is Empty,
        r.status == (if old(store)@.has(id) { NO_CONTENT } else { NOT_FOUND }),
{
    match store.delete(id) {
        Ok(()) => Response { status: NO_CONTENT, body: Body::Empty },
        Err(TaskError::NotFound) => Response { status: NOT_FOUND, body: Body::Empty },
    }
}

} // verus!
