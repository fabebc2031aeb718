use vstd::prelude::*;

use crate::store::{lemma_index_of, StoreModel};
use crate::task::{patched, TaskModel};

verus! {

/// The store after creating tasks with these titles, one after another.
pub open spec fn create_all(m: StoreModel, titles: Seq<Seq<char>>) -> StoreModel
    decreases titles.len(),
{
    if titles.len() == 0 {
        m
    } else {
        create_all(m, titles.drop_last()).after_create(titles.last())
    }
}

/// The identifiers that those creates return, in call order.
pub open spec fn created_ids(m: StoreModel, titles: Seq<Seq<char>>) -> Seq<u64>
    decreases titles.len(),
{
    if titles.len() == 0 {
        Seq::empty()
    } else {
        created_ids(m, titles.drop_last()).push(
            create_all(m, titles.drop_last()).created(titles.last()).id,
        )
    }
}

/// A create keeps the store well formed.
pub proof fn lemma_create_wf(m: StoreModel, title: Seq<char>)
    requires
        m.wf(),
        m.issued < u64::MAX,
    ensures
        m.after_create(title).wf(),
{
    let m2 = m.after_create(title);
    assert forall|i: int, j: int| 0 <= i < j < m2.tasks.len() implies m2.tasks[i].id < m2.tasks[j].id by {
        if j == m.tasks.len() {
            assert(m.tasks[i].id <= m.issued);
        } else {
            assert(m.tasks[i].id < m.tasks[j].id);
        }
    }
}

/// Creating tasks in turn, while the identifiers last, yields the next
/// identifiers one by one, and appends the new tasks in call order after
/// the tasks already there.
pub proof fn lemma_create_all(m: StoreModel, titles: Seq<Seq<char>>)
    requires
        m.wf(),
        m.issued + titles.len() <= u64::MAX,
    ensures
        create_all(m, titles).wf(),
        create_all(m, titles).issued == m.issued + titles.len(),
        created_ids(m, titles).len() == titles.len(),
        forall|k: int| 0 <= k < titles.len() ==> #[trigger] created_ids(m, titles)[k] == m.issued + k + 1,
        create_all(m, titles).tasks.len() == m.tasks.len() + titles.len(),
        create_all(m, titles).tasks.subrange(0, m.tasks.len() as int) == m.tasks,
        forall|k: int| 0 <= k < titles.len() ==> #[trigger] create_all(m, titles).tasks[m.tasks.len() + k] == (TaskModel {
            id: created_ids(m, titles)[k],
            title: titles[k],
            completed: false,
        }),
    decreases titles.len(),
{
    if titles.len() > 0 {
        let init = titles.drop_last();
        lemma_create_all(m, init);
        let prev = create_all(m, init);
        lemma_create_wf(prev, titles.last());
        let ids = created_ids(m, titles);
        let tasks = create_all(m, titles).tasks;
        assert(tasks.subrange(0, m.tasks.len() as int) =~= m.tasks) by {
            assert(prev.tasks.subrange(0, m.tasks.len() as int) == m.tasks);
        }
        assert forall|k: int| 0 <= k < titles.len() implies #[trigger] tasks[m.tasks.len() + k] == (TaskModel {
            id: ids[k],
            title: titles[k],
            completed: false,
        }) by {
            if k < init.len() {
                assert(init[k] == titles[k]);
                assert(tasks[m.tasks.len() + k] == prev.tasks[m.tasks.len() + k]);
            }
        }
    }
}

/// Identifiers returned by a run of creates are pairwise distinct and
/// strictly increasing in call order.
pub proof fn lemma_ids_increase(m: StoreModel, titles: Seq<Seq<char>>)
    requires
        m.wf(),
        m.issued + titles.len() <= u64::MAX,
    ensures
        forall|i: int, j: int|
            0 <= i < j < titles.len() ==> #[trigger] created_ids(m, titles)[i] < #[trigger] created_ids(m, titles)[j],
{
    lemma_create_all(m, titles);
}

/// Creates made in any serial order on a fresh store return exactly the
/// identifiers 1 to N, each once, with no gap.
pub proof fn lemma_fresh_ids(titles: Seq<Seq<char>>)
    requires
        titles.len() <= u64::MAX,
    ensures
        created_ids(StoreModel::empty(), titles) == Seq::new(titles.len(), |k: int| (k + 1) as u64),
{
    lemma_create_all(StoreModel::empty(), titles);
    assert(created_ids(StoreModel::empty(), titles) =~= Seq::new(titles.len(), |k: int| (k + 1) as u64));
}

/// Tasks created in turn are listed in the order of creation, after the
/// tasks that were there before.
pub proof fn lemma_list_order(m: StoreModel, titles: Seq<Seq<char>>)
    requires
        m.wf(),
        m.issued + titles.len() <= u64::MAX,
    ensures
        create_all(m, titles).tasks == m.tasks + Seq::new(
            titles.len(),
            |k: int| TaskModel { id: created_ids(m, titles)[k], title: titles[k], completed: false },
        ),
{
    lemma_create_all(m, titles);
    let tasks = create_all(m, titles).tasks;
    let added = Seq::new(
        titles.len(),
        |k: int| TaskModel { id: created_ids(m, titles)[k], title: titles[k], completed: false },
    );
    assert forall|i: int| 0 <= i < tasks.len() implies tasks[i] == (m.tasks + added)[i] by {
        if i < m.tasks.len() {
            assert(tasks.subrange(0, m.tasks.len() as int)[i] == tasks[i]);
        } else {
            assert(tasks[m.tasks.len() + (i - m.tasks.len())] == tasks[i]);
        }
    }
    assert(tasks =~= m.tasks + added);
}

/// Getting a task just created gives back its title, not completed.
pub proof fn lemma_create_then_get(m: StoreModel, title: Seq<char>)
    requires
        m.wf(),
        m.issued < u64::MAX,
    ensures
        m.after_create(title).lookup(m.created(title).id) == Some(
            TaskModel { id: m.created(title).id, title: title, completed: false },
        ),
{
    lemma_create_wf(m, title);
    lemma_index_of(m.after_create(title), m.tasks.len() as int);
}

/// An update of some fields of a present task keeps the others: the task
/// read back afterwards is the old one with the given fields replaced.
pub proof fn lemma_update_then_get(m: StoreModel, id: u64, title: Option<Seq<char>>, completed: Option<bool>)
    requires
        m.wf(),
        m.has(id),
    ensures
        m.after_update(id, title, completed).wf(),
        m.after_update(id, title, completed).lookup(id) == Some(patched(m.lookup(id).unwrap(), title, completed)),
{
    let i = m.index_of(id);
    let m2 = m.after_update(id, title, completed);
    assert(m2.tasks[i].id == m.tasks[i].id);
    assert(forall|k: int| 0 <= k < m.tasks.len() ==> #[trigger] m2.tasks[k].id == m.tasks[k].id);
    lemma_index_of(m2, i);
}

/// Creating a task and then marking it completed, title omitted, leaves its
/// title as created and marks it done.
pub proof fn lemma_complete_keeps_title(m: StoreModel, title: Seq<char>)
    requires
        m.wf(),
        m.issued < u64::MAX,
    ensures
        ({
            let id = m.created(title).id;
            m.after_create(title).after_update(id, None, Some(true)).lookup(id) == Some(
                TaskModel { id: id, title: title, completed: true },
            )
        }),
{
    let id = m.created(title).id;
    lemma_create_then_get(m, title);
    lemma_create_wf(m, title);
    lemma_update_then_get(m.after_create(title), id, None, Some(true));
}

/// After a delete of a present task, its identifier is found nowhere in the
/// store, and the store stays well formed.
pub proof fn lemma_delete_removes(m: StoreModel, id: u64)
    requires
        m.wf(),
        m.has(id),
    ensures
        m.after_delete(id).wf(),
        !m.after_delete(id).has(id),
        m.after_delete(id).lookup(id) is None,
        forall|k: int| 0 <= k < m.after_delete(id).tasks.len() ==> #[trigger] m.after_delete(id).tasks[k].id != id,
{
    let i = m.index_of(id);
    let m2 = m.after_delete(id);
    assert(m.tasks[i].id == id);
    assert forall|k: int| 0 <= k < m2.tasks.len() implies #[trigger] m2.tasks[k].id != id by {
        if k < i {
            assert(m2.tasks[k] == m.tasks[k]);
            assert(m.tasks[k].id < m.tasks[i].id);
        } else {
            assert(m2.tasks[k] == m.tasks[k + 1]);
            assert(m.tasks[i].id < m.tasks[k + 1].id);
        }
    }
    assert forall|a: int, b: int| 0 <= a < b < m2.tasks.len() implies m2.tasks[a].id < m2.tasks[b].id by {
        let a2 = if a < i { a } else { a + 1 };
        let b2 = if b < i { b } else { b + 1 };
        assert(m2.tasks[a] == m.tasks[a2]);
        assert(m2.tasks[b] == m.tasks[b2]);
        assert(m.tasks[a2].id < m.tasks[b2].id);
    }
    assert forall|a: int| 0 <= a < m2.tasks.len() implies 1 <= #[trigger] m2.tasks[a].id <= m2.issued by {
        let a2 = if a < i { a } else { a + 1 };
        assert(m2.tasks[a] == m.tasks[a2]);
    }
}

/// An identifier never handed out (0, or above the last one issued) names no
/// task: get finds nothing, and update and delete leave the store unchanged.
pub proof fn lemma_unknown_id(m: StoreModel, id: u64, title: Option<Seq<char>>, completed: Option<bool>)
    requires
        m.wf(),
        id == 0 || id > m.issued,
    ensures
        !m.has(id),
        m.lookup(id) is None,
        m.after_update(id, title, completed) == m,
        m.after_delete(id) == m,
{
    if m.has(id) {
        let i = choose|i: int| 0 <= i < m.tasks.len() && #[trigger] m.tasks[i].id == id;
        assert(1 <= m.tasks[i].id <= m.issued);
    }
}

} // verus!
