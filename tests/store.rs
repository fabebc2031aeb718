use task_manager::ids::IdGenerator;
use task_manager::store::TaskStore;
use task_manager::task::{Task, TaskError};

fn fields(t: &Task) -> (u64, String, bool) {
    (t.id, t.title.clone(), t.completed)
}

#[test]
fn ids_start_at_one_and_rise() {
    let mut g = IdGenerator::new();
    assert!(g.can_issue());
    assert_eq!(g.next_id(), 1);
    assert_eq!(g.next_id(), 2);
    assert_eq!(g.next_id(), 3);
}

#[test]
fn create_ids_distinct_and_increasing() {
    let mut s = TaskStore::new();
    let mut last = 0;
    for k in 0..50u64 {
        let t = s.create(format!("t{}", k));
        assert!(t.id > last);
        last = t.id;
    }
    assert_eq!(last, 50);
}

#[test]
fn create_then_get_round_trip() {
    let mut s = TaskStore::new();
    let t = s.create("write report".to_string());
    assert_eq!(fields(&t), (1, "write report".to_string(), false));
    let g = s.get(t.id).unwrap();
    assert_eq!(fields(&g), (1, "write report".to_string(), false));
}

#[test]
fn create_accepts_empty_title() {
    let mut s = TaskStore::new();
    let t = s.create(String::new());
    assert_eq!(fields(&t), (1, String::new(), false));
    assert_eq!(fields(&s.get(1).unwrap()), (1, String::new(), false));
}

#[test]
fn partial_update_keeps_title() {
    let mut s = TaskStore::new();
    let t = s.create("A".to_string());
    let u = s.update(t.id, None, Some(true)).unwrap();
    assert_eq!(fields(&u), (1, "A".to_string(), true));
    assert_eq!(fields(&s.get(t.id).unwrap()), (1, "A".to_string(), true));
}

#[test]
fn update_title_only_keeps_completed() {
    let mut s = TaskStore::new();
    s.create("A".to_string());
    s.update(1, None, Some(true)).unwrap();
    let u = s.update(1, Some("B".to_string()), None).unwrap();
    assert_eq!(fields(&u), (1, "B".to_string(), true));
}

#[test]
fn update_both_fields() {
    let mut s = TaskStore::new();
    s.create("A".to_string());
    let u = s.update(1, Some("C".to_string()), Some(true)).unwrap();
    assert_eq!(fields(&u), (1, "C".to_string(), true));
}

#[test]
fn update_with_nothing_is_a_no_op() {
    let mut s = TaskStore::new();
    s.create("A".to_string());
    let u = s.update(1, None, None).unwrap();
    assert_eq!(fields(&u), (1, "A".to_string(), false));
}

#[test]
fn delete_removes_task() {
    let mut s = TaskStore::new();
    s.create("a".to_string());
    s.create("b".to_string());
    assert_eq!(s.delete(1), Ok(()));
    assert_eq!(s.get(1).unwrap_err(), TaskError::NotFound);
    let ids: Vec<u64> = s.list().iter().map(|t| t.id).collect();
    assert_eq!(ids, vec![2]);
    assert_eq!(s.delete(1), Err(TaskError::NotFound));
}

#[test]
fn ids_not_reused_after_delete() {
    let mut s = TaskStore::new();
    s.create("a".to_string());
    s.delete(1).unwrap();
    let t = s.create("b".to_string());
    assert_eq!(t.id, 2);
}

#[test]
fn unknown_ids_not_found() {
    let mut s = TaskStore::new();
    for id in [0u64, 999999] {
        assert_eq!(s.get(id).unwrap_err(), TaskError::NotFound);
        assert_eq!(s.update(id, Some("x".to_string()), Some(true)).unwrap_err(), TaskError::NotFound);
        assert_eq!(s.delete(id), Err(TaskError::NotFound));
    }
    assert!(s.list().is_empty());
}

#[test]
fn list_keeps_creation_order() {
    let mut s = TaskStore::new();
    let a = s.create("one".to_string());
    let b = s.create("two".to_string());
    let c = s.create("three".to_string());
    let listed: Vec<(u64, String, bool)> = s.list().iter().map(fields).collect();
    assert_eq!(
        listed,
        vec![fields(&a), fields(&b), fields(&c)]
    );
    assert_eq!(listed.iter().map(|x| x.0).collect::<Vec<u64>>(), vec![1, 2, 3]);
}

#[test]
fn list_of_new_store_is_empty() {
    let s = TaskStore::new();
    assert!(s.list().is_empty());
    assert!(s.can_create());
}

#[test]
fn serialized_creates_fill_one_to_n() {
    let store = std::sync::Mutex::new(TaskStore::new());
    let n = 8u64;
    let mut ids: Vec<u64> = (0..n)
        .map(|k| store.lock().unwrap().create(format!("job {}", k)).id)
        .collect();
    ids.sort();
    ids.dedup();
    assert_eq!(ids, (1..=n).collect::<Vec<u64>>());
}
