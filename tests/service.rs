use task_manager::service::{
    create_task, delete_task, get_task, list_tasks, update_task, Body, CREATED, NOT_FOUND, NO_CONTENT, OK,
};
use task_manager::store::TaskStore;

fn one(b: &Body) -> (u64, String, bool) {
    match b {
        Body::One(t) => (t.id, t.title.clone(), t.completed),
        _ => panic!("expected one task"),
    }
}

#[test]
fn http_scenario_buy_milk() {
    let mut s = TaskStore::new();
    let r = create_task(&mut s, "buy milk".to_string());
    assert_eq!(r.status, 201);
    assert_eq!(one(&r.body), (1, "buy milk".to_string(), false));

    let r = get_task(&s, 1);
    assert_eq!(r.status, 200);
    assert_eq!(one(&r.body), (1, "buy milk".to_string(), false));

    let r = update_task(&mut s, 1, None, Some(true));
    assert_eq!(r.status, 200);
    assert_eq!(one(&r.body), (1, "buy milk".to_string(), true));

    let r = delete_task(&mut s, 1);
    assert_eq!(r.status, 204);
    assert!(matches!(r.body, Body::Empty));

    let r = get_task(&s, 1);
    assert_eq!(r.status, 404);
    assert!(matches!(r.body, Body::Empty));
}

#[test]
fn status_constants() {
    assert_eq!((OK, CREATED, NO_CONTENT, NOT_FOUND), (200, 201, 204, 404));
}

#[test]
fn list_handler_returns_all() {
    let mut s = TaskStore::new();
    create_task(&mut s, "x".to_string());
    create_task(&mut s, "y".to_string());
    let r = list_tasks(&s);
    assert_eq!(r.status, 200);
    match r.body {
        Body::Many(v) => {
            let got: Vec<(u64, String)> = v.iter().map(|t| (t.id, t.title.clone())).collect();
            assert_eq!(got, vec![(1, "x".to_string()), (2, "y".to_string())]);
        }
        _ => panic!("expected a list"),
    }
}

#[test]
fn handlers_answer_404_on_unknown() {
    let mut s = TaskStore::new();
    assert_eq!(get_task(&s, 7).status, 404);
    let r = update_task(&mut s, 7, Some("t".to_string()), None);
    assert_eq!(r.status, 404);
    assert!(matches!(r.body, Body::Empty));
    assert_eq!(delete_task(&mut s, 7).status, 404);
}
