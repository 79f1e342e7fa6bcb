use todomvc::api::{
    clear_completed, create_todo, delete_todo, list_todos, toggle_all, update_todo, Rejection,
    Response,
};
use todomvc::models::{CreateTodo, Todo, ToggleAll, UpdateTodo};
use todomvc::store::{next_id_for, TodoStore};

fn todo(id: i64, title: &str, completed: bool, display_order: i64) -> Todo {
    Todo { id, title: title.to_string(), completed, display_order }
}

fn add(store: &mut TodoStore, title: &str) -> Todo {
    match create_todo(store, CreateTodo { title: title.to_string() }) {
        Response::Created(t) => t,
        other => panic!("expected a created todo, got {:?}", other),
    }
}

fn list(store: &TodoStore) -> Vec<Todo> {
    match list_todos(store) {
        Response::Todos(v) => v,
        other => panic!("expected a list, got {:?}", other),
    }
}

fn titles(todos: &[Todo]) -> Vec<String> {
    todos.iter().map(|t| t.title.clone()).collect()
}

#[test]
fn create_assigns_sequential_ids_and_orders() {
    let mut store = TodoStore::new();
    let a = add(&mut store, "a");
    let b = add(&mut store, "b");
    assert_eq!((a.id, a.display_order), (1, 1));
    assert_eq!((b.id, b.display_order), (2, 2));
}

#[test]
fn create_then_list_appends_last() {
    let mut store = TodoStore::new();
    add(&mut store, "first");
    let t = add(&mut store, " second ");
    let todos = list(&store);
    assert_eq!(todos.len(), 2);
    assert_eq!(todos[1].id, t.id);
    assert_eq!(todos[1].title, "second");
    assert!(!todos[1].completed);
}

#[test]
fn create_after_moving_order_goes_past_the_largest() {
    let mut store = TodoStore::new();
    let a = add(&mut store, "a");
    update_todo(
        &mut store,
        a.id,
        UpdateTodo { title: None, completed: None, display_order: Some(10) },
    );
    let b = add(&mut store, "b");
    assert_eq!(b.display_order, 11);
}

#[test]
fn create_with_negative_orders_uses_their_maximum() {
    let rows = vec![todo(1, "a", false, -7), todo(2, "b", false, -3)];
    let mut store = TodoStore::from_rows(rows, 3).expect("rows in order");
    let c = add(&mut store, "c");
    assert_eq!(c.display_order, -2);
    assert_eq!(c.id, 3);
}

#[test]
fn create_blank_title_changes_nothing() {
    let mut store = TodoStore::new();
    add(&mut store, "x");
    let resp = create_todo(&mut store, CreateTodo { title: "\t \n".to_string() });
    match resp {
        Response::BadRequest(r) => {
            assert_eq!(r, Rejection::EmptyTitle);
            assert_eq!(r.message(), "title must not be empty");
        }
        other => panic!("unexpected {:?}", other),
    }
    assert_eq!(list(&store).len(), 1);
}

#[test]
fn create_when_ids_are_exhausted_is_500() {
    let mut store = TodoStore::from_rows(vec![todo(5, "a", false, 1)], i64::MAX).expect("valid");
    let resp = create_todo(&mut store, CreateTodo { title: "b".to_string() });
    assert_eq!(resp.status(), 500);
    assert_eq!(list(&store).len(), 1);
}

#[test]
fn create_when_orders_are_exhausted_is_500() {
    let mut store =
        TodoStore::from_rows(vec![todo(1, "a", false, i64::MAX)], 2).expect("valid");
    let resp = create_todo(&mut store, CreateTodo { title: "b".to_string() });
    assert_eq!(resp.status(), 500);
}

#[test]
fn update_with_no_fields_is_400() {
    let mut store = TodoStore::new();
    let a = add(&mut store, "a");
    let resp = update_todo(
        &mut store,
        a.id,
        UpdateTodo { title: None, completed: None, display_order: None },
    );
    match resp {
        Response::BadRequest(r) => {
            assert_eq!(r, Rejection::NoFields);
            assert_eq!(r.message(), "no fields to update");
        }
        other => panic!("unexpected {:?}", other),
    }
    assert_eq!(resp_status_of_missing(), 400);
}

fn resp_status_of_missing() -> u16 {
    let mut store = TodoStore::new();
    update_todo(&mut store, 1, UpdateTodo { title: None, completed: None, display_order: None })
        .status()
}

#[test]
fn update_with_no_fields_on_unknown_id_is_400_not_404() {
    assert_eq!(resp_status_of_missing(), 400);
}

#[test]
fn update_blank_title_on_unknown_id_is_404() {
    let mut store = TodoStore::new();
    let resp = update_todo(
        &mut store,
        3,
        UpdateTodo { title: Some("  ".to_string()), completed: None, display_order: None },
    );
    assert_eq!(resp.status(), 404);
}

#[test]
fn update_keeps_fields_not_named() {
    let mut store = TodoStore::new();
    let a = add(&mut store, "a");
    let resp = update_todo(
        &mut store,
        a.id,
        UpdateTodo { title: None, completed: Some(true), display_order: None },
    );
    match resp {
        Response::Updated(t) => {
            assert_eq!(t.id, a.id);
            assert_eq!(t.title, "a");
            assert!(t.completed);
            assert_eq!(t.display_order, a.display_order);
        }
        other => panic!("unexpected {:?}", other),
    }
}

#[test]
fn update_trims_the_new_title() {
    let mut store = TodoStore::new();
    let a = add(&mut store, "a");
    update_todo(
        &mut store,
        a.id,
        UpdateTodo { title: Some("  b  ".to_string()), completed: None, display_order: None },
    );
    assert_eq!(list(&store)[0].title, "b");
}

#[test]
fn update_display_order_moves_the_todo() {
    let mut store = TodoStore::new();
    let a = add(&mut store, "a");
    add(&mut store, "b");
    add(&mut store, "c");
    update_todo(
        &mut store,
        a.id,
        UpdateTodo { title: None, completed: None, display_order: Some(5) },
    );
    assert_eq!(titles(&list(&store)), vec!["b", "c", "a"]);
    let c = list(&store)[1].clone();
    update_todo(
        &mut store,
        c.id,
        UpdateTodo { title: None, completed: None, display_order: Some(0) },
    );
    assert_eq!(titles(&list(&store)), vec!["c", "b", "a"]);
}

#[test]
fn equal_display_orders_are_listed_by_id() {
    let mut store = TodoStore::new();
    let a = add(&mut store, "a");
    let b = add(&mut store, "b");
    update_todo(
        &mut store,
        a.id,
        UpdateTodo { title: None, completed: None, display_order: Some(b.display_order) },
    );
    let todos = list(&store);
    assert_eq!(todos[0].id, a.id);
    assert_eq!(todos[1].id, b.id);
}

#[test]
fn deleted_ids_are_not_reused() {
    let mut store = TodoStore::new();
    add(&mut store, "a");
    let b = add(&mut store, "b");
    assert_eq!(delete_todo(&mut store, b.id).status(), 204);
    let c = add(&mut store, "c");
    assert!(c.id > b.id);
    assert_eq!(delete_todo(&mut store, b.id).status(), 404);
}

#[test]
fn toggle_all_twice_keeps_only_the_last_value() {
    let mut store = TodoStore::new();
    add(&mut store, "a");
    add(&mut store, "b");
    toggle_all(&mut store, ToggleAll { completed: true });
    let resp = toggle_all(&mut store, ToggleAll { completed: false });
    match resp {
        Response::Todos(v) => {
            assert_eq!(titles(&v), vec!["a", "b"]);
            assert!(v.iter().all(|t| !t.completed));
        }
        other => panic!("unexpected {:?}", other),
    }
}

#[test]
fn toggle_all_on_empty_list_is_200_and_empty() {
    let mut store = TodoStore::new();
    let resp = toggle_all(&mut store, ToggleAll { completed: true });
    assert_eq!(resp.status(), 200);
    match resp {
        Response::Todos(v) => assert!(v.is_empty()),
        other => panic!("unexpected {:?}", other),
    }
}

#[test]
fn clear_completed_twice_is_idempotent() {
    let mut store = TodoStore::new();
    let a = add(&mut store, "a");
    add(&mut store, "b");
    let c = add(&mut store, "c");
    update_todo(&mut store, a.id, UpdateTodo { title: None, completed: Some(true), display_order: None });
    update_todo(&mut store, c.id, UpdateTodo { title: None, completed: Some(true), display_order: None });
    assert_eq!(clear_completed(&mut store).status(), 204);
    let once = titles(&list(&store));
    assert_eq!(clear_completed(&mut store).status(), 204);
    assert_eq!(titles(&list(&store)), once);
    assert_eq!(once, vec!["b"]);
}

#[test]
fn status_codes_of_each_response() {
    let t = todo(1, "a", false, 1);
    assert_eq!(Response::Todos(vec![]).status(), 200);
    assert_eq!(Response::Created(t.clone()).status(), 201);
    assert_eq!(Response::Updated(t).status(), 200);
    assert_eq!(Response::NoContent.status(), 204);
    assert_eq!(Response::BadRequest(Rejection::NoFields).status(), 400);
    assert_eq!(Response::NotFound.status(), 404);
    assert_eq!(Response::InternalServerError.status(), 500);
}

#[test]
fn from_rows_accepts_ordered_rows() {
    let rows = vec![todo(2, "a", true, 1), todo(1, "b", false, 2), todo(3, "c", false, 2)];
    let store = TodoStore::from_rows(rows, 4).expect("valid rows");
    assert_eq!(list(&store).len(), 3);
    assert_eq!(titles(&list(&store)), vec!["a", "b", "c"]);
    assert_eq!(store.get(0).id, 2);
    assert_eq!(store.find(3), Some(2));
    assert_eq!(store.find(9), None);
}

#[test]
fn from_rows_refuses_rows_out_of_order() {
    let rows = vec![todo(1, "a", false, 2), todo(2, "b", false, 1)];
    assert!(TodoStore::from_rows(rows, 3).is_none());
    let rows = vec![todo(2, "a", false, 1), todo(1, "b", false, 1)];
    assert!(TodoStore::from_rows(rows, 3).is_none());
}

#[test]
fn from_rows_refuses_duplicate_or_large_ids() {
    let rows = vec![todo(1, "a", false, 1), todo(1, "b", false, 2)];
    assert!(TodoStore::from_rows(rows, 3).is_none());
    let rows = vec![todo(1, "a", false, 1), todo(3, "b", false, 2)];
    assert!(TodoStore::from_rows(rows, 3).is_none());
}

#[test]
fn next_id_goes_past_stored_and_handed_out_ids() {
    assert_eq!(next_id_for(&vec![], 0), 1);
    assert_eq!(next_id_for(&vec![todo(3, "a", false, 1), todo(7, "b", false, 2)], 4), 8);
    assert_eq!(next_id_for(&vec![todo(3, "a", false, 1)], 9), 10);
    assert_eq!(next_id_for(&vec![todo(-4, "a", false, 1)], -9), -3);
    assert_eq!(next_id_for(&vec![todo(i64::MAX, "a", false, 1)], 0), i64::MAX);
    assert_eq!(next_id_for(&vec![], i64::MAX), i64::MAX);
}

#[test]
fn next_id_loads_a_store_that_continues_the_ids() {
    let rows = vec![todo(3, "a", false, 1), todo(7, "b", false, 2)];
    let next = next_id_for(&rows, 9);
    let mut store = TodoStore::from_rows(rows, next).expect("valid rows");
    assert_eq!(add(&mut store, "c").id, 10);
}
