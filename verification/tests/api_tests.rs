use todomvc::api::{
    clear_completed, create_todo, delete_todo, list_todos, toggle_all, update_todo, Response,
};
use todomvc::models::{CreateTodo, Todo, ToggleAll, UpdateTodo};
use todomvc::store::TodoStore;

fn setup_store() -> TodoStore {
    TodoStore::new()
}

fn post(store: &mut TodoStore, title: &str) -> Response {
    create_todo(store, CreateTodo { title: title.to_string() })
}

fn created(resp: Response) -> Todo {
    match resp {
        Response::Created(todo) => todo,
        other => panic!("expected a created todo, got {:?}", other),
    }
}

fn updated(resp: Response) -> Todo {
    match resp {
        Response::Updated(todo) => todo,
        other => panic!("expected an updated todo, got {:?}", other),
    }
}

fn listed(resp: Response) -> Vec<Todo> {
    match resp {
        Response::Todos(todos) => todos,
        other => panic!("expected a list, got {:?}", other),
    }
}

fn patch(title: Option<&str>, completed: Option<bool>) -> UpdateTodo {
    UpdateTodo { title: title.map(|t| t.to_string()), completed, display_order: None }
}

// ── List (empty) ──────────────────────────────────────────────

#[test]
fn list_todos_empty() {
    let store = setup_store();
    let resp = list_todos(&store);
    assert_eq!(resp.status(), 200);
    let todos = listed(resp);
    assert!(todos.is_empty());
}

// ── Create ────────────────────────────────────────────────────

#[test]
fn create_todo_success() {
    let mut store = setup_store();
    let resp = post(&mut store, "Buy milk");
    assert_eq!(resp.status(), 201);
    let todo = created(resp);
    assert_eq!(todo.title, "Buy milk");
    assert!(!todo.completed);
    assert_eq!(todo.display_order, 1);
}

#[test]
fn create_todo_trims_whitespace() {
    let mut store = setup_store();
    let resp = post(&mut store, "  Buy milk  ");
    assert_eq!(resp.status(), 201);
    let todo = created(resp);
    assert_eq!(todo.title, "Buy milk");
}

#[test]
fn create_todo_empty_title_returns_400() {
    let mut store = setup_store();
    let resp = post(&mut store, "   ");
    assert_eq!(resp.status(), 400);
}

// ── Update ────────────────────────────────────────────────────

#[test]
fn update_todo_title() {
    let mut store = setup_store();
    let created = created(post(&mut store, "Original"));

    let resp = update_todo(&mut store, created.id, patch(Some("Updated"), None));
    assert_eq!(resp.status(), 200);
    let updated = updated(resp);
    assert_eq!(updated.title, "Updated");
    assert_eq!(updated.id, created.id);
}

#[test]
fn update_todo_completed() {
    let mut store = setup_store();
    let created = created(post(&mut store, "Test"));

    let resp = update_todo(&mut store, created.id, patch(None, Some(true)));
    assert_eq!(resp.status(), 200);
    let updated = updated(resp);
    assert!(updated.completed);
}

#[test]
fn update_nonexistent_todo_returns_404() {
    let mut store = setup_store();
    let resp = update_todo(&mut store, 9999, patch(Some("Nope"), None));
    assert_eq!(resp.status(), 404);
}

#[test]
fn update_todo_empty_title_returns_400() {
    let mut store = setup_store();
    let created = created(post(&mut store, "Test"));

    let resp = update_todo(&mut store, created.id, patch(Some("   "), None));
    assert_eq!(resp.status(), 400);
}

// ── Delete ────────────────────────────────────────────────────

#[test]
fn delete_todo_success() {
    let mut store = setup_store();
    let created = created(post(&mut store, "Delete me"));

    let resp = delete_todo(&mut store, created.id);
    assert_eq!(resp.status(), 204);

    // Verify it's gone
    let todos = listed(list_todos(&store));
    assert!(todos.is_empty());
}

#[test]
fn delete_nonexistent_todo_returns_404() {
    let mut store = setup_store();
    let resp = delete_todo(&mut store, 9999);
    assert_eq!(resp.status(), 404);
}

// ── Toggle All ────────────────────────────────────────────────

#[test]
fn toggle_all_sets_completed() {
    let mut store = setup_store();

    // Create two todos
    for title in &["Todo 1", "Todo 2"] {
        post(&mut store, title);
    }

    // Toggle all to completed
    let resp = toggle_all(&mut store, ToggleAll { completed: true });
    assert_eq!(resp.status(), 200);
    let todos = listed(resp);
    assert_eq!(todos.len(), 2);
    assert!(todos.iter().all(|t| t.completed));

    // Toggle all back to incomplete
    let resp = toggle_all(&mut store, ToggleAll { completed: false });
    assert_eq!(resp.status(), 200);
    let todos = listed(resp);
    assert!(todos.iter().all(|t| !t.completed));
}

// ── Clear Completed ───────────────────────────────────────────

#[test]
fn clear_completed_removes_only_completed() {
    let mut store = setup_store();

    // Create two todos
    let _active = created(post(&mut store, "Keep me"));
    let to_complete = created(post(&mut store, "Complete me"));

    // Mark second as completed
    update_todo(&mut store, to_complete.id, patch(None, Some(true)));

    // Clear completed
    let resp = clear_completed(&mut store);
    assert_eq!(resp.status(), 204);

    // Verify only active todo remains
    let todos = listed(list_todos(&store));
    assert_eq!(todos.len(), 1);
    assert_eq!(todos[0].title, "Keep me");
}

// ── List ordering ─────────────────────────────────────────────

#[test]
fn list_todos_ordered_by_display_order() {
    let mut store = setup_store();

    for title in &["First", "Second", "Third"] {
        post(&mut store, title);
    }

    let todos = listed(list_todos(&store));
    assert_eq!(todos.len(), 3);
    assert_eq!(todos[0].title, "First");
    assert_eq!(todos[1].title, "Second");
    assert_eq!(todos[2].title, "Third");
}
