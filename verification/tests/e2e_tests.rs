//! Full user flows through the API's handlers, each a realistic scenario from
//! start to finish.

use todomvc::api::{
    clear_completed, create_todo, delete_todo, list_todos, toggle_all, update_todo, Response,
};
use todomvc::models::{CreateTodo, Todo, ToggleAll, UpdateTodo};
use todomvc::store::TodoStore;

fn setup() -> TodoStore {
    TodoStore::new()
}

fn post_todo(store: &mut TodoStore, title: &str) -> Todo {
    let resp = create_todo(store, CreateTodo { title: title.to_string() });
    assert_eq!(resp.status(), 201);
    match resp {
        Response::Created(todo) => todo,
        other => panic!("expected a created todo, got {:?}", other),
    }
}

fn get_todos(store: &TodoStore) -> Vec<Todo> {
    let resp = list_todos(store);
    assert_eq!(resp.status(), 200);
    match resp {
        Response::Todos(todos) => todos,
        other => panic!("expected a list, got {:?}", other),
    }
}

fn listed(resp: Response) -> Vec<Todo> {
    match resp {
        Response::Todos(todos) => todos,
        other => panic!("expected a list, got {:?}", other),
    }
}

fn set_completed(completed: bool) -> UpdateTodo {
    UpdateTodo { title: None, completed: Some(completed), display_order: None }
}

fn set_title(title: &str) -> UpdateTodo {
    UpdateTodo { title: Some(title.to_string()), completed: None, display_order: None }
}

// ── Flow: Add multiple todos, verify ordering ─────────────────

#[test]
fn flow_add_multiple_todos() {
    let mut store = setup();

    let t1 = post_todo(&mut store, "Buy groceries");
    let t2 = post_todo(&mut store, "Walk the dog");
    let t3 = post_todo(&mut store, "Read a book");

    assert!(!t1.completed);
    assert!(!t2.completed);
    assert!(!t3.completed);

    let todos = get_todos(&store);
    assert_eq!(todos.len(), 3);
    assert_eq!(todos[0].title, "Buy groceries");
    assert_eq!(todos[1].title, "Walk the dog");
    assert_eq!(todos[2].title, "Read a book");
    // display_order should be sequential
    assert!(todos[0].display_order < todos[1].display_order);
    assert!(todos[1].display_order < todos[2].display_order);
}

// ── Flow: Add, complete, filter, clear ────────────────────────

#[test]
fn flow_complete_filter_clear() {
    let mut store = setup();

    // Add three todos
    let t1 = post_todo(&mut store, "Task A");
    let _t2 = post_todo(&mut store, "Task B");
    let t3 = post_todo(&mut store, "Task C");

    // Complete Task A and Task C
    for id in [t1.id, t3.id] {
        let resp = update_todo(&mut store, id, set_completed(true));
        assert_eq!(resp.status(), 200);
    }

    // Verify: 2 completed, 1 active
    let todos = get_todos(&store);
    let active: Vec<_> = todos.iter().filter(|t| !t.completed).collect();
    let completed: Vec<_> = todos.iter().filter(|t| t.completed).collect();
    assert_eq!(active.len(), 1);
    assert_eq!(active[0].title, "Task B");
    assert_eq!(completed.len(), 2);

    // Clear completed
    let resp = clear_completed(&mut store);
    assert_eq!(resp.status(), 204);

    // Only Task B should remain
    let todos = get_todos(&store);
    assert_eq!(todos.len(), 1);
    assert_eq!(todos[0].title, "Task B");
    assert!(!todos[0].completed);
}

// ── Flow: Add, edit title, verify persistence ─────────────────

#[test]
fn flow_add_and_edit() {
    let mut store = setup();

    let todo = post_todo(&mut store, "Orignal title");

    // Edit the title (fix typo)
    let resp = update_todo(&mut store, todo.id, set_title("Original title"));
    assert_eq!(resp.status(), 200);
    let updated = match resp {
        Response::Updated(todo) => todo,
        other => panic!("expected an updated todo, got {:?}", other),
    };
    assert_eq!(updated.title, "Original title");
    assert_eq!(updated.id, todo.id);
    assert!(!updated.completed);

    // Verify persisted
    let todos = get_todos(&store);
    assert_eq!(todos.len(), 1);
    assert_eq!(todos[0].title, "Original title");
}

// ── Flow: Toggle-all complete then uncomplete ─────────────────

#[test]
fn flow_toggle_all_round_trip() {
    let mut store = setup();

    post_todo(&mut store, "One");
    post_todo(&mut store, "Two");
    post_todo(&mut store, "Three");

    // Toggle all to completed
    let resp = toggle_all(&mut store, ToggleAll { completed: true });
    assert_eq!(resp.status(), 200);
    let todos = listed(resp);
    assert!(todos.iter().all(|t| t.completed));

    // Toggle all back to active
    let resp = toggle_all(&mut store, ToggleAll { completed: false });
    assert_eq!(resp.status(), 200);
    let todos = listed(resp);
    assert!(todos.iter().all(|t| !t.completed));
}

// ── Flow: Add, delete, verify gone ────────────────────────────

#[test]
fn flow_add_and_delete() {
    let mut store = setup();

    let t1 = post_todo(&mut store, "Keep");
    let t2 = post_todo(&mut store, "Delete me");

    // Delete t2
    let resp = delete_todo(&mut store, t2.id);
    assert_eq!(resp.status(), 204);

    // Verify only t1 remains
    let todos = get_todos(&store);
    assert_eq!(todos.len(), 1);
    assert_eq!(todos[0].id, t1.id);
    assert_eq!(todos[0].title, "Keep");

    // Deleting again should 404
    let resp = delete_todo(&mut store, t2.id);
    assert_eq!(resp.status(), 404);
}

// ── Flow: Full lifecycle — add, complete some, edit, toggle-all, clear ──

#[test]
fn flow_full_lifecycle() {
    let mut store = setup();

    // 1. Start empty
    let todos = get_todos(&store);
    assert!(todos.is_empty());

    // 2. Add todos
    let t1 = post_todo(&mut store, "Learn Rust");
    let t2 = post_todo(&mut store, "Build TodoMVC");
    let t3 = post_todo(&mut store, "Write tests");

    // 3. Complete "Build TodoMVC"
    let resp = update_todo(&mut store, t2.id, set_completed(true));
    assert_eq!(resp.status(), 200);

    // 4. Edit "Learn Rust" to "Learn Leptos"
    let resp = update_todo(&mut store, t1.id, set_title("Learn Leptos"));
    assert_eq!(resp.status(), 200);

    // 5. Verify state: 2 active, 1 completed
    let todos = get_todos(&store);
    assert_eq!(todos.len(), 3);
    assert_eq!(todos[0].title, "Learn Leptos");
    assert!(!todos[0].completed);
    assert_eq!(todos[1].title, "Build TodoMVC");
    assert!(todos[1].completed);
    assert_eq!(todos[2].title, "Write tests");
    assert!(!todos[2].completed);

    // 6. Toggle all to completed
    let resp = toggle_all(&mut store, ToggleAll { completed: true });
    assert_eq!(resp.status(), 200);
    let todos = listed(resp);
    assert!(todos.iter().all(|t| t.completed));

    // 7. Delete "Write tests"
    let resp = delete_todo(&mut store, t3.id);
    assert_eq!(resp.status(), 204);

    // 8. Clear completed — removes remaining two
    let resp = clear_completed(&mut store);
    assert_eq!(resp.status(), 204);

    // 9. Verify empty
    let todos = get_todos(&store);
    assert!(todos.is_empty());
}

// ── Flow: Edge cases in a realistic sequence ──────────────────

#[test]
fn flow_edge_cases() {
    let mut store = setup();

    // Cannot create with blank title
    let resp = create_todo(&mut store, CreateTodo { title: "   ".to_string() });
    assert_eq!(resp.status(), 400);

    // Create a real todo
    let todo = post_todo(&mut store, "  Trimmed  ");
    assert_eq!(todo.title, "Trimmed");

    // Cannot update to blank title
    let resp = update_todo(&mut store, todo.id, set_title("  "));
    assert_eq!(resp.status(), 400);

    // Update nonexistent todo
    let resp = update_todo(&mut store, 99999, set_title("Nope"));
    assert_eq!(resp.status(), 404);

    // Delete nonexistent todo
    let resp = delete_todo(&mut store, 99999);
    assert_eq!(resp.status(), 404);

    // Clear completed when none are completed — should succeed
    let resp = clear_completed(&mut store);
    assert_eq!(resp.status(), 204);

    // Original todo still exists
    let todos = get_todos(&store);
    assert_eq!(todos.len(), 1);
    assert_eq!(todos[0].title, "Trimmed");
}
