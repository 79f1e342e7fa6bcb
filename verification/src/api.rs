//! The REST API's handlers, as decisions on the table of todos: each takes the
//! table and the request's parts and returns the response, status and body.
//!
//! | Method   | Path                     | Handler           |
//! |----------|--------------------------|-------------------|
//! | `GET`    | `/api/todos`             | `list_todos`      |
//! | `POST`   | `/api/todos`             | `create_todo`     |
//! | `PATCH`  | `/api/todos/:id`         | `update_todo`     |
//! | `DELETE` | `/api/todos/:id`         | `delete_todo`     |
//! | `PATCH`  | `/api/todos/toggle-all`  | `toggle_all`      |
//! | `DELETE` | `/api/todos/completed`   | `clear_completed` |

use vstd::prelude::*;
use crate::models::{CreateTodo, Todo, TodoView, ToggleAll, UpdateTodo, UpdateTodoView, views};
use crate::store::{
    StoreModel,
    TodoStore,
    active_todos,
    appended,
    can_allocate,
    has_id,
    index_of,
    insert_sorted,
    new_todo,
    with_completed,
};
use crate::text::{is_blank, trim, trimmed};

verus! {

/// Why a request is refused with `400 Bad Request`.
#[derive(Debug, Clone, Copy, PartialEq, Eq, Structural)]
pub enum Rejection {
    /// The title is empty once trimmed.
    EmptyTitle,
    /// An update names no field to change.
    NoFields,
}

/// The text of the `400` response body.
pub open spec fn rejection_message(r: Rejection) -> Seq<char> {
    match r {
        Rejection::EmptyTitle => "title must not be empty"@,
        Rejection::NoFields => "no fields to update"@,
    }
}

impl Rejection {
    /// The text of the `400` response body.
    pub fn message(&self) -> (r: &'static str)
        ensures
            r@ == rejection_message(*self),
    {
        match self {
            Rejection::EmptyTitle => "title must not be empty",
            Rejection::NoFields => "no fields to update",
        }
    }
}

/// A response of the API: its status and its body.
#[derive(Debug)]
pub enum Response {
    /// `200 OK` with the list of todos as JSON.
    Todos(Vec<Todo>),
    /// `201 Created` with the new todo as JSON.
    Created(Todo),
    /// `200 OK` with the updated todo as JSON.
    Updated(Todo),
    /// `204 No Content`.
    NoContent,
    /// `400 Bad Request` with a message.
    BadRequest(Rejection),
    /// `404 Not Found`.
    NotFound,
    /// `500 Internal Server Error`.
    InternalServerError,
}

/// The mathematical value of a response.
pub enum ResponseView {
    Todos(Seq<TodoView>),
    Created(TodoView),
    Updated(TodoView),
    NoContent,
    BadRequest(Rejection),
    NotFound,
    InternalServerError,
}

impl View for Response {
    type V = ResponseView;

    open spec fn view(&self) -> ResponseView {
        match self {
            Response::Todos(v) => ResponseView::Todos(views(v@)),
            Response::Created(t) => ResponseView::Created(t@),
            Response::Updated(t) => ResponseView::Updated(t@),
            Response::NoContent => ResponseView::NoContent,
            Response::BadRequest(r) => ResponseView::BadRequest(*r),
            Response::NotFound => ResponseView::NotFound,
            Response::InternalServerError => ResponseView::InternalServerError,
        }
    }
}

/// The HTTP status code of a response.
pub open spec fn status_of(r: ResponseView) -> u16 {
    match r {
        ResponseView::Todos(_) => 200,
        ResponseView::Created(_) => 201,
        ResponseView::Updated(_) => 200,
        ResponseView::NoContent => 204,
        ResponseView::BadRequest(_) => 400,
        ResponseView::NotFound => 404,
        ResponseView::InternalServerError => 500,
    }
}

impl Response {
    /// The HTTP status code of the response.
    pub fn status(&self) -> (r: u16)
        ensures
            r == status_of(self@),
    {
        match self {
            Response::Todos(_) => 200,
            Response::Created(_) => 201,
            Response::Updated(_) => 200,
            Response::NoContent => 204,
            Response::BadRequest(_) => 400,
            Response::NotFound => 404,
            Response::InternalServerError => 500,
        }
    }
}

/// `GET /api/todos`: all todos, by display order then id.
pub open spec fn list_reply(m: StoreModel) -> ResponseView {
    ResponseView::Todos(m.todos)
}

/// `POST /api/todos` with title `title`: the response.
pub open spec fn create_reply(m: StoreModel, title: Seq<char>) -> ResponseView {
    if is_blank(title) {
        ResponseView::BadRequest(Rejection::EmptyTitle)
    } else if !can_allocate(m) {
        ResponseView::InternalServerError
    } else {
        ResponseView::Created(new_todo(m, trimmed(title)))
    }
}

/// `POST /api/todos` with title `title`: the table afterwards.
pub open spec fn create_state(m: StoreModel, title: Seq<char>) -> StoreModel {
    if !is_blank(title) && can_allocate(m) {
        appended(m, trimmed(title))
    } else {
        m
    }
}

/// An update request that names no field.
pub open spec fn no_fields(u: UpdateTodoView) -> bool {
    u.title is None && u.completed is None && u.display_order is None
}

/// The todo `cur` with the fields that `u` names replaced, the title trimmed.
pub open spec fn merged(cur: TodoView, u: UpdateTodoView) -> TodoView {
    TodoView {
        id: cur.id,
        title: match u.title {
            Some(t) => trimmed(t),
            None => cur.title,
        },
        completed: match u.completed {
            Some(c) => c,
            None => cur.completed,
        },
        display_order: match u.display_order {
            Some(d) => d,
            None => cur.display_order,
        },
    }
}

/// `PATCH /api/todos/:id`: the response.
pub open spec fn update_reply(m: StoreModel, id: i64, u: UpdateTodoView) -> ResponseView {
    if no_fields(u) {
        ResponseView::BadRequest(Rejection::NoFields)
    } else if !has_id(m.todos, id) {
        ResponseView::NotFound
    } else if u.title matches Some(t) && is_blank(t) {
        ResponseView::BadRequest(Rejection::EmptyTitle)
    } else {
        ResponseView::Updated(merged(m.todos[index_of(m.todos, id)], u))
    }
}

/// `PATCH /api/todos/:id`: the table afterwards.
pub open spec fn update_state(m: StoreModel, id: i64, u: UpdateTodoView) -> StoreModel {
    match update_reply(m, id, u) {
        ResponseView::Updated(t) => StoreModel {
            todos: insert_sorted(m.todos.remove(index_of(m.todos, id)), t),
            next_id: m.next_id,
        },
        _ => m,
    }
}

/// `DELETE /api/todos/:id`: the response.
pub open spec fn delete_reply(m: StoreModel, id: i64) -> ResponseView {
    if has_id(m.todos, id) {
        ResponseView::NoContent
    } else {
        ResponseView::NotFound
    }
}

/// `DELETE /api/todos/:id`: the table afterwards.
pub open spec fn delete_state(m: StoreModel, id: i64) -> StoreModel {
    if has_id(m.todos, id) {
        StoreModel { todos: m.todos.remove(index_of(m.todos, id)), next_id: m.next_id }
    } else {
        m
    }
}

/// `PATCH /api/todos/toggle-all`: the table afterwards.
pub open spec fn toggle_all_state(m: StoreModel, completed: bool) -> StoreModel {
    StoreModel { todos: with_completed(m.todos, completed), next_id: m.next_id }
}

/// `PATCH /api/todos/toggle-all`: the response, the list afterwards.
pub open spec fn toggle_all_reply(m: StoreModel, completed: bool) -> ResponseView {
    ResponseView::Todos(with_completed(m.todos, completed))
}

/// `DELETE /api/todos/completed`: the table afterwards.
pub open spec fn clear_completed_state(m: StoreModel) -> StoreModel {
    StoreModel { todos: active_todos(m.todos), next_id: m.next_id }
}

/// `GET /api/todos`: lists all todos ordered by display order, then id.
pub fn list_todos(store: &TodoStore) -> (r: Response)
    ensures
        r@ == list_reply(store@),
{
    Response::Todos(store.rows())
}

/// `POST /api/todos`: creates a todo with the trimmed title, not completed,
/// placed after all others. A blank title is refused with `400`.
pub fn create_todo(store: &mut TodoStore, input: CreateTodo) -> (r: Response)
    requires
        old(store).wf(),
    ensures
        final(store).wf(),
        r@ == create_reply(old(store)@, input.title@),
        final(store)@ == create_state(old(store)@, input.title@),
{
    let title = trim(input.title.as_str());
    if title.as_str().is_empty() {
        return Response::BadRequest(Rejection::EmptyTitle);
    }
    match store.append(title) {
        Some(todo) => Response::Created(todo),
        None => Response::InternalServerError,
    }
}

/// `PATCH /api/todos/:id`: changes the fields that the request names. A
/// request that names none is refused with `400`, an unknown id gives `404`,
/// and a title that is blank once trimmed is refused with `400`.
pub fn update_todo(store: &mut TodoStore, id: i64, input: UpdateTodo) -> (r: Response)
    requires
        old(store).wf(),
    ensures
        final(store).wf(),
        r@ == update_reply(old(store)@, id, input@),
        final(store)@ == update_state(old(store)@, id, input@),
{
    if input.title.is_none() && input.completed.is_none() && input.display_order.is_none() {
        return Response::BadRequest(Rejection::NoFields);
    }
    let i = match store.find(id) {
        Some(i) => i,
        None => {
            return Response::NotFound;
        },
    };
    let current = store.get(i);
    let title = match &input.title {
        Some(t) => {
            let trimmed_title = trim(t.as_str());
            if trimmed_title.as_str().is_empty() {
                return Response::BadRequest(Rejection::EmptyTitle);
            }
            trimmed_title
        },
        None => current.title.clone(),
    };
    let completed = match input.completed {
        Some(c) => c,
        None => current.completed,
    };
    let display_order = match input.display_order {
        Some(d) => d,
        None => current.display_order,
    };
    let todo = Todo { id: current.id, title, completed, display_order };
    let reply = todo.clone();
    store.replace(i, todo);
    Response::Updated(reply)
}

/// `DELETE /api/todos/:id`: deletes the todo, `204`; an unknown id gives `404`.
pub fn delete_todo(store: &mut TodoStore, id: i64) -> (r: Response)
    requires
        old(store).wf(),
    ensures
        final(store).wf(),
        r@ == delete_reply(old(store)@, id),
        final(store)@ == delete_state(old(store)@, id),
{
    match store.find(id) {
        Some(i) => {
            let _ = store.remove(i);
            Response::NoContent
        },
        None => Response::NotFound,
    }
}

/// `PATCH /api/todos/toggle-all`: sets every todo's completed flag to the
/// requested value and returns the whole list.
pub fn toggle_all(store: &mut TodoStore, input: ToggleAll) -> (r: Response)
    requires
        old(store).wf(),
    ensures
        final(store).wf(),
        r@ == toggle_all_reply(old(store)@, input.completed),
        final(store)@ == toggle_all_state(old(store)@, input.completed),
{
    store.set_all_completed(input.completed);
    Response::Todos(store.rows())
}

/// `DELETE /api/todos/completed`: deletes every completed todo, `204`, also
/// where there is none.
pub fn clear_completed(store: &mut TodoStore) -> (r: Response)
    requires
        old(store).wf(),
    ensures
        final(store).wf(),
        r@ == ResponseView::NoContent,
        final(store)@ == clear_completed_state(old(store)@),
{
    store.remove_completed();
    Response::NoContent
}

} // verus!
