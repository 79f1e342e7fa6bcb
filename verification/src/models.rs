//! The todo record and the request bodies of the API.

use vstd::prelude::*;

verus! {

/// A todo item as stored in the database.
#[derive(Debug)]
pub struct Todo {
    pub id: i64,
    pub title: String,
    pub completed: bool,
    pub display_order: i64,
}

/// The mathematical value of a todo: its fields, with the title as a sequence
/// of characters.
pub struct TodoView {
    pub id: i64,
    pub title: Seq<char>,
    pub completed: bool,
    pub display_order: i64,
}

impl View for Todo {
    type V = TodoView;

    open spec fn view(&self) -> TodoView {
        TodoView {
            id: self.id,
            title: self.title@,
            completed: self.completed,
            display_order: self.display_order,
        }
    }
}

impl Clone for Todo {
    fn clone(&self) -> (r: Self)
        ensures
            r@ == self@,
    {
        Todo {
            id: self.id,
            title: self.title.clone(),
            completed: self.completed,
            display_order: self.display_order,
        }
    }
}

/// The views of a sequence of todos, element by element.
pub open spec fn views(todos: Seq<Todo>) -> Seq<TodoView> {
    todos.map_values(|t: Todo| t@)
}

/// Request body for creating a new todo.
#[derive(Debug)]
pub struct CreateTodo {
    pub title: String,
}

impl Clone for CreateTodo {
    fn clone(&self) -> (r: Self)
        ensures
            r.title@ == self.title@,
    {
        CreateTodo { title: self.title.clone() }
    }
}

/// Request body for toggling all todos.
#[derive(Debug, Clone, Copy)]
pub struct ToggleAll {
    pub completed: bool,
}

/// Request body for updating an existing todo.
/// All fields are optional — only provided fields are updated.
#[derive(Debug)]
pub struct UpdateTodo {
    pub title: Option<String>,
    pub completed: Option<bool>,
    pub display_order: Option<i64>,
}

/// The mathematical value of an update request.
pub struct UpdateTodoView {
    pub title: Option<Seq<char>>,
    pub completed: Option<bool>,
    pub display_order: Option<i64>,
}

impl View for UpdateTodo {
    type V = UpdateTodoView;

    open spec fn view(&self) -> UpdateTodoView {
        UpdateTodoView {
            title: match self.title {
                Some(t) => Some(t@),
                None => None,
            },
            completed: self.completed,
            display_order: self.display_order,
        }
    }
}

impl Clone for UpdateTodo {
    fn clone(&self) -> (r: Self)
        ensures
            r@ == self@,
    {
        UpdateTodo {
            title: match &self.title {
                Some(t) => Some(t.clone()),
                None => None,
            },
            completed: self.completed,
            display_order: self.display_order,
        }
    }
}

} // verus!
