//! The header: what a new todo's input becomes when Enter is pressed, and
//! where the todo that the server created goes in the local list.

use vstd::prelude::*;
use crate::models::{Todo, views};
use crate::text::{is_blank, trim, trimmed};

verus! {

/// The title to send for the text typed into the new-todo input: the text
/// trimmed, or `None` (nothing is sent) where it is blank.
pub fn new_todo_title(input: &str) -> (r: Option<String>)
    ensures
        r is None <==> is_blank(input@),
        r matches Some(t) ==> t@ == trimmed(input@),
{
    let title = trim(input);
    if title.as_str().is_empty() {
        None
    } else {
        Some(title)
    }
}

/// Appends the todo that the server created to the local list; no other
/// todo changes.
pub fn add_created(todos: &mut Vec<Todo>, created: Todo)
    ensures
        views(final(todos)@) == views(old(todos)@).push(created@),
{
    let ghost before = todos@;
    todos.push(created);
    assert(views(todos@) =~= views(before).push(todos@[todos@.len() - 1]@));
}

} // verus!
