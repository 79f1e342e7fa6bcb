//! The footer: the count of active todos, the filter links, and clearing the
//! completed todos from the local list.

use vstd::prelude::*;
use crate::models::{Todo, views};
use crate::store::{active_todos, select_rows};
use crate::text::same_text;

verus! {

/// Filter state for the todo list.
#[derive(Debug, Clone, Copy, PartialEq, Eq, Structural)]
pub enum Filter {
    All,
    Active,
    Completed,
}

/// The URL hash of each filter.
pub open spec fn hash_of(f: Filter) -> Seq<char> {
    match f {
        Filter::All => "#/"@,
        Filter::Active => "#/active"@,
        Filter::Completed => "#/completed"@,
    }
}

/// The filter that a URL hash selects: `All` for any hash but the two others.
pub open spec fn filter_of_hash(hash: Seq<char>) -> Filter {
    if hash == "#/active"@ {
        Filter::Active
    } else if hash == "#/completed"@ {
        Filter::Completed
    } else {
        Filter::All
    }
}

impl Filter {
    /// The filter that the URL hash `hash` selects.
    pub fn from_hash(hash: &str) -> (r: Self)
        ensures
            r == filter_of_hash(hash@),
    {
        if same_text(hash, "#/active") {
            Filter::Active
        } else if same_text(hash, "#/completed") {
            Filter::Completed
        } else {
            Filter::All
        }
    }

    /// The URL hash of the filter.
    pub fn hash(self) -> (r: &'static str)
        ensures
            r@ == hash_of(self),
    {
        match self {
            Filter::All => "#/",
            Filter::Active => "#/active",
            Filter::Completed => "#/completed",
        }
    }
}

/// The number of todos that are not completed.
pub fn active_count(todos: &Vec<Todo>) -> (r: usize)
    ensures
        r == active_todos(views(todos@)).len(),
{
    let ghost s = views(todos@);
    let n = todos.len();
    let mut count: usize = 0;
    let mut i: usize = 0;
    while i < n
        invariant
            n == todos@.len(),
            s == views(todos@),
            i <= n,
            count == active_todos(s.take(i as int)).len(),
            count <= i,
        decreases n - i,
    {
        assert(s.take(i + 1).drop_last() =~= s.take(i as int));
        if !todos[i].completed {
            count = count + 1;
        }
        i = i + 1;
    }
    assert(s.take(n as int) =~= s);
    count
}

/// Whether some todo is completed.
pub fn has_completed(todos: &Vec<Todo>) -> (r: bool)
    ensures
        r == exists|i: int| 0 <= i < todos@.len() && #[trigger] todos@[i].completed,
{
    let n = todos.len();
    let mut i: usize = 0;
    while i < n
        invariant
            n == todos@.len(),
            i <= n,
            forall|j: int| 0 <= j < i ==> !#[trigger] todos@[j].completed,
        decreases n - i,
    {
        if todos[i].completed {
            return true;
        }
        i = i + 1;
    }
    false
}

/// The words after the active count.
pub open spec fn items_left_text(count: int) -> Seq<char> {
    if count == 1 {
        " item left"@
    } else {
        " items left"@
    }
}

/// The words shown after the active count: singular for exactly one.
pub fn items_left_label(count: usize) -> (r: &'static str)
    ensures
        r@ == items_left_text(count as int),
{
    if count == 1 {
        " item left"
    } else {
        " items left"
    }
}

/// Removes the completed todos from the local list, once the server has
/// cleared them; the others keep their order.
pub fn remove_completed_todos(todos: &mut Vec<Todo>)
    ensures
        views(final(todos)@) == active_todos(views(old(todos)@)),
{
    let out = select_rows(todos, false);
    *todos = out;
}

} // verus!
