//! The main list: which todos the selected filter shows, and what the
//! toggle-all checkbox asks the server for.

use vstd::prelude::*;
use crate::components::footer::Filter;
use crate::models::{Todo, TodoView, ToggleAll, views};
use crate::store::{active_todos, completed_todos, copy_rows, select_rows};

verus! {

/// The todos that filter `f` shows: all of them, those not completed, or
/// those completed, in their order.
pub open spec fn shown(s: Seq<TodoView>, f: Filter) -> Seq<TodoView> {
    match f {
        Filter::All => s,
        Filter::Active => active_todos(s),
        Filter::Completed => completed_todos(s),
    }
}

/// Every todo is completed (the empty list included).
pub open spec fn all_done(s: Seq<TodoView>) -> bool {
    forall|i: int| 0 <= i < s.len() ==> (#[trigger] s[i]).completed
}

/// Copies of the todos that the filter shows, in their order.
pub fn visible_todos(todos: &Vec<Todo>, filter: Filter) -> (r: Vec<Todo>)
    ensures
        views(r@) == shown(views(todos@), filter),
{
    match filter {
        Filter::All => copy_rows(todos),
        Filter::Active => select_rows(todos, false),
        Filter::Completed => select_rows(todos, true),
    }
}

/// Whether every todo is completed: the state of the toggle-all checkbox.
pub fn all_completed(todos: &Vec<Todo>) -> (r: bool)
    ensures
        r == all_done(views(todos@)),
{
    let n = todos.len();
    let mut i: usize = 0;
    while i < n
        invariant
            n == todos@.len(),
            i <= n,
            forall|j: int| 0 <= j < i ==> (#[trigger] views(todos@)[j]).completed,
        decreases n - i,
    {
        if !todos[i].completed {
            assert(!views(todos@)[i as int].completed);
            return false;
        }
        i = i + 1;
    }
    true
}

/// The request that a click on the toggle-all checkbox sends: every todo
/// completed, unless all already are, then every todo active.
pub fn toggle_all_request(todos: &Vec<Todo>) -> (r: ToggleAll)
    ensures
        r.completed == !all_done(views(todos@)),
{
    ToggleAll { completed: !all_completed(todos) }
}

} // verus!
