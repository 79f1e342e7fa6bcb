//! A todo item: the request that its checkbox sends, how an inline edit
//! ends, and how the answers to its toggle and delete requests change the
//! local list.

use vstd::prelude::*;
use crate::models::{Todo, TodoView, UpdateTodo, UpdateTodoView, views};
use crate::store::{has_id, ids_distinct, index_of};
use crate::text::{is_blank, same_text, trim, trimmed};

verus! {

/// The flag that a click on the checkbox sets, and the update request that
/// sends it: only `completed`, negated.
pub fn toggle_request(completed: bool) -> (r: (bool, UpdateTodo))
    ensures
        r.0 == !completed,
        r.1@ == (UpdateTodoView { title: None, completed: Some(!completed), display_order: None }),
{
    let new_completed = !completed;
    (new_completed, UpdateTodo { completed: Some(new_completed), title: None, display_order: None })
}

/// How an inline edit ends.
#[derive(Debug)]
pub enum EditCommit {
    /// Send the trimmed title as an update.
    Save(String),
    /// The title is blank: delete the todo.
    Delete,
    /// Drop the edit; the title stays.
    Cancel,
}

/// What a key pressed while editing does with the edited text: Enter saves
/// the trimmed title, or deletes the todo where the text is blank; Escape
/// cancels; any other key goes on editing (`None`).
pub fn finish_edit(key: &str, text: &str) -> (r: Option<EditCommit>)
    ensures
        key@ == "Enter"@ && is_blank(text@) ==> r matches Some(EditCommit::Delete),
        key@ == "Enter"@ && !is_blank(text@) ==> (r matches Some(EditCommit::Save(t)) && t@
            == trimmed(text@)),
        key@ == "Escape"@ ==> r matches Some(EditCommit::Cancel),
        key@ != "Enter"@ && key@ != "Escape"@ ==> r is None,
{
    proof {
        reveal_strlit("Enter");
        reveal_strlit("Escape");
        assert("Enter"@.len() != "Escape"@.len());
    }
    if same_text(key, "Enter") {
        let title = trim(text);
        if title.as_str().is_empty() {
            Some(EditCommit::Delete)
        } else {
            Some(EditCommit::Save(title))
        }
    } else if same_text(key, "Escape") {
        Some(EditCommit::Cancel)
    } else {
        None
    }
}

/// Whether a response status means success: `2xx`, `204` among them.
pub fn request_succeeded(status: u16) -> (r: bool)
    ensures
        r == (200 <= status <= 299),
{
    (200 <= status && status <= 299) || status == 204
}

/// The position of the first todo with id `id` (meaningful where there is one).
pub open spec fn first_with_id(s: Seq<TodoView>, id: i64) -> int {
    choose|i: int| 0 <= i < s.len() && s[i].id == id && forall|j: int| 0 <= j < i ==> s[j].id != id
}

/// Some todo has id `id`.
pub open spec fn contains_id(s: Seq<TodoView>, id: i64) -> bool {
    exists|i: int| 0 <= i < s.len() && s[i].id == id
}

/// The todos without those with id `id`, in their order.
pub open spec fn without_id(s: Seq<TodoView>, id: i64) -> Seq<TodoView>
    decreases s.len(),
{
    if s.len() == 0 {
        s
    } else {
        let rest = without_id(s.drop_last(), id);
        if s.last().id != id {
            rest.push(s.last())
        } else {
            rest
        }
    }
}

/// Where ids are distinct, removing the todos with id `id` removes the one
/// at `index_of`, or nothing.
pub proof fn lemma_without_id_distinct(s: Seq<TodoView>, id: i64)
    requires
        ids_distinct(s),
    ensures
        has_id(s, id) ==> without_id(s, id) == s.remove(index_of(s, id)),
        !has_id(s, id) ==> without_id(s, id) == s,
    decreases s.len(),
{
    if s.len() > 0 {
        let d = s.drop_last();
        let last = s.len() - 1;
        assert forall|a: int, b: int|
            0 <= a < d.len() && 0 <= b < d.len() && a != b implies d[a].id != d[b].id by {
            assert(d[a] == s[a] && d[b] == s[b]);
        }
        lemma_without_id_distinct(d, id);
        if s[last].id == id {
            assert(has_id(s, id));
            let k = index_of(s, id);
            if k != last {
                assert(s[k].id != s[last].id);
            }
            if has_id(d, id) {
                let q = choose|q: int| 0 <= q < d.len() && d[q].id == id;
                assert(s[q].id == s[last].id);
            }
            assert(s.remove(last) =~= d);
        } else {
            if has_id(s, id) {
                let k = index_of(s, id);
                assert(k != last);
                assert(d[k].id == id);
                assert(has_id(d, id));
                let kd = index_of(d, id);
                assert(s[kd].id == id);
                if kd != k {
                    assert(s[kd].id != s[k].id);
                }
                assert(d.remove(k).push(s[last]) =~= s.remove(k));
            } else {
                if has_id(d, id) {
                    let q = choose|q: int| 0 <= q < d.len() && d[q].id == id;
                    assert(s[q].id == id);
                }
                assert(d.push(s[last]) =~= s);
            }
        }
    }
}

/// Where ids are distinct, the first todo with an id is the only one.
pub proof fn lemma_first_with_id_distinct(s: Seq<TodoView>, id: i64)
    requires
        ids_distinct(s),
        has_id(s, id),
    ensures
        contains_id(s, id),
        first_with_id(s, id) == index_of(s, id),
{
    let k = index_of(s, id);
    assert(0 <= k < s.len() && s[k].id == id);
    assert forall|j: int| 0 <= j < k implies s[j].id != id by {
        assert(s[j].id != s[k].id);
    }
    assert(contains_id(s, id));
    let f = first_with_id(s, id);
    assert(0 <= f < s.len() && s[f].id == id);
    if f != k {
        assert(s[f].id != s[k].id);
    }
}

/// Puts the todo that the server returned after an update in place of the
/// first local todo with its id; the list is unchanged where there is none.
pub fn apply_updated(todos: &mut Vec<Todo>, id: i64, updated: Todo)
    ensures
        contains_id(views(old(todos)@), id) ==> views(final(todos)@) == views(old(todos)@).update(
            first_with_id(views(old(todos)@), id),
            updated@,
        ),
        !contains_id(views(old(todos)@), id) ==> views(final(todos)@) == views(old(todos)@),
{
    let ghost s = views(todos@);
    let n = todos.len();
    let mut i: usize = 0;
    while i < n
        invariant
            n == todos@.len(),
            s == views(todos@),
            s == views(old(todos)@),
            i <= n,
            forall|j: int| 0 <= j < i ==> s[j].id != id,
        decreases n - i,
    {
        if todos[i].id == id {
            proof {
                assert(s[i as int].id == id);
                assert(contains_id(s, id));
                assert(0 <= i < s.len() && s[i as int].id == id && forall|j: int|
                    0 <= j < i ==> s[j].id != id);
                let k = first_with_id(s, id);
                assert(0 <= k < s.len() && s[k].id == id && forall|j: int| 0 <= j < k ==> s[j].id != id);
                if k < i {
                } else if k > i {
                    assert(s[i as int].id != id);
                }
                assert(k == i);
            }
            todos.set(i, updated);
            assert(views(todos@) =~= s.update(i as int, updated@));
            return;
        }
        i = i + 1;
    }
}

/// Removes the todos with id `id` from the local list, once the server has
/// deleted it; the others keep their order.
pub fn remove_todo(todos: &mut Vec<Todo>, id: i64)
    ensures
        views(final(todos)@) == without_id(views(old(todos)@), id),
{
    let ghost s = views(todos@);
    let n = todos.len();
    let mut out: Vec<Todo> = Vec::new();
    let mut i: usize = 0;
    assert(s.take(0) =~= Seq::<TodoView>::empty());
    while i < n
        invariant
            n == todos@.len(),
            s == views(todos@),
            i <= n,
            views(out@) == without_id(s.take(i as int), id),
        decreases n - i,
    {
        assert(s.take(i + 1).drop_last() =~= s.take(i as int));
        if todos[i].id != id {
            let ghost before = views(out@);
            out.push(todos[i].clone());
            assert(views(out@) =~= before.push(s[i as int]));
        }
        i = i + 1;
    }
    assert(s.take(n as int) =~= s);
    *todos = out;
}

} // verus!
