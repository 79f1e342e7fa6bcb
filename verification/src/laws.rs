//! What holds of the API and the client across operations: what a read gives
//! back after each write, what a refused request changes, and how the
//! client's local list follows the server's table.

use vstd::prelude::*;
use crate::api::{
    ResponseView,
    Rejection,
    clear_completed_state,
    create_reply,
    create_state,
    delete_reply,
    delete_state,
    list_reply,
    merged,
    no_fields,
    toggle_all_reply,
    toggle_all_state,
    update_reply,
    update_state,
};
use crate::components::footer::{Filter, filter_of_hash, hash_of, items_left_text};
use crate::components::todo_list::{all_done, shown};
use crate::components::todo_item::{
    first_with_id,
    lemma_first_with_id_distinct,
    lemma_without_id_distinct,
    without_id,
};
use crate::models::{TodoView, UpdateTodoView};
use crate::store::{
    StoreModel,
    active_todos,
    can_allocate,
    has_id,
    index_of,
    insert_sorted,
    key_lt,
    lemma_rows_with_flag,
    lemma_rows_with_flag_all,
    lemma_rows_with_flag_split,
    lemma_insert_sorted_contents,
    lemma_max_order_bounds,
    lemma_remove_keeps_order,
    lemma_replace_same_key,
    max_order,
    new_todo,
    set_completed,
    well_formed,
    with_completed,
};
use crate::text::{is_blank, law_trim_idempotent, trimmed};

verus! {

/// The largest display order after pushing a row above all others is that
/// row's.
proof fn lemma_max_order_push(s: Seq<TodoView>, t: TodoView)
    requires
        t.display_order > max_order(s),
    ensures
        max_order(s.push(t)) == t.display_order,
{
    let u = s.push(t);
    assert(u.drop_last() =~= s);
    if s.len() == 0 {
        assert(u[0] == t);
    }
}

/// Removing the row at `k` removes exactly the row with its id.
proof fn lemma_remove_index_contents(s: Seq<TodoView>, k: int, bound: i64)
    requires
        well_formed(StoreModel { todos: s, next_id: bound }),
        0 <= k < s.len(),
    ensures
        s.remove(k).len() == s.len() - 1,
        !has_id(s.remove(k), s[k].id),
        forall|x: TodoView| #[trigger]
            s.remove(k).contains(x) <==> (s.contains(x) && x.id != s[k].id),
{
    let r = s.remove(k);
    lemma_remove_keeps_order(s, k, bound);
    assert forall|x: TodoView| r.contains(x) <==> (s.contains(x) && x.id != s[k].id) by {
        if r.contains(x) {
            let j = choose|j: int| 0 <= j < r.len() && r[j] == x;
            let jj = if j < k { j } else { j + 1 };
            assert(r[j] == s[jj]);
        }
        if s.contains(x) && x.id != s[k].id {
            let q = choose|q: int| 0 <= q < s.len() && s[q] == x;
            assert(q != k);
            let qq = if q < k { q } else { q - 1 };
            assert(r[qq] == x);
        }
    }
}

/// A created todo is listed last: the list afterwards is the list before
/// with the new todo appended. It carries the trimmed title, is not
/// completed, has a fresh id, and a display order above all others.
pub proof fn law_create_then_list(m: StoreModel, title: Seq<char>)
    requires
        well_formed(m),
        !is_blank(title),
        can_allocate(m),
    ensures
        ({
            let t = new_todo(m, trimmed(title));
            &&& create_reply(m, title) == ResponseView::Created(t)
            &&& list_reply(create_state(m, title)) == ResponseView::Todos(m.todos.push(t))
            &&& t.title == trimmed(title)
            &&& !t.completed
            &&& !has_id(m.todos, t.id)
            &&& forall|i: int| 0 <= i < m.todos.len() ==> m.todos[i].display_order < t.display_order
        }),
{
    lemma_max_order_bounds(m.todos);
}

/// Todos created one after the other are listed in that order, with
/// consecutive display orders and increasing ids.
pub proof fn law_creates_keep_order(m: StoreModel, first: Seq<char>, second: Seq<char>)
    requires
        well_formed(m),
        !is_blank(first),
        !is_blank(second),
        can_allocate(m),
        can_allocate(create_state(m, first)),
    ensures
        ({
            let m1 = create_state(m, first);
            let t1 = new_todo(m, trimmed(first));
            let t2 = new_todo(m1, trimmed(second));
            &&& create_state(m1, second).todos == m.todos.push(t1).push(t2)
            &&& t1.title == trimmed(first)
            &&& t2.title == trimmed(second)
            &&& t2.display_order == t1.display_order + 1
            &&& t1.id < t2.id
        }),
{
    let t1 = new_todo(m, trimmed(first));
    lemma_max_order_push(m.todos, t1);
}

/// A refused request changes nothing: a blank title is answered `400` on
/// create and on update, an update naming no field `400`, an unknown id
/// `404`; the table stays as it was whenever no todo is created, updated or
/// deleted.
pub proof fn law_refused_requests_change_nothing(
    m: StoreModel,
    title: Seq<char>,
    id: i64,
    u: UpdateTodoView,
)
    ensures
        is_blank(title) ==> create_reply(m, title) == ResponseView::BadRequest(
            Rejection::EmptyTitle,
        ),
        !(create_reply(m, title) is Created) ==> create_state(m, title) == m,
        no_fields(u) ==> update_reply(m, id, u) == ResponseView::BadRequest(Rejection::NoFields),
        !no_fields(u) && !has_id(m.todos, id) ==> update_reply(m, id, u) == ResponseView::NotFound,
        !no_fields(u) && has_id(m.todos, id) && (u.title matches Some(t) && is_blank(t))
            ==> update_reply(m, id, u) == ResponseView::BadRequest(Rejection::EmptyTitle),
        !(update_reply(m, id, u) is Updated) ==> update_state(m, id, u) == m,
        !has_id(m.todos, id) ==> delete_reply(m, id) == ResponseView::NotFound && delete_state(
            m,
            id,
        ) == m,
{
}

/// After an update, the list holds the updated todo in place of the old one
/// with its id, and every other todo as it was; the id does not change and
/// the fields that the request does not name keep their values.
pub proof fn law_update_then_list(m: StoreModel, id: i64, u: UpdateTodoView)
    requires
        well_formed(m),
        update_reply(m, id, u) is Updated,
    ensures
        ({
            let cur = m.todos[index_of(m.todos, id)];
            let t = merged(cur, u);
            let n = update_state(m, id, u).todos;
            &&& update_reply(m, id, u) == ResponseView::Updated(t)
            &&& cur.id == id && t.id == id
            &&& u.title is None ==> t.title == cur.title
            &&& u.completed is None ==> t.completed == cur.completed
            &&& u.display_order is None ==> t.display_order == cur.display_order
            &&& n.len() == m.todos.len()
            &&& forall|x: TodoView| #[trigger]
                n.contains(x) <==> (x == t || (m.todos.contains(x) && x.id != id))
        }),
{
    let k = index_of(m.todos, id);
    let t = merged(m.todos[k], u);
    lemma_remove_index_contents(m.todos, k, m.next_id);
    lemma_insert_sorted_contents(m.todos.remove(k), t);
}

/// After a delete, the todo is gone and every other todo stays; deleting it
/// again is answered `404`.
pub proof fn law_delete_then_list(m: StoreModel, id: i64)
    requires
        well_formed(m),
        has_id(m.todos, id),
    ensures
        ({
            let n = delete_state(m, id);
            &&& delete_reply(m, id) == ResponseView::NoContent
            &&& !has_id(n.todos, id)
            &&& n.todos.len() == m.todos.len() - 1
            &&& forall|x: TodoView| #[trigger]
                n.todos.contains(x) <==> (m.todos.contains(x) && x.id != id)
            &&& delete_reply(n, id) == ResponseView::NotFound
        }),
{
    let k = index_of(m.todos, id);
    lemma_remove_index_contents(m.todos, k, m.next_id);
}

/// Toggle-all sets every todo's completed flag and nothing else, answers
/// with the list afterwards, and only its last call counts: toggling twice
/// is toggling once with the second value.
pub proof fn law_toggle_all(m: StoreModel, first: bool, second: bool)
    ensures
        ({
            let n = toggle_all_state(m, first).todos;
            &&& toggle_all_reply(m, first) == ResponseView::Todos(n)
            &&& n.len() == m.todos.len()
            &&& forall|i: int|
                0 <= i < n.len() ==> (#[trigger] n[i]).completed == first && n[i].id
                    == m.todos[i].id && n[i].title == m.todos[i].title && n[i].display_order
                    == m.todos[i].display_order
            &&& toggle_all_state(toggle_all_state(m, first), second) == toggle_all_state(
                m,
                second,
            )
        }),
{
    let a = with_completed(m.todos, first);
    assert(with_completed(a, second) =~= with_completed(m.todos, second));
}

/// Clearing completed todos leaves exactly the todos that are not completed,
/// and clearing again changes nothing.
pub proof fn law_clear_completed(m: StoreModel)
    ensures
        ({
            let n = clear_completed_state(m).todos;
            &&& forall|i: int| 0 <= i < n.len() ==> !(#[trigger] n[i]).completed
            &&& forall|x: TodoView| #[trigger]
                n.contains(x) <==> (m.todos.contains(x) && !x.completed)
            &&& clear_completed_state(clear_completed_state(m)) == clear_completed_state(m)
        }),
{
    lemma_rows_with_flag(m.todos, false);
    lemma_rows_with_flag_all(active_todos(m.todos), false);
}

/// The list comes ordered by display order, ties by id.
pub proof fn law_list_ordered(m: StoreModel)
    requires
        well_formed(m),
    ensures
        list_reply(m) == ResponseView::Todos(m.todos),
        forall|i: int, j: int|
            0 <= i < j < m.todos.len() ==> m.todos[i].display_order <= m.todos[j].display_order
                && (m.todos[i].display_order == m.todos[j].display_order ==> m.todos[i].id
                < m.todos[j].id),
{
    assert forall|i: int, j: int| 0 <= i < j < m.todos.len() implies m.todos[i].display_order
        <= m.todos[j].display_order && (m.todos[i].display_order == m.todos[j].display_order
        ==> m.todos[i].id < m.todos[j].id) by {
        assert(key_lt(m.todos[i], m.todos[j]));
    }
}

/// The client's local list follows the server: appending a created todo,
/// removing a deleted todo, removing the completed todos after a clear, and
/// putting in place the todo that a checkbox toggle returns, each give the
/// list that the server holds afterwards.
pub proof fn law_local_list_follows_server(m: StoreModel, id: i64, flag: bool, title: Seq<char>)
    requires
        well_formed(m),
    ensures
        create_reply(m, title) matches ResponseView::Created(t) ==> m.todos.push(t) == create_state(
            m,
            title,
        ).todos,
        without_id(m.todos, id) == delete_state(m, id).todos,
        active_todos(m.todos) == clear_completed_state(m).todos,
        has_id(m.todos, id) ==> ({
            let u = UpdateTodoView { title: None, completed: Some(flag), display_order: None };
            let t = set_completed(m.todos[index_of(m.todos, id)], flag);
            &&& update_reply(m, id, u) == ResponseView::Updated(t)
            &&& m.todos.update(first_with_id(m.todos, id), t) == update_state(m, id, u).todos
        }),
{
    lemma_without_id_distinct(m.todos, id);
    if has_id(m.todos, id) {
        let k = index_of(m.todos, id);
        let t = set_completed(m.todos[k], flag);
        lemma_first_with_id_distinct(m.todos, id);
        lemma_replace_same_key(m.todos, k, t, m.next_id);
    }
}

/// Reading back the hash of a filter gives the filter.
pub proof fn law_filter_hash_round_trip(f: Filter)
    ensures
        filter_of_hash(hash_of(f)) == f,
{
    reveal_strlit("#/");
    reveal_strlit("#/active");
    reveal_strlit("#/completed");
    assert("#/"@.len() == 2);
    assert("#/active"@.len() == 8);
    assert("#/completed"@.len() == 11);
}

/// After the completed todos are cleared from a list, none is completed and
/// the active count is the same as before.
pub proof fn law_local_clear_keeps_active(s: Seq<TodoView>)
    ensures
        forall|i: int| 0 <= i < active_todos(s).len() ==> !(#[trigger] active_todos(s)[i]).completed,
        active_todos(active_todos(s)) == active_todos(s),
{
    lemma_rows_with_flag(s, false);
    lemma_rows_with_flag_all(active_todos(s), false);
}

/// The filters split the list: `All` shows every todo, `Active` exactly those
/// not completed and `Completed` exactly those completed, each in list order
/// and never longer than the list.
pub proof fn law_filtered_lists(s: Seq<TodoView>)
    ensures
        shown(s, Filter::All) == s,
        shown(s, Filter::Active).len() + shown(s, Filter::Completed).len() == s.len(),
        shown(s, Filter::Active).len() <= s.len(),
        shown(s, Filter::Completed).len() <= s.len(),
        forall|x: TodoView| #[trigger]
            shown(s, Filter::Active).contains(x) <==> (s.contains(x) && !x.completed),
        forall|x: TodoView| #[trigger]
            shown(s, Filter::Completed).contains(x) <==> (s.contains(x) && x.completed),
{
    lemma_rows_with_flag(s, false);
    lemma_rows_with_flag(s, true);
    lemma_rows_with_flag_split(s);
}

/// A click on the toggle-all checkbox flips its state: the server completes
/// every todo unless all were completed, then makes every todo active.
pub proof fn law_toggle_all_checkbox(m: StoreModel)
    requires
        m.todos.len() > 0,
    ensures
        all_done(toggle_all_state(m, !all_done(m.todos)).todos) == !all_done(m.todos),
{
    let n = toggle_all_state(m, !all_done(m.todos)).todos;
    assert(n[0].completed == !all_done(m.todos));
}

/// A saved edit is stored as sent: the client sends the trimmed text, and
/// the server, trimming again, stores that very title.
pub proof fn law_saved_edit_is_stored(m: StoreModel, id: i64, text: Seq<char>)
    requires
        well_formed(m),
        has_id(m.todos, id),
        !is_blank(text),
    ensures
        ({
            let u = UpdateTodoView { title: Some(trimmed(text)), completed: None, display_order: None };
            update_reply(m, id, u) matches ResponseView::Updated(t) && t.title == trimmed(text)
        }),
{
    law_trim_idempotent(text);
}

/// A click on the toggle-all checkbox, with the client's list in step with
/// the server: the request asks for `c`, the negation of "all completed", and
/// the list that the server answers has every todo with completed `c`, with
/// the ids, titles, display orders and order of the client's list; where the
/// list is not empty, the checkbox's state flips.
pub proof fn law_toggle_all_click(m: StoreModel, local: Seq<TodoView>)
    requires
        local == m.todos,
    ensures
        ({
            let c = !all_done(local);
            let answer = with_completed(local, c);
            &&& toggle_all_reply(m, c) == ResponseView::Todos(answer)
            &&& toggle_all_state(m, c).todos == answer
            &&& answer.len() == local.len()
            &&& forall|i: int|
                0 <= i < answer.len() ==> (#[trigger] answer[i]).completed == c && answer[i].id
                    == local[i].id && answer[i].title == local[i].title
                    && answer[i].display_order == local[i].display_order
            &&& local.len() > 0 ==> all_done(answer) == c
        }),
{
    let c = !all_done(local);
    let answer = with_completed(local, c);
    if local.len() > 0 {
        assert(answer[0].completed == c);
    }
}

/// An accepted update applies every field that the request names, whatever
/// else it names: a named title becomes the stored title, trimmed; a named
/// completed flag and a named display order are stored as sent. Fields not
/// named keep their values, and the id stays. The todo that the answer
/// carries is the one the table holds under that id afterwards.
pub proof fn law_update_applies_named_fields(m: StoreModel, id: i64, u: UpdateTodoView)
    requires
        well_formed(m),
        update_reply(m, id, u) is Updated,
    ensures
        ({
            let cur = m.todos[index_of(m.todos, id)];
            let n = update_state(m, id, u).todos;
            update_reply(m, id, u) matches ResponseView::Updated(t) && {
                &&& t.id == id
                &&& u.title matches Some(x) ==> t.title == trimmed(x)
                &&& u.title is None ==> t.title == cur.title
                &&& u.completed matches Some(c) ==> t.completed == c
                &&& u.completed is None ==> t.completed == cur.completed
                &&& u.display_order matches Some(d) ==> t.display_order == d
                &&& u.display_order is None ==> t.display_order == cur.display_order
                &&& has_id(n, id)
                &&& forall|k: int| 0 <= k < n.len() && n[k].id == id ==> n[k] == t
            }
        }),
{
    let k = index_of(m.todos, id);
    let t = merged(m.todos[k], u);
    let r = m.todos.remove(k);
    let n = update_state(m, id, u).todos;
    lemma_remove_index_contents(m.todos, k, m.next_id);
    lemma_insert_sorted_contents(r, t);
    assert(n == insert_sorted(r, t));
    assert(n.contains(t));
    let q = choose|q: int| 0 <= q < n.len() && n[q] == t;
    assert(n[q].id == id);
    assert(has_id(n, id));
    assert forall|j: int| 0 <= j < n.len() && n[j].id == id implies n[j] == t by {
        assert(n.contains(n[j]));
        if n[j] != t {
            assert(r.contains(n[j]));
        }
    }
}

/// The footer says "item left" for exactly one active todo and "items left"
/// for every other count.
pub proof fn law_items_left_singular_only_for_one(count: int)
    ensures
        count == 1 ==> items_left_text(count) == " item left"@,
        count != 1 ==> items_left_text(count) == " items left"@,
        (items_left_text(count) == " item left"@) <==> count == 1,
{
    reveal_strlit(" item left");
    reveal_strlit(" items left");
    assert(" item left"@.len() != " items left"@.len());
}

/// The largest display order of a non-empty table is that of some row.
proof fn lemma_max_order_attained(s: Seq<TodoView>)
    requires
        s.len() > 0,
    ensures
        exists|i: int| 0 <= i < s.len() && #[trigger] s[i].display_order == max_order(s),
    decreases s.len(),
{
    if s.len() == 1 {
        assert(s[0].display_order == max_order(s));
    } else {
        let d = s.drop_last();
        lemma_max_order_attained(d);
        let i = choose|i: int| 0 <= i < d.len() && #[trigger] d[i].display_order == max_order(d);
        assert(s[i] == d[i]);
        if s.last().display_order > max_order(d) {
            assert(s[s.len() - 1].display_order == max_order(s));
        } else {
            assert(s[i].display_order == max_order(s));
        }
    }
}

/// A create succeeds exactly when the title is not blank, an id is left and
/// no display order is already the largest `i64`. The created todo carries
/// the trimmed title, is not completed, takes the next id (which then moves
/// on by one), and gets display order 1 on an empty table and otherwise one
/// past the largest display order there; it is appended to the table.
pub proof fn law_created_todo(m: StoreModel, title: Seq<char>)
    requires
        well_formed(m),
    ensures
        (create_reply(m, title) is Created) <==> (!is_blank(title) && m.next_id < i64::MAX
            && forall|i: int| 0 <= i < m.todos.len() ==> m.todos[i].display_order < i64::MAX),
        create_reply(m, title) matches ResponseView::Created(t) ==> {
            &&& t.title == trimmed(title)
            &&& !t.completed
            &&& t.id == m.next_id
            &&& create_state(m, title).next_id == m.next_id + 1
            &&& create_state(m, title).todos == m.todos.push(t)
            &&& m.todos.len() == 0 ==> t.display_order == 1
            &&& forall|i: int| 0 <= i < m.todos.len() ==> m.todos[i].display_order < t.display_order
            &&& m.todos.len() > 0 ==> exists|i: int|
                0 <= i < m.todos.len() && #[trigger] m.todos[i].display_order + 1 == t.display_order
        },
{
    lemma_max_order_bounds(m.todos);
    if m.todos.len() > 0 {
        lemma_max_order_attained(m.todos);
        let i = choose|i: int|
            0 <= i < m.todos.len() && #[trigger] m.todos[i].display_order == max_order(m.todos);
        assert(m.todos[i].display_order + 1 == max_order(m.todos) + 1);
    }
}

} // verus!
