//! The table of todos: the rows kept in the order in which the API lists them
//! (by display order, then by id), and the operations that the API's
//! statements perform on them.

use vstd::prelude::*;
use crate::models::{Todo, TodoView, views};

verus! {

/// The mathematical value of the table: its rows in listing order, and the id
/// that the next inserted row receives.
pub struct StoreModel {
    pub todos: Seq<TodoView>,
    pub next_id: i64,
}

/// The listing order: by display order, ties broken by id.
pub open spec fn key_lt(a: TodoView, b: TodoView) -> bool {
    a.display_order < b.display_order || (a.display_order == b.display_order && a.id < b.id)
}

/// The rows stand in strictly increasing listing order.
pub open spec fn sorted(s: Seq<TodoView>) -> bool {
    forall|i: int, j: int| 0 <= i < j < s.len() ==> key_lt(s[i], s[j])
}

/// No two rows share an id.
pub open spec fn ids_distinct(s: Seq<TodoView>) -> bool {
    forall|i: int, j: int| 0 <= i < s.len() && 0 <= j < s.len() && i != j ==> s[i].id != s[j].id
}

/// Every id lies below `bound`.
pub open spec fn ids_below(s: Seq<TodoView>, bound: i64) -> bool {
    forall|i: int| 0 <= i < s.len() ==> s[i].id < bound
}

/// The invariant of the table.
pub open spec fn well_formed(m: StoreModel) -> bool {
    &&& sorted(m.todos)
    &&& ids_distinct(m.todos)
    &&& ids_below(m.todos, m.next_id)
}

/// Some row has id `id`.
pub open spec fn has_id(s: Seq<TodoView>, id: i64) -> bool {
    exists|i: int| 0 <= i < s.len() && s[i].id == id
}

/// The position of the row with id `id` (meaningful where `has_id`).
pub open spec fn index_of(s: Seq<TodoView>, id: i64) -> int {
    choose|i: int| 0 <= i < s.len() && s[i].id == id
}

/// `COALESCE(MAX(display_order), 0)` over the rows.
pub open spec fn max_order(s: Seq<TodoView>) -> int
    decreases s.len(),
{
    if s.len() == 0 {
        0
    } else if s.len() == 1 {
        s[0].display_order as int
    } else {
        let m = max_order(s.drop_last());
        if s.last().display_order > m {
            s.last().display_order as int
        } else {
            m
        }
    }
}

/// A new row can be given an id and a display order that fit in `i64`.
pub open spec fn can_allocate(m: StoreModel) -> bool {
    m.next_id < i64::MAX && max_order(m.todos) < i64::MAX
}

/// The row that an insert with title `title` creates.
pub open spec fn new_todo(m: StoreModel, title: Seq<char>) -> TodoView {
    TodoView {
        id: m.next_id,
        title: title,
        completed: false,
        display_order: (max_order(m.todos) + 1) as i64,
    }
}

/// The table after inserting a row with title `title`.
pub open spec fn appended(m: StoreModel, title: Seq<char>) -> StoreModel {
    StoreModel { todos: m.todos.push(new_todo(m, title)), next_id: (m.next_id + 1) as i64 }
}

/// `t` put into the sorted rows `s` at its place in listing order.
pub open spec fn insert_sorted(s: Seq<TodoView>, t: TodoView) -> Seq<TodoView>
    decreases s.len(),
{
    if s.len() == 0 {
        seq![t]
    } else if key_lt(t, s[0]) {
        seq![t] + s
    } else {
        seq![s[0]] + insert_sorted(s.drop_first(), t)
    }
}

/// The rows whose completed flag is `flag`, in their order.
pub open spec fn rows_with_flag(s: Seq<TodoView>, flag: bool) -> Seq<TodoView>
    decreases s.len(),
{
    if s.len() == 0 {
        s
    } else {
        let rest = rows_with_flag(s.drop_last(), flag);
        if s.last().completed == flag {
            rest.push(s.last())
        } else {
            rest
        }
    }
}

/// The rows that are not completed, in their order.
pub open spec fn active_todos(s: Seq<TodoView>) -> Seq<TodoView> {
    rows_with_flag(s, false)
}

/// The rows that are completed, in their order.
pub open spec fn completed_todos(s: Seq<TodoView>) -> Seq<TodoView> {
    rows_with_flag(s, true)
}

/// `t` with its completed flag set to `flag`.
pub open spec fn set_completed(t: TodoView, flag: bool) -> TodoView {
    TodoView { id: t.id, title: t.title, completed: flag, display_order: t.display_order }
}

/// Every row with its completed flag set to `flag`.
pub open spec fn with_completed(s: Seq<TodoView>, flag: bool) -> Seq<TodoView> {
    s.map_values(|t: TodoView| set_completed(t, flag))
}

/// In sorted rows, the largest display order is that of the last row.
pub proof fn lemma_max_order_last(s: Seq<TodoView>)
    requires
        sorted(s),
        s.len() > 0,
    ensures
        max_order(s) == s.last().display_order,
    decreases s.len(),
{
    if s.len() > 1 {
        let d = s.drop_last();
        assert(sorted(d));
        lemma_max_order_last(d);
        assert(key_lt(s[s.len() - 2], s[s.len() - 1]));
    }
}

/// No row's display order exceeds `max_order`.
pub proof fn lemma_max_order_bounds(s: Seq<TodoView>)
    ensures
        forall|i: int| 0 <= i < s.len() ==> s[i].display_order <= max_order(s),
    decreases s.len(),
{
    if s.len() > 1 {
        let d = s.drop_last();
        lemma_max_order_bounds(d);
        assert forall|i: int| 0 <= i < s.len() implies s[i].display_order <= max_order(s) by {
            if i < s.len() - 1 {
                assert(s[i] == d[i]);
            }
        }
    }
}

/// Putting `t` at position `p`, the first whose row follows `t`, is what
/// `insert_sorted` does, and keeps the rows sorted.
pub proof fn lemma_insert_at_position(s: Seq<TodoView>, t: TodoView, p: int)
    requires
        sorted(s),
        0 <= p <= s.len(),
        forall|j: int| 0 <= j < p ==> !key_lt(t, #[trigger] s[j]),
        p < s.len() ==> key_lt(t, s[p]),
        forall|j: int| 0 <= j < s.len() ==> #[trigger] s[j].id != t.id,
    ensures
        insert_sorted(s, t) == s.insert(p, t),
        sorted(s.insert(p, t)),
    decreases s.len(),
{
    if s.len() == 0 {
        assert(s.insert(p, t) =~= seq![t]);
    } else if p == 0 {
        assert(s.insert(p, t) =~= seq![t] + s);
    } else {
        let r = s.drop_first();
        assert(!key_lt(t, s[0]));
        assert forall|j: int| 0 <= j < p - 1 implies !key_lt(t, #[trigger] r[j]) by {
            assert(r[j] == s[j + 1]);
        }
        assert forall|j: int| 0 <= j < r.len() implies #[trigger] r[j].id != t.id by {
            assert(r[j] == s[j + 1]);
        }
        lemma_insert_at_position(r, t, p - 1);
        assert(s.insert(p, t) =~= seq![s[0]] + r.insert(p - 1, t));
    }
    let u = s.insert(p, t);
    assert forall|i: int, j: int| 0 <= i < j < u.len() implies key_lt(u[i], u[j]) by {
        if j < p {
            assert(u[i] == s[i] && u[j] == s[j]);
        } else if j == p {
            assert(u[i] == s[i]);
            assert(!key_lt(t, s[i]));
            assert(s[i].id != t.id);
        } else if i < p {
            assert(u[i] == s[i] && u[j] == s[j - 1]);
        } else if i == p {
            assert(u[j] == s[j - 1]);
            assert(key_lt(t, s[p]));
            if j - 1 > p {
                assert(key_lt(s[p], s[j - 1]));
            }
        } else {
            assert(u[i] == s[i - 1] && u[j] == s[j - 1]);
        }
    }
}

/// `insert_sorted` adds exactly `t` to the rows.
pub proof fn lemma_insert_sorted_contents(s: Seq<TodoView>, t: TodoView)
    ensures
        insert_sorted(s, t).len() == s.len() + 1,
        forall|x: TodoView| #[trigger]
            insert_sorted(s, t).contains(x) <==> (s.contains(x) || x == t),
    decreases s.len(),
{
    let u = insert_sorted(s, t);
    if s.len() == 0 {
        assert(u =~= seq![t]);
        assert(u[0] == t);
    } else if key_lt(t, s[0]) {
        assert(u =~= seq![t] + s);
        assert forall|x: TodoView| u.contains(x) <==> (s.contains(x) || x == t) by {
            if u.contains(x) {
                let k = choose|k: int| 0 <= k < u.len() && u[k] == x;
                if k > 0 {
                    assert(s[k - 1] == x);
                }
            }
            if s.contains(x) {
                let q = choose|q: int| 0 <= q < s.len() && s[q] == x;
                assert(u[q + 1] == x);
            }
            if x == t {
                assert(u[0] == x);
            }
        }
    } else {
        let r = s.drop_first();
        let w = insert_sorted(r, t);
        lemma_insert_sorted_contents(r, t);
        assert(u =~= seq![s[0]] + w);
        assert forall|x: TodoView| u.contains(x) <==> (s.contains(x) || x == t) by {
            if u.contains(x) {
                let k = choose|k: int| 0 <= k < u.len() && u[k] == x;
                if k == 0 {
                    assert(s[0] == x);
                } else {
                    assert(w[k - 1] == x);
                    assert(w.contains(x));
                    if r.contains(x) {
                        let q = choose|q: int| 0 <= q < r.len() && r[q] == x;
                        assert(s[q + 1] == x);
                    }
                }
            }
            if x == t {
                assert(w.contains(t));
                let k = choose|k: int| 0 <= k < w.len() && w[k] == t;
                assert(u[k + 1] == x);
            }
            if s.contains(x) {
                let q = choose|q: int| 0 <= q < s.len() && s[q] == x;
                if q == 0 {
                    assert(u[0] == x);
                } else {
                    assert(r[q - 1] == x);
                    assert(r.contains(x));
                    assert(w.contains(x));
                    let k = choose|k: int| 0 <= k < w.len() && w[k] == x;
                    assert(u[k + 1] == x);
                }
            }
        }
    }
}

/// `rows_with_flag` keeps exactly the rows with that flag, and only those.
pub proof fn lemma_rows_with_flag(s: Seq<TodoView>, flag: bool)
    ensures
        rows_with_flag(s, flag).len() <= s.len(),
        forall|i: int|
            0 <= i < rows_with_flag(s, flag).len() ==> (#[trigger] rows_with_flag(s, flag)[i]).completed
                == flag,
        forall|x: TodoView| #[trigger]
            rows_with_flag(s, flag).contains(x) <==> (s.contains(x) && x.completed == flag),
    decreases s.len(),
{
    if s.len() > 0 {
        let d = s.drop_last();
        let a = rows_with_flag(s, flag);
        let ad = rows_with_flag(d, flag);
        lemma_rows_with_flag(d, flag);
        assert(a == if s.last().completed == flag {
            ad.push(s.last())
        } else {
            ad
        });
        assert forall|x: TodoView| a.contains(x) <==> (s.contains(x) && x.completed == flag) by {
            if a.contains(x) {
                let k = choose|k: int| 0 <= k < a.len() && a[k] == x;
                if k < ad.len() {
                    assert(ad[k] == x);
                    assert(ad.contains(x));
                    let q = choose|q: int| 0 <= q < d.len() && d[q] == x;
                    assert(s[q] == x);
                } else {
                    assert(x == s.last());
                }
            }
            if s.contains(x) && x.completed == flag {
                let q = choose|q: int| 0 <= q < s.len() && s[q] == x;
                if q == s.len() - 1 {
                    assert(a[a.len() - 1] == x);
                } else {
                    assert(d[q] == x);
                    assert(d.contains(x));
                    assert(ad.contains(x));
                    let k = choose|k: int| 0 <= k < ad.len() && ad[k] == x;
                    assert(a[k] == x);
                }
            }
        }
        assert forall|i: int| 0 <= i < a.len() implies (#[trigger] a[i]).completed == flag by {
            if i < ad.len() {
                assert(a[i] == ad[i]);
            }
        }
    }
}

/// Every row has one flag or the other: the two selections together are as
/// long as the rows.
pub proof fn lemma_rows_with_flag_split(s: Seq<TodoView>)
    ensures
        rows_with_flag(s, false).len() + rows_with_flag(s, true).len() == s.len(),
    decreases s.len(),
{
    if s.len() > 0 {
        lemma_rows_with_flag_split(s.drop_last());
    }
}

/// Where every row has the flag, `rows_with_flag` keeps them all.
pub proof fn lemma_rows_with_flag_all(s: Seq<TodoView>, flag: bool)
    requires
        forall|i: int| 0 <= i < s.len() ==> (#[trigger] s[i]).completed == flag,
    ensures
        rows_with_flag(s, flag) == s,
    decreases s.len(),
{
    if s.len() > 0 {
        let d = s.drop_last();
        assert forall|i: int| 0 <= i < d.len() implies (#[trigger] d[i]).completed == flag by {
            assert(d[i] == s[i]);
        }
        lemma_rows_with_flag_all(d, flag);
        assert(s.last() == s[s.len() - 1]);
        assert(d.push(s.last()) =~= s);
    }
}

/// Removing the row at `i` keeps the invariant of the rows.
pub proof fn lemma_remove_keeps_order(s: Seq<TodoView>, i: int, bound: i64)
    requires
        sorted(s),
        ids_distinct(s),
        ids_below(s, bound),
        0 <= i < s.len(),
    ensures
        sorted(s.remove(i)),
        ids_distinct(s.remove(i)),
        ids_below(s.remove(i), bound),
        forall|j: int| 0 <= j < s.remove(i).len() ==> #[trigger] s.remove(i)[j].id != s[i].id,
{
    let r = s.remove(i);
    assert forall|a: int, b: int| 0 <= a < b < r.len() implies key_lt(r[a], r[b]) by {
        let aa = if a < i { a } else { a + 1 };
        let bb = if b < i { b } else { b + 1 };
        assert(r[a] == s[aa] && r[b] == s[bb]);
    }
    assert forall|a: int, b: int|
        0 <= a < r.len() && 0 <= b < r.len() && a != b implies r[a].id != r[b].id by {
        let aa = if a < i { a } else { a + 1 };
        let bb = if b < i { b } else { b + 1 };
        assert(r[a] == s[aa] && r[b] == s[bb]);
    }
    assert forall|a: int| 0 <= a < r.len() implies r[a].id < bound by {
        let aa = if a < i { a } else { a + 1 };
        assert(r[a] == s[aa]);
    }
    assert forall|j: int| 0 <= j < r.len() implies #[trigger] r[j].id != s[i].id by {
        let jj = if j < i { j } else { j + 1 };
        assert(r[j] == s[jj]);
    }
}

/// Replacing a row by one with the same id and display order leaves it where
/// it stood.
pub proof fn lemma_replace_same_key(s: Seq<TodoView>, i: int, t: TodoView, bound: i64)
    requires
        sorted(s),
        ids_distinct(s),
        ids_below(s, bound),
        0 <= i < s.len(),
        t.id == s[i].id,
        t.display_order == s[i].display_order,
    ensures
        insert_sorted(s.remove(i), t) == s.update(i, t),
{
    let r = s.remove(i);
    lemma_remove_keeps_order(s, i, bound);
    assert forall|j: int| 0 <= j < i implies !key_lt(t, #[trigger] r[j]) by {
        assert(r[j] == s[j]);
        assert(key_lt(s[j], s[i]));
    }
    if i < r.len() {
        assert(r[i] == s[i + 1]);
        assert(key_lt(s[i], s[i + 1]));
    }
    lemma_insert_at_position(r, t, i);
    assert(r.insert(i, t) =~= s.update(i, t));
}

/// The rows that `rows_with_flag` keeps still satisfy the invariant.
pub proof fn lemma_rows_with_flag_keeps_order(s: Seq<TodoView>, flag: bool, bound: i64)
    requires
        well_formed(StoreModel { todos: s, next_id: bound }),
    ensures
        well_formed(StoreModel { todos: rows_with_flag(s, flag), next_id: bound }),
    decreases s.len(),
{
    if s.len() > 0 {
        let d = s.drop_last();
        let last = s.len() - 1;
        assert(sorted(d) && ids_distinct(d) && ids_below(d, bound)) by {
            assert forall|a: int, b: int| 0 <= a < b < d.len() implies key_lt(d[a], d[b]) by {
                assert(d[a] == s[a] && d[b] == s[b]);
            }
            assert forall|a: int, b: int|
                0 <= a < d.len() && 0 <= b < d.len() && a != b implies d[a].id != d[b].id by {
                assert(d[a] == s[a] && d[b] == s[b]);
            }
            assert forall|a: int| 0 <= a < d.len() implies d[a].id < bound by {
                assert(d[a] == s[a]);
            }
        }
        lemma_rows_with_flag_keeps_order(d, flag, bound);
        let ad = rows_with_flag(d, flag);
        lemma_rows_with_flag(d, flag);
        assert(rows_with_flag(s, flag) == if s.last().completed == flag {
            ad.push(s.last())
        } else {
            ad
        });
        if s.last().completed == flag {
            let u = ad.push(s[last]);
            assert forall|k: int| 0 <= k < ad.len() implies key_lt(ad[k], s[last]) && ad[k].id
                != s[last].id by {
                assert(ad.contains(ad[k]));
                let q = choose|q: int| 0 <= q < d.len() && d[q] == ad[k];
                assert(s[q] == ad[k]);
            }
            assert forall|a: int, b: int| 0 <= a < b < u.len() implies key_lt(u[a], u[b]) by {
                if b == ad.len() {
                    assert(u[a] == ad[a]);
                } else {
                    assert(u[a] == ad[a] && u[b] == ad[b]);
                }
            }
            assert forall|a: int, b: int|
                0 <= a < u.len() && 0 <= b < u.len() && a != b implies u[a].id != u[b].id by {
                if a < ad.len() && b < ad.len() {
                    assert(u[a] == ad[a] && u[b] == ad[b]);
                } else if a < ad.len() {
                    assert(u[a] == ad[a]);
                } else {
                    assert(u[b] == ad[b]);
                }
            }
            assert forall|a: int| 0 <= a < u.len() implies u[a].id < bound by {
                if a < ad.len() {
                    assert(u[a] == ad[a]);
                }
            }
        }
    }
}

/// Copies of the rows whose completed flag is `flag`, in their order.
pub fn select_rows(todos: &Vec<Todo>, flag: bool) -> (r: Vec<Todo>)
    ensures
        views(r@) == rows_with_flag(views(todos@), flag),
{
    let ghost s = views(todos@);
    let n = todos.len();
    let mut out: Vec<Todo> = Vec::new();
    let mut i: usize = 0;
    assert(s.take(0) =~= Seq::<TodoView>::empty());
    while i < n
        invariant
            n == todos@.len(),
            s == views(todos@),
            i <= n,
            views(out@) == rows_with_flag(s.take(i as int), flag),
        decreases n - i,
    {
        assert(s.take(i + 1).drop_last() =~= s.take(i as int));
        if todos[i].completed == flag {
            let ghost before = views(out@);
            out.push(todos[i].clone());
            assert(views(out@) =~= before.push(s[i as int]));
        }
        i = i + 1;
    }
    assert(s.take(n as int) =~= s);
    out
}

/// The largest id of the rows, 0 where there is none.
pub open spec fn max_id(s: Seq<TodoView>) -> int
    decreases s.len(),
{
    if s.len() == 0 {
        0
    } else if s.len() == 1 {
        s[0].id as int
    } else {
        let m = max_id(s.drop_last());
        if s.last().id > m {
            s.last().id as int
        } else {
            m
        }
    }
}

/// The id that the next row receives, for stored rows `s` and the largest id
/// ever handed out `last_seq`: one past the larger of the two, or `i64::MAX`
/// where that would not fit.
pub open spec fn next_id_after(s: Seq<TodoView>, last_seq: i64) -> i64 {
    let m = if last_seq > max_id(s) {
        last_seq as int
    } else {
        max_id(s)
    };
    if m < i64::MAX {
        (m + 1) as i64
    } else {
        i64::MAX
    }
}

/// No id exceeds `max_id`.
pub proof fn lemma_max_id_bounds(s: Seq<TodoView>)
    ensures
        forall|i: int| 0 <= i < s.len() ==> s[i].id <= max_id(s),
    decreases s.len(),
{
    if s.len() > 1 {
        let d = s.drop_last();
        lemma_max_id_bounds(d);
        assert forall|i: int| 0 <= i < s.len() implies s[i].id <= max_id(s) by {
            if i < s.len() - 1 {
                assert(s[i] == d[i]);
            }
        }
    }
}

/// The largest id of non-empty rows is the id of some row.
pub proof fn lemma_max_id_attained(s: Seq<TodoView>)
    requires
        s.len() > 0,
    ensures
        exists|i: int| 0 <= i < s.len() && #[trigger] s[i].id == max_id(s),
    decreases s.len(),
{
    if s.len() == 1 {
        assert(s[0].id == max_id(s));
    } else {
        let d = s.drop_last();
        lemma_max_id_attained(d);
        let i = choose|i: int| 0 <= i < d.len() && #[trigger] d[i].id == max_id(d);
        assert(s[i] == d[i]);
        if s.last().id > max_id(d) {
            assert(s[s.len() - 1].id == max_id(s));
        } else {
            assert(s[i].id == max_id(s));
        }
    }
}

/// Where ids are not exhausted, the next id is fresh (above every stored id
/// and above the last id handed out) and the least such: it is one past the
/// last id handed out, one past a stored id, or 1.
pub proof fn law_next_id_is_least_fresh(s: Seq<TodoView>, last_seq: i64)
    ensures
        ({
            let r = next_id_after(s, last_seq);
            r < i64::MAX ==> {
                &&& forall|i: int| 0 <= i < s.len() ==> s[i].id < r
                &&& last_seq < r
                &&& r == last_seq + 1 || r == 1 || exists|i: int|
                    0 <= i < s.len() && #[trigger] s[i].id + 1 == r
            }
        }),
{
    lemma_max_id_bounds(s);
    if s.len() > 0 {
        lemma_max_id_attained(s);
        let i = choose|i: int| 0 <= i < s.len() && #[trigger] s[i].id == max_id(s);
        assert(s[i].id + 1 == max_id(s) + 1);
    }
}

/// The id that the next row receives, for stored rows `rows` and the largest
/// id ever handed out `last_seq`; every stored id lies below it unless the
/// ids are exhausted.
pub fn next_id_for(rows: &Vec<Todo>, last_seq: i64) -> (r: i64)
    ensures
        r == next_id_after(views(rows@), last_seq),
        r < i64::MAX ==> ids_below(views(rows@), r),
{
    let ghost s = views(rows@);
    let n = rows.len();
    let mut m: i64 = 0;
    if n > 0 {
        m = rows[0].id;
        assert(s.take(1).drop_last() =~= Seq::<TodoView>::empty());
        let mut i: usize = 1;
        while i < n
            invariant
                n == rows@.len(),
                s == views(rows@),
                1 <= i <= n,
                m == max_id(s.take(i as int)),
            decreases n - i,
        {
            assert(s.take(i + 1).drop_last() =~= s.take(i as int));
            if rows[i].id > m {
                m = rows[i].id;
            }
            i = i + 1;
        }
        assert(s.take(n as int) =~= s);
    }
    proof {
        lemma_max_id_bounds(s);
    }
    if last_seq > m {
        m = last_seq;
    }
    if m < i64::MAX {
        m + 1
    } else {
        i64::MAX
    }
}

/// Copies of all rows, in their order.
pub fn copy_rows(todos: &Vec<Todo>) -> (r: Vec<Todo>)
    ensures
        views(r@) == views(todos@),
{
    let mut out: Vec<Todo> = Vec::new();
    let n = todos.len();
    let mut i: usize = 0;
    while i < n
        invariant
            n == todos@.len(),
            i <= n,
            views(out@) =~= views(todos@).take(i as int),
        decreases n - i,
    {
        let ghost before = out@;
        out.push(todos[i].clone());
        assert(views(out@) =~= views(before).push(todos@[i as int]@));
        assert(views(todos@).take(i + 1) =~= views(todos@).take(i as int).push(todos@[i as int]@));
        i = i + 1;
    }
    assert(views(todos@).take(n as int) =~= views(todos@));
    out
}

/// Whether `a` comes before `b` in listing order.
fn key_less(a: &Todo, b: &Todo) -> (r: bool)
    ensures
        r == key_lt(a@, b@),
{
    a.display_order < b.display_order || (a.display_order == b.display_order && a.id < b.id)
}

/// The table of todos.
pub struct TodoStore {
    todos: Vec<Todo>,
    next_id: i64,
}

impl View for TodoStore {
    type V = StoreModel;

    closed spec fn view(&self) -> StoreModel {
        StoreModel { todos: views(self.todos@), next_id: self.next_id }
    }
}

impl TodoStore {
    /// The invariant of the table holds.
    pub open spec fn wf(&self) -> bool {
        well_formed(self@)
    }

    /// An empty table, whose first row receives id 1.
    pub fn new() -> (s: Self)
        ensures
            s.wf(),
            s@.todos == Seq::<TodoView>::empty(),
            s@.next_id == 1,
    {
        let s = TodoStore { todos: Vec::new(), next_id: 1 };
        assert(s@.todos =~= Seq::<TodoView>::empty());
        s
    }

    /// A table holding `rows` in their given order, whose next row receives
    /// `next_id`; `None` where the rows are out of listing order, share an
    /// id, or hold an id not below `next_id`.
    pub fn from_rows(rows: Vec<Todo>, next_id: i64) -> (r: Option<Self>)
        ensures
            r is Some <==> well_formed((StoreModel { todos: views(rows@), next_id })),
            r matches Some(s) ==> s@ == (StoreModel { todos: views(rows@), next_id }),
    {
        let ghost s = views(rows@);
        let n = rows.len();
        let mut i: usize = 0;
        while i < n
            invariant
                n == rows@.len(),
                s == views(rows@),
                i <= n,
                forall|a: int, b: int| 0 <= a < b < i ==> key_lt(s[a], s[b]),
                forall|a: int, b: int| 0 <= a < i && 0 <= b < i && a != b ==> s[a].id != s[b].id,
                forall|a: int| 0 <= a < i ==> s[a].id < next_id,
            decreases n - i,
        {
            if rows[i].id >= next_id {
                assert(s[i as int].id >= next_id);
                return None;
            }
            if i > 0 && !key_less(&rows[i - 1], &rows[i]) {
                assert(!key_lt(s[i - 1], s[i as int]));
                return None;
            }
            let mut j: usize = 0;
            while j < i
                invariant
                    n == rows@.len(),
                    s == views(rows@),
                    j <= i < n,
                    forall|b: int| 0 <= b < j ==> s[b].id != s[i as int].id,
                decreases i - j,
            {
                if rows[j].id == rows[i].id {
                    assert(s[j as int].id == s[i as int].id);
                    return None;
                }
                j = j + 1;
            }
            proof {
                if i > 0 {
                    assert forall|a: int| 0 <= a < i implies key_lt(s[a], s[i as int]) by {
                        if a < i - 1 {
                            assert(key_lt(s[a], s[i - 1]));
                        }
                    }
                }
            }
            i = i + 1;
        }
        Some(TodoStore { todos: rows, next_id })
    }

    /// The row at position `i`.
    pub fn get(&self, i: usize) -> (r: &Todo)
        requires
            i < self@.todos.len(),
        ensures
            r@ == self@.todos[i as int],
    {
        &self.todos[i]
    }

    /// Copies of all rows, in listing order.
    pub fn rows(&self) -> (r: Vec<Todo>)
        ensures
            views(r@) == self@.todos,
    {
        copy_rows(&self.todos)
    }

    /// The position of the row with id `id`, if there is one.
    pub fn find(&self, id: i64) -> (r: Option<usize>)
        requires
            self.wf(),
        ensures
            match r {
                Some(i) => i < self@.todos.len() && self@.todos[i as int].id == id && i
                    == index_of(self@.todos, id),
                None => !has_id(self@.todos, id),
            },
    {
        let n = self.todos.len();
        let mut i: usize = 0;
        while i < n
            invariant
                n == self.todos@.len(),
                self.wf(),
                i <= n,
                forall|j: int| 0 <= j < i ==> self@.todos[j].id != id,
            decreases n - i,
        {
            if self.todos[i].id == id {
                proof {
                    let s = self@.todos;
                    assert(s[i as int].id == id);
                    assert(has_id(s, id));
                    let k = index_of(s, id);
                    assert(0 <= k < s.len() && s[k].id == id);
                    if k != i {
                        assert(s[k].id != s[i as int].id);
                    }
                }
                return Some(i);
            }
            i = i + 1;
        }
        None
    }

    /// Inserts a row with title `title`, the next id, not completed, and the
    /// display order one past the largest; `None`, with nothing changed, where
    /// the id or the display order would not fit in `i64`.
    pub fn append(&mut self, title: String) -> (r: Option<Todo>)
        requires
            old(self).wf(),
        ensures
            final(self).wf(),
            r is Some <==> can_allocate(old(self)@),
            r matches Some(t) ==> t@ == new_todo(old(self)@, title@) && final(self)@ == appended(
                old(self)@,
                title@,
            ),
            r is None ==> final(self)@ == old(self)@,
    {
        let ghost m = self@;
        let n = self.todos.len();
        let max: i64 = if n == 0 {
            0
        } else {
            proof {
                lemma_max_order_last(m.todos);
            }
            self.todos[n - 1].display_order
        };
        assert(max == max_order(m.todos));
        if self.next_id == i64::MAX || max == i64::MAX {
            return None;
        }
        let t = Todo { id: self.next_id, title, completed: false, display_order: max + 1 };
        let copy = t.clone();
        proof {
            lemma_max_order_bounds(m.todos);
        }
        self.todos.push(t);
        self.next_id = self.next_id + 1;
        assert(self@.todos =~= m.todos.push(new_todo(m, title@)));
        Some(copy)
    }

    /// Replaces the row at position `i` by `t`, which has the same id, and
    /// moves it to its place in listing order.
    pub fn replace(&mut self, i: usize, t: Todo)
        requires
            old(self).wf(),
            i < old(self)@.todos.len(),
            t.id == old(self)@.todos[i as int].id,
        ensures
            final(self).wf(),
            final(self)@ == (StoreModel {
                todos: insert_sorted(old(self)@.todos.remove(i as int), t@),
                next_id: old(self)@.next_id,
            }),
    {
        let ghost m = self@;
        let _removed = self.todos.remove(i);
        let ghost s = m.todos.remove(i as int);
        assert(views(self.todos@) =~= s);
        proof {
            lemma_remove_keeps_order(m.todos, i as int, m.next_id);
        }
        let n = self.todos.len();
        let mut p: usize = 0;
        while p < n && !key_less(&t, &self.todos[p])
            invariant
                n == self.todos@.len(),
                s == views(self.todos@),
                p <= n,
                forall|j: int| 0 <= j < p ==> !key_lt(t@, #[trigger] s[j]),
            decreases n - p,
        {
            p = p + 1;
        }
        proof {
            lemma_insert_at_position(s, t@, p as int);
        }
        self.todos.insert(p, t);
        assert(views(self.todos@) =~= s.insert(p as int, t@));
        let ghost u = s.insert(p as int, t@);
        assert forall|a: int, b: int| 0 <= a < u.len() && 0 <= b < u.len() && a != b implies u[a].id
            != u[b].id by {
            if a != p && b != p {
                let x = if a < p { a } else { a - 1 };
                let y = if b < p { b } else { b - 1 };
                assert(u[a] == s[x] && u[b] == s[y]);
            } else if a == p {
                let y = if b < p { b } else { b - 1 };
                assert(u[b] == s[y]);
            } else {
                let x = if a < p { a } else { a - 1 };
                assert(u[a] == s[x]);
            }
        }
        assert forall|a: int| 0 <= a < u.len() implies u[a].id < m.next_id by {
            if a != p {
                let x = if a < p { a } else { a - 1 };
                assert(u[a] == s[x]);
            }
        }
    }

    /// Deletes the row at position `i`.
    pub fn remove(&mut self, i: usize) -> (r: Todo)
        requires
            old(self).wf(),
            i < old(self)@.todos.len(),
        ensures
            final(self).wf(),
            r@ == old(self)@.todos[i as int],
            final(self)@ == (StoreModel {
                todos: old(self)@.todos.remove(i as int),
                next_id: old(self)@.next_id,
            }),
    {
        let ghost m = self@;
        let r = self.todos.remove(i);
        assert(views(self.todos@) =~= m.todos.remove(i as int));
        proof {
            lemma_remove_keeps_order(m.todos, i as int, m.next_id);
        }
        r
    }

    /// Sets the completed flag of every row to `flag`.
    pub fn set_all_completed(&mut self, flag: bool)
        requires
            old(self).wf(),
        ensures
            final(self).wf(),
            final(self)@ == (StoreModel {
                todos: with_completed(old(self)@.todos, flag),
                next_id: old(self)@.next_id,
            }),
    {
        let ghost m = self@;
        let n = self.todos.len();
        let mut out: Vec<Todo> = Vec::new();
        let mut i: usize = 0;
        while i < n
            invariant
                n == self.todos@.len(),
                m == self@,
                i <= n,
                views(out@) =~= with_completed(m.todos, flag).take(i as int),
            decreases n - i,
        {
            let t = &self.todos[i];
            let ghost before = out@;
            out.push(
                Todo {
                    id: t.id,
                    title: t.title.clone(),
                    completed: flag,
                    display_order: t.display_order,
                },
            );
            assert(views(out@) =~= views(before).push(set_completed(m.todos[i as int], flag)));
            assert(with_completed(m.todos, flag).take(i + 1) =~= with_completed(m.todos, flag).take(
                i as int,
            ).push(set_completed(m.todos[i as int], flag)));
            i = i + 1;
        }
        self.todos = out;
        let ghost w = with_completed(m.todos, flag);
        assert(w.take(n as int) =~= w);
        assert forall|a: int, b: int| 0 <= a < b < w.len() implies key_lt(w[a], w[b]) by {
            assert(key_lt(m.todos[a], m.todos[b]));
        }
        assert forall|a: int, b: int|
            0 <= a < w.len() && 0 <= b < w.len() && a != b implies w[a].id != w[b].id by {
            assert(m.todos[a].id != m.todos[b].id);
        }
        assert forall|a: int| 0 <= a < w.len() implies w[a].id < m.next_id by {
            assert(m.todos[a].id < m.next_id);
        }
    }

    /// Deletes every completed row; the others keep their order.
    pub fn remove_completed(&mut self)
        requires
            old(self).wf(),
        ensures
            final(self).wf(),
            final(self)@ == (StoreModel {
                todos: active_todos(old(self)@.todos),
                next_id: old(self)@.next_id,
            }),
    {
        let ghost m = self@;
        let out = select_rows(&self.todos, false);
        proof {
            lemma_rows_with_flag_keeps_order(m.todos, false, m.next_id);
        }
        self.todos = out;
    }
}

} // verus!
