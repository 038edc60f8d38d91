use vstd::prelude::*;

use crate::todo::{rows_view, Todo, TodoView};

verus! {

/// Why a statement could not be carried out by the store.
#[derive(Debug, Clone, Copy, PartialEq, Eq, Structural)]
pub enum StorageError {
    /// The autoincrement counter has reached the largest id; no row can be added.
    IdsExhausted,
    /// The database could not be reached or failed to run the statement.
    Unavailable,
}

/// The abstract content of the `todos` table: its rows in ascending id order,
/// and the largest id ever assigned (0 before the first insert).
pub struct TableView {
    pub rows: Seq<TodoView>,
    pub last_id: int,
}

/// Keeps every row whose id is not `id`.
pub open spec fn other_than(id: int) -> spec_fn(TodoView) -> bool {
    |t: TodoView| t.id != id
}

/// The row `t` after an update of `id`: replaced fields where the id matches.
pub open spec fn updated_row(t: TodoView, id: int, description: Seq<char>, done: bool) -> TodoView {
    if t.id == id {
        TodoView { id: t.id, description, done }
    } else {
        t
    }
}

/// Ids strictly ascending along the sequence.
pub open spec fn ascending_ids(rows: Seq<TodoView>) -> bool {
    forall|i: int, j: int| 0 <= i < j < rows.len() ==> rows[i].id < rows[j].id
}

impl TableView {
    /// Ids unique and ascending, each in `1..=last_id`, and `last_id` an `i64`.
    pub open spec fn wf(self) -> bool {
        &&& 0 <= self.last_id <= i64::MAX
        &&& ascending_ids(self.rows)
        &&& forall|i: int| 0 <= i < self.rows.len() ==> 1 <= #[trigger] self.rows[i].id <= self.last_id
    }

    /// A table that has never held a row.
    pub open spec fn empty() -> TableView {
        TableView { rows: Seq::empty(), last_id: 0 }
    }

    /// Whether another id can still be assigned.
    pub open spec fn can_insert(self) -> bool {
        self.last_id < i64::MAX
    }

    /// The id that the next insert assigns.
    pub open spec fn next_id(self) -> int {
        self.last_id + 1
    }

    /// The table after inserting a row with `description` and `done == false`.
    pub open spec fn inserted(self, description: Seq<char>) -> TableView {
        TableView {
            rows: self.rows.push(TodoView { id: self.next_id(), description, done: false }),
            last_id: self.next_id(),
        }
    }

    /// The table after deleting the row with `id`, if any.
    pub open spec fn deleted(self, id: int) -> TableView {
        TableView { rows: self.rows.filter(other_than(id)), last_id: self.last_id }
    }

    /// The table after overwriting description and done of the row with `id`, if any.
    pub open spec fn updated(self, id: int, description: Seq<char>, done: bool) -> TableView {
        TableView {
            rows: self.rows.map_values(|t: TodoView| updated_row(t, id, description, done)),
            last_id: self.last_id,
        }
    }

    /// Whether some row has this id.
    pub open spec fn has_id(self, id: int) -> bool {
        exists|i: int| 0 <= i < self.rows.len() && #[trigger] self.rows[i].id == id
    }
}

/// Filtering a sequence with ascending ids in `1..=bound` keeps both properties.
pub proof fn lemma_filter_ascending(rows: Seq<TodoView>, p: spec_fn(TodoView) -> bool, bound: int)
    requires
        ascending_ids(rows),
        forall|i: int| 0 <= i < rows.len() ==> 1 <= #[trigger] rows[i].id <= bound,
    ensures
        ascending_ids(rows.filter(p)),
        forall|i: int|
            0 <= i < rows.filter(p).len() ==> 1 <= #[trigger] rows.filter(p)[i].id <= bound,
    decreases rows.len(),
{
    reveal(Seq::filter);
    if rows.len() > 0 {
        let rest = rows.drop_last();
        lemma_filter_ascending(rest, p, bound);
        let f = rest.filter(p);
        assert forall|k: int| 0 <= k < f.len() implies f[k].id < rows.last().id by {
            assert(f.contains(f[k]));
            rest.lemma_filter_contains_rev(p, f[k]);
            let j = choose|j: int| 0 <= j < rest.len() && rest[j] == f[k];
            assert(rows[j] == rest[j]);
        }
        if p(rows.last()) {
            let g = f.push(rows.last());
            assert forall|i: int, j: int| 0 <= i < j < g.len() implies g[i].id < g[j].id by {
                if j < f.len() {
                    assert(g[i] == f[i] && g[j] == f[j]);
                }
            }
            assert(rows.filter(p) == g);
        }
    }
}

/// A sequence whose elements all satisfy `p` is its own filter.
pub proof fn lemma_filter_all(rows: Seq<TodoView>, p: spec_fn(TodoView) -> bool)
    requires
        forall|i: int| 0 <= i < rows.len() ==> p(#[trigger] rows[i]),
    ensures
        rows.filter(p) == rows,
    decreases rows.len(),
{
    reveal(Seq::filter);
    if rows.len() > 0 {
        let rest = rows.drop_last();
        assert forall|i: int| 0 <= i < rest.len() implies p(#[trigger] rest[i]) by {
            assert(rest[i] == rows[i]);
        }
        lemma_filter_all(rest, p);
        assert(rest.push(rows.last()) =~= rows);
    }
}

/// An in-memory `todos` table: rows kept in ascending id order, ids assigned
/// by an autoincrement counter that never reuses an id.
pub struct TodoTable {
    rows: Vec<Todo>,
    last_id: i64,
}

impl View for TodoTable {
    type V = TableView;

    closed spec fn view(&self) -> TableView {
        TableView { rows: rows_view(self.rows@), last_id: self.last_id as int }
    }
}

impl TodoTable {
    pub open spec fn wf(&self) -> bool {
        self@.wf()
    }

    /// An empty table whose first insert gets id 1.
    pub fn new() -> (r: TodoTable)
        ensures
            r.wf(),
            r@ == TableView::empty(),
    {
        let r = TodoTable { rows: Vec::new(), last_id: 0 };
        assert(r@.rows =~= Seq::<TodoView>::empty());
        r
    }

    /// All rows, in ascending id order.
    pub fn list(&self) -> (r: Vec<Todo>)
        requires
            self.wf(),
        ensures
            rows_view(r@) == self@.rows,
    {
        let mut out: Vec<Todo> = Vec::new();
        let mut i: usize = 0;
        while i < self.rows.len()
            invariant
                i <= self.rows.len(),
                rows_view(out@) =~= rows_view(self.rows@).take(i as int),
            decreases self.rows.len() - i,
        {
            let t = self.rows[i].duplicate();
            let ghost before = out@;
            out.push(t);
            assert(out@ =~= before.push(t));
            assert(rows_view(out@) =~= rows_view(before).push(self.rows@[i as int]@));
            assert(rows_view(out@) =~= rows_view(self.rows@).take(i as int + 1));
            i = i + 1;
        }
        assert(rows_view(self.rows@).take(self.rows.len() as int) =~= rows_view(self.rows@));
        out
    }

    /// Inserts a row with `description` and `done == false` under the next id,
    /// and returns that id; fails only once every id has been used.
    pub fn create(&mut self, description: String) -> (r: Result<i64, StorageError>)
        requires
            old(self).wf(),
        ensures
            final(self).wf(),
            old(self)@.can_insert() ==> r == Ok::<i64, StorageError>(old(self)@.next_id() as i64)
                && final(self)@ == old(self)@.inserted(description@),
            !old(self)@.can_insert() ==> r == Err::<i64, StorageError>(StorageError::IdsExhausted)
                && final(self)@ == old(self)@,
    {
        if self.last_id == i64::MAX {
            return Err(StorageError::IdsExhausted);
        }
        let id: i64 = self.last_id + 1;
        let ghost pre = self@;
        self.rows.push(Todo { id, description, done: false });
        self.last_id = id;
        assert(self@.rows =~= pre.inserted(description@).rows);
        Ok(id)
    }

    /// Deletes the row with `id`; a missing id leaves the table as it is.
    pub fn delete(&mut self, id: i64)
        requires
            old(self).wf(),
        ensures
            final(self).wf(),
            final(self)@ == old(self)@.deleted(id as int),
    {
        let ghost pre = self@;
        let ghost p = other_than(id as int);
        let mut kept: Vec<Todo> = Vec::new();
        let mut i: usize = 0;
        while i < self.rows.len()
            invariant
                self@ == pre,
                p == other_than(id as int),
                i <= self.rows.len(),
                rows_view(kept@) == pre.rows.take(i as int).filter(p),
            decreases self.rows.len() - i,
        {
            let ghost before = kept@;
            let ghost x = pre.rows[i as int];
            proof {
                assert(pre.rows.take(i as int + 1) =~= pre.rows.take(i as int).push(x));
                pre.rows.take(i as int).lemma_filter_push(x, p);
            }
            assert(x == self.rows@[i as int]@);
            if self.rows[i].id != id {
                assert(p(x));
                let t = self.rows[i].duplicate();
                kept.push(t);
                assert(kept@ =~= before.push(t));
                assert(rows_view(kept@) =~= rows_view(before).push(x));
            } else {
                assert(!p(x));
            }
            i = i + 1;
        }
        assert(pre.rows.take(self.rows.len() as int) =~= pre.rows);
        self.rows = kept;
        proof {
            lemma_filter_ascending(pre.rows, p, pre.last_id);
        }
    }

    /// Overwrites description and done of the row with `id`; a missing id
    /// leaves the table as it is.
    pub fn update(&mut self, id: i64, description: String, done: bool)
        requires
            old(self).wf(),
        ensures
            final(self).wf(),
            final(self)@ == old(self)@.updated(id as int, description@, done),
    {
        let ghost pre = self@;
        let ghost target = pre.updated(id as int, description@, done);
        let mut i: usize = 0;
        while i < self.rows.len()
            invariant
                i <= self.rows.len(),
                target == pre.updated(id as int, description@, done),
                self.last_id == pre.last_id,
                self@.rows.len() == pre.rows.len(),
                forall|k: int| 0 <= k < i ==> #[trigger] self@.rows[k] == target.rows[k],
                forall|k: int| i <= k < self@.rows.len() ==> #[trigger] self@.rows[k] == pre.rows[k],
            decreases self.rows.len() - i,
        {
            let ghost before = self@;
            assert(before.rows[i as int] == self.rows@[i as int]@);
            assert(target.rows[i as int] == updated_row(pre.rows[i as int], id as int, description@, done));
            if self.rows[i].id == id {
                let t = Todo { id, description: description.clone(), done };
                self.rows.set(i, t);
                assert(self@.rows =~= before.rows.update(i as int, t@));
            }
            i = i + 1;
        }
        assert(self@.rows =~= target.rows);
    }
}

} // verus!
