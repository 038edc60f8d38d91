use vstd::prelude::*;

use crate::table::{ascending_ids, lemma_filter_all, lemma_filter_ascending, other_than, TableView};
use crate::todo::TodoView;

verus! {

/// The table after inserting each description of `descriptions` in turn.
pub open spec fn inserted_all(t: TableView, descriptions: Seq<Seq<char>>) -> TableView
    decreases descriptions.len(),
{
    if descriptions.len() == 0 {
        t
    } else {
        inserted_all(t, descriptions.drop_last()).inserted(descriptions.last())
    }
}

/// Deleting an id a second time changes nothing: the table after two
/// deletes of the same id is the table after one.
pub proof fn lemma_delete_idempotent(t: TableView, id: int)
    ensures
        t.deleted(id).deleted(id) == t.deleted(id),
{
    let once = t.rows.filter(other_than(id));
    assert forall|i: int| 0 <= i < once.len() implies (other_than(id))(#[trigger] once[i]) by {
        t.rows.lemma_filter_pred(other_than(id), i);
    }
    lemma_filter_all(once, other_than(id));
}

/// After a create, the listing holds exactly one row with the new id, carrying
/// the given description and `done == false`; that id is positive and greater
/// than every id already present or assigned before; the other rows are kept.
pub proof fn lemma_create_round_trip(t: TableView, description: Seq<char>)
    requires
        t.wf(),
        t.can_insert(),
    ensures
        ({
            let u = t.inserted(description);
            let id = t.next_id();
            &&& 1 <= id <= i64::MAX
            &&& id > t.last_id
            &&& u.rows.len() == t.rows.len() + 1
            &&& u.rows.last() == (TodoView { id, description, done: false })
            &&& forall|i: int| 0 <= i < t.rows.len() ==> #[trigger] u.rows[i] == t.rows[i] && u.rows[i].id < id
        }),
{
}

/// An update of an id that is present rewrites that row's description and
/// done in place, keeps its id and position, and leaves every other row as it was.
pub proof fn lemma_update_in_place(t: TableView, id: int, description: Seq<char>, done: bool)
    requires
        t.wf(),
        t.has_id(id),
    ensures
        ({
            let u = t.updated(id, description, done);
            &&& u.rows.len() == t.rows.len()
            &&& exists|i: int| 0 <= i < u.rows.len() && #[trigger] u.rows[i] == (TodoView { id, description, done })
            &&& forall|i: int| 0 <= i < t.rows.len() ==> (#[trigger] t.rows[i]).id == id
                ==> u.rows[i] == (TodoView { id, description, done })
            &&& forall|i: int| 0 <= i < t.rows.len() ==> (#[trigger] t.rows[i]).id != id
                ==> u.rows[i] == t.rows[i]
        }),
{
    let i = choose|i: int| 0 <= i < t.rows.len() && #[trigger] t.rows[i].id == id;
    assert(t.updated(id, description, done).rows[i] == (TodoView { id, description, done }));
}

/// Every operation keeps the rows in strictly ascending id order (and the
/// rest of the table's well-formedness), whatever order they come in.
pub proof fn lemma_order_kept(t: TableView, id: int, description: Seq<char>, done: bool)
    requires
        t.wf(),
    ensures
        t.can_insert() ==> t.inserted(description).wf(),
        t.deleted(id).wf(),
        t.updated(id, description, done).wf(),
        ascending_ids(t.rows),
{
    lemma_filter_ascending(t.rows, other_than(id), t.last_id);
    let u = t.updated(id, description, done);
    assert forall|i: int| 0 <= i < u.rows.len() implies #[trigger] u.rows[i].id == t.rows[i].id by {}
}

/// A run of creates assigns pairwise distinct ids, one after the other, and
/// afterwards every created row is present with its description, next to the
/// rows that were there before.
pub proof fn lemma_creates_distinct(t: TableView, descriptions: Seq<Seq<char>>)
    requires
        t.wf(),
        t.last_id + descriptions.len() <= i64::MAX,
    ensures
        ({
            let u = inserted_all(t, descriptions);
            &&& u.wf()
            &&& u.last_id == t.last_id + descriptions.len()
            &&& u.rows.len() == t.rows.len() + descriptions.len()
            &&& forall|i: int| 0 <= i < t.rows.len() ==> #[trigger] u.rows[i] == t.rows[i]
            &&& forall|k: int| 0 <= k < descriptions.len() ==> #[trigger] u.rows[t.rows.len() + k] == (TodoView {
                id: t.last_id + 1 + k,
                description: descriptions[k],
                done: false,
            })
            &&& forall|i: int, j: int| 0 <= i < j < u.rows.len() ==> u.rows[i].id != u.rows[j].id
        }),
    decreases descriptions.len(),
{
    if descriptions.len() > 0 {
        let rest = descriptions.drop_last();
        lemma_creates_distinct(t, rest);
        let v = inserted_all(t, rest);
        lemma_order_kept(v, 0, descriptions.last(), false);
        let u = inserted_all(t, descriptions);
        assert forall|k: int| 0 <= k < descriptions.len() implies #[trigger] u.rows[t.rows.len() + k] == (TodoView {
            id: t.last_id + 1 + k,
            description: descriptions[k],
            done: false,
        }) by {
            if k < rest.len() {
                assert(v.rows[t.rows.len() + k] == u.rows[t.rows.len() + k]);
                assert(rest[k] == descriptions[k]);
            }
        }
        assert forall|i: int| 0 <= i < t.rows.len() implies #[trigger] u.rows[i] == t.rows[i] by {
            assert(v.rows[i] == u.rows[i]);
        }
    }
}

} // verus!
