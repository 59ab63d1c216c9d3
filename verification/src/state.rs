//! The table of blog posts as a mathematical value, and what each statement
//! does to it.

use vstd::prelude::*;
use crate::error::ServiceError;
use crate::post::{NewPostData, PostData};

verus! {

/// The rows of the table in the order in which a scan yields them, and the
/// id that was issued last (0 before the first).
#[verifier::ext_equal]
pub struct TableState {
    pub rows: Seq<PostData>,
    pub last_id: int,
}

impl TableState {
    /// The table before anything was written to it.
    pub open spec fn empty() -> TableState {
        TableState { rows: Seq::empty(), last_id: 0 }
    }

    /// A table without rows that has issued the ids up to `last_id`.
    pub open spec fn empty_after(last_id: int) -> TableState {
        TableState { rows: Seq::empty(), last_id }
    }

    /// Ids are issued upwards from 1 and fit the id column; every row holds
    /// an id that was issued; no two rows share an id.
    pub open spec fn wf(self) -> bool {
        &&& 0 <= self.last_id <= i32::MAX
        &&& forall|i: int|
            0 <= i < self.rows.len() ==> 1 <= (#[trigger] self.rows[i]).id <= self.last_id
        &&& forall|i: int, j: int|
            #![trigger self.rows[i], self.rows[j]]
            0 <= i < j < self.rows.len() ==> self.rows[i].id != self.rows[j].id
    }

    /// Whether `id` has been given to a row at some time, whether or not the
    /// row is still there.
    pub open spec fn issued(self, id: int) -> bool {
        1 <= id <= self.last_id
    }

    /// Whether a row with this id exists.
    pub open spec fn contains(self, id: int) -> bool {
        exists|i: int| 0 <= i < self.rows.len() && (#[trigger] self.rows[i]).id == id
    }

    /// Where the row with this id stands.
    pub open spec fn position(self, id: int) -> int {
        choose|i: int| 0 <= i < self.rows.len() && (#[trigger] self.rows[i]).id == id
    }

    /// The row with this id.
    pub open spec fn row(self, id: int) -> PostData {
        self.rows[self.position(id)]
    }

    /// The id that the number `idx` picks: that of the row at position `idx`
    /// modulo the number of rows, or 0 when the table is empty.
    pub open spec fn picked_id(self, idx: int) -> int {
        if self.rows.len() > 0 {
            self.rows[idx % (self.rows.len() as int)].id
        } else {
            0
        }
    }

    /// A point lookup: the row, or `NotFound`.
    pub open spec fn get(self, id: int) -> Result<PostData, ServiceError> {
        if self.contains(id) {
            Ok(self.row(id))
        } else {
            Err(ServiceError::NotFound)
        }
    }

    /// Whether one more id can be issued.
    pub open spec fn can_create(self) -> bool {
        self.last_id < i32::MAX
    }

    /// The row that an insert of `new_post` stores: it gets the next id.
    pub open spec fn next_row(self, new_post: NewPostData) -> PostData {
        new_post.stored_as(self.last_id + 1)
    }

    /// The table after an insert of `new_post`.
    pub open spec fn created(self, new_post: NewPostData) -> TableState {
        TableState { rows: self.rows.push(self.next_row(new_post)), last_id: self.last_id + 1 }
    }

    /// The table after the row with `id` was overwritten by `post`, whose own
    /// id does not count.
    pub open spec fn updated(self, id: int, post: PostData) -> TableState {
        TableState { rows: self.rows.update(self.position(id), post.with_id(id)), ..self }
    }

    /// The table after the row with `id` was removed.
    pub open spec fn deleted(self, id: int) -> TableState {
        TableState { rows: self.rows.remove(self.position(id)), ..self }
    }
}

/// In a well-formed table a row is found at its own position, and nowhere else.
pub proof fn lemma_position(s: TableState, i: int)
    requires
        s.wf(),
        0 <= i < s.rows.len(),
    ensures
        s.contains(s.rows[i].id),
        s.position(s.rows[i].id) == i,
        s.row(s.rows[i].id) == s.rows[i],
{
    let id = s.rows[i].id;
    let j = s.position(id);
    assert(0 <= j < s.rows.len() && s.rows[j].id == id);
    if j < i {
        assert(s.rows[j].id != s.rows[i].id);
    } else if i < j {
        assert(s.rows[i].id != s.rows[j].id);
    }
}

/// Whatever number is drawn, the id that it picks from a table that is not
/// empty is the id of one of the rows, and the lookup of it returns that
/// row. From an empty table it picks an id that no row has.
pub proof fn lemma_picked_id_exists(s: TableState, idx: int)
    requires
        s.wf(),
        0 <= idx,
    ensures
        s.rows.len() > 0 ==> s.contains(s.picked_id(idx)) && s.get(s.picked_id(idx)) == Ok::<
            PostData,
            ServiceError,
        >(s.rows[idx % (s.rows.len() as int)]),
        s.rows.len() == 0 ==> s.get(s.picked_id(idx)) == Err::<PostData, ServiceError>(
            ServiceError::NotFound,
        ),
{
    if s.rows.len() > 0 {
        lemma_position(s, idx % (s.rows.len() as int));
    }
}

/// An insert keeps the table well-formed.
pub proof fn lemma_created_wf(s: TableState, new_post: NewPostData)
    requires
        s.wf(),
        s.can_create(),
    ensures
        s.created(new_post).wf(),
{
    let t = s.created(new_post);
    assert forall|i: int| 0 <= i < t.rows.len() implies 1 <= (#[trigger] t.rows[i]).id
        <= t.last_id by {
        if i < s.rows.len() {
            assert(t.rows[i] == s.rows[i]);
        }
    }
    assert forall|i: int, j: int|
        #![trigger t.rows[i], t.rows[j]]
        0 <= i < j < t.rows.len() implies t.rows[i].id != t.rows[j].id by {
        assert(t.rows[i] == s.rows[i]);
        if j < s.rows.len() {
            assert(t.rows[j] == s.rows[j]);
        }
    }
}

/// An update of a row that exists keeps the table well-formed.
pub proof fn lemma_updated_wf(s: TableState, id: int, post: PostData)
    requires
        s.wf(),
        s.contains(id),
    ensures
        s.updated(id, post).wf(),
{
    let t = s.updated(id, post);
    let p = s.position(id);
    assert forall|i: int| 0 <= i < t.rows.len() implies 1 <= (#[trigger] t.rows[i]).id
        <= t.last_id by {
        assert(t.rows[i].id == s.rows[i].id);
    }
    assert forall|i: int, j: int|
        #![trigger t.rows[i], t.rows[j]]
        0 <= i < j < t.rows.len() implies t.rows[i].id != t.rows[j].id by {
        assert(t.rows[i].id == s.rows[i].id);
        assert(t.rows[j].id == s.rows[j].id);
    }
}

/// A delete of a row that exists keeps the table well-formed.
pub proof fn lemma_deleted_wf(s: TableState, id: int)
    requires
        s.wf(),
        s.contains(id),
    ensures
        s.deleted(id).wf(),
{
    let t = s.deleted(id);
    let p = s.position(id);
    assert forall|i: int| 0 <= i < t.rows.len() implies 1 <= (#[trigger] t.rows[i]).id
        <= t.last_id by {
        if i < p {
            assert(t.rows[i] == s.rows[i]);
        } else {
            assert(t.rows[i] == s.rows[i + 1]);
        }
    }
    assert forall|i: int, j: int|
        #![trigger t.rows[i], t.rows[j]]
        0 <= i < j < t.rows.len() implies t.rows[i].id != t.rows[j].id by {
        let si = if i < p { i } else { i + 1 };
        let sj = if j < p { j } else { j + 1 };
        assert(t.rows[i] == s.rows[si]);
        assert(t.rows[j] == s.rows[sj]);
    }
}

/// What a lookup finds after an insert: the new row under the new id, and
/// under every other id what it found before.
pub proof fn lemma_get_after_create(s: TableState, new_post: NewPostData, id: int)
    requires
        s.wf(),
        s.can_create(),
    ensures
        s.created(new_post).get(id) == if id == s.last_id + 1 {
            Ok::<PostData, ServiceError>(s.next_row(new_post))
        } else {
            s.get(id)
        },
{
    let t = s.created(new_post);
    let n = s.rows.len() as int;
    lemma_created_wf(s, new_post);
    if id == s.last_id + 1 {
        lemma_position(t, n);
    } else if s.contains(id) {
        let p = s.position(id);
        assert(t.rows[p] == s.rows[p]);
        lemma_position(t, p);
    } else {
        assert forall|j: int| 0 <= j < t.rows.len() implies (#[trigger] t.rows[j]).id != id by {
            if j < n {
                assert(t.rows[j] == s.rows[j]);
            }
        }
    }
}

/// What a lookup finds after an update of a row that exists: the new row
/// under its id, and under every other id what it found before.
pub proof fn lemma_get_after_update(s: TableState, target: int, post: PostData, id: int)
    requires
        s.wf(),
        s.contains(target),
    ensures
        s.updated(target, post).get(id) == if id == target {
            Ok::<PostData, ServiceError>(post.with_id(target))
        } else {
            s.get(id)
        },
{
    let t = s.updated(target, post);
    let q = s.position(target);
    lemma_updated_wf(s, target, post);
    if id == target {
        lemma_position(t, q);
    } else if s.contains(id) {
        let p = s.position(id);
        assert(t.rows[p] == s.rows[p]);
        lemma_position(t, p);
    } else {
        assert forall|j: int| 0 <= j < t.rows.len() implies (#[trigger] t.rows[j]).id != id by {
            assert(t.rows[j].id == s.rows[j].id);
        }
    }
}

/// What a lookup finds after a delete of a row that exists: nothing under
/// its id, and under every other id what it found before.
pub proof fn lemma_get_after_delete(s: TableState, target: int, id: int)
    requires
        s.wf(),
        s.contains(target),
    ensures
        s.deleted(target).get(id) == if id == target {
            Err::<PostData, ServiceError>(ServiceError::NotFound)
        } else {
            s.get(id)
        },
{
    let t = s.deleted(target);
    let q = s.position(target);
    lemma_deleted_wf(s, target);
    if id != target && s.contains(id) {
        let p = s.position(id);
        let tp = if p < q { p } else { p - 1 };
        assert(t.rows[tp] == s.rows[p]);
        lemma_position(t, tp);
    } else {
        assert forall|j: int| 0 <= j < t.rows.len() implies (#[trigger] t.rows[j]).id != id by {
            let sj = if j < q { j } else { j + 1 };
            assert(t.rows[j] == s.rows[sj]);
            if id == target {
                lemma_position(s, sj);
            }
        }
    }
}

} // verus!
