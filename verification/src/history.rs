//! What holds of the table after any sequence of writes.

use vstd::prelude::*;
use crate::error::ServiceError;
use crate::post::{NewPostData, PostData};
use crate::state::{
    lemma_created_wf, lemma_deleted_wf, lemma_get_after_create, lemma_get_after_delete,
    lemma_get_after_update, lemma_updated_wf, TableState,
};

verus! {

/// A statement that writes to the table.
pub enum Write {
    /// Insert a row made of a write shape.
    Create(NewPostData),
    /// Overwrite the row with the given id.
    Update(int, PostData),
    /// Remove the row with the given id.
    Delete(int),
}

impl TableState {
    /// Whether the write succeeds on this table.
    pub open spec fn accepts(self, w: Write) -> bool {
        match w {
            Write::Create(_) => self.can_create(),
            Write::Update(id, _) => self.contains(id),
            Write::Delete(id) => self.contains(id),
        }
    }

    /// The table after the write; a write that fails changes nothing.
    pub open spec fn apply(self, w: Write) -> TableState {
        if !self.accepts(w) {
            self
        } else {
            match w {
                Write::Create(new_post) => self.created(new_post),
                Write::Update(id, post) => self.updated(id, post),
                Write::Delete(id) => self.deleted(id),
            }
        }
    }

    /// The table after the writes were made one after the other.
    pub open spec fn run(self, ws: Seq<Write>) -> TableState
        decreases ws.len(),
    {
        if ws.len() == 0 {
            self
        } else {
            self.run(ws.drop_last()).apply(ws.last())
        }
    }

    /// How many of the writes were inserts that succeeded.
    pub open spec fn inserted(self, ws: Seq<Write>) -> nat
        decreases ws.len(),
    {
        if ws.len() == 0 {
            0
        } else {
            let before = self.run(ws.drop_last());
            let one: nat = if ws.last() is Create && before.accepts(ws.last()) {
                1
            } else {
                0
            };
            self.inserted(ws.drop_last()) + one
        }
    }

    /// How many of the writes were deletes that succeeded.
    pub open spec fn removed(self, ws: Seq<Write>) -> nat
        decreases ws.len(),
    {
        if ws.len() == 0 {
            0
        } else {
            let before = self.run(ws.drop_last());
            let one: nat = if ws.last() is Delete && before.accepts(ws.last()) {
                1
            } else {
                0
            };
            self.removed(ws.drop_last()) + one
        }
    }

    /// What was written last under `id`, going by the writes alone: the row
    /// of the latest insert that was given this id or of the latest update
    /// of it since, unless a delete of it came after; before any write, the
    /// row that the table held.
    pub open spec fn last_written(self, ws: Seq<Write>, id: int) -> Option<PostData>
        decreases ws.len(),
    {
        if ws.len() == 0 {
            match self.get(id) {
                Ok(row) => Some(row),
                Err(_) => None,
            }
        } else {
            let before = self.run(ws.drop_last());
            let earlier = self.last_written(ws.drop_last(), id);
            match ws.last() {
                Write::Create(new_post) => if before.can_create() && id == before.last_id + 1 {
                    Some(before.next_row(new_post))
                } else {
                    earlier
                },
                Write::Update(target, post) => if target == id && earlier is Some {
                    Some(post.with_id(id))
                } else {
                    earlier
                },
                Write::Delete(target) => if target == id {
                    None
                } else {
                    earlier
                },
            }
        }
    }
}

/// A write keeps the table well-formed and takes back no id that was issued.
pub proof fn lemma_apply_wf(s: TableState, w: Write)
    requires
        s.wf(),
    ensures
        s.apply(w).wf(),
        s.last_id <= s.apply(w).last_id,
{
    if s.accepts(w) {
        match w {
            Write::Create(new_post) => lemma_created_wf(s, new_post),
            Write::Update(id, post) => lemma_updated_wf(s, id, post),
            Write::Delete(id) => lemma_deleted_wf(s, id),
        }
    }
}

/// Any sequence of writes keeps the table well-formed, and an id that was
/// issued before them is still issued after them.
pub proof fn lemma_run_wf(s: TableState, ws: Seq<Write>)
    requires
        s.wf(),
    ensures
        s.run(ws).wf(),
        s.last_id <= s.run(ws).last_id,
        forall|id: int| s.issued(id) ==> s.run(ws).issued(id),
    decreases ws.len(),
{
    if ws.len() > 0 {
        lemma_run_wf(s, ws.drop_last());
        lemma_apply_wf(s.run(ws.drop_last()), ws.last());
    }
}

/// The id that an insert hands out was never issued before: not at the time
/// of the insert, and not at any earlier time, whatever was written in
/// between. A lookup of that id right after the insert returns the inserted row.
pub proof fn lemma_create_issues_fresh_id(s: TableState, ws: Seq<Write>, new_post: NewPostData)
    requires
        s.wf(),
        s.run(ws).can_create(),
    ensures
        ({
            let now = s.run(ws);
            let row = now.next_row(new_post);
            &&& !s.issued(row.id)
            &&& !now.issued(row.id)
            &&& !now.contains(row.id)
            &&& now.created(new_post).issued(row.id)
            &&& now.created(new_post).get(row.id) == Ok::<PostData, ServiceError>(row)
        }),
{
    let now = s.run(ws);
    lemma_run_wf(s, ws);
    lemma_get_after_create(now, new_post, now.last_id + 1);
}

/// An update returns and stores a row under the id that the update names,
/// whatever id the row that was sent holds.
pub proof fn lemma_update_keeps_the_named_id(s: TableState, id: int, post: PostData, other: int)
    requires
        s.wf(),
        s.contains(id),
    ensures
        post.with_id(id).id == id,
        s.updated(id, post).get(id) == Ok::<PostData, ServiceError>(post.with_id(id)),
        s.updated(id, post.with_id(other)) == s.updated(id, post),
{
    lemma_get_after_update(s, id, post, id);
}

/// Where no row has the id, a lookup, an update and a delete all fail, and
/// the writes change nothing.
pub proof fn lemma_missing_id_is_not_found(s: TableState, id: int, post: PostData)
    requires
        !s.contains(id),
    ensures
        s.get(id) == Err::<PostData, ServiceError>(ServiceError::NotFound),
        !s.accepts(Write::Update(id, post)),
        !s.accepts(Write::Delete(id)),
        s.apply(Write::Update(id, post)) == s,
        s.apply(Write::Delete(id)) == s,
{
}

/// A delete is not repeatable: once a delete of `id` was tried, whether it
/// removed a row or found none, a second delete of `id` finds none.
pub proof fn lemma_second_delete_fails(s: TableState, id: int)
    requires
        s.wf(),
    ensures
        !s.apply(Write::Delete(id)).accepts(Write::Delete(id)),
        s.apply(Write::Delete(id)).get(id) == Err::<PostData, ServiceError>(ServiceError::NotFound),
        s.contains(id) ==> s.deleted(id).get(id) == Err::<PostData, ServiceError>(
            ServiceError::NotFound,
        ),
{
    if s.contains(id) {
        lemma_get_after_delete(s, id, id);
    }
}

/// After any sequence of writes the table holds as many rows more as inserts
/// succeeded, and as many fewer as deletes succeeded.
pub proof fn lemma_row_count(s: TableState, ws: Seq<Write>)
    requires
        s.wf(),
    ensures
        s.run(ws).rows.len() == s.rows.len() + s.inserted(ws) - s.removed(ws),
    decreases ws.len(),
{
    if ws.len() > 0 {
        lemma_row_count(s, ws.drop_last());
        lemma_run_wf(s, ws.drop_last());
    }
}

/// A table that was empty at first holds, after any sequence of writes, as
/// many rows as inserts succeeded less the deletes that succeeded.
pub proof fn lemma_row_count_from_empty(ws: Seq<Write>)
    ensures
        TableState::empty().run(ws).rows.len() == TableState::empty().inserted(ws)
            - TableState::empty().removed(ws),
        TableState::empty().removed(ws) <= TableState::empty().inserted(ws),
{
    lemma_row_count(TableState::empty(), ws);
}

/// After any sequence of writes a lookup finds under each id what was
/// written there last, and nothing where the last write was a delete or
/// where nothing was ever written.
pub proof fn lemma_rows_match_last_write(s: TableState, ws: Seq<Write>, id: int)
    requires
        s.wf(),
    ensures
        s.run(ws).get(id) == match s.last_written(ws, id) {
            Some(row) => Ok::<PostData, ServiceError>(row),
            None => Err::<PostData, ServiceError>(ServiceError::NotFound),
        },
    decreases ws.len(),
{
    if ws.len() > 0 {
        let before = s.run(ws.drop_last());
        lemma_rows_match_last_write(s, ws.drop_last(), id);
        lemma_run_wf(s, ws.drop_last());
        if before.accepts(ws.last()) {
            match ws.last() {
                Write::Create(new_post) => lemma_get_after_create(before, new_post, id),
                Write::Update(target, post) => lemma_get_after_update(before, target, post, id),
                Write::Delete(target) => lemma_get_after_delete(before, target, id),
            }
        }
    }
}

} // verus!
