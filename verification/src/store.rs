//! The table of blog posts, held in memory.

use vstd::prelude::*;
use crate::error::ServiceError;
use crate::history::Write;
use crate::pick::{pick_random_id, select_id, selected_id};
use crate::post::{outcome, values, BlogPost, NewBlogPost, PostData};
use crate::state::{
    lemma_created_wf, lemma_deleted_wf, lemma_get_after_create, lemma_get_after_delete,
    lemma_get_after_update, lemma_position, lemma_updated_wf, TableState,
};

verus! {

/// A table of blog posts that issues the ids itself, upwards from 1, and
/// never issues one twice.
pub struct BlogStore {
    rows: Vec<BlogPost>,
    last_id: i32,
}

impl View for BlogStore {
    type V = TableState;

    closed spec fn view(&self) -> TableState {
        TableState { rows: values(self.rows@), last_id: self.last_id as int }
    }
}

impl BlogStore {
    /// The table is one that the operations below can have produced.
    pub open spec fn wf(&self) -> bool {
        self@.wf()
    }

    /// An empty table that has issued no id yet.
    pub fn new() -> (store: BlogStore)
        ensures
            store.wf(),
            store@ == TableState::empty(),
    {
        let store = BlogStore { rows: Vec::new(), last_id: 0 };
        assert(store@.rows =~= Seq::empty());
        store
    }

    /// An empty table that has already issued the ids up to `last_id`, as a
    /// table is after its rows were deleted. A negative `last_id` is no state
    /// of a table and is refused.
    pub fn resume(last_id: i32) -> (res: Result<BlogStore, ServiceError>)
        ensures
            last_id < 0 ==> res == Err::<BlogStore, ServiceError>(ServiceError::StartupFailure),
            last_id >= 0 ==> (res matches Ok(store) && store.wf() && store@
                == TableState::empty_after(last_id as int)),
    {
        if last_id < 0 {
            Err(ServiceError::StartupFailure)
        } else {
            let store = BlogStore { rows: Vec::new(), last_id };
            assert(store@.rows =~= Seq::empty());
            Ok(store)
        }
    }

    /// The position of the row with `id`, if there is one.
    fn find(&self, id: i32) -> (found: Option<usize>)
        requires
            self.wf(),
        ensures
            match found {
                Some(i) => self@.contains(id as int) && i as int == self@.position(id as int),
                None => !self@.contains(id as int),
            },
    {
        let mut i: usize = 0;
        while i < self.rows.len()
            invariant
                self.wf(),
                i <= self.rows.len(),
                forall|k: int| 0 <= k < i ==> (#[trigger] self@.rows[k]).id != id as int,
            decreases self.rows.len() - i,
        {
            if self.rows[i].id == id {
                proof {
                    lemma_position(self@, i as int);
                }
                return Some(i);
            }
            i += 1;
        }
        None
    }

    /// The number of rows.
    pub fn len(&self) -> (n: usize)
        ensures
            n == self@.rows.len(),
    {
        self.rows.len()
    }

    /// All rows, in scan order.
    pub fn list_all(&self) -> (posts: Vec<BlogPost>)
        ensures
            values(posts@) == self@.rows,
    {
        let mut posts: Vec<BlogPost> = Vec::new();
        let mut i: usize = 0;
        while i < self.rows.len()
            invariant
                i <= self.rows.len(),
                posts@.len() == i,
                forall|k: int| 0 <= k < i ==> (#[trigger] posts@[k])@ == self.rows@[k]@,
            decreases self.rows.len() - i,
        {
            posts.push(self.rows[i].clone());
            i += 1;
        }
        assert(values(posts@) =~= self@.rows);
        posts
    }

    /// The ids of all rows, in scan order.
    pub fn ids(&self) -> (ids: Vec<i32>)
        ensures
            ids@.len() == self@.rows.len(),
            forall|i: int| 0 <= i < ids@.len() ==> (#[trigger] ids@[i]) as int == self@.rows[i].id,
    {
        let mut ids: Vec<i32> = Vec::new();
        let mut i: usize = 0;
        while i < self.rows.len()
            invariant
                i <= self.rows.len(),
                ids@.len() == i,
                forall|k: int| 0 <= k < i ==> (#[trigger] ids@[k]) == self.rows@[k].id,
            decreases self.rows.len() - i,
        {
            ids.push(self.rows[i].id);
            i += 1;
        }
        ids
    }

    /// The row with `id`; `NotFound` if there is none.
    pub fn get(&self, id: i32) -> (res: Result<BlogPost, ServiceError>)
        requires
            self.wf(),
        ensures
            outcome(res) == self@.get(id as int),
            self@.contains(id as int) ==> outcome(res) == Ok::<PostData, ServiceError>(
                self@.row(id as int),
            ),
            !self@.contains(id as int) ==> res == Err::<BlogPost, ServiceError>(
                ServiceError::NotFound,
            ),
    {
        match self.find(id) {
            Some(i) => Ok(self.rows[i].clone()),
            None => Err(ServiceError::NotFound),
        }
    }

    /// The row that the number `idx` picks: the lookup of the id at position
    /// `idx` modulo the number of rows, or of id 0 when the table is empty.
    pub fn get_random_at(&self, idx: usize) -> (res: Result<BlogPost, ServiceError>)
        requires
            self.wf(),
        ensures
            outcome(res) == self@.get(self@.picked_id(idx as int)),
    {
        let ids = self.ids();
        let id = select_id(&ids, idx);
        assert(id as int == self@.picked_id(idx as int)) by {
            assert(id as int == selected_id(ids@, idx as int));
        }
        self.get(id)
    }

    /// A row picked at random. On a table that is not empty this is one of
    /// its rows; on an empty table it is the lookup of id 0, which fails.
    pub fn get_random(&self) -> (res: Result<BlogPost, ServiceError>)
        requires
            self.wf(),
        ensures
            self@.rows.len() == 0 ==> res == Err::<BlogPost, ServiceError>(ServiceError::NotFound),
            self@.rows.len() > 0 ==> (res matches Ok(post) && self@.get(post@.id) == Ok::<
                PostData,
                ServiceError,
            >(post@)),
    {
        let ids = self.ids();
        let id = pick_random_id(&ids);
        proof {
            if ids@.len() > 0 {
                let i = choose|i: int| 0 <= i < ids@.len() && ids@[i] == id;
                lemma_position(self@, i);
            } else {
                assert(!self@.contains(0));
            }
        }
        self.get(id)
    }

    /// Inserts a row made of `new_post` under the next id and returns it.
    /// Fails with `StoreUnavailable`, and changes nothing, when the ids are
    /// used up.
    pub fn create(&mut self, new_post: NewBlogPost) -> (res: Result<BlogPost, ServiceError>)
        requires
            old(self).wf(),
        ensures
            final(self).wf(),
            old(self)@.can_create() ==> outcome(res) == Ok::<PostData, ServiceError>(
                old(self)@.next_row(new_post@),
            ) && final(self)@ == old(self)@.created(new_post@),
            !old(self)@.can_create() ==> res == Err::<BlogPost, ServiceError>(
                ServiceError::StoreUnavailable,
            ) && final(self)@ == old(self)@,
            final(self)@ == old(self)@.apply(Write::Create(new_post@)),
            res matches Ok(row) ==> !old(self)@.issued(row.id as int) && final(self)@.get(
                row.id as int,
            ) == Ok::<PostData, ServiceError>(row@),
            forall|other: int|
                other != old(self)@.last_id + 1 ==> #[trigger] final(self)@.get(other) == old(
                    self,
                )@.get(other),
    {
        if self.last_id == i32::MAX {
            return Err(ServiceError::StoreUnavailable);
        }
        let id = self.last_id + 1;
        let row = new_post.stored_as(id);
        let copy = row.clone();
        self.last_id = id;
        self.rows.push(row);
        proof {
            lemma_created_wf(old(self)@, new_post@);
            assert(self@.rows =~= old(self)@.created(new_post@).rows);
            assert forall|other: int| #[trigger] self@.get(other) == if other == id as int {
                Ok::<PostData, ServiceError>(old(self)@.next_row(new_post@))
            } else {
                old(self)@.get(other)
            } by {
                lemma_get_after_create(old(self)@, new_post@, other);
            }
        }
        Ok(copy)
    }

    /// Overwrites the row with `id` by `post`, whose own id is replaced by
    /// `id`, and returns the new row. Fails with `NotFound`, and changes
    /// nothing, when there is no such row.
    pub fn update(&mut self, id: i32, post: BlogPost) -> (res: Result<BlogPost, ServiceError>)
        requires
            old(self).wf(),
        ensures
            final(self).wf(),
            old(self)@.contains(id as int) ==> outcome(res) == Ok::<PostData, ServiceError>(
                post@.with_id(id as int),
            ) && final(self)@ == old(self)@.updated(id as int, post@),
            !old(self)@.contains(id as int) ==> res == Err::<BlogPost, ServiceError>(
                ServiceError::NotFound,
            ) && final(self)@ == old(self)@,
            final(self)@ == old(self)@.apply(Write::Update(id as int, post@)),
            res matches Ok(row) ==> row.id == id && final(self)@.get(id as int) == Ok::<
                PostData,
                ServiceError,
            >(row@),
            forall|other: int|
                other != id ==> #[trigger] final(self)@.get(other) == old(self)@.get(other),
    {
        match self.find(id) {
            Some(i) => {
                let row = post.with_id(id);
                let copy = row.clone();
                self.rows.set(i, row);
                proof {
                    lemma_updated_wf(old(self)@, id as int, post@);
                    assert(self@.rows =~= old(self)@.updated(id as int, post@).rows);
                    assert forall|other: int| #[trigger]
                        self@.get(other) == if other == id as int {
                            Ok::<PostData, ServiceError>(post@.with_id(id as int))
                        } else {
                            old(self)@.get(other)
                        } by {
                        lemma_get_after_update(old(self)@, id as int, post@, other);
                    }
                }
                Ok(copy)
            },
            None => Err(ServiceError::NotFound),
        }
    }

    /// Removes the row with `id` and returns it as it was. Fails with
    /// `NotFound`, and changes nothing, when there is no such row.
    pub fn delete(&mut self, id: i32) -> (res: Result<BlogPost, ServiceError>)
        requires
            old(self).wf(),
        ensures
            final(self).wf(),
            old(self)@.contains(id as int) ==> outcome(res) == Ok::<PostData, ServiceError>(
                old(self)@.row(id as int),
            ) && final(self)@ == old(self)@.deleted(id as int),
            !old(self)@.contains(id as int) ==> res == Err::<BlogPost, ServiceError>(
                ServiceError::NotFound,
            ) && final(self)@ == old(self)@,
            final(self)@ == old(self)@.apply(Write::Delete(id as int)),
            final(self)@.get(id as int) == Err::<PostData, ServiceError>(ServiceError::NotFound),
            forall|other: int|
                other != id ==> #[trigger] final(self)@.get(other) == old(self)@.get(other),
    {
        match self.find(id) {
            Some(i) => {
                let row = self.rows.remove(i);
                proof {
                    lemma_deleted_wf(old(self)@, id as int);
                    assert(self@.rows =~= old(self)@.deleted(id as int).rows);
                    assert forall|other: int| #[trigger]
                        self@.get(other) == if other == id as int {
                            Err::<PostData, ServiceError>(ServiceError::NotFound)
                        } else {
                            old(self)@.get(other)
                        } by {
                        lemma_get_after_delete(old(self)@, id as int, other);
                    }
                }
                Ok(row)
            },
            None => Err(ServiceError::NotFound),
        }
    }
}

} // verus!
