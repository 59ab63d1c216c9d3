//! How the id of a random row is picked from the ids that exist.

use vstd::prelude::*;

verus! {

/// The id picked from `ids` by the number `idx`: the id at position `idx`
/// modulo the number of ids, or 0 when there is no id to pick from.
pub open spec fn selected_id(ids: Seq<i32>, idx: int) -> int {
    if ids.len() > 0 {
        ids[idx % (ids.len() as int)] as int
    } else {
        0
    }
}

/// An id picked from a list that is not empty is one of the list.
pub proof fn lemma_selected_id_is_listed(ids: Seq<i32>, idx: int)
    requires
        ids.len() > 0,
        0 <= idx,
    ensures
        exists|i: int| 0 <= i < ids.len() && ids[i] as int == selected_id(ids, idx),
{
    let i = idx % (ids.len() as int);
    assert(0 <= i < ids.len() && ids[i] as int == selected_id(ids, idx));
}

/// Picks the id at position `idx` modulo the number of ids; 0 if there is none.
pub fn select_id(ids: &Vec<i32>, idx: usize) -> (id: i32)
    ensures
        id as int == selected_id(ids@, idx as int),
{
    let count = ids.len();
    if count > 0 {
        ids[idx % count]
    } else {
        0
    }
}

/// Draws a number from the thread-local generator of the `rand` crate, by
/// `rand::random::<usize>()`. This is the one function of the crate that
/// Verus does not check. Nothing is claimed of the number drawn: every
/// `usize` may come back, and two calls may differ. The call panics only
/// where the generator of the thread cannot be seeded from the operating
/// system.
#[verifier::external_body]
fn random_index() -> usize {
    rand::random::<usize>()
}

/// Picks one of `ids` at random; 0 if there is none.
pub fn pick_random_id(ids: &Vec<i32>) -> (id: i32)
    ensures
        ids@.len() == 0 ==> id == 0,
        ids@.len() > 0 ==> exists|i: int| 0 <= i < ids@.len() && ids@[i] == id,
{
    let idx = random_index();
    proof {
        if ids@.len() > 0 {
            lemma_selected_id_is_listed(ids@, idx as int);
        }
    }
    select_id(ids, idx)
}

} // verus!
