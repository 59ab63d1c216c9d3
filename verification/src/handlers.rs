//! The handlers that the route table binds: each takes what its request
//! carries and answers from the table or the configuration.

use vstd::prelude::*;
use crate::config::Config;
use crate::error::ServiceError;
use crate::history::Write;
use crate::post::{outcome, values, BlogPost, PostData};
use crate::store::BlogStore;

verus! {

/// Answers `GET /` with a fixed greeting.
pub fn index() -> (text: &'static str)
    ensures
        text@ == "Hello, world!"@,
{
    "Hello, world!"
}

/// Answers `GET /config` with the configuration as it was set at the start.
pub fn get_config(config: &Config) -> (copy: Config)
    ensures
        copy@ == config@,
{
    config.clone()
}

/// Answers `GET /blog-posts/random` with one of the rows. On an empty table
/// it looks up id 0, which no row has, and so fails with `NotFound`.
pub fn get_random_blog_post(conn: &BlogStore) -> (res: Result<BlogPost, ServiceError>)
    requires
        conn.wf(),
    ensures
        conn@.rows.len() == 0 ==> res == Err::<BlogPost, ServiceError>(ServiceError::NotFound),
        conn@.rows.len() > 0 ==> (res matches Ok(post) && conn@.get(post@.id) == Ok::<
            PostData,
            ServiceError,
        >(post@)),
{
    conn.get_random()
}

/// Answers `GET /blog-posts/{id}` with the row that has the id.
pub fn get_blog_post(conn: &BlogStore, id: i32) -> (res: Result<BlogPost, ServiceError>)
    requires
        conn.wf(),
    ensures
        outcome(res) == conn@.get(id as int),
        conn@.contains(id as int) ==> outcome(res) == Ok::<PostData, ServiceError>(
            conn@.row(id as int),
        ),
        !conn@.contains(id as int) ==> res == Err::<BlogPost, ServiceError>(
            ServiceError::NotFound,
        ),
{
    conn.get(id)
}

/// Answers `GET /blog-posts/` with all rows.
pub fn get_all_blog_posts(conn: &BlogStore) -> (posts: Vec<BlogPost>)
    ensures
        values(posts@) == conn@.rows,
{
    conn.list_all()
}

/// Answers `POST /blog-posts/`: creates a row from the title and the body of
/// what was sent. An id or a `published` that was sent with them is ignored.
pub fn create_blog_post(conn: &mut BlogStore, blog_post: BlogPost) -> (res: Result<
    BlogPost,
    ServiceError,
>)
    requires
        old(conn).wf(),
    ensures
        final(conn).wf(),
        old(conn)@.can_create() ==> outcome(res) == Ok::<PostData, ServiceError>(
            old(conn)@.next_row(blog_post@.write_shape()),
        ) && final(conn)@ == old(conn)@.created(blog_post@.write_shape()),
        !old(conn)@.can_create() ==> res == Err::<BlogPost, ServiceError>(
            ServiceError::StoreUnavailable,
        ) && final(conn)@ == old(conn)@,
        final(conn)@ == old(conn)@.apply(Write::Create(blog_post@.write_shape())),
        res matches Ok(row) ==> !old(conn)@.issued(row.id as int) && final(conn)@.get(
            row.id as int,
        ) == Ok::<PostData, ServiceError>(row@),
        forall|other: int|
            other != old(conn)@.last_id + 1 ==> #[trigger] final(conn)@.get(other) == old(
                conn,
            )@.get(other),
{
    conn.create(blog_post.write_shape())
}

/// Answers `PUT /blog-posts/{id}`: replaces the row that has the id by what
/// was sent, except that the row keeps the id of the path.
pub fn update_blog_post(conn: &mut BlogStore, id: i32, blog: BlogPost) -> (res: Result<
    BlogPost,
    ServiceError,
>)
    requires
        old(conn).wf(),
    ensures
        final(conn).wf(),
        old(conn)@.contains(id as int) ==> outcome(res) == Ok::<PostData, ServiceError>(
            blog@.with_id(id as int),
        ) && final(conn)@ == old(conn)@.updated(id as int, blog@),
        !old(conn)@.contains(id as int) ==> res == Err::<BlogPost, ServiceError>(
            ServiceError::NotFound,
        ) && final(conn)@ == old(conn)@,
        final(conn)@ == old(conn)@.apply(Write::Update(id as int, blog@)),
        res matches Ok(row) ==> row.id == id && final(conn)@.get(id as int) == Ok::<
            PostData,
            ServiceError,
        >(row@),
        forall|other: int|
            other != id ==> #[trigger] final(conn)@.get(other) == old(conn)@.get(other),
{
    conn.update(id, blog)
}

/// Answers `DELETE /blog-posts/{id}`: removes the row that has the id and
/// returns it as it was.
pub fn delete_blog_post(conn: &mut BlogStore, id: i32) -> (res: Result<BlogPost, ServiceError>)
    requires
        old(conn).wf(),
    ensures
        final(conn).wf(),
        old(conn)@.contains(id as int) ==> outcome(res) == Ok::<PostData, ServiceError>(
            old(conn)@.row(id as int),
        ) && final(conn)@ == old(conn)@.deleted(id as int),
        !old(conn)@.contains(id as int) ==> res == Err::<BlogPost, ServiceError>(
            ServiceError::NotFound,
        ) && final(conn)@ == old(conn)@,
        final(conn)@ == old(conn)@.apply(Write::Delete(id as int)),
        final(conn)@.get(id as int) == Err::<PostData, ServiceError>(ServiceError::NotFound),
        forall|other: int|
            other != id ==> #[trigger] final(conn)@.get(other) == old(conn)@.get(other),
{
    conn.delete(id)
}

} // verus!
