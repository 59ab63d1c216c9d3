//! The blog post entity, its write shape, and their mathematical values.

use vstd::prelude::*;
use crate::error::ServiceError;

verus! {

/// The value of a blog post: what a row of the table holds.
pub struct PostData {
    pub id: int,
    pub title: Seq<char>,
    pub body: Seq<char>,
    pub published: Option<bool>,
}

/// The value of a write shape: the fields a client chooses when it creates a post.
pub struct NewPostData {
    pub title: Seq<char>,
    pub body: Seq<char>,
}

impl PostData {
    /// The same post under another id.
    pub open spec fn with_id(self, id: int) -> PostData {
        PostData { id, ..self }
    }

    /// The fields of this post that a create request carries over.
    pub open spec fn write_shape(self) -> NewPostData {
        NewPostData { title: self.title, body: self.body }
    }
}

impl NewPostData {
    /// The row that the table stores for this write shape under `id`:
    /// `published` takes the column default, which is null.
    pub open spec fn stored_as(self, id: int) -> PostData {
        PostData { id, title: self.title, body: self.body, published: None }
    }
}

/// A blog post as it is stored and sent.
#[derive(Debug, PartialEq, Eq)]
pub struct BlogPost {
    pub id: i32,
    pub title: String,
    pub body: String,
    pub published: Option<bool>,
}

/// The fields accepted when a post is created; there is no id among them.
#[derive(Debug, PartialEq, Eq)]
pub struct NewBlogPost {
    pub title: String,
    pub body: String,
}

impl View for BlogPost {
    type V = PostData;

    open spec fn view(&self) -> PostData {
        PostData {
            id: self.id as int,
            title: self.title@,
            body: self.body@,
            published: self.published,
        }
    }
}

impl View for NewBlogPost {
    type V = NewPostData;

    open spec fn view(&self) -> NewPostData {
        NewPostData { title: self.title@, body: self.body@ }
    }
}

impl Clone for BlogPost {
    fn clone(&self) -> (copy: Self)
        ensures
            copy@ == self@,
    {
        BlogPost {
            id: self.id,
            title: self.title.clone(),
            body: self.body.clone(),
            published: self.published,
        }
    }
}

impl Clone for NewBlogPost {
    fn clone(&self) -> (copy: Self)
        ensures
            copy@ == self@,
    {
        NewBlogPost { title: self.title.clone(), body: self.body.clone() }
    }
}

impl BlogPost {
    /// Replaces the id and keeps every other field.
    pub fn with_id(self, id: i32) -> (post: BlogPost)
        ensures
            post@ == self@.with_id(id as int),
    {
        BlogPost { id, title: self.title, body: self.body, published: self.published }
    }

    /// Keeps the title and the body, and drops the id and `published`.
    pub fn write_shape(self) -> (new_post: NewBlogPost)
        ensures
            new_post@ == self@.write_shape(),
    {
        NewBlogPost { title: self.title, body: self.body }
    }
}

impl NewBlogPost {
    /// The row stored for this write shape under `id`.
    pub fn stored_as(self, id: i32) -> (post: BlogPost)
        ensures
            post@ == self@.stored_as(id as int),
    {
        BlogPost { id, title: self.title, body: self.body, published: None }
    }
}

/// The values of a list of posts, in order.
pub open spec fn values(posts: Seq<BlogPost>) -> Seq<PostData> {
    Seq::new(posts.len(), |i: int| posts[i]@)
}

/// The value of what an operation returned: the value of the post, or the failure.
pub open spec fn outcome(res: Result<BlogPost, ServiceError>) -> Result<PostData, ServiceError> {
    match res {
        Ok(post) => Ok(post@),
        Err(e) => Err(e),
    }
}

} // verus!
