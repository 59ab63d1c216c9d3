//! Verified core of a small blog-post service.
//!
//! The crate holds the entity model, an in-memory table with the semantics of
//! a single relational table keyed by a store-assigned id, the rule by which a
//! random row is picked, the route table, and the request handlers. Every
//! function carries a contract that Verus proves; the one exception is the
//! call that draws a random number, of which nothing is claimed.

pub mod config;
pub mod error;
pub mod handlers;
pub mod history;
pub mod path;
pub mod pick;
pub mod post;
pub mod routes;
pub mod state;
pub mod store;

pub use config::{Config, ConfigData};
pub use error::ServiceError;
pub use handlers::{
    create_blog_post, delete_blog_post, get_all_blog_posts, get_blog_post, get_config,
    get_random_blog_post, index, update_blog_post,
};
pub use history::Write;
pub use pick::{pick_random_id, select_id};
pub use post::{BlogPost, NewBlogPost, NewPostData, PostData};
pub use routes::{route, Method, Route};
pub use state::TableState;
pub use store::BlogStore;
