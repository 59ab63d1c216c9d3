use blog_service::{BlogPost, NewBlogPost};

fn sample() -> BlogPost {
    BlogPost {
        id: 7,
        title: "title".to_string(),
        body: "body".to_string(),
        published: Some(false),
    }
}

#[test]
fn with_id_changes_the_id_alone() {
    assert_eq!(
        sample().with_id(3),
        BlogPost {
            id: 3,
            title: "title".to_string(),
            body: "body".to_string(),
            published: Some(false),
        }
    );
    assert_eq!(sample().with_id(7), sample());
}

#[test]
fn write_shape_keeps_title_and_body() {
    assert_eq!(
        sample().write_shape(),
        NewBlogPost { title: "title".to_string(), body: "body".to_string() }
    );
}

#[test]
fn stored_as_sets_the_id_and_leaves_published_unset() {
    let new_post = NewBlogPost { title: "t".to_string(), body: "b".to_string() };
    assert_eq!(
        new_post.stored_as(12),
        BlogPost { id: 12, title: "t".to_string(), body: "b".to_string(), published: None }
    );
}

#[test]
fn clone_copies_every_field() {
    let post = sample();
    assert_eq!(post.clone(), post);
    let new_post = NewBlogPost { title: "t".to_string(), body: "b".to_string() };
    assert_eq!(new_post.clone(), new_post);
}
