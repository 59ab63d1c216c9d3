use blog_service::{
    create_blog_post, delete_blog_post, get_all_blog_posts, get_blog_post, get_config,
    get_random_blog_post, index, route, update_blog_post, BlogPost, BlogStore, Config, Method,
    Route, ServiceError,
};

fn post(id: i32, title: &str, body: &str, published: Option<bool>) -> BlogPost {
    BlogPost { id, title: title.to_string(), body: body.to_string(), published }
}

#[test]
fn index_greets() {
    assert_eq!(index(), "Hello, world!");
}

#[test]
fn get_config_returns_the_configuration() {
    let config = Config { name: "Ada".to_string(), age: 36 };
    assert_eq!(get_config(&config), Config { name: "Ada".to_string(), age: 36 });
    assert_eq!(config.name, "Ada");
}

#[test]
fn create_ignores_id_and_published_of_what_was_sent() {
    let mut conn = BlogStore::new();
    let sent = post(99, "A", "B", Some(true));
    assert_eq!(create_blog_post(&mut conn, sent), Ok(post(1, "A", "B", None)));
    assert_eq!(get_blog_post(&conn, 99), Err(ServiceError::NotFound));
    assert_eq!(get_all_blog_posts(&conn), vec![post(1, "A", "B", None)]);
}

#[test]
fn create_read_replace_delete() {
    let mut conn = BlogStore::new();

    assert_eq!(route(Method::Post, "/blog-posts/"), Some(Route::CreateBlogPost));
    let created = create_blog_post(&mut conn, post(0, "A", "B", None)).unwrap();
    assert_eq!(created, post(1, "A", "B", None));

    assert_eq!(route(Method::Get, "/blog-posts/1"), Some(Route::GetBlogPost(1)));
    assert_eq!(get_blog_post(&conn, 1), Ok(post(1, "A", "B", None)));

    assert_eq!(route(Method::Put, "/blog-posts/1"), Some(Route::UpdateBlogPost(1)));
    let sent = post(0, "A2", "B2", Some(true));
    assert_eq!(update_blog_post(&mut conn, 1, sent), Ok(post(1, "A2", "B2", Some(true))));

    assert_eq!(route(Method::Delete, "/blog-posts/1"), Some(Route::DeleteBlogPost(1)));
    assert_eq!(delete_blog_post(&mut conn, 1), Ok(post(1, "A2", "B2", Some(true))));

    assert_eq!(get_blog_post(&conn, 1), Err(ServiceError::NotFound));
    assert_eq!(get_all_blog_posts(&conn), Vec::<BlogPost>::new());
}

#[test]
fn handlers_fail_on_an_id_that_no_row_has() {
    let mut conn = BlogStore::new();
    create_blog_post(&mut conn, post(0, "A", "B", None)).unwrap();
    assert_eq!(get_blog_post(&conn, 5), Err(ServiceError::NotFound));
    assert_eq!(update_blog_post(&mut conn, 5, post(5, "X", "Y", None)), Err(ServiceError::NotFound));
    assert_eq!(delete_blog_post(&mut conn, 5), Err(ServiceError::NotFound));
    assert_eq!(get_all_blog_posts(&conn), vec![post(1, "A", "B", None)]);
}

#[test]
fn random_post_is_one_that_exists() {
    let mut conn = BlogStore::new();
    assert_eq!(get_random_blog_post(&conn), Err(ServiceError::NotFound));
    create_blog_post(&mut conn, post(0, "A", "B", None)).unwrap();
    create_blog_post(&mut conn, post(0, "C", "D", None)).unwrap();
    delete_blog_post(&mut conn, 1).unwrap();
    for _ in 0..50 {
        assert_eq!(get_random_blog_post(&conn), Ok(post(2, "C", "D", None)));
    }
}

#[test]
fn create_reports_a_store_that_cannot_write() {
    let mut conn = BlogStore::resume(i32::MAX).unwrap();
    assert_eq!(
        create_blog_post(&mut conn, post(0, "A", "B", None)),
        Err(ServiceError::StoreUnavailable)
    );
    assert_eq!(get_all_blog_posts(&conn), Vec::<BlogPost>::new());
}
