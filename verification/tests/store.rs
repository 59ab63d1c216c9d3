use blog_service::{BlogPost, BlogStore, NewBlogPost, ServiceError};

fn draft(title: &str, body: &str) -> NewBlogPost {
    NewBlogPost { title: title.to_string(), body: body.to_string() }
}

fn post(id: i32, title: &str, body: &str, published: Option<bool>) -> BlogPost {
    BlogPost { id, title: title.to_string(), body: body.to_string(), published }
}

#[test]
fn new_store_is_empty() {
    let store = BlogStore::new();
    assert_eq!(store.len(), 0);
    assert_eq!(store.list_all(), Vec::<BlogPost>::new());
    assert_eq!(store.ids(), Vec::<i32>::new());
}

#[test]
fn create_issues_ids_upwards_from_one() {
    let mut store = BlogStore::new();
    assert_eq!(store.create(draft("A", "B")), Ok(post(1, "A", "B", None)));
    assert_eq!(store.create(draft("C", "D")), Ok(post(2, "C", "D", None)));
    assert_eq!(store.create(draft("A", "B")), Ok(post(3, "A", "B", None)));
    assert_eq!(store.ids(), vec![1, 2, 3]);
}

#[test]
fn created_post_is_found_under_its_id() {
    let mut store = BlogStore::new();
    let first = store.create(draft("first", "one")).unwrap();
    let second = store.create(draft("second", "two")).unwrap();
    assert_ne!(first.id, second.id);
    assert_eq!(store.get(first.id), Ok(first));
    assert_eq!(store.get(second.id), Ok(second));
}

#[test]
fn deleted_id_is_not_issued_again() {
    let mut store = BlogStore::new();
    let first = store.create(draft("first", "one")).unwrap();
    assert_eq!(first.id, 1);
    assert_eq!(store.delete(1), Ok(first));
    let second = store.create(draft("second", "two")).unwrap();
    assert_eq!(second.id, 2);
    assert_eq!(store.get(1), Err(ServiceError::NotFound));
}

#[test]
fn update_keeps_the_id_of_the_path() {
    let mut store = BlogStore::new();
    store.create(draft("A", "B")).unwrap();
    store.create(draft("C", "D")).unwrap();
    let sent = post(77, "A2", "B2", Some(true));
    assert_eq!(store.update(1, sent), Ok(post(1, "A2", "B2", Some(true))));
    assert_eq!(store.get(1), Ok(post(1, "A2", "B2", Some(true))));
    assert_eq!(store.get(77), Err(ServiceError::NotFound));
    assert_eq!(store.get(2), Ok(post(2, "C", "D", None)));
    assert_eq!(store.len(), 2);
}

#[test]
fn update_can_clear_published() {
    let mut store = BlogStore::new();
    store.create(draft("A", "B")).unwrap();
    store.update(1, post(0, "A", "B", Some(false))).unwrap();
    assert_eq!(store.update(1, post(0, "A", "B", None)), Ok(post(1, "A", "B", None)));
}

#[test]
fn missing_id_is_not_found() {
    let mut store = BlogStore::new();
    store.create(draft("A", "B")).unwrap();
    assert_eq!(store.get(2), Err(ServiceError::NotFound));
    assert_eq!(store.get(0), Err(ServiceError::NotFound));
    assert_eq!(store.get(-1), Err(ServiceError::NotFound));
    assert_eq!(store.update(2, post(2, "X", "Y", None)), Err(ServiceError::NotFound));
    assert_eq!(store.delete(2), Err(ServiceError::NotFound));
    assert_eq!(store.list_all(), vec![post(1, "A", "B", None)]);
}

#[test]
fn second_delete_is_not_found() {
    let mut store = BlogStore::new();
    store.create(draft("A", "B")).unwrap();
    store.create(draft("C", "D")).unwrap();
    assert_eq!(store.delete(1), Ok(post(1, "A", "B", None)));
    assert_eq!(store.delete(1), Err(ServiceError::NotFound));
    assert_eq!(store.list_all(), vec![post(2, "C", "D", None)]);
}

#[test]
fn delete_returns_the_row_as_last_written() {
    let mut store = BlogStore::new();
    store.create(draft("A", "B")).unwrap();
    store.update(1, post(1, "A2", "B2", Some(true))).unwrap();
    assert_eq!(store.delete(1), Ok(post(1, "A2", "B2", Some(true))));
}

#[test]
fn list_holds_what_was_created_and_not_deleted() {
    let mut store = BlogStore::new();
    for i in 0..5 {
        store.create(draft(&format!("title {}", i), "body")).unwrap();
    }
    store.delete(2).unwrap();
    store.delete(4).unwrap();
    store.update(3, post(0, "third", "changed", Some(false))).unwrap();
    let rows = store.list_all();
    assert_eq!(rows.len(), 3);
    assert_eq!(
        rows,
        vec![
            post(1, "title 0", "body", None),
            post(3, "third", "changed", Some(false)),
            post(5, "title 4", "body", None),
        ]
    );
    assert_eq!(store.len(), 3);
    assert_eq!(store.ids(), vec![1, 3, 5]);
}

#[test]
fn random_row_is_one_of_the_rows() {
    let mut store = BlogStore::new();
    for i in 0..4 {
        store.create(draft(&format!("title {}", i), "body")).unwrap();
    }
    store.delete(3).unwrap();
    for _ in 0..200 {
        let row = store.get_random().unwrap();
        assert!(row.id == 1 || row.id == 2 || row.id == 4);
        assert_eq!(store.get(row.id), Ok(row));
    }
}

#[test]
fn random_row_of_an_empty_table_is_not_found() {
    let store = BlogStore::new();
    assert_eq!(store.get_random(), Err(ServiceError::NotFound));
    assert_eq!(store.get_random_at(0), Err(ServiceError::NotFound));
    assert_eq!(store.get_random_at(usize::MAX), Err(ServiceError::NotFound));
}

#[test]
fn random_row_at_a_number_is_the_row_at_that_number_modulo_the_count() {
    let mut store = BlogStore::new();
    for i in 0..4 {
        store.create(draft(&format!("title {}", i), "body")).unwrap();
    }
    store.delete(2).unwrap();
    assert_eq!(store.get_random_at(0), Ok(post(1, "title 0", "body", None)));
    assert_eq!(store.get_random_at(1), Ok(post(3, "title 2", "body", None)));
    assert_eq!(store.get_random_at(2), Ok(post(4, "title 3", "body", None)));
    assert_eq!(store.get_random_at(3), Ok(post(1, "title 0", "body", None)));
    assert_eq!(store.get_random_at(7), Ok(post(3, "title 2", "body", None)));
}

#[test]
fn create_fails_when_the_ids_are_used_up() {
    let mut store = BlogStore::resume(i32::MAX - 1).unwrap();
    assert_eq!(store.create(draft("last", "one")), Ok(post(i32::MAX, "last", "one", None)));
    assert_eq!(store.create(draft("one", "more")), Err(ServiceError::StoreUnavailable));
    assert_eq!(store.len(), 1);
    assert_eq!(store.get(i32::MAX), Ok(post(i32::MAX, "last", "one", None)));
}

#[test]
fn resume_continues_after_the_last_id() {
    let mut store = BlogStore::resume(41).unwrap();
    assert_eq!(store.len(), 0);
    assert_eq!(store.create(draft("A", "B")), Ok(post(42, "A", "B", None)));
    let mut fresh = BlogStore::resume(0).unwrap();
    assert_eq!(fresh.create(draft("A", "B")), Ok(post(1, "A", "B", None)));
}

#[test]
fn resume_refuses_a_negative_id() {
    assert_eq!(BlogStore::resume(-1).err(), Some(ServiceError::StartupFailure));
    assert_eq!(BlogStore::resume(i32::MIN).err(), Some(ServiceError::StartupFailure));
}
