use blog_service::{pick_random_id, select_id};

#[test]
fn select_id_takes_the_index_modulo_the_count() {
    let ids = vec![10, 20, 30];
    assert_eq!(select_id(&ids, 0), 10);
    assert_eq!(select_id(&ids, 1), 20);
    assert_eq!(select_id(&ids, 2), 30);
    assert_eq!(select_id(&ids, 3), 10);
    assert_eq!(select_id(&ids, 4), 20);
    assert_eq!(select_id(&ids, usize::MAX), ids[usize::MAX % 3]);
}

#[test]
fn select_id_of_nothing_is_zero() {
    assert_eq!(select_id(&Vec::new(), 0), 0);
    assert_eq!(select_id(&Vec::new(), 12345), 0);
}

#[test]
fn select_id_of_one_is_that_one() {
    assert_eq!(select_id(&vec![-7], 0), -7);
    assert_eq!(select_id(&vec![-7], 99), -7);
}

#[test]
fn pick_random_id_picks_from_the_list() {
    let ids = vec![4, 8, 15, 16, 23, 42];
    for _ in 0..200 {
        let id = pick_random_id(&ids);
        assert!(ids.contains(&id));
    }
}

#[test]
fn pick_random_id_of_nothing_is_zero() {
    assert_eq!(pick_random_id(&Vec::new()), 0);
}

#[test]
fn pick_random_id_reaches_more_than_one_id() {
    let ids = vec![1, 2];
    let mut seen_one = false;
    let mut seen_two = false;
    for _ in 0..400 {
        match pick_random_id(&ids) {
            1 => seen_one = true,
            2 => seen_two = true,
            other => panic!("picked {} from {:?}", other, ids),
        }
    }
    assert!(seen_one && seen_two);
}
