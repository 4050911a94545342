use bibin::store::{
    delete_paste, generate_id, get_all_paste, get_paste, remove_old, store_paste,
    store_paste_given_id, IOError, PasteStore,
};

const ALPHABET: &str = "abcdefghjkmnpqrstwxyz23456789";

fn stored_content(store: &PasteStore, id: &str) -> Option<String> {
    get_paste(store, id).expect("get_paste never errors")
}

#[test]
fn round_trip() {
    let mut store = PasteStore::new();
    let id = store_paste(&mut store, 4, 100, String::from("hello world")).unwrap();
    assert_eq!(stored_content(&store, &id), Some(String::from("hello world")));
}

#[test]
fn absence_never_stored() {
    let store = PasteStore::new();
    assert_eq!(get_paste(&store, "zzzz"), Ok(None));
}

#[test]
fn absence_after_delete() {
    let mut store = PasteStore::new();
    let id = store_paste(&mut store, 4, 100, String::from("body")).unwrap();
    delete_paste(&mut store, id.clone()).unwrap();
    assert_eq!(get_paste(&store, &id), Ok(None));
}

#[test]
fn fifo_eviction() {
    let mut store = PasteStore::new();
    store_paste_given_id(&mut store, String::from("aaaa"), String::from("A")).unwrap();
    store_paste_given_id(&mut store, String::from("bbbb"), String::from("B")).unwrap();
    // A third entry with max_entries = 2 evicts the oldest entry only. Its
    // generated id has 8 characters, so it cannot collide with "bbbb".
    let id = store_paste(&mut store, 8, 2, String::from("C")).unwrap();
    assert_eq!(stored_content(&store, "aaaa"), None);
    assert_eq!(stored_content(&store, "bbbb"), Some(String::from("B")));
    assert_eq!(stored_content(&store, &id), Some(String::from("C")));
    assert!(store.len() <= 2);
}

#[test]
fn eviction_bound_from_above_capacity() {
    let mut store = PasteStore::new();
    // A lowered capacity finds the store far above the bound.
    for i in 0..20 {
        let id = format!("old{}", i);
        store_paste_given_id(&mut store, id, String::from("x")).unwrap();
    }
    assert_eq!(store.len(), 20);
    let id = store_paste(&mut store, 6, 5, String::from("fresh")).unwrap();
    assert!(store.len() <= 5);
    assert_eq!(stored_content(&store, &id), Some(String::from("fresh")));
}

#[test]
fn overwrite_keeps_id_and_replaces_content() {
    let mut store = PasteStore::new();
    store_paste_given_id(&mut store, String::from("abcd"), String::from("v1")).unwrap();
    store_paste_given_id(&mut store, String::from("abcd"), String::from("v2")).unwrap();
    assert_eq!(stored_content(&store, "abcd"), Some(String::from("v2")));
    assert_eq!(store.len(), 1);
}

#[test]
fn delete_returns_freed_id() {
    let mut store = PasteStore::new();
    store_paste_given_id(&mut store, String::from("abcd"), String::from("v")).unwrap();
    assert_eq!(delete_paste(&mut store, String::from("abcd")), Ok(String::from("abcd")));
}

#[test]
fn delete_twice_reports_not_found() {
    let mut store = PasteStore::new();
    store_paste_given_id(&mut store, String::from("abcd"), String::from("v")).unwrap();
    assert_eq!(delete_paste(&mut store, String::from("abcd")), Ok(String::from("abcd")));
    assert_eq!(delete_paste(&mut store, String::from("abcd")), Err(IOError::NotFound));
}

#[test]
fn collision_retry_all_succeed() {
    let mut store = PasteStore::new();
    // One-character ids over a 29-character alphabet: 30 distinct contents
    // force at least one collision, and every store still succeeds.
    for i in 0..30 {
        let id = store_paste(&mut store, 1, 100, format!("content {}", i)).unwrap();
        assert_eq!(id.len(), 1);
    }
    assert!(store.len() <= 100);
}

#[test]
fn collision_retry_respects_capacity() {
    let mut store = PasteStore::new();
    for i in 0..30 {
        store_paste(&mut store, 1, 10, format!("content {}", i)).unwrap();
        assert!(store.len() <= 10);
    }
}

#[test]
fn remove_old_evicts_oldest_first() {
    let mut store = PasteStore::new();
    for i in 0..5 {
        store_paste_given_id(&mut store, format!("id{}", i), format!("v{}", i)).unwrap();
    }
    assert_eq!(remove_old(&mut store, 3), Ok(2));
    assert_eq!(stored_content(&store, "id0"), None);
    assert_eq!(stored_content(&store, "id1"), None);
    assert_eq!(stored_content(&store, "id2"), Some(String::from("v2")));
    assert_eq!(stored_content(&store, "id4"), Some(String::from("v4")));
    assert_eq!(store.len(), 3);
}

#[test]
fn remove_old_on_small_store_removes_nothing() {
    let mut store = PasteStore::new();
    store_paste_given_id(&mut store, String::from("abcd"), String::from("v")).unwrap();
    assert_eq!(remove_old(&mut store, 10), Ok(0));
    assert_eq!(store.len(), 1);
}

#[test]
fn overwrite_resets_eviction_priority() {
    let mut store = PasteStore::new();
    store_paste_given_id(&mut store, String::from("aaaa"), String::from("A")).unwrap();
    store_paste_given_id(&mut store, String::from("bbbb"), String::from("B")).unwrap();
    // Rewriting the oldest entry makes it the newest: eviction now takes the
    // other one first.
    store_paste_given_id(&mut store, String::from("aaaa"), String::from("A2")).unwrap();
    assert_eq!(remove_old(&mut store, 1), Ok(1));
    assert_eq!(stored_content(&store, "bbbb"), None);
    assert_eq!(stored_content(&store, "aaaa"), Some(String::from("A2")));
}

#[test]
fn generated_ids_have_length_and_alphabet() {
    for len in [0usize, 1, 4, 16] {
        let id = generate_id(len);
        assert_eq!(id.chars().count(), len);
        for c in id.chars() {
            assert!(ALPHABET.contains(c));
        }
    }
}

#[test]
fn stored_id_has_requested_length_and_alphabet() {
    let mut store = PasteStore::new();
    let id = store_paste(&mut store, 4, 100, String::from("x")).unwrap();
    assert_eq!(id.chars().count(), 4);
    for c in id.chars() {
        assert!(ALPHABET.contains(c));
    }
}

#[test]
fn get_all_paste_lists_entries_oldest_first() {
    let mut store = PasteStore::new();
    store_paste_given_id(&mut store, String::from("one"), String::from("1")).unwrap();
    store_paste_given_id(&mut store, String::from("two"), String::from("2")).unwrap();
    let all = get_all_paste(&store);
    assert_eq!(
        all,
        vec![
            (String::from("one"), String::from("1")),
            (String::from("two"), String::from("2")),
        ]
    );
}
