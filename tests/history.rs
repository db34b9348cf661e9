use tg_bot::history::{
    role_to_string, string_to_role, window_from_latest, HistoryStore, Role, StorageError,
    StoredTurn,
};

fn turn(channel_id: i64, content: &str, created_at: u64) -> StoredTurn {
    StoredTurn { channel_id, role: Role::User, content: content.to_string(), created_at }
}

#[test]
fn roles_round_trip() {
    for role in [Role::System, Role::Assistant, Role::User] {
        assert_eq!(string_to_role(&role_to_string(role)), Some(role));
    }
    assert_eq!(role_to_string(Role::Assistant), "assistant");
    assert_eq!(string_to_role("moderator"), None);
    assert_eq!(string_to_role("User"), None);
}

#[test]
fn window_reverses_latest_first_fetch() {
    let fetched = vec![turn(1, "c", 30), turn(1, "b", 20), turn(1, "a", 10)];
    let w = window_from_latest(&fetched, 10);
    let contents: Vec<&str> = w.iter().map(|t| t.content.as_str()).collect();
    assert_eq!(contents, vec!["a", "b", "c"]);
    let w2 = window_from_latest(&fetched, 2);
    let contents2: Vec<&str> = w2.iter().map(|t| t.content.as_str()).collect();
    assert_eq!(contents2, vec!["b", "c"]);
    assert!(window_from_latest(&fetched, 0).is_empty());
}

#[test]
fn recent_is_bounded_and_ordered() {
    let mut store = HistoryStore::new();
    for i in 0..25 {
        let ch = if i % 3 == 0 { 7 } else { 8 };
        assert!(store.append(ch, Role::User, &format!("m{}", i)).is_ok());
    }
    for limit in [0usize, 1, 5, 10, 100] {
        for ch in [7i64, 8, 9] {
            let r = store.recent(ch, limit);
            assert!(r.len() <= limit);
            assert!(r.iter().all(|t| t.channel_id == ch));
            for pair in r.windows(2) {
                assert!(pair[0].created_at <= pair[1].created_at);
            }
        }
    }
    let last = store.recent(7, 3);
    let contents: Vec<&str> = last.iter().map(|t| t.content.as_str()).collect();
    assert_eq!(contents, vec!["m18", "m21", "m24"]);
    assert_eq!(store.recent(7, 100).len(), 9);
}

#[test]
fn clear_empties_only_that_channel() {
    let mut store = HistoryStore::new();
    store.append(1, Role::User, "hi").unwrap();
    store.append(2, Role::User, "other").unwrap();
    store.append(1, Role::Assistant, "hello").unwrap();
    store.clear(1);
    assert!(store.recent(1, 10).is_empty());
    assert_eq!(store.recent(2, 10).len(), 1);
    store.clear(1);
    assert!(store.recent(1, 10).is_empty());
    store.clear(3);
    assert_eq!(store.recent(2, 10)[0].content, "other");
}

#[test]
fn clear_then_append_starts_fresh() {
    let mut store = HistoryStore::new();
    store.append(4, Role::User, "old").unwrap();
    store.clear(4);
    store.append(4, Role::User, "new").unwrap();
    let r = store.recent(4, 10);
    assert_eq!(r.len(), 1);
    assert_eq!(r[0].content, "new");
    assert_eq!(r[0].role, Role::User);
}

#[test]
fn storage_error_variants_differ() {
    assert_ne!(StorageError::Io, StorageError::Full);
}
