use songbot::store::{SongStore, StoreError};

fn filled_store() -> SongStore {
    let mut store = SongStore::new();
    store
        .insert_song(101, "file-a".to_string(), "Harder".to_string(), "Daft Punk".to_string())
        .unwrap();
    store
        .insert_song(102, "file-b".to_string(), "Better".to_string(), "Daft Punk".to_string())
        .unwrap();
    store
        .insert_song(103, "file-c".to_string(), "Faster".to_string(), "Daft Punk".to_string())
        .unwrap();
    store
}

#[test]
fn insert_assigns_sequential_ids() {
    let mut store = SongStore::new();
    let a = store
        .insert_song(101, "f1".to_string(), "n1".to_string(), "a1".to_string())
        .unwrap();
    let b = store
        .insert_song(102, "f2".to_string(), "n2".to_string(), "a2".to_string())
        .unwrap();
    assert_eq!(a.id, 1);
    assert_eq!(b.id, 2);
    assert_eq!(a.deezer_id, 101);
    assert_eq!(a.file_id, "f1");
    assert_eq!(a.song_name, "n1");
    assert_eq!(a.song_artist, "a1");
}

#[test]
fn insert_duplicate_conflicts_and_one_row_remains() {
    let mut store = SongStore::new();
    let first = store.insert_song(42, "f1".to_string(), "n1".to_string(), "a1".to_string());
    assert!(first.is_ok());
    let second = store.insert_song(42, "f2".to_string(), "n2".to_string(), "a2".to_string());
    assert_eq!(second.unwrap_err(), StoreError::Conflict);
    let rows = store.by_deezer_ids(&vec![42]);
    assert_eq!(rows.len(), 1);
    assert_eq!(rows[0].file_id, "f1");
}

#[test]
fn by_deezer_ids_returns_only_present_ids() {
    let store = filled_store();
    let rows = store.by_deezer_ids(&vec![103, 101, 999]);
    assert_eq!(rows.len(), 2);
    // Store order, not query order.
    assert_eq!(rows[0].deezer_id, 101);
    assert_eq!(rows[1].deezer_id, 103);
    assert!(store.by_deezer_ids(&vec![999]).is_empty());
    assert!(store.by_deezer_ids(&vec![]).is_empty());
}

#[test]
fn history_no_repeat_collapses_to_most_recent() {
    let mut store = filled_store();
    let user = 5;
    // Songs A=1, B=2, C=3 consumed in the order A, B, A, C.
    store.push_history(1, user, 10);
    store.push_history(2, user, 11);
    store.push_history(1, user, 12);
    store.push_history(3, user, 13);
    let rows = store.get_cached_history_no_repeat(user, 10);
    let ids: Vec<i32> = rows.iter().map(|s| s.id).collect();
    assert_eq!(ids, vec![3, 1, 2]);
}

#[test]
fn history_no_repeat_respects_limit_and_user() {
    let mut store = filled_store();
    store.push_history(1, 5, 10);
    store.push_history(2, 5, 11);
    store.push_history(3, 5, 12);
    store.push_history(1, 6, 13);
    let rows = store.get_cached_history_no_repeat(5, 2);
    let ids: Vec<i32> = rows.iter().map(|s| s.id).collect();
    assert_eq!(ids, vec![3, 2]);
    let other = store.get_cached_history_no_repeat(6, 10);
    let other_ids: Vec<i32> = other.iter().map(|s| s.id).collect();
    assert_eq!(other_ids, vec![1]);
    assert!(store.get_cached_history_no_repeat(7, 10).is_empty());
}

#[test]
fn get_history_lists_every_occurrence_most_recent_first() {
    let mut store = filled_store();
    let user = 5;
    store.push_history(1, user, 10);
    store.push_history(2, user, 11);
    store.push_history(1, user, 12);
    let rows = store.get_history(user, 10);
    assert_eq!(rows.len(), 3);
    assert_eq!(rows[0].song_name, "Harder");
    assert_eq!(rows[0].search_date, 12);
    assert_eq!(rows[1].song_name, "Better");
    assert_eq!(rows[2].song_name, "Harder");
    assert_eq!(rows[2].search_date, 10);
    let limited = store.get_history(user, 2);
    assert_eq!(limited.len(), 2);
}

#[test]
fn toggle_flips_and_returns_stored_state() {
    let mut store = filled_store();
    // An even number of toggles returns the pair to "not liked"; each
    // return value is the stored state.
    assert_eq!(store.toggle_like_song(7, 1, Some(8), 100), true);
    assert_eq!(store.toggle_like_song(7, 1, Some(8), 101), false);
    assert_eq!(store.toggle_like_song(7, 1, Some(8), 102), true);
    assert_eq!(store.toggle_like_song(7, 1, Some(8), 103), false);
    assert_eq!(store.song_likes(1), 0);
    // An odd number leaves it liked.
    assert_eq!(store.toggle_like_song(7, 1, Some(8), 104), true);
    assert_eq!(store.song_likes(1), 1);
}

#[test]
fn song_likes_counts_only_set_rows_for_that_song() {
    let mut store = filled_store();
    store.toggle_like_song(7, 1, None, 100);
    store.toggle_like_song(8, 1, None, 101);
    store.toggle_like_song(9, 1, None, 102);
    store.toggle_like_song(9, 1, None, 103);
    store.toggle_like_song(7, 2, None, 104);
    assert_eq!(store.song_likes(1), 2);
    assert_eq!(store.song_likes(2), 1);
    assert_eq!(store.song_likes(3), 0);
}

#[test]
fn get_likes_lists_currently_liked_songs_most_recent_first() {
    let mut store = filled_store();
    store.toggle_like_song(7, 1, None, 100);
    store.toggle_like_song(7, 2, None, 101);
    store.toggle_like_song(7, 3, None, 102);
    store.toggle_like_song(7, 2, None, 103);
    let rows = store.get_likes(7, 10);
    let ids: Vec<i32> = rows.iter().map(|s| s.id).collect();
    assert_eq!(ids, vec![3, 1]);
    let limited = store.get_likes(7, 1);
    assert_eq!(limited.len(), 1);
    assert_eq!(limited[0].id, 3);
    assert!(store.get_likes(8, 10).is_empty());
}

#[test]
fn cache_is_monotone_across_operations() {
    let mut store = SongStore::new();
    store
        .insert_song(42, "f".to_string(), "n".to_string(), "a".to_string())
        .unwrap();
    assert_eq!(store.by_deezer_ids(&vec![42]).len(), 1);
    // No later operation removes the row.
    let _ = store.insert_song(42, "g".to_string(), "m".to_string(), "b".to_string());
    store.push_history(1, 7, 10);
    store.toggle_like_song(7, 1, None, 11);
    store
        .insert_song(43, "h".to_string(), "o".to_string(), "c".to_string())
        .unwrap();
    assert_eq!(store.by_deezer_ids(&vec![42]).len(), 1);
    assert_eq!(store.song_by_id(1).unwrap().deezer_id, 42);
    assert_eq!(store.song_by_deezer_id(42).unwrap().id, 1);
    assert!(store.song_by_id(99).is_none());
    assert!(store.song_by_deezer_id(99).is_none());
}
