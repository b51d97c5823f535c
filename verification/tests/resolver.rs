use songbot::codec::{decode_callback, decode_query, CallbackData, QueryData};
use songbot::deezer::{Album, Artist, Song};
use songbot::inline::{history_results, inline_query_mode, search_results, QueryMode};
use songbot::markup::QueryResult;
use songbot::store::SongStore;

fn track(id: u64, title: &str) -> Song {
    Song {
        id,
        title: title.to_string(),
        preview: format!("https://preview.example/{id}"),
        duration: 200,
        artist: Artist { name: "Daft Punk".to_string() },
        album: Album { title: "Discovery".to_string(), cover: "cover-url".to_string() },
    }
}

#[test]
fn query_mode_branches_on_length() {
    assert_eq!(inline_query_mode(""), QueryMode::History);
    assert_eq!(inline_query_mode("a"), QueryMode::TooShort);
    assert_eq!(inline_query_mode("ab"), QueryMode::TooShort);
    assert_eq!(inline_query_mode("abc"), QueryMode::Search);
    assert_eq!(inline_query_mode("daft punk"), QueryMode::Search);
}

#[test]
fn search_partitions_cached_first_then_remote_order() {
    let mut store = SongStore::new();
    // Pre-cache the track with external id 102.
    let cached = store
        .insert_song(102, "file-b".to_string(), "Better".to_string(), "Daft Punk".to_string())
        .unwrap();
    let tracks = vec![track(101, "Harder"), track(102, "Better"), track(103, "Faster")];
    let results = search_results(&tracks, &store);

    // Exactly one descriptor per input id: the cached one first, then the
    // uncached ones in the remote order.
    assert_eq!(results.len(), 3);
    match &results[0] {
        QueryResult::CachedAudio { id, file_id, button } => {
            assert_eq!(decode_query(id), Ok(QueryData::Cached(cached.id)));
            assert_eq!(file_id, "file-b");
            // The cached descriptor carries the song's engagement button,
            // labelled with its current like count.
            assert_eq!(button.label, "Like (0)");
            assert_eq!(
                decode_callback(&button.payload),
                Ok(CallbackData::Like { song_id: cached.id })
            );
        },
        QueryResult::Audio { .. } => panic!("cached track must render as cached audio"),
    }
    let expected_pending = [101u64, 103];
    for (k, r) in results[1..].iter().enumerate() {
        match r {
            QueryResult::Audio { id, title, performer, duration, caption, button, .. } => {
                assert_eq!(decode_query(id), Ok(QueryData::Download(expected_pending[k])));
                assert_eq!(performer, "Daft Punk");
                assert_eq!(duration, "200");
                assert_eq!(caption, "The file is downloading... please wait.");
                assert_eq!(button.label, "Loading...");
                assert!(!title.is_empty());
            },
            QueryResult::CachedAudio { .. } => panic!("uncached track must render as pending"),
        }
    }
}

#[test]
fn search_with_empty_cache_keeps_remote_ranking() {
    let store = SongStore::new();
    let tracks = vec![
        track(5, "One More Time"),
        track(4, "Aerodynamic"),
        track(3, "Digital Love"),
        track(2, "Crescendolls"),
        track(1, "Veridis Quo"),
    ];
    let results = search_results(&tracks, &store);
    assert_eq!(results.len(), 5);
    for (k, r) in results.iter().enumerate() {
        match r {
            QueryResult::Audio { id, .. } => {
                assert_eq!(decode_query(id), Ok(QueryData::Download(tracks[k].id)));
            },
            QueryResult::CachedAudio { .. } => panic!("nothing is cached yet"),
        }
    }
}

#[test]
fn history_results_show_no_repeat_history() {
    let mut store = SongStore::new();
    store
        .insert_song(101, "f1".to_string(), "Harder".to_string(), "Daft Punk".to_string())
        .unwrap();
    store
        .insert_song(102, "f2".to_string(), "Better".to_string(), "Daft Punk".to_string())
        .unwrap();
    store.push_history(1, 7, 10);
    store.push_history(2, 7, 11);
    store.push_history(1, 7, 12);
    let results = history_results(&store, 7);
    assert_eq!(results.len(), 2);
    match &results[0] {
        QueryResult::CachedAudio { id, file_id, .. } => {
            assert_eq!(decode_query(id), Ok(QueryData::Cached(1)));
            assert_eq!(file_id, "f1");
        },
        QueryResult::Audio { .. } => panic!("history entries are cached"),
    }
    match &results[1] {
        QueryResult::CachedAudio { id, .. } => {
            assert_eq!(decode_query(id), Ok(QueryData::Cached(2)));
        },
        QueryResult::Audio { .. } => panic!("history entries are cached"),
    }
}

#[test]
fn empty_history_yields_empty_results() {
    let store = SongStore::new();
    assert!(history_results(&store, 7).is_empty());
}

#[test]
fn cached_descriptor_shows_current_like_count() {
    let mut store = SongStore::new();
    let cached = store
        .insert_song(102, "file-b".to_string(), "Better".to_string(), "Daft Punk".to_string())
        .unwrap();
    store.toggle_like_song(7, cached.id, None, 10);
    store.toggle_like_song(8, cached.id, None, 11);
    let tracks = vec![track(102, "Better")];
    let results = search_results(&tracks, &store);
    assert_eq!(results.len(), 1);
    match &results[0] {
        QueryResult::CachedAudio { button, .. } => {
            assert_eq!(button.label, "Like (2)");
            assert_eq!(
                decode_callback(&button.payload),
                Ok(CallbackData::Like { song_id: cached.id })
            );
        },
        QueryResult::Audio { .. } => panic!("the track is cached"),
    }
}
