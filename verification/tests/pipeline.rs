use songbot::codec::{encode_callback, encode_query, CallbackData, EncoderError, QueryData};
use songbot::deezer::{should_renew, Album, Artist, Song};
use songbot::inline::{history_results, inline_query_mode, search_results, QueryMode};
use songbot::markup::QueryResult;
use songbot::pipeline::{chosen, chosen_downloaded, handle_callback, ChosenAction};
use songbot::store::SongStore;

fn track(id: u64, title: &str) -> Song {
    Song {
        id,
        title: title.to_string(),
        preview: format!("https://preview.example/{id}"),
        duration: 200,
        artist: Artist { name: "Daft Punk".to_string() },
        album: Album { title: "Discovery".to_string(), cover: "cover-url".to_string() },
    }
}

#[test]
fn chosen_rejects_forged_tokens() {
    let mut store = SongStore::new();
    let r = chosen(&mut store, "not a token", 7, 10);
    assert!(matches!(r, Err(EncoderError::Base64)));
    let r = chosen(&mut store, "CQk", 7, 10);
    assert!(matches!(r, Err(EncoderError::Malformed)));
    assert!(store.get_history(7, 10).is_empty());
}

#[test]
fn chosen_pending_asks_for_fetch_without_writing() {
    let mut store = SongStore::new();
    let token = encode_query(&QueryData::Download(42));
    match chosen(&mut store, &token, 7, 10) {
        Ok(ChosenAction::Fetch { track_id }) => assert_eq!(track_id, 42),
        _ => panic!("a pending-fetch token must ask for a fetch"),
    }
    assert!(store.by_deezer_ids(&vec![42]).is_empty());
    assert!(store.get_history(7, 10).is_empty());
}

#[test]
fn chosen_downloaded_loser_reuses_winning_row() {
    let mut store = SongStore::new();
    // The race's winner inserted the row first.
    let (winner, _) = chosen_downloaded(
        &mut store,
        42,
        "file-w".to_string(),
        "Harder".to_string(),
        "Daft Punk".to_string(),
        7,
        10,
    );
    // The loser fetched and uploaded independently; its insert conflicts
    // and the winning row is reused.
    let (loser, markup) = chosen_downloaded(
        &mut store,
        42,
        "file-l".to_string(),
        "Harder".to_string(),
        "Daft Punk".to_string(),
        8,
        11,
    );
    assert_eq!(loser.id, winner.id);
    assert_eq!(loser.file_id, "file-w");
    assert_eq!(markup.label, "Like (0)");
    assert_eq!(store.by_deezer_ids(&vec![42]).len(), 1);
    // Both selections were logged.
    assert_eq!(store.get_history(7, 10).len(), 1);
    assert_eq!(store.get_history(8, 10).len(), 1);
}

#[test]
fn callback_nothing_only_acknowledges() {
    let mut store = SongStore::new();
    let ack = handle_callback(&mut store, &CallbackData::Nothing, 7, None, 10);
    assert_eq!(ack, "Nothing to see here!");
    assert_eq!(store.song_likes(1), 0);
}

#[test]
fn callback_like_acknowledges_new_state() {
    let mut store = SongStore::new();
    store
        .insert_song(42, "f".to_string(), "n".to_string(), "a".to_string())
        .unwrap();
    let data = CallbackData::Like { song_id: 1 };
    assert_eq!(handle_callback(&mut store, &data, 7, Some(9), 10), "You liked the song!");
    assert_eq!(handle_callback(&mut store, &data, 7, Some(9), 11), "You unliked the song!");
    assert_eq!(store.song_likes(1), 0);
}

#[test]
fn session_renewal_threshold() {
    assert!(!should_renew(1000, 1000));
    assert!(!should_renew(4600, 1000));
    assert!(should_renew(4601, 1000));
    assert!(!should_renew(500, 1000));
}

#[test]
fn end_to_end_scenario() {
    let mut store = SongStore::new();
    let user = 31;

    // Empty query from a user with no prior history: no results.
    assert_eq!(inline_query_mode(""), QueryMode::History);
    assert!(history_results(&store, user).is_empty());

    // A long enough query with zero cache hits: five pending-fetch
    // descriptors, ranked as the remote service ranked them.
    assert_eq!(inline_query_mode("daft punk"), QueryMode::Search);
    let tracks = vec![
        track(42, "Harder"),
        track(43, "Better"),
        track(44, "Faster"),
        track(45, "Stronger"),
        track(46, "Around the World"),
    ];
    let results = search_results(&tracks, &store);
    assert_eq!(results.len(), 5);
    let mut selected_token = String::new();
    for (k, r) in results.iter().enumerate() {
        match r {
            QueryResult::Audio { id, .. } => {
                assert_eq!(id, &encode_query(&QueryData::Download(tracks[k].id)));
                if tracks[k].id == 42 {
                    selected_token = id.clone();
                }
            },
            QueryResult::CachedAudio { .. } => panic!("zero cache hits expected"),
        }
    }

    // Selecting the pending-fetch descriptor for external id 42: the
    // orchestrator asks for a fetch, the host fetches and uploads, and the
    // asset is persisted with one history row for the user.
    let action = chosen(&mut store, &selected_token, user, 100).unwrap();
    let track_id = match action {
        ChosenAction::Fetch { track_id } => track_id,
        ChosenAction::Refresh { .. } => panic!("nothing is cached yet"),
    };
    assert_eq!(track_id, 42);
    let (song, markup) = chosen_downloaded(
        &mut store,
        track_id,
        "asset-handle".to_string(),
        "Harder".to_string(),
        "Daft Punk".to_string(),
        user,
        101,
    );
    assert_eq!(song.deezer_id, 42);
    assert_eq!(markup.label, "Like (0)");
    assert_eq!(store.by_deezer_ids(&vec![42]).len(), 1);
    assert_eq!(store.get_history(user, 10).len(), 1);

    // Searching again now renders the track as cached, and selecting it
    // only appends a second history row: no second fetch.
    let results = search_results(&tracks, &store);
    let cached_token = match &results[0] {
        QueryResult::CachedAudio { id, file_id, button } => {
            assert_eq!(file_id, "asset-handle");
            assert_eq!(button.label, "Like (0)");
            id.clone()
        },
        QueryResult::Audio { .. } => panic!("the fetched track is cached now"),
    };
    match chosen(&mut store, &cached_token, user, 102).unwrap() {
        ChosenAction::Refresh { song_id, markup } => {
            assert_eq!(song_id, song.id);
            assert_eq!(markup.label, "Like (0)");
        },
        ChosenAction::Fetch { .. } => panic!("no second fetch"),
    }
    assert_eq!(store.get_history(user, 10).len(), 2);
    assert_eq!(store.by_deezer_ids(&vec![42]).len(), 1);

    // Pressing the like button twice toggles on and back off.
    let like = CallbackData::Like { song_id: song.id };
    let ack = handle_callback(&mut store, &like, user, None, 103);
    assert_eq!(ack, "You liked the song!");
    let button = encode_callback(&like);
    assert!(!button.is_empty());
    let ack = handle_callback(&mut store, &like, user, None, 104);
    assert_eq!(ack, "You unliked the song!");
    assert_eq!(store.song_likes(song.id as i64), 0);
}
