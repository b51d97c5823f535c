use songbot::commands::{history_message, liked_message, Commands};
use songbot::store::SongStore;
use songbot::text::u64_to_dec;

#[test]
fn decimal_rendering() {
    assert_eq!(u64_to_dec(0), "0");
    assert_eq!(u64_to_dec(7), "7");
    assert_eq!(u64_to_dec(10), "10");
    assert_eq!(u64_to_dec(305), "305");
    assert_eq!(u64_to_dec(u64::MAX), "18446744073709551615");
}

#[test]
fn command_parsing() {
    assert_eq!(Commands::parse("/history"), Some(Commands::History));
    assert_eq!(Commands::parse("/liked"), Some(Commands::Liked));
    assert_eq!(Commands::parse("/start"), Some(Commands::Start));
    assert_eq!(Commands::parse("/unknown"), None);
    assert_eq!(Commands::parse("history"), None);
    assert_eq!(Commands::parse(""), None);
}

#[test]
fn command_names() {
    assert_eq!(Commands::History.name(), "history");
    assert_eq!(Commands::Liked.name(), "liked");
    assert_eq!(Commands::Start.name(), "start");
}

#[test]
fn history_message_lists_numbered_rows() {
    let mut store = SongStore::new();
    store
        .insert_song(101, "f1".to_string(), "Harder".to_string(), "Daft Punk".to_string())
        .unwrap();
    store
        .insert_song(102, "f2".to_string(), "Better".to_string(), "Daft Punk".to_string())
        .unwrap();
    store.push_history(1, 7, 10);
    store.push_history(2, 7, 11);
    let rows = store.get_history(7, 10);
    let text = history_message(&rows);
    assert_eq!(
        text,
        "Your last 10 searches:\n\n1) Daft Punk - Better\n2) Daft Punk - Harder\n"
    );
}

#[test]
fn history_message_for_empty_history() {
    let rows = SongStore::new().get_history(7, 10);
    assert_eq!(history_message(&rows), "Your last 10 searches:\n\n");
}

#[test]
fn liked_message_lists_numbered_rows() {
    let mut store = SongStore::new();
    store
        .insert_song(101, "f1".to_string(), "Harder".to_string(), "Daft Punk".to_string())
        .unwrap();
    store.toggle_like_song(7, 1, None, 10);
    let rows = store.get_likes(7, 10);
    let text = liked_message(&rows);
    assert_eq!(
        text,
        "Here's the list of your latest favorite songs:\n1) Daft Punk - Harder\n"
    );
}
