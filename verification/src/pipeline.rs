//! Download orchestrator and engagement handler.
//!
//! The "user picked a result" event arrives with a continuation token; the
//! decisions taken on it live here, between the host's I/O steps. `chosen`
//! decodes the token and either finishes the cached path (history append,
//! like-count refresh) or asks the host to fetch the track's audio. Once
//! the host has fetched and uploaded the asset, `chosen_downloaded`
//! persists it — detecting the duplicate-insert race and re-reading the
//! winning row — and appends history. `handle_callback` processes a later
//! button press against the same token space.

use vstd::prelude::*;

use crate::b64::b64_of;
use crate::codec::{decode_query, spec_callback_bytes, spec_query_bytes, CallbackData,
    EncoderError, QueryData};
use crate::markup::{make_song_reply_markup, spec_song_reply_markup, Button};
use crate::store::{spec_has_deezer_id, spec_like_count, spec_liked_state, spec_song_by_deezer_id,
    spec_toggle_transition, CachedSong, CachedSongView, HistoryRecord, SongStore, StoreError};

verus! {

/// What the host must do next after a selection event was decoded.
pub enum ChosenAction {
    /// The token was a pending fetch: fetch this external track's audio,
    /// upload it, and hand the asset handle to `chosen_downloaded`.
    Fetch { track_id: u64 },
    /// The token was a cached song: history is already appended; refresh
    /// the placeholder message's markup with this button, best-effort.
    Refresh { song_id: i32, markup: Button },
}

/// Handle a "result selected" event carrying the result's continuation
/// token.
///
/// A token that `encode_query` never produced is fatal for the invocation
/// and changes nothing. A cached token appends one history entry for the
/// selecting user and yields the refreshed like button; a pending-fetch
/// token asks the host to fetch — nothing is written until the fetch and
/// upload succeed.
pub fn chosen(store: &mut SongStore, result_id: &str, user: i64, date: i64) -> (r: Result<
    ChosenAction,
    EncoderError,
>)
    requires
        old(store).wf(),
        old(store).history().len() < i32::MAX,
        old(store).likes().len() <= i64::MAX,
    ensures
        final(store).wf(),
        final(store).songs() == old(store).songs(),
        final(store).likes() == old(store).likes(),
        match r {
            Err(_) => {
                &&& final(store).history() == old(store).history()
                &&& forall|d: QueryData| result_id@ != b64_of(spec_query_bytes(d))
            },
            Ok(ChosenAction::Fetch { track_id }) => {
                &&& final(store).history() == old(store).history()
                &&& result_id@ == b64_of(spec_query_bytes(QueryData::Download(track_id)))
            },
            Ok(ChosenAction::Refresh { song_id, markup }) => {
                &&& result_id@ == b64_of(spec_query_bytes(QueryData::Cached(song_id)))
                &&& final(store).history() == old(store).history().push(
                    (HistoryRecord {
                        id: (old(store).history().len() + 1) as i32,
                        user_id: user,
                        song_id,
                        search_date: date,
                    }),
                )
                &&& markup@ == spec_song_reply_markup(
                    song_id,
                    spec_like_count(old(store).likes(), song_id as i64) as i64,
                )
            },
        },
{
    match decode_query(result_id) {
        Err(e) => {
            proof {
                assert forall|d: QueryData| result_id@ != b64_of(spec_query_bytes(d)) by {
                    if result_id@ == b64_of(spec_query_bytes(d)) {
                        assert(false);
                    }
                }
            }
            Err(e)
        },
        Ok(QueryData::Download(track_id)) => Ok(ChosenAction::Fetch { track_id }),
        Ok(QueryData::Cached(song_id)) => {
            store.push_history(song_id, user, date);
            let likes = store.song_likes(song_id as i64);
            let markup = make_song_reply_markup(song_id, likes);
            Ok(ChosenAction::Refresh { song_id, markup })
        },
    }
}

/// Persist a freshly fetched and uploaded track, and log the selection.
///
/// This is the linearization point of the cache: when no row holds the
/// external id yet, the new row (with its assigned internal id) is
/// appended and the like button starts at zero. When a concurrent
/// selection of the same track won the race in the meantime, the store's
/// conflict is absorbed by re-reading the winning row and refreshing its
/// current like count instead. Either way one history entry is appended
/// for the selecting user against the returned row.
pub fn chosen_downloaded(
    store: &mut SongStore,
    track_id: u64,
    file_id: String,
    title: String,
    artist: String,
    user: i64,
    date: i64,
) -> (r: (CachedSong, Button))
    requires
        old(store).wf(),
        track_id <= i64::MAX,
        old(store).songs().len() < i32::MAX,
        old(store).history().len() < i32::MAX,
        old(store).likes().len() <= i64::MAX,
    ensures
        final(store).wf(),
        final(store).likes() == old(store).likes(),
        !spec_has_deezer_id(old(store).songs(), track_id as i64) ==> {
            &&& r.0@ == (CachedSongView {
                id: (old(store).songs().len() + 1) as i32,
                deezer_id: track_id as i64,
                file_id: file_id@,
                song_name: title@,
                song_artist: artist@,
            })
            &&& final(store).songs() == old(store).songs().push(r.0@)
            &&& r.1@ == spec_song_reply_markup(r.0@.id, 0)
        },
        spec_has_deezer_id(old(store).songs(), track_id as i64) ==> {
            &&& final(store).songs() == old(store).songs()
            &&& Some(r.0@) == spec_song_by_deezer_id(old(store).songs(), track_id as i64)
            &&& r.1@ == spec_song_reply_markup(
                r.0@.id,
                spec_like_count(old(store).likes(), r.0@.id as i64) as i64,
            )
        },
        final(store).history() == old(store).history().push(
            (HistoryRecord {
                id: (old(store).history().len() + 1) as i32,
                user_id: user,
                song_id: r.0@.id,
                search_date: date,
            }),
        ),
{
    match store.insert_song(track_id as i64, file_id, title, artist) {
        Ok(song) => {
            store.push_history(song.id, user, date);
            let markup = make_song_reply_markup(song.id, 0);
            (song, markup)
        },
        Err(StoreError::Conflict) => {
            let song = store.song_by_deezer_id(track_id as i64).unwrap();
            store.push_history(song.id, user, date);
            let likes = store.song_likes(song.id as i64);
            let markup = make_song_reply_markup(song.id, likes);
            (song, markup)
        },
    }
}

/// Handle a button-press callback carrying an already-decoded engagement
/// token.
///
/// A no-op token acknowledges the press without touching the store; a
/// toggle-like token flips the presser's like of the song and the
/// acknowledgement names the new state.
pub fn handle_callback(
    store: &mut SongStore,
    data: &CallbackData,
    presser: i64,
    sent_by: Option<i64>,
    date: i64,
) -> (ack: String)
    requires
        old(store).wf(),
    ensures
        final(store).wf(),
        final(store).songs() == old(store).songs(),
        final(store).history() == old(store).history(),
        match *data {
            CallbackData::Nothing => {
                &&& final(store).likes() == old(store).likes()
                &&& ack@ == "Nothing to see here!"@
            },
            CallbackData::Like { song_id } => {
                &&& spec_liked_state(final(store).likes(), presser, song_id)
                    == !spec_liked_state(old(store).likes(), presser, song_id)
                &&& final(store).likes() == spec_toggle_transition(
                    old(store).likes(),
                    presser,
                    song_id,
                    sent_by,
                    date,
                )
                &&& ack@ == (if spec_liked_state(final(store).likes(), presser, song_id) {
                    "You liked the song!"@
                } else {
                    "You unliked the song!"@
                })
            },
        },
{
    match data {
        CallbackData::Nothing => "Nothing to see here!".to_owned(),
        CallbackData::Like { song_id } => {
            let liked = store.toggle_like_song(presser, *song_id, sent_by, date);
            if liked {
                "You liked the song!".to_owned()
            } else {
                "You unliked the song!".to_owned()
            }
        },
    }
}

} // verus!
