//! Result presenter.
//!
//! Builds the outward-facing descriptor of a track, with its continuation
//! token as the selection id and an engagement button attached. The
//! functions here are pure: they read a track and produce a value; nothing
//! is sent.

use vstd::prelude::*;
use vstd::string::StringExecFns;

use crate::b64::b64_of;
use crate::codec::{encode_callback, encode_query, spec_callback_bytes, spec_query_bytes,
    CallbackData, QueryData};
use crate::deezer::{Song, SongView};
use crate::store::{CachedSong, CachedSongView};
use crate::text::{spec_u64_digits, u64_to_dec};

verus! {

/// One button of a result's reply markup: a label and the engagement
/// token that pressing it sends back.
#[derive(Debug)]
pub struct Button {
    pub label: String,
    pub payload: String,
}

/// Mathematical value of a `Button`.
pub struct ButtonView {
    pub label: Seq<char>,
    pub payload: Seq<char>,
}

impl View for Button {
    type V = ButtonView;

    open spec fn view(&self) -> ButtonView {
        ButtonView { label: self.label@, payload: self.payload@ }
    }
}

/// The outward-facing descriptor of one search result, as the transport
/// shows it to the user.
#[derive(Debug)]
pub enum QueryResult {
    /// A track that is not cached yet: previews its remote clip and
    /// carries a pending-fetch token; its placeholder button does nothing.
    Audio {
        id: String,
        url: String,
        title: String,
        performer: String,
        duration: String,
        caption: String,
        button: Button,
    },
    /// A track that is already cached: re-sends the durable asset handle
    /// and carries a cached token.
    CachedAudio { id: String, file_id: String, button: Button },
}

/// Mathematical value of a `QueryResult`.
pub enum QueryResultView {
    Audio {
        id: Seq<char>,
        url: Seq<char>,
        title: Seq<char>,
        performer: Seq<char>,
        duration: Seq<char>,
        caption: Seq<char>,
        button: ButtonView,
    },
    CachedAudio { id: Seq<char>, file_id: Seq<char>, button: ButtonView },
}

impl View for QueryResult {
    type V = QueryResultView;

    open spec fn view(&self) -> QueryResultView {
        match self {
            QueryResult::Audio { id, url, title, performer, duration, caption, button } => {
                QueryResultView::Audio {
                    id: id@,
                    url: url@,
                    title: title@,
                    performer: performer@,
                    duration: duration@,
                    caption: caption@,
                    button: button@,
                }
            },
            QueryResult::CachedAudio { id, file_id, button } => {
                QueryResultView::CachedAudio { id: id@, file_id: file_id@, button: button@ }
            },
        }
    }
}

/// The placeholder button attached while a track has no cached asset yet:
/// pressing it sends the no-op engagement token.
pub open spec fn spec_loading_button() -> ButtonView {
    ButtonView {
        label: "Loading..."@,
        payload: b64_of(spec_callback_bytes(CallbackData::Nothing)),
    }
}

/// The like button of a cached song: its label shows the current like
/// count, and pressing it sends the toggle-like engagement token.
pub open spec fn spec_song_reply_markup(song_id: i32, likes: i64) -> ButtonView {
    ButtonView {
        label: "Like ("@ + spec_u64_digits(likes as u64) + ")"@,
        payload: b64_of(spec_callback_bytes(CallbackData::Like { song_id })),
    }
}

/// The descriptor of a track that has not been cached yet: a pending-fetch
/// token as its id, the remote preview as its audio, and a placeholder
/// button.
pub open spec fn spec_unregistered_query_result(s: SongView) -> QueryResultView {
    QueryResultView::Audio {
        id: b64_of(spec_query_bytes(QueryData::Download(s.id))),
        url: s.preview,
        title: s.title,
        performer: s.artist.name,
        duration: spec_u64_digits(s.duration),
        caption: "The file is downloading... please wait."@,
        button: spec_loading_button(),
    }
}

/// The descriptor of an already-cached song: a cached token as its id, the
/// durable asset handle as its audio, and the song's engagement button,
/// labelled with its current like count.
pub open spec fn spec_cached_query_result(s: CachedSongView, likes: i64) -> QueryResultView {
    QueryResultView::CachedAudio {
        id: b64_of(spec_query_bytes(QueryData::Cached(s.id))),
        file_id: s.file_id,
        button: spec_song_reply_markup(s.id, likes),
    }
}

fn make_loading_button() -> (r: Button)
    ensures
        r@ == spec_loading_button(),
{
    Button { label: "Loading...".to_owned(), payload: encode_callback(&CallbackData::Nothing) }
}

/// Present a track that has not been registered in the cache yet: the
/// descriptor previews the track's remote clip so the user sees something
/// immediately, and selecting it asks for a fetch.
pub fn make_unregistered_query_result(result: &Song) -> (r: QueryResult)
    ensures
        r@ == spec_unregistered_query_result(result@),
{
    QueryResult::Audio {
        id: encode_query(&QueryData::Download(result.id)),
        url: result.preview.clone(),
        title: result.title.clone(),
        performer: result.artist.name.clone(),
        duration: u64_to_dec(result.duration),
        caption: "The file is downloading... please wait.".to_owned(),
        button: make_loading_button(),
    }
}

/// The like button for a song, labelled with its current like count.
pub fn make_song_reply_markup(song_id: i32, likes: i64) -> (r: Button)
    requires
        0 <= likes,
    ensures
        r@ == spec_song_reply_markup(song_id, likes),
{
    let mut label = "Like (".to_owned();
    let count = u64_to_dec(likes as u64);
    label.append(count.as_str());
    label.append(")");
    Button { label, payload: encode_callback(&CallbackData::Like { song_id }) }
}

/// Present a song that is already cached: the descriptor re-sends the
/// uploaded asset directly, with no network fetch needed, and attaches the
/// song's engagement button showing `likes`, its current like count.
pub fn make_cached_query_result(registered: &CachedSong, likes: i64) -> (r: QueryResult)
    requires
        0 <= likes,
    ensures
        r@ == spec_cached_query_result(registered@, likes),
{
    QueryResult::CachedAudio {
        id: encode_query(&QueryData::Cached(registered.id)),
        file_id: registered.file_id.clone(),
        button: make_song_reply_markup(registered.id, likes),
    }
}

} // verus!
