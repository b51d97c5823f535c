//! Remote catalog data and the session-renewal policy.
//!
//! The remote search and the audio fetch are network I/O that a host
//! program performs; this module holds the shape of a search result as the
//! pipeline consumes it, and the staleness rule that decides when the
//! fetch client's session token must be renewed before a download.

use vstd::prelude::*;

verus! {

/// A track's artist, as the remote catalog reports it.
#[derive(Debug)]
pub struct Artist {
    pub name: String,
}

/// Mathematical value of an `Artist`.
pub struct ArtistView {
    pub name: Seq<char>,
}

impl View for Artist {
    type V = ArtistView;

    open spec fn view(&self) -> ArtistView {
        ArtistView { name: self.name@ }
    }
}

/// A track's album, as the remote catalog reports it.
#[derive(Debug)]
pub struct Album {
    pub title: String,
    /// Reference to the album cover image.
    pub cover: String,
}

/// Mathematical value of an `Album`.
pub struct AlbumView {
    pub title: Seq<char>,
    pub cover: Seq<char>,
}

impl View for Album {
    type V = AlbumView;

    open spec fn view(&self) -> AlbumView {
        AlbumView { title: self.title@, cover: self.cover@ }
    }
}

/// One remote search result: a track summary. Transient; never persisted
/// directly.
#[derive(Debug)]
pub struct Song {
    /// External track id, assigned by the remote catalog, never reused.
    pub id: u64,
    pub title: String,
    /// Reference to a short preview clip, shown before the full audio is
    /// fetched.
    pub preview: String,
    /// Duration in seconds.
    pub duration: u64,
    pub artist: Artist,
    pub album: Album,
}

/// Mathematical value of a `Song`.
pub struct SongView {
    pub id: u64,
    pub title: Seq<char>,
    pub preview: Seq<char>,
    pub duration: u64,
    pub artist: ArtistView,
    pub album: AlbumView,
}

impl View for Song {
    type V = SongView;

    open spec fn view(&self) -> SongView {
        SongView {
            id: self.id,
            title: self.title@,
            preview: self.preview@,
            duration: self.duration,
            artist: self.artist@,
            album: self.album@,
        }
    }
}

/// How long a fetch-session token stays fresh, in seconds: one hour.
pub const RENEW_THRESHOLD_SECS: u64 = 3600;

/// Whether the fetch client must renew its session before the next
/// download: true once more than the threshold has passed since the last
/// renewal. `now` and `renew_time` are seconds since the epoch.
pub fn should_renew(now: u64, renew_time: u64) -> (r: bool)
    ensures
        r == (now > renew_time + RENEW_THRESHOLD_SECS),
{
    now > renew_time && now - renew_time > RENEW_THRESHOLD_SECS
}

} // verus!
