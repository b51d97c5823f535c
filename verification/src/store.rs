//! Song cache store.
//!
//! The durable state of the pipeline: cached songs (append-only, at most
//! one row per external track id), the history log (append-only), and the
//! like rows (one per (user, song) pair, toggled in place). The store's
//! operations are the persistence boundary of the pipeline; a host program
//! maps them onto its relational database, while this module gives their
//! semantics over sequences of rows.

use vstd::prelude::*;

verus! {

/// The durable record of a track once its audio has been fetched and
/// uploaded once. Never mutated, never deleted.
#[derive(Debug)]
pub struct CachedSong {
    /// Internal surrogate id, assigned by the store: position + 1.
    pub id: i32,
    /// External track id from the remote catalog; unique across rows.
    pub deezer_id: i64,
    /// Opaque transport handle that re-sends the uploaded audio.
    pub file_id: String,
    pub song_name: String,
    pub song_artist: String,
}

/// Mathematical value of a `CachedSong`.
pub struct CachedSongView {
    pub id: i32,
    pub deezer_id: i64,
    pub file_id: Seq<char>,
    pub song_name: Seq<char>,
    pub song_artist: Seq<char>,
}

impl View for CachedSong {
    type V = CachedSongView;

    open spec fn view(&self) -> CachedSongView {
        CachedSongView {
            id: self.id,
            deezer_id: self.deezer_id,
            file_id: self.file_id@,
            song_name: self.song_name@,
            song_artist: self.song_artist@,
        }
    }
}

impl Clone for CachedSong {
    fn clone(&self) -> (r: Self)
        ensures
            r@ == self@,
    {
        CachedSong {
            id: self.id,
            deezer_id: self.deezer_id,
            file_id: self.file_id.clone(),
            song_name: self.song_name.clone(),
            song_artist: self.song_artist.clone(),
        }
    }
}

/// One append-only history entry: user `user_id` consumed song `song_id`
/// at `search_date` (seconds since the epoch).
#[derive(Clone, Copy, Debug, PartialEq, Eq, Structural)]
pub struct HistoryRecord {
    /// Assigned by the store: position + 1. Recency follows this id.
    pub id: i32,
    pub user_id: i64,
    pub song_id: i32,
    pub search_date: i64,
}

/// A history read-back row: what of a song a history listing shows.
#[derive(Debug)]
pub struct HistorySong {
    pub song_name: String,
    pub song_artist: String,
    pub search_date: i64,
}

/// Mathematical value of a `HistorySong`.
pub struct HistorySongView {
    pub song_name: Seq<char>,
    pub song_artist: Seq<char>,
    pub search_date: i64,
}

impl View for HistorySong {
    type V = HistorySongView;

    open spec fn view(&self) -> HistorySongView {
        HistorySongView {
            song_name: self.song_name@,
            song_artist: self.song_artist@,
            search_date: self.search_date,
        }
    }
}

/// One like row: at most one per (liked_by, song_id) pair; `liked` is
/// flipped in place by the toggle operation.
#[derive(Clone, Copy, Debug, PartialEq, Eq, Structural)]
pub struct LikedSong {
    pub liked_by: i64,
    pub song_id: i32,
    /// Who originally surfaced the song to the liker, when known.
    pub sent_by: Option<i64>,
    pub liked_date: i64,
    pub liked: bool,
}

/// Store failure taxonomy. The in-memory store can only fail on the
/// uniqueness constraint; a host mapping these operations onto a database
/// reports its connectivity failures on its own side.
#[derive(Clone, Copy, Debug, PartialEq, Eq, Structural)]
pub enum StoreError {
    /// An insert hit the unique constraint on the external track id.
    Conflict,
}

/// The views of a sequence of rows.
pub open spec fn seq_views<T: View>(s: Seq<T>) -> Seq<T::V> {
    s.map_values(|x: T| x@)
}

/// Whether some cached row carries this external track id.
pub open spec fn spec_has_deezer_id(songs: Seq<CachedSongView>, deezer_id: i64) -> bool {
    exists|i: int| 0 <= i < songs.len() && songs[i].deezer_id == deezer_id
}

/// The cached row with this internal id, if any.
pub open spec fn spec_song_by_id(songs: Seq<CachedSongView>, id: i32) -> Option<CachedSongView> {
    if exists|i: int| 0 <= i < songs.len() && songs[i].id == id {
        Some(songs[choose|i: int| 0 <= i < songs.len() && songs[i].id == id])
    } else {
        None
    }
}

/// The cached row with this external track id, if any.
pub open spec fn spec_song_by_deezer_id(
    songs: Seq<CachedSongView>,
    deezer_id: i64,
) -> Option<CachedSongView> {
    if spec_has_deezer_id(songs, deezer_id) {
        Some(songs[choose|i: int| 0 <= i < songs.len() && songs[i].deezer_id == deezer_id])
    } else {
        None
    }
}

/// A sequence cut off after its first `n` elements.
pub open spec fn take_at_most<A>(s: Seq<A>, n: int) -> Seq<A> {
    if s.len() <= n {
        s
    } else {
        s.take(n)
    }
}

/// The store. Rows only ever accumulate: songs and history are append-only,
/// and like rows are updated in place but never removed.
pub struct SongStore {
    song_rows: Vec<CachedSong>,
    history_rows: Vec<HistoryRecord>,
    like_rows: Vec<LikedSong>,
}

impl SongStore {
    /// The cached songs, oldest first.
    pub closed spec fn songs(self) -> Seq<CachedSongView> {
        seq_views(self.song_rows@)
    }

    /// The history log, oldest first.
    pub closed spec fn history(self) -> Seq<HistoryRecord> {
        self.history_rows@
    }

    /// The like rows, oldest first.
    pub closed spec fn likes(self) -> Seq<LikedSong> {
        self.like_rows@
    }

    /// Well-formedness: ids mirror positions (so they are unique and
    /// recency follows them), external track ids are unique, and at most
    /// one like row exists per (user, song) pair.
    pub closed spec fn wf(self) -> bool {
        &&& forall|i: int| 0 <= i < self.songs().len() ==> (#[trigger] self.songs()[i]).id == i + 1
        &&& forall|i: int, j: int|
            0 <= i < j < self.songs().len() ==> self.songs()[i].deezer_id
                != self.songs()[j].deezer_id
        &&& forall|i: int|
            0 <= i < self.history().len() ==> (#[trigger] self.history()[i]).id == i + 1
        &&& forall|i: int, j: int|
            0 <= i < j < self.likes().len() ==> !(self.likes()[i].liked_by
                == self.likes()[j].liked_by && self.likes()[i].song_id
                == self.likes()[j].song_id)
    }

    /// A well-formed store's like rows have unique (user, song) keys.
    pub proof fn lemma_wf_likes_unique(self)
        requires
            self.wf(),
        ensures
            spec_likes_unique(self.likes()),
    {
    }

    /// A well-formed store's song rows carry their position plus one as
    /// their internal id, and distinct external ids.
    pub proof fn lemma_wf_songs_unique(self)
        requires
            self.wf(),
        ensures
            forall|i: int|
                0 <= i < self.songs().len() ==> (#[trigger] self.songs()[i]).id == i + 1,
            forall|i: int, j: int|
                0 <= i < j < self.songs().len() ==> self.songs()[i].deezer_id
                    != self.songs()[j].deezer_id,
    {
    }

    /// An empty store.
    pub fn new() -> (r: SongStore)
        ensures
            r.wf(),
            r.songs() == Seq::<CachedSongView>::empty(),
            r.history() == Seq::<HistoryRecord>::empty(),
            r.likes() == Seq::<LikedSong>::empty(),
    {
        let r = SongStore { song_rows: Vec::new(), history_rows: Vec::new(), like_rows: Vec::new() };
        proof {
            assert(r.songs() =~= Seq::<CachedSongView>::empty());
        }
        r
    }

    /// How many songs are cached.
    pub fn songs_len(&self) -> (r: usize)
        ensures
            r == self.songs().len(),
    {
        self.song_rows.len()
    }

    /// How many history entries have been appended.
    pub fn history_len(&self) -> (r: usize)
        ensures
            r == self.history().len(),
    {
        self.history_rows.len()
    }

    /// How many like rows exist.
    pub fn likes_len(&self) -> (r: usize)
        ensures
            r == self.likes().len(),
    {
        self.like_rows.len()
    }

    fn has_deezer_id(&self, deezer_id: i64) -> (r: bool)
        ensures
            r == spec_has_deezer_id(self.songs(), deezer_id),
    {
        let n = self.song_rows.len();
        let mut i: usize = 0;
        while i < n
            invariant
                0 <= i <= n,
                n == self.songs().len(),
                forall|k: int| 0 <= k < i ==> self.songs()[k].deezer_id != deezer_id,
            decreases n - i,
        {
            if self.song_rows[i].deezer_id == deezer_id {
                proof {
                    assert(self.songs()[i as int].deezer_id == deezer_id);
                }
                return true;
            }
            i += 1;
        }
        false
    }

    /// Insert the first cached row for an external track id.
    ///
    /// The store enforces the cache invariant itself: if a row for
    /// `deezer_id` already exists (for instance because a concurrent
    /// selection of the same track won the race), the insert reports
    /// `Conflict` and changes nothing; otherwise it appends the row and
    /// returns it, with its assigned internal id.
    pub fn insert_song(
        &mut self,
        deezer_id: i64,
        file_id: String,
        song_name: String,
        song_artist: String,
    ) -> (r: Result<CachedSong, StoreError>)
        requires
            old(self).wf(),
            old(self).songs().len() < i32::MAX,
        ensures
            final(self).wf(),
            final(self).history() == old(self).history(),
            final(self).likes() == old(self).likes(),
            old(self).songs().is_prefix_of(final(self).songs()),
            match r {
                Ok(song) => {
                    &&& !spec_has_deezer_id(old(self).songs(), deezer_id)
                    &&& song@ == (CachedSongView {
                        id: (old(self).songs().len() + 1) as i32,
                        deezer_id,
                        file_id: file_id@,
                        song_name: song_name@,
                        song_artist: song_artist@,
                    })
                    &&& final(self).songs() == old(self).songs().push(song@)
                },
                Err(e) => {
                    &&& e == StoreError::Conflict
                    &&& spec_has_deezer_id(old(self).songs(), deezer_id)
                    &&& final(self).songs() == old(self).songs()
                },
            },
    {
        if self.has_deezer_id(deezer_id) {
            proof {
                assert(self.songs().subrange(0, self.songs().len() as int) =~= self.songs());
            }
            return Err(StoreError::Conflict);
        }
        let id: i32 = (self.song_rows.len() + 1) as i32;
        let song = CachedSong { id, deezer_id, file_id, song_name, song_artist };
        let copy = song.clone();
        self.song_rows.push(song);
        proof {
            let pre = old(self).songs();
            let post = self.songs();
            assert(post =~= pre.push(copy@));
            assert forall|i: int| 0 <= i < post.len() implies (#[trigger] post[i]).id == i + 1 by {
                if i < pre.len() {
                    assert(pre[i].id == i + 1);
                } else {
                    assert(post[i] == copy@);
                }
            }
            assert forall|i: int, j: int|
                0 <= i < j < post.len() implies post[i].deezer_id != post[j].deezer_id by {
                if j < pre.len() {
                    assert(pre[i].deezer_id != pre[j].deezer_id);
                } else {
                    assert(post[j] == copy@);
                    assert(!(0 <= i < pre.len() && pre[i].deezer_id == deezer_id));
                }
            }
            assert forall|i: int|
                0 <= i < self.history().len() implies (#[trigger] self.history()[i]).id == i
                + 1 by {
                assert(old(self).history()[i].id == i + 1);
            }
            assert(post.subrange(0, pre.len() as int) =~= pre);
        }
        Ok(copy)
    }

    /// The cached rows among a batch of external track ids, in store
    /// order. Absent ids are simply omitted, never an error.
    pub fn by_deezer_ids(&self, deezer_ids: &Vec<i64>) -> (r: Vec<CachedSong>)
        ensures
            seq_views(r@) == self.songs().filter(
                |s: CachedSongView| deezer_ids@.contains(s.deezer_id),
            ),
    {
        let n = self.song_rows.len();
        let mut out: Vec<CachedSong> = Vec::new();
        let mut i: usize = 0;
        proof {
            assert(self.songs().take(0) =~= Seq::<CachedSongView>::empty());
            reveal(Seq::filter);
            assert(seq_views(out@) =~= self.songs().take(0).filter(
                |s: CachedSongView| deezer_ids@.contains(s.deezer_id),
            ));
        }
        while i < n
            invariant
                0 <= i <= n,
                n == self.songs().len(),
                n == self.song_rows@.len(),
                seq_views(out@) == self.songs().take(i as int).filter(
                    |s: CachedSongView| deezer_ids@.contains(s.deezer_id),
                ),
            decreases n - i,
        {
            let ghost pred = |s: CachedSongView| deezer_ids@.contains(s.deezer_id);
            let ghost pre = seq_views(out@);
            if contains_i64(deezer_ids, self.song_rows[i].deezer_id) {
                out.push(self.song_rows[i].clone());
            }
            proof {
                reveal(Seq::filter);
                let t = self.songs().take(i + 1);
                assert(t.drop_last() =~= self.songs().take(i as int));
                assert(t.last() == self.songs()[i as int]);
                if pred(self.songs()[i as int]) {
                    assert(seq_views(out@) =~= pre.push(self.songs()[i as int]));
                } else {
                    assert(seq_views(out@) =~= pre);
                }
            }
            i += 1;
        }
        proof {
            assert(self.songs().take(n as int) =~= self.songs());
        }
        out
    }

    /// The cached row with this external track id, if any, as a copy.
    pub fn song_by_deezer_id(&self, deezer_id: i64) -> (r: Option<CachedSong>)
        requires
            self.wf(),
        ensures
            match r {
                Some(song) => spec_song_by_deezer_id(self.songs(), deezer_id) == Some(song@),
                None => spec_song_by_deezer_id(self.songs(), deezer_id) is None,
            },
    {
        let n = self.song_rows.len();
        let mut i: usize = 0;
        while i < n
            invariant
                self.wf(),
                0 <= i <= n,
                n == self.songs().len(),
                forall|k: int| 0 <= k < i ==> self.songs()[k].deezer_id != deezer_id,
            decreases n - i,
        {
            if self.song_rows[i].deezer_id == deezer_id {
                proof {
                    assert(self.songs()[i as int].deezer_id == deezer_id);
                    let c = choose|k: int|
                        0 <= k < self.songs().len() && self.songs()[k].deezer_id == deezer_id;
                    if c < i {
                        assert(self.songs()[c].deezer_id != self.songs()[i as int].deezer_id);
                    } else if c > i {
                        assert(self.songs()[i as int].deezer_id != self.songs()[c].deezer_id);
                    }
                }
                return Some(self.song_rows[i].clone());
            }
            i += 1;
        }
        None
    }

    /// The cached row with this internal id, if any, as a copy.
    pub fn song_by_id(&self, id: i32) -> (r: Option<CachedSong>)
        requires
            self.wf(),
        ensures
            match r {
                Some(song) => spec_song_by_id(self.songs(), id) == Some(song@),
                None => spec_song_by_id(self.songs(), id) is None,
            },
    {
        if id >= 1 && (id as usize) <= self.song_rows.len() {
            let song = self.song_rows[(id as usize) - 1].clone();
            proof {
                let w = id - 1;
                assert(self.songs()[w].id == id);
                let c = choose|i: int| 0 <= i < self.songs().len() && self.songs()[i].id == id;
                assert(self.songs()[c].id == c + 1);
            }
            Some(song)
        } else {
            proof {
                if exists|i: int| 0 <= i < self.songs().len() && self.songs()[i].id == id {
                    let c = choose|i: int|
                        0 <= i < self.songs().len() && self.songs()[i].id == id;
                    assert(self.songs()[c].id == c + 1);
                }
            }
            None
        }
    }
}

/// What a full history listing for `user` shows, most recent first: one
/// row per history entry of that user, joined to the cached song it names
/// (entries whose song id matches no cached row are omitted).
pub open spec fn spec_history_songs(
    history: Seq<HistoryRecord>,
    songs: Seq<CachedSongView>,
    user: i64,
) -> Seq<HistorySongView>
    decreases history.len(),
{
    if history.len() == 0 {
        seq![]
    } else {
        let last = history.last();
        let rest = history.drop_last();
        let entry = spec_song_by_id(songs, last.song_id);
        if last.user_id == user && entry is Some {
            seq![
                (HistorySongView {
                    song_name: entry->0.song_name,
                    song_artist: entry->0.song_artist,
                    search_date: last.search_date,
                }),
            ] + spec_history_songs(rest, songs, user)
        } else {
            spec_history_songs(rest, songs, user)
        }
    }
}

/// What a no-repeat history listing for `user` shows, most recent first:
/// each cached song the user has consumed appears once, at the position of
/// its most recent occurrence. `seen` carries the song ids already listed.
pub open spec fn spec_no_repeat_history(
    history: Seq<HistoryRecord>,
    songs: Seq<CachedSongView>,
    user: i64,
    seen: Set<i32>,
) -> Seq<CachedSongView>
    decreases history.len(),
{
    if history.len() == 0 {
        seq![]
    } else {
        let last = history.last();
        let rest = history.drop_last();
        let entry = spec_song_by_id(songs, last.song_id);
        if last.user_id == user && !seen.contains(last.song_id) && entry is Some {
            seq![entry->0] + spec_no_repeat_history(rest, songs, user, seen.insert(last.song_id))
        } else {
            spec_no_repeat_history(rest, songs, user, seen)
        }
    }
}

/// Law: history no-repeat. A no-repeat listing names each song at most
/// once: no two of its rows share an internal id, and none carries an id
/// already seen.
pub proof fn lemma_no_repeat_distinct(
    history: Seq<HistoryRecord>,
    songs: Seq<CachedSongView>,
    user: i64,
    seen: Set<i32>,
)
    ensures
        forall|k: int|
            0 <= k < spec_no_repeat_history(history, songs, user, seen).len() ==> !seen.contains(
                (#[trigger] spec_no_repeat_history(history, songs, user, seen)[k]).id,
            ),
        forall|k: int, l: int|
            0 <= k < l < spec_no_repeat_history(history, songs, user, seen).len()
                ==> spec_no_repeat_history(history, songs, user, seen)[k].id
                != spec_no_repeat_history(history, songs, user, seen)[l].id,
    decreases history.len(),
{
    if history.len() > 0 {
        let last = history.last();
        let rest = history.drop_last();
        let entry = spec_song_by_id(songs, last.song_id);
        if last.user_id == user && !seen.contains(last.song_id) && entry is Some {
            let seen2 = seen.insert(last.song_id);
            lemma_no_repeat_distinct(rest, songs, user, seen2);
            let out = spec_no_repeat_history(history, songs, user, seen);
            let tail = spec_no_repeat_history(rest, songs, user, seen2);
            assert(out[0].id == last.song_id) by {
                let c = choose|i: int| 0 <= i < songs.len() && songs[i].id == last.song_id;
                assert(songs[c].id == last.song_id);
            }
            assert forall|k: int| 0 <= k < out.len() implies !seen.contains(
                (#[trigger] out[k]).id,
            ) by {
                if k > 0 {
                    assert(out[k] == tail[k - 1]);
                    assert(!seen2.contains(tail[k - 1].id));
                }
            }
            assert forall|k: int, l: int| 0 <= k < l < out.len() implies out[k].id
                != out[l].id by {
                assert(out[l] == tail[l - 1]);
                assert(!seen2.contains(tail[l - 1].id));
                if k > 0 {
                    assert(out[k] == tail[k - 1]);
                }
            }
        } else {
            lemma_no_repeat_distinct(rest, songs, user, seen);
            let out = spec_no_repeat_history(history, songs, user, seen);
            let tail = spec_no_repeat_history(rest, songs, user, seen);
            assert(out == tail);
            assert forall|k: int| 0 <= k < out.len() implies !seen.contains(
                (#[trigger] out[k]).id,
            ) by {
                assert(!seen.contains(tail[k].id));
            }
            assert forall|k: int, l: int| 0 <= k < l < out.len() implies out[k].id
                != out[l].id by {
                assert(tail[k].id != tail[l].id);
            }
        }
    }
}

impl SongStore {
    /// Append one history entry: `user` consumed the song with internal id
    /// `cached_song_id` at `date`. A pure append: duplicates are meaningful
    /// and never an error.
    pub fn push_history(&mut self, cached_song_id: i32, user: i64, date: i64)
        requires
            old(self).wf(),
            old(self).history().len() < i32::MAX,
        ensures
            final(self).wf(),
            final(self).songs() == old(self).songs(),
            final(self).likes() == old(self).likes(),
            final(self).history() == old(self).history().push(
                (HistoryRecord {
                    id: (old(self).history().len() + 1) as i32,
                    user_id: user,
                    song_id: cached_song_id,
                    search_date: date,
                }),
            ),
    {
        let id: i32 = (self.history_rows.len() + 1) as i32;
        let rec = HistoryRecord { id, user_id: user, song_id: cached_song_id, search_date: date };
        self.history_rows.push(rec);
        proof {
            assert forall|i: int|
                0 <= i < self.songs().len() implies (#[trigger] self.songs()[i]).id == i + 1 by {
                assert(old(self).songs()[i].id == i + 1);
            }
            assert forall|i: int, j: int|
                0 <= i < j < self.songs().len() implies self.songs()[i].deezer_id
                    != self.songs()[j].deezer_id by {
                assert(old(self).songs()[i].deezer_id != old(self).songs()[j].deezer_id);
            }
            assert forall|i: int|
                0 <= i < self.history().len() implies (#[trigger] self.history()[i]).id == i
                + 1 by {
                if i < old(self).history().len() {
                    assert(old(self).history()[i].id == i + 1);
                }
            }
        }
    }

    /// The history listing for `user`: most recent first, cut off after
    /// `n` rows.
    pub fn get_history(&self, user: i64, n: usize) -> (r: Vec<HistorySong>)
        requires
            self.wf(),
        ensures
            seq_views(r@) == take_at_most(
                spec_history_songs(self.history(), self.songs(), user),
                n as int,
            ),
    {
        let ghost full = spec_history_songs(self.history(), self.songs(), user);
        let mut out: Vec<HistorySong> = Vec::new();
        let mut i: usize = self.history_rows.len();
        proof {
            assert(self.history().take(i as int) =~= self.history());
            assert(seq_views(out@) =~= Seq::<HistorySongView>::empty());
        }
        while i > 0 && out.len() < n
            invariant
                self.wf(),
                0 <= i <= self.history().len(),
                out@.len() <= n,
                full == seq_views(out@) + spec_history_songs(
                    self.history().take(i as int),
                    self.songs(),
                    user,
                ),
            decreases i,
        {
            i -= 1;
            let ghost pre_views = seq_views(out@);
            proof {
                let t = self.history().take(i as int + 1);
                assert(t.drop_last() =~= self.history().take(i as int));
                assert(t.last() == self.history()[i as int]);
            }
            let rec = self.history_rows[i];
            if rec.user_id == user {
                match self.song_by_id(rec.song_id) {
                    Some(song) => {
                        let row = HistorySong {
                            song_name: song.song_name,
                            song_artist: song.song_artist,
                            search_date: rec.search_date,
                        };
                        out.push(row);
                        proof {
                            assert(seq_views(out@) =~= pre_views.push(
                                (HistorySongView {
                                    song_name: song@.song_name,
                                    song_artist: song@.song_artist,
                                    search_date: rec.search_date,
                                }),
                            ));
                        }
                    },
                    None => {},
                }
            }
        }
        proof {
            if i == 0 {
                assert(self.history().take(0) =~= Seq::<HistoryRecord>::empty());
            }
            assert(take_at_most(full, n as int) =~= seq_views(out@));
        }
        out
    }

    /// The no-repeat history listing for `user`: each song once, at its
    /// most recent occurrence, most recent first, cut off after `n` rows.
    pub fn get_cached_history_no_repeat(&self, user: i64, n: usize) -> (r: Vec<CachedSong>)
        requires
            self.wf(),
        ensures
            seq_views(r@) == take_at_most(
                spec_no_repeat_history(self.history(), self.songs(), user, Set::empty()),
                n as int,
            ),
    {
        let ghost full = spec_no_repeat_history(
            self.history(),
            self.songs(),
            user,
            Set::<i32>::empty(),
        );
        let ghost mut seen: Set<i32> = Set::empty();
        let mut out: Vec<CachedSong> = Vec::new();
        let mut i: usize = self.history_rows.len();
        proof {
            assert(self.history().take(i as int) =~= self.history());
            assert(seq_views(out@) =~= Seq::<CachedSongView>::empty());
        }
        while i > 0 && out.len() < n
            invariant
                self.wf(),
                0 <= i <= self.history().len(),
                out@.len() <= n,
                forall|id: i32|
                    seen.contains(id) <==> exists|k: int|
                        0 <= k < out@.len() && (#[trigger] out@[k])@.id == id,
                full == seq_views(out@) + spec_no_repeat_history(
                    self.history().take(i as int),
                    self.songs(),
                    user,
                    seen,
                ),
            decreases i,
        {
            i -= 1;
            let ghost pre_views = seq_views(out@);
            proof {
                let t = self.history().take(i as int + 1);
                assert(t.drop_last() =~= self.history().take(i as int));
                assert(t.last() == self.history()[i as int]);
            }
            let rec = self.history_rows[i];
            if rec.user_id == user && !contains_song_id(&out, rec.song_id) {
                match self.song_by_id(rec.song_id) {
                    Some(song) => {
                        let ghost pre_out = out@;
                        let ghost pre_seen = seen;
                        proof {
                            assert(song@.id == rec.song_id);
                        }
                        out.push(song);
                        proof {
                            seen = pre_seen.insert(rec.song_id);
                            assert(seq_views(out@) =~= pre_views.push(out@[out@.len() - 1]@));
                            assert forall|id: i32| seen.contains(id) implies exists|k: int|
                                0 <= k < out@.len() && (#[trigger] out@[k])@.id == id by {
                                if id == rec.song_id {
                                    assert(out@[out@.len() - 1]@.id == id);
                                } else {
                                    assert(pre_seen.contains(id));
                                    let k = choose|k: int|
                                        0 <= k < pre_out.len() && (#[trigger] pre_out[k])@.id
                                            == id;
                                    assert(out@[k]@.id == id);
                                }
                            }
                            assert forall|id: i32|
                                (exists|k: int|
                                    0 <= k < out@.len() && (#[trigger] out@[k])@.id
                                        == id) implies seen.contains(id) by {
                                let k = choose|k: int|
                                    0 <= k < out@.len() && (#[trigger] out@[k])@.id == id;
                                if k < pre_out.len() {
                                    assert(pre_out[k]@.id == id);
                                    assert(pre_seen.contains(id));
                                } else {
                                    assert(id == rec.song_id);
                                }
                            }
                        }
                    },
                    None => {},
                }
            }
        }
        proof {
            if i == 0 {
                assert(self.history().take(0) =~= Seq::<HistoryRecord>::empty());
            }
            assert(take_at_most(full, n as int) =~= seq_views(out@));
        }
        out
    }
}

/// The position of the like row for this (user, song) pair, if one exists.
pub open spec fn spec_like_index(likes: Seq<LikedSong>, user: i64, song_id: i32) -> Option<int> {
    if exists|i: int|
        0 <= i < likes.len() && likes[i].liked_by == user && likes[i].song_id == song_id {
        Some(
            choose|i: int|
                0 <= i < likes.len() && likes[i].liked_by == user && likes[i].song_id == song_id,
        )
    } else {
        None
    }
}

/// Whether `user` currently likes `song_id`: the row's flag, or false when
/// no row exists yet.
pub open spec fn spec_liked_state(likes: Seq<LikedSong>, user: i64, song_id: i32) -> bool {
    match spec_like_index(likes, user, song_id) {
        Some(i) => likes[i].liked,
        None => false,
    }
}

/// How many users currently like `song_id`.
pub open spec fn spec_like_count(likes: Seq<LikedSong>, song_id: i64) -> int {
    likes.filter(|l: LikedSong| l.song_id as i64 == song_id && l.liked).len() as int
}

/// What a likes listing for `user` shows: the cached songs whose like row
/// for that user is currently set, latest-created like row first (a flip
/// leaves its row in place, so the order is by first like, not last).
pub open spec fn spec_liked_songs(
    likes: Seq<LikedSong>,
    songs: Seq<CachedSongView>,
    user: i64,
) -> Seq<CachedSongView>
    decreases likes.len(),
{
    if likes.len() == 0 {
        seq![]
    } else {
        let last = likes.last();
        let rest = likes.drop_last();
        let entry = spec_song_by_id(songs, last.song_id);
        if last.liked_by == user && last.liked && entry is Some {
            seq![entry->0] + spec_liked_songs(rest, songs, user)
        } else {
            spec_liked_songs(rest, songs, user)
        }
    }
}

/// What one toggle does to the like rows: insert a set row for a fresh
/// (user, song) pair, or flip the existing row's flag in place.
pub open spec fn spec_toggle_transition(
    likes: Seq<LikedSong>,
    user: i64,
    song_id: i32,
    sent_by: Option<i64>,
    date: i64,
) -> Seq<LikedSong> {
    match spec_like_index(likes, user, song_id) {
        None => likes.push(
            LikedSong { liked_by: user, song_id, sent_by, liked_date: date, liked: true },
        ),
        Some(j) => likes.update(j, LikedSong { liked: !likes[j].liked, ..likes[j] }),
    }
}

/// At most one like row per (user, song) pair.
pub open spec fn spec_likes_unique(likes: Seq<LikedSong>) -> bool {
    forall|i: int, j: int|
        0 <= i < j < likes.len() ==> !(likes[i].liked_by == likes[j].liked_by && likes[i].song_id
            == likes[j].song_id)
}

/// The like rows after a run of toggles for one (user, song) pair; each
/// toggle carries its own surfacer and date.
pub open spec fn spec_toggles(
    likes: Seq<LikedSong>,
    user: i64,
    song_id: i32,
    meta: Seq<(Option<i64>, i64)>,
) -> Seq<LikedSong>
    decreases meta.len(),
{
    if meta.len() == 0 {
        likes
    } else {
        let prev = spec_toggles(likes, user, song_id, meta.drop_last());
        spec_toggle_transition(prev, user, song_id, meta.last().0, meta.last().1)
    }
}

/// The like state of a fresh (user, song) pair after `n` toggles: each
/// toggle flips it, starting from "not liked".
pub open spec fn spec_liked_after_toggles(n: nat) -> bool
    decreases n,
{
    if n == 0 {
        false
    } else {
        !spec_liked_after_toggles((n - 1) as nat)
    }
}

/// Law: toggle idempotence of flips. Starting from a fresh (user, song)
/// pair, an even number of toggles returns the pair to "not liked" and an
/// odd number leaves it "liked"; with `toggle_like_song`'s contract (each
/// call flips the stored state and returns it), the n-th call's return
/// value is the stored value after n flips.
pub proof fn lemma_toggle_parity(n: nat)
    ensures
        spec_liked_after_toggles(n) == (n % 2 == 1),
    decreases n,
{
    if n > 0 {
        lemma_toggle_parity((n - 1) as nat);
    }
}

/// One toggle flips the pair's stored state, keeps every other pair's row
/// as it was, and keeps the rows' keys unique.
pub proof fn lemma_toggle_flip(
    likes: Seq<LikedSong>,
    user: i64,
    song_id: i32,
    sent_by: Option<i64>,
    date: i64,
)
    requires
        spec_likes_unique(likes),
    ensures
        spec_liked_state(spec_toggle_transition(likes, user, song_id, sent_by, date), user, song_id)
            == !spec_liked_state(likes, user, song_id),
        spec_likes_unique(spec_toggle_transition(likes, user, song_id, sent_by, date)),
{
    let post = spec_toggle_transition(likes, user, song_id, sent_by, date);
    match spec_like_index(likes, user, song_id) {
        None => {
            assert(post[post.len() - 1].liked_by == user && post[post.len() - 1].song_id
                == song_id);
            let c = choose|i: int|
                0 <= i < post.len() && post[i].liked_by == user && post[i].song_id == song_id;
            if c != post.len() - 1 {
                assert(likes[c].liked_by == user && likes[c].song_id == song_id);
            }
            assert(spec_liked_state(post, user, song_id) == true);
            assert forall|i: int, j: int|
                0 <= i < j < post.len() implies !(post[i].liked_by == post[j].liked_by
                && post[i].song_id == post[j].song_id) by {
                if j == post.len() - 1 {
                    if likes[i].liked_by == user && likes[i].song_id == song_id {
                        assert(spec_like_index(likes, user, song_id) is Some);
                    }
                }
            }
        },
        Some(j) => {
            assert(likes[j].liked_by == user && likes[j].song_id == song_id);
            lemma_like_index_frame(likes, post, user, song_id);
            assert(spec_liked_state(post, user, song_id) == post[j].liked);
        },
    }
}

/// Law: toggle idempotence of flips, over whole runs. Starting from rows
/// where the (user, song) pair is fresh, a run of `n` toggles leaves the
/// pair's stored state at `spec_liked_after_toggles(n)`: false after an
/// even run, true after an odd one (see `lemma_toggle_parity`). With
/// `toggle_like_song`'s contract, each call of the run also returned the
/// state its flip stored.
pub proof fn lemma_toggle_run_parity(
    likes: Seq<LikedSong>,
    user: i64,
    song_id: i32,
    meta: Seq<(Option<i64>, i64)>,
)
    requires
        spec_likes_unique(likes),
        spec_like_index(likes, user, song_id) is None,
    ensures
        spec_liked_state(spec_toggles(likes, user, song_id, meta), user, song_id)
            == spec_liked_after_toggles(meta.len()),
        spec_likes_unique(spec_toggles(likes, user, song_id, meta)),
    decreases meta.len(),
{
    if meta.len() == 0 {
        assert(spec_liked_state(likes, user, song_id) == false);
    } else {
        lemma_toggle_run_parity(likes, user, song_id, meta.drop_last());
        let prev = spec_toggles(likes, user, song_id, meta.drop_last());
        lemma_toggle_flip(prev, user, song_id, meta.last().0, meta.last().1);
    }
}

impl SongStore {
    fn find_like_index(&self, user: i64, song_id: i32) -> (r: Option<usize>)
        requires
            self.wf(),
        ensures
            match r {
                Some(j) => spec_like_index(self.likes(), user, song_id) == Some(j as int),
                None => spec_like_index(self.likes(), user, song_id) is None,
            },
    {
        let n = self.like_rows.len();
        let mut i: usize = 0;
        while i < n
            invariant
                self.wf(),
                0 <= i <= n,
                n == self.likes().len(),
                forall|k: int|
                    0 <= k < i ==> !((#[trigger] self.likes()[k]).liked_by == user
                        && self.likes()[k].song_id == song_id),
            decreases n - i,
        {
            if self.like_rows[i].liked_by == user && self.like_rows[i].song_id == song_id {
                proof {
                    let c = choose|k: int|
                        0 <= k < self.likes().len() && self.likes()[k].liked_by == user
                            && self.likes()[k].song_id == song_id;
                    if c < i {
                        assert(!(self.likes()[c].liked_by == self.likes()[i as int].liked_by
                            && self.likes()[c].song_id == self.likes()[i as int].song_id));
                    } else if c > i {
                        assert(!(self.likes()[i as int].liked_by == self.likes()[c].liked_by
                            && self.likes()[i as int].song_id == self.likes()[c].song_id));
                    }
                }
                return Some(i);
            }
            i += 1;
        }
        None
    }

    /// Toggle `user`'s like of `song_id`: insert a liked row when the pair
    /// has none (recording who surfaced the song and when), otherwise flip
    /// the existing row's flag in place. Returns the stored state after
    /// the call: true means "now liked".
    ///
    /// The store serializes toggles, so concurrent presses for the same
    /// pair resolve to a well-defined final state instead of losing one.
    pub fn toggle_like_song(&mut self, user: i64, song_id: i32, sent_by: Option<i64>, date: i64) -> (r:
        bool)
        requires
            old(self).wf(),
        ensures
            final(self).wf(),
            final(self).songs() == old(self).songs(),
            final(self).history() == old(self).history(),
            r == spec_liked_state(final(self).likes(), user, song_id),
            spec_liked_state(final(self).likes(), user, song_id) == !spec_liked_state(
                old(self).likes(),
                user,
                song_id,
            ),
            final(self).likes() == spec_toggle_transition(
                old(self).likes(),
                user,
                song_id,
                sent_by,
                date,
            ),
    {
        match self.find_like_index(user, song_id) {
            Some(j) => {
                let row = self.like_rows[j];
                let new_row = LikedSong { liked: !row.liked, ..row };
                self.like_rows[j] = new_row;
                proof {
                    lemma_store_rows_wf_frame(*old(self), *self);
                    assert forall|i2: int, j2: int|
                        0 <= i2 < j2 < self.likes().len() implies !(self.likes()[i2].liked_by
                        == self.likes()[j2].liked_by && self.likes()[i2].song_id
                        == self.likes()[j2].song_id) by {
                        assert(!(old(self).likes()[i2].liked_by == old(self).likes()[j2].liked_by
                            && old(self).likes()[i2].song_id == old(self).likes()[j2].song_id));
                    }
                    lemma_like_index_frame(old(self).likes(), self.likes(), user, song_id);
                    assert(spec_like_index(self.likes(), user, song_id) == Some(j as int));
                }
                !row.liked
            },
            None => {
                let new_row = LikedSong {
                    liked_by: user,
                    song_id,
                    sent_by,
                    liked_date: date,
                    liked: true,
                };
                self.like_rows.push(new_row);
                proof {
                    lemma_store_rows_wf_frame(*old(self), *self);
                    let post = self.likes();
                    let pre = old(self).likes();
                    assert forall|i: int, j: int|
                        0 <= i < j < post.len() implies !(post[i].liked_by == post[j].liked_by
                        && post[i].song_id == post[j].song_id) by {
                        if j < pre.len() {
                            assert(!(pre[i].liked_by == pre[j].liked_by && pre[i].song_id
                                == pre[j].song_id));
                        } else {
                            assert(post[j] == new_row);
                            assert(spec_like_index(pre, user, song_id) is None);
                        }
                    }
                    assert(post[post.len() - 1].liked_by == user && post[post.len() - 1].song_id
                        == song_id);
                    let c = choose|i: int|
                        0 <= i < post.len() && post[i].liked_by == user && post[i].song_id
                            == song_id;
                    if c != post.len() - 1 {
                        assert(pre[c].liked_by == user && pre[c].song_id == song_id);
                    }
                }
                true
            },
        }
    }

    /// The songs `user` currently likes: latest-created like row first,
    /// cut off after `n` rows.
    pub fn get_likes(&self, user: i64, n: usize) -> (r: Vec<CachedSong>)
        requires
            self.wf(),
        ensures
            seq_views(r@) == take_at_most(
                spec_liked_songs(self.likes(), self.songs(), user),
                n as int,
            ),
    {
        let ghost full = spec_liked_songs(self.likes(), self.songs(), user);
        let mut out: Vec<CachedSong> = Vec::new();
        let mut i: usize = self.like_rows.len();
        proof {
            assert(self.likes().take(i as int) =~= self.likes());
            assert(seq_views(out@) =~= Seq::<CachedSongView>::empty());
        }
        while i > 0 && out.len() < n
            invariant
                self.wf(),
                0 <= i <= self.likes().len(),
                out@.len() <= n,
                full == seq_views(out@) + spec_liked_songs(
                    self.likes().take(i as int),
                    self.songs(),
                    user,
                ),
            decreases i,
        {
            i -= 1;
            let ghost pre_views = seq_views(out@);
            proof {
                let t = self.likes().take(i as int + 1);
                assert(t.drop_last() =~= self.likes().take(i as int));
                assert(t.last() == self.likes()[i as int]);
            }
            let row = self.like_rows[i];
            if row.liked_by == user && row.liked {
                match self.song_by_id(row.song_id) {
                    Some(song) => {
                        out.push(song);
                        proof {
                            assert(seq_views(out@) =~= pre_views.push(out@[out@.len() - 1]@));
                        }
                    },
                    None => {},
                }
            }
        }
        proof {
            if i == 0 {
                assert(self.likes().take(0) =~= Seq::<LikedSong>::empty());
            }
            assert(take_at_most(full, n as int) =~= seq_views(out@));
        }
        out
    }

    /// How many users currently like `song_id` (rows whose flag is set).
    pub fn song_likes(&self, song_id: i64) -> (r: i64)
        requires
            self.likes().len() <= i64::MAX,
        ensures
            r == spec_like_count(self.likes(), song_id),
    {
        let ghost pred = |l: LikedSong| l.song_id as i64 == song_id && l.liked;
        let n = self.like_rows.len();
        let mut count: i64 = 0;
        let mut i: usize = 0;
        proof {
            reveal(Seq::filter);
            assert(self.likes().take(0) =~= Seq::<LikedSong>::empty());
        }
        while i < n
            invariant
                0 <= i <= n,
                n == self.likes().len(),
                n <= i64::MAX,
                count == self.likes().take(i as int).filter(
                    |l: LikedSong| l.song_id as i64 == song_id && l.liked,
                ).len(),
                count <= i,
            decreases n - i,
        {
            let ghost pre = count;
            let row = self.like_rows[i];
            if row.song_id as i64 == song_id && row.liked {
                count += 1;
            }
            proof {
                reveal(Seq::filter);
                let t = self.likes().take(i as int + 1);
                assert(t.drop_last() =~= self.likes().take(i as int));
                assert(t.last() == self.likes()[i as int]);
            }
            i += 1;
        }
        proof {
            assert(self.likes().take(n as int) =~= self.likes());
        }
        count
    }
}

/// A store whose songs and history are unchanged keeps their
/// well-formedness clauses.
proof fn lemma_store_rows_wf_frame(pre: SongStore, post: SongStore)
    requires
        pre.wf(),
        post.songs() == pre.songs(),
        post.history() == pre.history(),
    ensures
        forall|i: int| 0 <= i < post.songs().len() ==> (#[trigger] post.songs()[i]).id == i + 1,
        forall|i: int, j: int|
            0 <= i < j < post.songs().len() ==> post.songs()[i].deezer_id
                != post.songs()[j].deezer_id,
        forall|i: int|
            0 <= i < post.history().len() ==> (#[trigger] post.history()[i]).id == i + 1,
{
    assert forall|i: int|
        0 <= i < post.songs().len() implies (#[trigger] post.songs()[i]).id == i + 1 by {
        assert(pre.songs()[i].id == i + 1);
    }
    assert forall|i: int, j: int|
        0 <= i < j < post.songs().len() implies post.songs()[i].deezer_id
            != post.songs()[j].deezer_id by {
        assert(pre.songs()[i].deezer_id != pre.songs()[j].deezer_id);
    }
    assert forall|i: int|
        0 <= i < post.history().len() implies (#[trigger] post.history()[i]).id == i + 1 by {
        assert(pre.history()[i].id == i + 1);
    }
}

/// Rewriting one like row without changing its (user, song) key leaves
/// every pair's row position as it was (keys are unique, so the position
/// is determined).
proof fn lemma_like_index_frame(pre: Seq<LikedSong>, post: Seq<LikedSong>, user: i64, song_id: i32)
    requires
        pre.len() == post.len(),
        forall|i: int|
            0 <= i < pre.len() ==> (#[trigger] post[i]).liked_by == pre[i].liked_by
                && post[i].song_id == pre[i].song_id,
        forall|i: int, j: int|
            0 <= i < j < pre.len() ==> !(pre[i].liked_by == pre[j].liked_by && pre[i].song_id
                == pre[j].song_id),
    ensures
        spec_like_index(post, user, song_id) == spec_like_index(pre, user, song_id),
{
    if exists|i: int|
        0 <= i < pre.len() && pre[i].liked_by == user && pre[i].song_id == song_id {
        let a = choose|i: int|
            0 <= i < pre.len() && pre[i].liked_by == user && pre[i].song_id == song_id;
        assert(post[a].liked_by == user && post[a].song_id == song_id);
        let b = choose|i: int|
            0 <= i < post.len() && post[i].liked_by == user && post[i].song_id == song_id;
        assert(pre[b].liked_by == user && pre[b].song_id == song_id);
        if a < b {
            assert(!(pre[a].liked_by == pre[b].liked_by && pre[a].song_id == pre[b].song_id));
        } else if b < a {
            assert(!(pre[b].liked_by == pre[a].liked_by && pre[b].song_id == pre[a].song_id));
        }
    } else {
        if exists|i: int|
            0 <= i < post.len() && post[i].liked_by == user && post[i].song_id == song_id {
            let b = choose|i: int|
                0 <= i < post.len() && post[i].liked_by == user && post[i].song_id == song_id;
            assert(pre[b].liked_by == user && pre[b].song_id == song_id);
        }
    }
}

fn contains_song_id(v: &Vec<CachedSong>, id: i32) -> (r: bool)
    ensures
        r == exists|k: int| 0 <= k < v@.len() && (#[trigger] v@[k])@.id == id,
{
    let n = v.len();
    let mut i: usize = 0;
    while i < n
        invariant
            0 <= i <= n,
            n == v@.len(),
            forall|k: int| 0 <= k < i ==> (#[trigger] v@[k])@.id != id,
        decreases n - i,
    {
        if v[i].id == id {
            return true;
        }
        i += 1;
    }
    false
}

fn contains_i64(v: &Vec<i64>, x: i64) -> (r: bool)
    ensures
        r == v@.contains(x),
{
    let n = v.len();
    let mut i: usize = 0;
    while i < n
        invariant
            0 <= i <= n,
            n == v@.len(),
            forall|k: int| 0 <= k < i ==> v@[k] != x,
        decreases n - i,
    {
        if v[i] == x {
            return true;
        }
        i += 1;
    }
    false
}

/// No element satisfies the predicate, so the filtered sequence is empty.
proof fn lemma_filter_none<A>(s: Seq<A>, pred: spec_fn(A) -> bool)
    requires
        forall|i: int| 0 <= i < s.len() ==> !pred(s[i]),
    ensures
        s.filter(pred).len() == 0,
    decreases s.len(),
{
    reveal(Seq::filter);
    if s.len() > 0 {
        lemma_filter_none(s.drop_last(), pred);
    }
}

/// Law: the cache is monotone. Rows are only ever appended, so once a
/// lookup reports an external track id as present, it stays present in
/// every later state of the store.
pub proof fn lemma_cache_monotone(
    pre: Seq<CachedSongView>,
    post: Seq<CachedSongView>,
    deezer_id: i64,
)
    requires
        pre.is_prefix_of(post),
        spec_has_deezer_id(pre, deezer_id),
    ensures
        spec_has_deezer_id(post, deezer_id),
{
    let i = choose|i: int| 0 <= i < pre.len() && pre[i].deezer_id == deezer_id;
    assert(post[i].deezer_id == deezer_id);
}

/// Law: cache monotonicity, row for row. Under the store's uniqueness of
/// external ids, a row seen in an earlier state stays the row that every
/// later lookup of its external id returns, unchanged in all fields.
pub proof fn lemma_cache_row_stable(
    pre: Seq<CachedSongView>,
    post: Seq<CachedSongView>,
    i: int,
)
    requires
        pre.is_prefix_of(post),
        0 <= i < pre.len(),
        forall|a: int, b: int| 0 <= a < b < post.len() ==> post[a].deezer_id != post[b].deezer_id,
    ensures
        spec_song_by_deezer_id(post, pre[i].deezer_id) == Some(pre[i]),
{
    let x = pre[i].deezer_id;
    assert(post[i] == pre[i]);
    assert(spec_has_deezer_id(post, x)) by {
        assert(0 <= i < post.len() && post[i].deezer_id == x);
    }
    let c = choose|k: int| 0 <= k < post.len() && post[k].deezer_id == x;
    if c < i {
        assert(post[c].deezer_id != post[i].deezer_id);
    } else if c > i {
        assert(post[i].deezer_id != post[c].deezer_id);
    }
}

/// Law: dedup under race. When an external track id is absent and one
/// insert for it succeeds, the id becomes present (so the concurrent
/// loser's insert reports `Conflict`), and exactly one row carries it.
pub proof fn lemma_insert_dedup(pre: Seq<CachedSongView>, song: CachedSongView, deezer_id: i64)
    requires
        !spec_has_deezer_id(pre, deezer_id),
        song.deezer_id == deezer_id,
    ensures
        spec_has_deezer_id(pre.push(song), deezer_id),
        pre.push(song).filter(|s: CachedSongView| s.deezer_id == deezer_id).len() == 1,
{
    let post = pre.push(song);
    assert(post[pre.len() as int].deezer_id == deezer_id);
    let pred = |s: CachedSongView| s.deezer_id == deezer_id;
    reveal(Seq::filter);
    assert(post.drop_last() =~= pre);
    assert(forall|i: int| 0 <= i < pre.len() ==> !pred(pre[i]));
    lemma_filter_none(pre, pred);
}

} // verus!
