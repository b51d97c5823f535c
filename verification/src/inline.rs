//! Search resolver.
//!
//! Answers an inline query. An empty query shows the caller's own
//! no-repeat history; a query of at least `SEARCH_THRESHOLD` characters
//! searches the remote catalog and partitions the candidates into
//! already-cached and not-yet-cached descriptors; anything in between
//! yields nothing (a debounce, so the remote search is not fired on every
//! keystroke). The remote search itself is network I/O: the host performs
//! it and hands the returned track summaries to `search_results`.

use vstd::prelude::*;
use vstd::string::StrSliceExecFns;

use crate::deezer::{Song, SongView};
use crate::markup::{make_cached_query_result, make_unregistered_query_result,
    spec_cached_query_result, spec_unregistered_query_result, QueryResult, QueryResultView};
use crate::store::{seq_views, spec_has_deezer_id, spec_like_count, spec_no_repeat_history,
    take_at_most, CachedSong, CachedSongView, LikedSong, SongStore};

verus! {

/// Fewest characters a query must have before the remote catalog is
/// searched.
pub const SEARCH_THRESHOLD: usize = 3;

/// How many remote search results are requested and presented.
pub const RESULT_LIMIT: usize = 5;

/// How many history entries an empty query shows.
pub const HISTORY_PAGE: usize = 10;

/// Which branch an inline query takes, keyed on its length.
#[derive(Clone, Copy, Debug, PartialEq, Eq, Structural)]
pub enum QueryMode {
    /// Empty query: show the caller's own recent history.
    History,
    /// At least `SEARCH_THRESHOLD` characters: search the remote catalog.
    Search,
    /// Non-empty but below the threshold: present nothing yet.
    TooShort,
}

/// Decide the branch for a query text.
pub fn inline_query_mode(query: &str) -> (r: QueryMode)
    ensures
        r == (if query@.len() == 0 {
            QueryMode::History
        } else if query@.len() >= SEARCH_THRESHOLD {
            QueryMode::Search
        } else {
            QueryMode::TooShort
        }),
{
    if query.is_empty() {
        QueryMode::History
    } else if query.unicode_len() >= SEARCH_THRESHOLD {
        QueryMode::Search
    } else {
        QueryMode::TooShort
    }
}

/// The external ids of a batch of track summaries, as store keys.
pub open spec fn spec_track_ids(tracks: Seq<SongView>) -> Seq<i64> {
    tracks.map_values(|t: SongView| t.id as i64)
}

/// The cached rows matching a batch of tracks, in store order.
pub open spec fn spec_cached_part(
    tracks: Seq<SongView>,
    songs: Seq<CachedSongView>,
) -> Seq<CachedSongView> {
    songs.filter(|s: CachedSongView| spec_track_ids(tracks).contains(s.deezer_id))
}

/// The tracks of the batch with no cached row, in remote order.
pub open spec fn spec_virgin_part(
    tracks: Seq<SongView>,
    cached: Seq<CachedSongView>,
) -> Seq<SongView> {
    tracks.filter(|t: SongView| !spec_has_deezer_id(cached, t.id as i64))
}

/// The descriptor of a cached row, with its engagement button showing the
/// row's current like count under the given like rows.
pub open spec fn spec_cached_descriptor(s: CachedSongView, likes: Seq<LikedSong>) -> QueryResultView {
    spec_cached_query_result(s, spec_like_count(likes, s.id as i64) as i64)
}

/// What a search answer shows for a batch of remote tracks against a
/// cache: every already-cached track as a cached descriptor first (in
/// store order, each with its current like count), then every other track
/// as a pending-fetch descriptor, preserving the remote service's relative
/// ranking.
pub open spec fn spec_search_results(
    tracks: Seq<SongView>,
    songs: Seq<CachedSongView>,
    likes: Seq<LikedSong>,
) -> Seq<QueryResultView> {
    let cached = spec_cached_part(tracks, songs);
    cached.map_values(|s: CachedSongView| spec_cached_descriptor(s, likes)) + spec_virgin_part(
        tracks,
        cached,
    ).map_values(|t: SongView| spec_unregistered_query_result(t))
}

/// Filtering keeps only elements of the sequence, and keeps distinct
/// external ids distinct.
proof fn lemma_filter_distinct_deezer_ids(
    s: Seq<CachedSongView>,
    pred: spec_fn(CachedSongView) -> bool,
)
    requires
        forall|i: int, j: int| 0 <= i < j < s.len() ==> s[i].deezer_id != s[j].deezer_id,
    ensures
        forall|k: int|
            0 <= k < s.filter(pred).len() ==> s.contains(#[trigger] s.filter(pred)[k]),
        forall|k: int, l: int|
            0 <= k < l < s.filter(pred).len() ==> s.filter(pred)[k].deezer_id != s.filter(
                pred,
            )[l].deezer_id,
    decreases s.len(),
{
    reveal(Seq::filter);
    if s.len() > 0 {
        let rest = s.drop_last();
        lemma_filter_distinct_deezer_ids(rest, pred);
        assert forall|k: int|
            0 <= k < s.filter(pred).len() implies s.contains(#[trigger] s.filter(pred)[k]) by {
            if k < rest.filter(pred).len() {
                assert(rest.filter(pred)[k] == s.filter(pred)[k]);
                let w = choose|w: int| 0 <= w < rest.len() && rest[w] == rest.filter(pred)[k];
                assert(s[w] == s.filter(pred)[k]);
            } else {
                assert(s.filter(pred)[k] == s.last());
                assert(s[s.len() - 1] == s.last());
            }
        }
        assert forall|k: int, l: int|
            0 <= k < l < s.filter(pred).len() implies s.filter(pred)[k].deezer_id != s.filter(
            pred,
        )[l].deezer_id by {
            if l < rest.filter(pred).len() {
                assert(rest.filter(pred)[k] == s.filter(pred)[k]);
                assert(rest.filter(pred)[l] == s.filter(pred)[l]);
            } else {
                assert(s.filter(pred)[l] == s.last());
                assert(rest.filter(pred)[k] == s.filter(pred)[k]);
                assert(rest.contains(s.filter(pred)[k]));
                let w = choose|w: int| 0 <= w < rest.len() && rest[w] == s.filter(pred)[k];
                assert(s[w].deezer_id != s[s.len() - 1].deezer_id);
            }
        }
    }
}

/// The same for track batches: filtering keeps only tracks of the batch,
/// and keeps distinct external ids distinct.
proof fn lemma_filter_distinct_track_ids(s: Seq<SongView>, pred: spec_fn(SongView) -> bool)
    requires
        forall|i: int, j: int| 0 <= i < j < s.len() ==> s[i].id != s[j].id,
    ensures
        forall|k: int|
            0 <= k < s.filter(pred).len() ==> s.contains(#[trigger] s.filter(pred)[k]),
        forall|k: int, l: int|
            0 <= k < l < s.filter(pred).len() ==> s.filter(pred)[k].id != s.filter(pred)[l].id,
    decreases s.len(),
{
    reveal(Seq::filter);
    if s.len() > 0 {
        let rest = s.drop_last();
        lemma_filter_distinct_track_ids(rest, pred);
        assert forall|k: int|
            0 <= k < s.filter(pred).len() implies s.contains(#[trigger] s.filter(pred)[k]) by {
            if k < rest.filter(pred).len() {
                assert(rest.filter(pred)[k] == s.filter(pred)[k]);
                let w = choose|w: int| 0 <= w < rest.len() && rest[w] == rest.filter(pred)[k];
                assert(s[w] == s.filter(pred)[k]);
            } else {
                assert(s.filter(pred)[k] == s.last());
                assert(s[s.len() - 1] == s.last());
            }
        }
        assert forall|k: int, l: int|
            0 <= k < l < s.filter(pred).len() implies s.filter(pred)[k].id != s.filter(
            pred,
        )[l].id by {
            if l < rest.filter(pred).len() {
                assert(rest.filter(pred)[k] == s.filter(pred)[k]);
                assert(rest.filter(pred)[l] == s.filter(pred)[l]);
            } else {
                assert(s.filter(pred)[l] == s.last());
                assert(rest.filter(pred)[k] == s.filter(pred)[k]);
                assert(rest.contains(s.filter(pred)[k]));
                let w = choose|w: int| 0 <= w < rest.len() && rest[w] == s.filter(pred)[k];
                assert(s[w].id != s[s.len() - 1].id);
            }
        }
    }
}

/// Two filters whose predicates are complements split a sequence: their
/// lengths sum to the sequence's length.
proof fn lemma_filter_partition<A>(s: Seq<A>, p: spec_fn(A) -> bool, q: spec_fn(A) -> bool)
    requires
        forall|x: A| #[trigger] p(x) == !q(x),
    ensures
        s.filter(p).len() + s.filter(q).len() == s.len(),
    decreases s.len(),
{
    reveal(Seq::filter);
    if s.len() > 0 {
        lemma_filter_partition(s.drop_last(), p, q);
        assert(p(s.last()) == !q(s.last()));
    }
}

/// Law: search partitioning. For a batch of tracks with distinct external
/// ids, held against a cache whose rows also carry distinct external ids,
/// the search answer has exactly one descriptor per input track: the
/// cached rows matching the batch render first as cached descriptors (each
/// referencing its internal id), and every remaining track renders as a
/// pending-fetch descriptor (each referencing its external id), in the
/// batch's original relative order.
pub proof fn lemma_search_partitioning(
    tracks: Seq<SongView>,
    songs: Seq<CachedSongView>,
    likes: Seq<LikedSong>,
)
    requires
        forall|i: int, j: int| 0 <= i < j < tracks.len() ==> tracks[i].id != tracks[j].id,
        forall|i: int| 0 <= i < tracks.len() ==> (#[trigger] tracks[i]).id <= i64::MAX,
        forall|i: int, j: int|
            0 <= i < j < songs.len() ==> songs[i].deezer_id != songs[j].deezer_id,
    ensures
        spec_search_results(tracks, songs, likes).len() == tracks.len(),
        forall|k: int|
            0 <= k < spec_cached_part(tracks, songs).len() ==> spec_search_results(
                tracks,
                songs,
                likes,
            )[k] == spec_cached_descriptor(spec_cached_part(tracks, songs)[k], likes),
        forall|k: int|
            0 <= k < spec_virgin_part(tracks, spec_cached_part(tracks, songs)).len()
                ==> spec_search_results(tracks, songs, likes)[spec_cached_part(
                tracks,
                songs,
            ).len() + k] == spec_unregistered_query_result(
                spec_virgin_part(tracks, spec_cached_part(tracks, songs))[k],
            ),
{
    let ids = spec_track_ids(tracks);
    let cpred = |s: CachedSongView| ids.contains(s.deezer_id);
    let cached = spec_cached_part(tracks, songs);
    let vpred = |t: SongView| !spec_has_deezer_id(cached, t.id as i64);
    let hpred = |t: SongView| spec_has_deezer_id(cached, t.id as i64);
    let virgin = spec_virgin_part(tracks, cached);
    let in_cache = tracks.filter(hpred);

    // The two halves of the answer, as the spec lays them out.
    assert(spec_search_results(tracks, songs, likes).len() == cached.len() + virgin.len());

    // The tracks split into those matched by a cached row and the rest.
    lemma_filter_partition(tracks, hpred, vpred);

    // Both `cached` and `in_cache` list each shared external id once, so
    // their id sets have the same size as they do.
    lemma_filter_distinct_deezer_ids(songs, cpred);
    lemma_filter_distinct_track_ids(tracks, hpred);
    broadcast use vstd::seq_lib::group_filter_ensures;

    let cached_ids = cached.map_values(|s: CachedSongView| s.deezer_id);
    let in_cache_ids = in_cache.map_values(|t: SongView| t.id as i64);
    assert(cached_ids.no_duplicates()) by {
        assert forall|k: int, l: int|
            0 <= k < l < cached_ids.len() implies cached_ids[k] != cached_ids[l] by {
            assert(cached[k].deezer_id != cached[l].deezer_id);
        }
    }
    assert(in_cache_ids.no_duplicates()) by {
        assert forall|k: int, l: int|
            0 <= k < l < in_cache_ids.len() implies in_cache_ids[k] != in_cache_ids[l] by {
            assert(in_cache.contains(in_cache[k]));
            assert(in_cache.contains(in_cache[l]));
            let a = choose|w: int| 0 <= w < tracks.len() && tracks[w] == in_cache[k];
            let b = choose|w: int| 0 <= w < tracks.len() && tracks[w] == in_cache[l];
            assert(tracks[a].id <= i64::MAX);
            assert(tracks[b].id <= i64::MAX);
            assert(in_cache[k].id != in_cache[l].id);
        }
    }

    // The two id sets are the same set: the external ids both in the batch
    // and in the cache.
    assert(cached_ids.to_set() =~= in_cache_ids.to_set()) by {
        assert forall|x: i64| cached_ids.to_set().contains(x) implies in_cache_ids.to_set()
            .contains(x) by {
            let k = choose|k: int| 0 <= k < cached_ids.len() && cached_ids[k] == x;
            assert(cpred(cached[k]));
            assert(ids.contains(x));
            let m = choose|m: int| 0 <= m < ids.len() && ids[m] == x;
            assert(tracks[m].id as i64 == x);
            assert(cached[k].deezer_id == x);
            assert(spec_has_deezer_id(cached, x)) by {
                assert(0 <= k < cached.len() && cached[k].deezer_id == x);
            }
            assert(hpred(tracks[m]));
            assert(in_cache.contains(tracks[m]));
            let w = choose|w: int| 0 <= w < in_cache.len() && in_cache[w] == tracks[m];
            assert(in_cache_ids[w] == x);
            assert(in_cache_ids.contains(x));
        }
        assert forall|x: i64| in_cache_ids.to_set().contains(x) implies cached_ids.to_set()
            .contains(x) by {
            let k = choose|k: int| 0 <= k < in_cache_ids.len() && in_cache_ids[k] == x;
            assert(hpred(in_cache[k]));
            assert(spec_has_deezer_id(cached, in_cache[k].id as i64));
            let j = choose|j: int| 0 <= j < cached.len() && cached[j].deezer_id == x;
            assert(cached_ids[j] == x);
            assert(cached_ids.contains(x));
        }
    }

    cached_ids.unique_seq_to_set();
    in_cache_ids.unique_seq_to_set();
    assert(cached.len() == in_cache.len());

    // Per-position tagging of the two halves.
    assert forall|k: int|
        0 <= k < cached.len() implies spec_search_results(tracks, songs, likes)[k]
        == spec_cached_descriptor(cached[k], likes) by {
        assert(spec_search_results(tracks, songs, likes)[k] == cached.map_values(
            |s: CachedSongView| spec_cached_descriptor(s, likes),
        )[k]);
    }
    assert forall|k: int|
        0 <= k < virgin.len() implies spec_search_results(tracks, songs, likes)[cached.len() + k]
        == spec_unregistered_query_result(virgin[k]) by {
        assert(spec_search_results(tracks, songs, likes)[cached.len() + k] == virgin.map_values(
            |t: SongView| spec_unregistered_query_result(t),
        )[k]);
    }
}

/// Unfolds `spec_virgin_part` by one track from the end.
proof fn lemma_virgin_step(tracks: Seq<SongView>, cached: Seq<CachedSongView>)
    requires
        tracks.len() > 0,
    ensures
        spec_virgin_part(tracks, cached) == (if !spec_has_deezer_id(
            cached,
            tracks.last().id as i64,
        ) {
            spec_virgin_part(tracks.drop_last(), cached).push(tracks.last())
        } else {
            spec_virgin_part(tracks.drop_last(), cached)
        }),
{
    reveal(Seq::filter);
}

fn songs_contain_deezer(v: &Vec<CachedSong>, deezer_id: i64) -> (r: bool)
    ensures
        r == spec_has_deezer_id(seq_views(v@), deezer_id),
{
    let n = v.len();
    let mut i: usize = 0;
    while i < n
        invariant
            0 <= i <= n,
            n == v@.len(),
            forall|k: int| 0 <= k < i ==> seq_views(v@)[k].deezer_id != deezer_id,
        decreases n - i,
    {
        if v[i].deezer_id == deezer_id {
            proof {
                assert(seq_views(v@)[i as int].deezer_id == deezer_id);
            }
            return true;
        }
        proof {
            assert(seq_views(v@)[i as int].deezer_id != deezer_id);
        }
        i += 1;
    }
    false
}

/// Answer a search-mode query: partition the remote tracks against the
/// cache and render the mixed result list, reading each cached row's
/// current like count for its button.
pub fn search_results(tracks: &Vec<Song>, store: &SongStore) -> (r: Vec<QueryResult>)
    requires
        store.wf(),
        store.likes().len() <= i64::MAX,
        forall|i: int| 0 <= i < tracks@.len() ==> (#[trigger] tracks@[i]).id <= i64::MAX,
    ensures
        seq_views(r@) == spec_search_results(seq_views(tracks@), store.songs(), store.likes()),
{
    let ghost tviews = seq_views(tracks@);
    let ghost lks = store.likes();
    let n = tracks.len();

    let mut ids: Vec<i64> = Vec::new();
    let mut i: usize = 0;
    while i < n
        invariant
            0 <= i <= n,
            n == tracks@.len(),
            tviews == seq_views(tracks@),
            forall|k: int| 0 <= k < n ==> (#[trigger] tracks@[k]).id <= i64::MAX,
            ids@ == spec_track_ids(tviews.take(i as int)),
        decreases n - i,
    {
        ids.push(tracks[i].id as i64);
        proof {
            assert(tviews.take(i as int + 1).drop_last() =~= tviews.take(i as int));
            assert(ids@ =~= spec_track_ids(tviews.take(i as int + 1)));
        }
        i += 1;
    }
    proof {
        assert(tviews.take(n as int) =~= tviews);
    }

    let cached_songs = store.by_deezer_ids(&ids);
    proof {
        let p1 = |s: CachedSongView| ids@.contains(s.deezer_id);
        let p2 = |s: CachedSongView| spec_track_ids(tviews).contains(s.deezer_id);
        assert(p1 =~= p2);
        assert(seq_views(cached_songs@) == spec_cached_part(tviews, store.songs()));
    }
    let ghost cached = seq_views(cached_songs@);

    let mut out: Vec<QueryResult> = Vec::new();
    let m = cached_songs.len();
    let mut j: usize = 0;
    proof {
        assert(seq_views(out@) =~= cached.take(0).map_values(
            |s: CachedSongView| spec_cached_descriptor(s, lks),
        ));
    }
    while j < m
        invariant
            0 <= j <= m,
            m == cached_songs@.len(),
            cached == seq_views(cached_songs@),
            lks == store.likes(),
            store.likes().len() <= i64::MAX,
            seq_views(out@) == cached.take(j as int).map_values(
                |s: CachedSongView| spec_cached_descriptor(s, lks),
            ),
        decreases m - j,
    {
        let ghost pre = seq_views(out@);
        let likes_count = store.song_likes(cached_songs[j].id as i64);
        out.push(make_cached_query_result(&cached_songs[j], likes_count));
        proof {
            assert(seq_views(out@) =~= pre.push(spec_cached_descriptor(cached[j as int], lks)));
            assert(cached.take(j as int + 1).map_values(
                |s: CachedSongView| spec_cached_descriptor(s, lks),
            ) =~= pre.push(spec_cached_descriptor(cached[j as int], lks)));
        }
        j += 1;
    }
    proof {
        assert(cached.take(m as int) =~= cached);
    }

    let ghost cached_results = cached.map_values(|s: CachedSongView| spec_cached_descriptor(s, lks));
    let mut i: usize = 0;
    proof {
        reveal(Seq::filter);
        assert(tviews.take(0) =~= Seq::<SongView>::empty());
        assert(spec_virgin_part(tviews.take(0), cached) =~= Seq::<SongView>::empty());
        assert(seq_views(out@) =~= cached_results + spec_virgin_part(
            tviews.take(0),
            cached,
        ).map_values(|t: SongView| spec_unregistered_query_result(t)));
    }
    while i < n
        invariant
            0 <= i <= n,
            n == tracks@.len(),
            tviews == seq_views(tracks@),
            cached == seq_views(cached_songs@),
            forall|k: int| 0 <= k < n ==> (#[trigger] tracks@[k]).id <= i64::MAX,
            seq_views(out@) == cached_results + spec_virgin_part(
                tviews.take(i as int),
                cached,
            ).map_values(|t: SongView| spec_unregistered_query_result(t)),
        decreases n - i,
    {
        let ghost pre = seq_views(out@);
        let ghost vpre = spec_virgin_part(tviews.take(i as int), cached);
        let is_cached = songs_contain_deezer(&cached_songs, tracks[i].id as i64);
        if !is_cached {
            out.push(make_unregistered_query_result(&tracks[i]));
        }
        proof {
            assert(tviews[i as int] == tracks@[i as int]@);
            let t = tviews.take(i as int + 1);
            assert(t.drop_last() =~= tviews.take(i as int));
            assert(t.last() == tviews[i as int]);
            lemma_virgin_step(t, cached);
            if !is_cached {
                assert(spec_virgin_part(t, cached) == vpre.push(tviews[i as int]));
                assert(seq_views(out@) =~= pre.push(
                    spec_unregistered_query_result(tviews[i as int]),
                ));
                assert(cached_results + spec_virgin_part(t, cached).map_values(
                    |t2: SongView| spec_unregistered_query_result(t2),
                ) =~= pre.push(spec_unregistered_query_result(tviews[i as int])));
            } else {
                assert(spec_virgin_part(t, cached) == vpre);
                assert(cached_results + spec_virgin_part(t, cached).map_values(
                    |t2: SongView| spec_unregistered_query_result(t2),
                ) =~= pre);
            }
        }
        i += 1;
    }
    proof {
        assert(tviews.take(n as int) =~= tviews);
        assert(seq_views(out@) == spec_search_results(tviews, store.songs(), store.likes()));
    }
    out
}

/// Answer a history-mode (empty) query: the caller's own no-repeat
/// history, each entry as a cached descriptor with its current like count.
pub fn history_results(store: &SongStore, user: i64) -> (r: Vec<QueryResult>)
    requires
        store.wf(),
        store.likes().len() <= i64::MAX,
    ensures
        seq_views(r@) == take_at_most(
            spec_no_repeat_history(store.history(), store.songs(), user, Set::empty()),
            HISTORY_PAGE as int,
        ).map_values(|s: CachedSongView| spec_cached_descriptor(s, store.likes())),
{
    let ghost lks = store.likes();
    let rows = store.get_cached_history_no_repeat(user, HISTORY_PAGE);
    let ghost rviews = seq_views(rows@);
    let n = rows.len();
    let mut out: Vec<QueryResult> = Vec::new();
    let mut i: usize = 0;
    proof {
        assert(seq_views(out@) =~= rviews.take(0).map_values(
            |s: CachedSongView| spec_cached_descriptor(s, lks),
        ));
    }
    while i < n
        invariant
            0 <= i <= n,
            n == rows@.len(),
            rviews == seq_views(rows@),
            lks == store.likes(),
            store.likes().len() <= i64::MAX,
            seq_views(out@) == rviews.take(i as int).map_values(
                |s: CachedSongView| spec_cached_descriptor(s, lks),
            ),
        decreases n - i,
    {
        let ghost pre = seq_views(out@);
        let likes_count = store.song_likes(rows[i].id as i64);
        out.push(make_cached_query_result(&rows[i], likes_count));
        proof {
            assert(seq_views(out@) =~= pre.push(spec_cached_descriptor(rviews[i as int], lks)));
            assert(rviews.take(i as int + 1).map_values(
                |s: CachedSongView| spec_cached_descriptor(s, lks),
            ) =~= pre.push(spec_cached_descriptor(rviews[i as int], lks)));
        }
        i += 1;
    }
    proof {
        assert(rviews.take(n as int) =~= rviews);
    }
    out
}

} // verus!
