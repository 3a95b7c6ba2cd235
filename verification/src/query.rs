//! The read-only accessors: what a session is playing, and which tracks of
//! the catalog match a search.

use vstd::prelude::*;
use vstd::string::*;
use crate::store::{elapsed_at, history_of, least, HistoryStore, SessionStore, SessionView};
use crate::text::{contains_text, is_substring, lowercase, lowercase_of};
use crate::track::{track_views, Catalog, Track, TrackView};

verus! {

/// The most tracks that a search returns.
pub const SEARCH_LIMIT: usize = 50;

/// The fewest characters that a search query must have.
pub const MIN_QUERY_CHARS: usize = 2;

/// What a session is playing, for how long, and what the client played
/// before.
pub struct NowPlaying {
    pub track: Track,
    /// Milliseconds played.
    pub elapsed: u64,
    /// The tracks played before the current one, the most recent first.
    pub history: Vec<Track>,
}

/// A history without its first entry, which is the track now playing.
pub open spec fn earlier_plays(history: Seq<TrackView>) -> Seq<TrackView> {
    if history.len() == 0 {
        history
    } else {
        history.drop_first()
    }
}

/// What a session is playing at `now_ms`: nothing where the session is
/// unknown; else its track, the time played, and the client's history without
/// its first entry.
pub fn now_playing(
    sessions: &SessionStore,
    history: &HistoryStore,
    session_id: &String,
    client_id: &String,
    now_ms: u64,
) -> (r: Option<NowPlaying>)
    ensures
        match r {
            Some(np) => {
                &&& sessions@.contains_key(session_id@)
                &&& np.track@ == sessions@[session_id@].track
                &&& np.elapsed == elapsed_at(sessions@[session_id@].started_at, now_ms)
                &&& track_views(np.history@) == earlier_plays(history_of(history@, client_id@))
            },
            None => !sessions@.contains_key(session_id@),
        },
{
    match sessions.get(session_id) {
        Some(session) => {
            let mut earlier: Vec<Track> = Vec::new();
            match history.get(client_id) {
                Some(list) => {
                    let ghost all = track_views(list@);
                    let mut i: usize = 1;
                    while i < list.len()
                        invariant
                            1 <= i,
                            list@.len() >= 1 ==> i <= list@.len(),
                            all == track_views(list@),
                            i <= list@.len() ==> track_views(earlier@) == all.subrange(1, i as int),
                            i > list@.len() ==> earlier@.len() == 0,
                        decreases list@.len() - i,
                    {
                        earlier.push(list[i].clone());
                        i = i + 1;
                        assert(track_views(earlier@) =~= all.subrange(1, i as int));
                    }
                    assert(track_views(earlier@) =~= earlier_plays(all));
                },
                None => {
                    assert(track_views(earlier@) =~= Seq::<TrackView>::empty());
                },
            }
            Some(
                NowPlaying {
                    track: session.track.clone(),
                    elapsed: session.elapsed(now_ms),
                    history: earlier,
                },
            )
        },
        None => None,
    }
}

/// The session and client that a query is about: the empty session and the
/// client `anon` where the query names none.
pub fn query_ids(session: Option<String>, client_id: Option<String>) -> (r: (String, String))
    ensures
        r.0@ == (match session {
            Some(s) => s@,
            None => Seq::<char>::empty(),
        }),
        r.1@ == (match client_id {
            Some(c) => c@,
            None => "anon"@,
        }),
{
    let s = match session {
        Some(s) => s,
        None => String::new(),
    };
    let c = match client_id {
        Some(c) => c,
        None => String::from_str("anon"),
    };
    (s, c)
}

/// The lower-case forms of a track's title and artist.
pub struct Folded {
    pub title: String,
    pub artist: String,
}

impl View for Folded {
    type V = (Seq<char>, Seq<char>);

    open spec fn view(&self) -> (Seq<char>, Seq<char>) {
        (self.title@, self.artist@)
    }
}

/// The values of a run of folded names, in order.
pub open spec fn fold_views(folds: Seq<Folded>) -> Seq<(Seq<char>, Seq<char>)> {
    folds.map_values(|f: Folded| f@)
}

/// The lower-case title and artist of each track of a catalog, in order.
pub open spec fn folds_of(catalog: Seq<TrackView>) -> Seq<(Seq<char>, Seq<char>)> {
    catalog.map_values(|t: TrackView| (lowercase_of(t.title), lowercase_of(t.artist)))
}

/// A query occurs in a folded title or artist.
pub open spec fn hit(fold: (Seq<char>, Seq<char>), query: Seq<char>) -> bool {
    is_substring(query, fold.0) || is_substring(query, fold.1)
}

/// The tracks among the first `n` of the catalog whose folded names the
/// query occurs in, in catalog order.
pub open spec fn matching(
    catalog: Seq<TrackView>,
    folds: Seq<(Seq<char>, Seq<char>)>,
    query: Seq<char>,
    n: int,
) -> Seq<TrackView>
    decreases n,
{
    if n <= 0 {
        Seq::empty()
    } else {
        let before = matching(catalog, folds, query, n - 1);
        if hit(folds[n - 1], query) {
            before.push(catalog[n - 1])
        } else {
            before
        }
    }
}

/// The positions among the first `n` of the catalog whose folded names the
/// query occurs in, in rising order.
pub open spec fn hit_positions(folds: Seq<(Seq<char>, Seq<char>)>, query: Seq<char>, n: int) -> Seq<
    int,
>
    decreases n,
{
    if n <= 0 {
        Seq::empty()
    } else {
        let before = hit_positions(folds, query, n - 1);
        if hit(folds[n - 1], query) {
            before.push(n - 1)
        } else {
            before
        }
    }
}

/// The matches are the tracks at the positions where the query occurs, each
/// such position once, in catalog order.
pub proof fn lemma_matching_in_order(
    catalog: Seq<TrackView>,
    folds: Seq<(Seq<char>, Seq<char>)>,
    query: Seq<char>,
    n: int,
)
    requires
        0 <= n <= catalog.len(),
        folds.len() == catalog.len(),
    ensures
        ({
            let found = matching(catalog, folds, query, n);
            let at = hit_positions(folds, query, n);
            &&& found.len() == at.len()
            &&& forall|k: int|
                0 <= k < at.len() ==> 0 <= #[trigger] at[k] < n && hit(folds[at[k]], query)
                    && found[k] == catalog[at[k]]
            &&& forall|k: int, l: int| 0 <= k < l < at.len() ==> at[k] < at[l]
            &&& forall|i: int| 0 <= i < n && #[trigger] hit(folds[i], query) ==> at.contains(i)
        }),
    decreases n,
{
    if n > 0 {
        lemma_matching_in_order(catalog, folds, query, n - 1);
        let before = hit_positions(folds, query, n - 1);
        let at = hit_positions(folds, query, n);
        assert forall|i: int| 0 <= i < n && #[trigger] hit(folds[i], query) implies at.contains(
            i,
        ) by {
            if i < n - 1 {
                assert(before.contains(i));
                let k = choose|k: int| 0 <= k < before.len() && before[k] == i;
                assert(at[k] == i);
            } else {
                assert(at[at.len() - 1] == i);
            }
        }
    }
}

/// The tracks whose folded title or artist holds the query, in catalog order,
/// the first fifty at most.
pub open spec fn first_matches(
    catalog: Seq<TrackView>,
    folds: Seq<(Seq<char>, Seq<char>)>,
    query: Seq<char>,
) -> Seq<TrackView> {
    let all = matching(catalog, folds, query, catalog.len() as int);
    all.take(least(all.len() as int, SEARCH_LIMIT as int))
}

/// What a search over folded names returns: nothing for a query of fewer
/// than two characters; else the first matches.
pub open spec fn search_results(
    catalog: Seq<TrackView>,
    folds: Seq<(Seq<char>, Seq<char>)>,
    query: Seq<char>,
) -> Seq<TrackView> {
    if query.len() < MIN_QUERY_CHARS {
        Seq::empty()
    } else {
        first_matches(catalog, folds, query)
    }
}

/// What a search of the catalog returns: nothing for a query of fewer than
/// two characters, as the client gave it; else the first matches of the
/// query in lower case among the titles and artists in lower case.
pub open spec fn search_of(catalog: Seq<TrackView>, query: Seq<char>) -> Seq<TrackView> {
    if query.len() < MIN_QUERY_CHARS {
        Seq::empty()
    } else {
        first_matches(catalog, folds_of(catalog), lowercase_of(query))
    }
}

/// Whether a query occurs in a folded title or artist.
pub fn is_hit(fold: &Folded, query: &str) -> (r: bool)
    ensures
        r == hit(fold@, query@),
{
    contains_text(fold.title.as_str(), query) || contains_text(fold.artist.as_str(), query)
}

/// The lower-case title and artist of each track of the catalog.
pub fn fold_catalog(catalog: &Catalog) -> (r: Vec<Folded>)
    ensures
        fold_views(r@) == folds_of(catalog@),
{
    let mut out: Vec<Folded> = Vec::new();
    let n = catalog.len();
    let mut i: usize = 0;
    while i < n
        invariant
            i <= n,
            n == catalog@.len(),
            out@.len() == i,
            forall|j: int| 0 <= j < i ==> (#[trigger] out@[j])@ == folds_of(catalog@)[j],
        decreases n - i,
    {
        let t = catalog.get(i);
        out.push(Folded { title: lowercase(t.title.as_str()), artist: lowercase(t.artist.as_str()) });
        i = i + 1;
    }
    assert(fold_views(out@) =~= folds_of(catalog@));
    out
}

/// The first matches of a query among folded names.
fn collect_matches(catalog: &Catalog, folds: &Vec<Folded>, query: &str) -> (r: Vec<Track>)
    requires
        folds@.len() == catalog@.len(),
    ensures
        track_views(r@) == first_matches(catalog@, fold_views(folds@), query@),
        r@.len() <= SEARCH_LIMIT,
{
    let mut out: Vec<Track> = Vec::new();
    let n = catalog.len();
    let mut i: usize = 0;
    assert(track_views(out@) =~= matching(catalog@, fold_views(folds@), query@, 0));
    while i < n
        invariant
            i <= n,
            n == catalog@.len(),
            n == folds@.len(),
            out@.len() <= SEARCH_LIMIT,
            track_views(out@) == ({
                let found = matching(catalog@, fold_views(folds@), query@, i as int);
                found.take(least(found.len() as int, SEARCH_LIMIT as int))
            }),
        decreases n - i,
    {
        let ghost found = matching(catalog@, fold_views(folds@), query@, i as int);
        let ghost more = matching(catalog@, fold_views(folds@), query@, i as int + 1);
        assert(fold_views(folds@)[i as int] == folds@[i as int]@);
        if is_hit(&folds[i], query) {
            assert(more == found.push(catalog@[i as int]));
            let ghost held = track_views(out@);
            assert(held.len() == out@.len());
            if out.len() < SEARCH_LIMIT {
                assert(found.len() < SEARCH_LIMIT);
                assert(held =~= found);
                out.push(catalog.get(i).clone());
                assert(track_views(out@) =~= held.push(catalog@[i as int]));
            } else {
                assert(found.len() >= SEARCH_LIMIT);
            }
            assert(track_views(out@) =~= more.take(
                least(more.len() as int, SEARCH_LIMIT as int),
            ));
        } else {
            assert(more == found);
        }
        i = i + 1;
    }
    out
}

/// Searches a catalog whose folded names are at hand, for a query that is
/// folded already. A query of fewer than two characters finds nothing.
pub fn search_folded(catalog: &Catalog, folds: &Vec<Folded>, query: &str) -> (r: Vec<Track>)
    requires
        folds@.len() == catalog@.len(),
    ensures
        track_views(r@) == search_results(catalog@, fold_views(folds@), query@),
        r@.len() <= SEARCH_LIMIT,
        query@.len() < MIN_QUERY_CHARS ==> r@.len() == 0,
{
    if query.unicode_len() < MIN_QUERY_CHARS {
        let out: Vec<Track> = Vec::new();
        assert(track_views(out@) =~= Seq::<TrackView>::empty());
        return out;
    }
    collect_matches(catalog, folds, query)
}

/// Searches the catalog. A query of fewer than two characters, counted as
/// the client gave it, finds nothing; a longer one is compared in lower case
/// with each title and artist in lower case.
pub fn search(catalog: &Catalog, query: &str) -> (r: Vec<Track>)
    ensures
        track_views(r@) == search_of(catalog@, query@),
        r@.len() <= SEARCH_LIMIT,
        query@.len() < MIN_QUERY_CHARS ==> r@.len() == 0,
{
    if query.unicode_len() < MIN_QUERY_CHARS {
        let out: Vec<Track> = Vec::new();
        assert(track_views(out@) =~= Seq::<TrackView>::empty());
        return out;
    }
    let folded_query = lowercase(query);
    let folds = fold_catalog(catalog);
    assert(folds@.len() == fold_views(folds@).len());
    collect_matches(catalog, &folds, folded_query.as_str())
}

} // verus!
