//! Tracks and the immutable catalog of playable tracks.

use vstd::prelude::*;

verus! {

/// One playable item of the remote server.
#[derive(Debug)]
pub struct Track {
    /// The server's stable key of the item.
    pub key: String,
    pub title: String,
    pub artist: String,
    /// Length in milliseconds; zero where unknown.
    pub duration: u64,
}

/// The mathematical value of a [`Track`].
pub struct TrackView {
    pub key: Seq<char>,
    pub title: Seq<char>,
    pub artist: Seq<char>,
    pub duration: u64,
}

impl View for Track {
    type V = TrackView;

    open spec fn view(&self) -> TrackView {
        TrackView {
            key: self.key@,
            title: self.title@,
            artist: self.artist@,
            duration: self.duration,
        }
    }
}

impl Clone for Track {
    fn clone(&self) -> (r: Self)
        ensures
            r@ == self@,
    {
        Track {
            key: self.key.clone(),
            title: self.title.clone(),
            artist: self.artist.clone(),
            duration: self.duration,
        }
    }
}

/// The values of a run of tracks, in order.
pub open spec fn track_views(tracks: Seq<Track>) -> Seq<TrackView> {
    tracks.map_values(|t: Track| t@)
}

/// The first position in `tracks` whose key is `key`, if there is one.
pub open spec fn first_with_key(tracks: Seq<TrackView>, key: Seq<char>) -> Option<int>
    decreases tracks.len(),
{
    if tracks.len() == 0 {
        None
    } else if tracks[0].key == key {
        Some(0)
    } else {
        match first_with_key(tracks.drop_first(), key) {
            Some(i) => Some(i + 1),
            None => None,
        }
    }
}

/// `first_with_key` finds a position that holds the key and is the least
/// such position; it finds none only where no position holds the key.
pub proof fn lemma_first_with_key(tracks: Seq<TrackView>, key: Seq<char>)
    ensures
        match first_with_key(tracks, key) {
            Some(i) => 0 <= i < tracks.len() && tracks[i].key == key && forall|j: int|
                0 <= j < i ==> tracks[j].key != key,
            None => forall|j: int| 0 <= j < tracks.len() ==> tracks[j].key != key,
        },
    decreases tracks.len(),
{
    if tracks.len() > 0 && tracks[0].key != key {
        let rest = tracks.drop_first();
        lemma_first_with_key(rest, key);
        assert(forall|j: int| 0 <= j < rest.len() ==> rest[j] == tracks[j + 1]);
        match first_with_key(rest, key) {
            Some(i) => {
                assert forall|j: int| 0 <= j < i + 1 implies tracks[j].key != key by {
                    if j > 0 {
                        assert(rest[j - 1] == tracks[j]);
                    }
                }
            },
            None => {
                assert forall|j: int| 0 <= j < tracks.len() implies tracks[j].key != key by {
                    if j > 0 {
                        assert(rest[j - 1] == tracks[j]);
                    }
                }
            },
        }
    }
}

/// A position that holds the key and has no earlier one that does is the
/// position that `first_with_key` finds.
pub proof fn lemma_first_with_key_is(tracks: Seq<TrackView>, key: Seq<char>, i: int)
    requires
        0 <= i < tracks.len(),
        tracks[i].key == key,
        forall|j: int| 0 <= j < i ==> tracks[j].key != key,
    ensures
        first_with_key(tracks, key) == Some(i),
{
    lemma_first_with_key(tracks, key);
}

/// No position holds the key: `first_with_key` finds none.
pub proof fn lemma_first_with_key_none(tracks: Seq<TrackView>, key: Seq<char>)
    requires
        forall|j: int| 0 <= j < tracks.len() ==> tracks[j].key != key,
    ensures
        first_with_key(tracks, key).is_none(),
{
    lemma_first_with_key(tracks, key);
}

/// The ordered, never empty list of playable tracks, fixed once built.
pub struct Catalog {
    tracks: Vec<Track>,
}

impl View for Catalog {
    type V = Seq<TrackView>;

    closed spec fn view(&self) -> Seq<TrackView> {
        track_views(self.tracks@)
    }
}

impl Catalog {
    #[verifier::type_invariant]
    spec fn nonempty(&self) -> bool {
        self.tracks@.len() > 0
    }

    /// Builds the catalog from the tracks that were loaded. An empty list
    /// gives no catalog: there is nothing to play.
    pub fn new(tracks: Vec<Track>) -> (r: Option<Catalog>)
        ensures
            r.is_none() <==> tracks@.len() == 0,
            r.is_some() ==> r.unwrap()@ == track_views(tracks@),
    {
        if tracks.len() == 0 {
            None
        } else {
            Some(Catalog { tracks })
        }
    }

    /// How many tracks the catalog holds: at least one.
    pub fn len(&self) -> (n: usize)
        ensures
            n == self@.len(),
            n > 0,
    {
        proof {
            use_type_invariant(self);
        }
        self.tracks.len()
    }

    /// The track at a position.
    pub fn get(&self, index: usize) -> (t: &Track)
        requires
            index < self@.len(),
        ensures
            t@ == self@[index as int],
    {
        &self.tracks[index]
    }

    /// The first position whose track has the given key.
    pub fn position(&self, key: &String) -> (r: Option<usize>)
        ensures
            match r {
                Some(i) => first_with_key(self@, key@) == Some(i as int),
                None => first_with_key(self@, key@).is_none(),
            },
    {
        let mut i: usize = 0;
        while i < self.tracks.len()
            invariant
                i <= self.tracks@.len(),
                forall|j: int| 0 <= j < i ==> self@[j].key != key@,
            decreases self.tracks@.len() - i,
        {
            if self.tracks[i].key == *key {
                proof {
                    lemma_first_with_key_is(self@, key@, i as int);
                }
                return Some(i);
            }
            i = i + 1;
        }
        proof {
            lemma_first_with_key_none(self@, key@);
        }
        None
    }
}

} // verus!
