//! The two shared stores: what each session is playing, and what each client
//! has played lately.

use vstd::prelude::*;
use crate::table::Table;
use crate::track::{track_views, Track, TrackView};

verus! {

/// The most tracks that a client's history keeps.
pub const HISTORY_BOUND: usize = 10;

/// What one streaming connection is playing, and since when.
pub struct Session {
    pub track: Track,
    /// Milliseconds since the epoch at which the track began to stream.
    pub connected_at: u64,
    /// How far into the track, in milliseconds, the stream began.
    pub offset_ms: u64,
}

/// The mathematical value of a [`Session`].
pub struct SessionView {
    pub track: TrackView,
    /// Milliseconds since the epoch at which the track would have started had
    /// it been played from its beginning.
    pub started_at: int,
}

impl View for Session {
    type V = SessionView;

    open spec fn view(&self) -> SessionView {
        SessionView { track: self.track@, started_at: start_for(self.connected_at, self.offset_ms) }
    }
}

/// The start that makes a track, joined `offset_ms` into it at `now_ms`,
/// show the right elapsed time.
pub open spec fn start_for(now_ms: u64, offset_ms: u64) -> int {
    now_ms - offset_ms
}

/// The time played, in milliseconds, at `now_ms` of a track that started at
/// `started_at`: their difference, zero where the start lies ahead, and
/// reduced to 64 bits.
pub open spec fn elapsed_at(started_at: int, now_ms: u64) -> u64 {
    if now_ms <= started_at {
        0
    } else {
        ((now_ms - started_at) % 0x1_0000_0000_0000_0000) as u64
    }
}

impl Session {
    /// The session of a track that began streaming at `now_ms`, `offset_ms`
    /// into the track.
    pub fn begin(track: Track, now_ms: u64, offset_ms: u64) -> (r: Session)
        ensures
            r@ == (SessionView { track: track@, started_at: start_for(now_ms, offset_ms) }),
    {
        Session { track, connected_at: now_ms, offset_ms }
    }

    /// The time played at `now_ms`.
    pub fn elapsed(&self, now_ms: u64) -> (r: u64)
        ensures
            r == elapsed_at(self@.started_at, now_ms),
    {
        let started_at: i128 = self.connected_at as i128 - self.offset_ms as i128;
        let now: i128 = now_ms as i128;
        if now <= started_at {
            0
        } else {
            reduce(now - started_at)
        }
    }
}

/// The low 64 bits of a number that is not negative.
fn reduce(d: i128) -> (r: u64)
    requires
        d >= 0,
    ensures
        r == (d as int % 0x1_0000_0000_0000_0000) as u64,
{
    let m: i128 = d % 0x1_0000_0000_0000_0000i128;
    m as u64
}

/// The store's map, with each session taken by its value.
pub open spec fn session_views(m: Map<Seq<char>, Session>) -> Map<Seq<char>, SessionView> {
    m.map_values(|s: Session| s@)
}

/// Which track each live session is playing.
pub struct SessionStore {
    table: Table<Session>,
}

impl View for SessionStore {
    type V = Map<Seq<char>, SessionView>;

    closed spec fn view(&self) -> Map<Seq<char>, SessionView> {
        session_views(self.table@)
    }
}

impl SessionStore {
    /// The store with no session.
    pub fn new() -> (r: Self)
        ensures
            r@ == Map::<Seq<char>, SessionView>::empty(),
    {
        let r = SessionStore { table: Table::new() };
        assert(r@ =~= Map::<Seq<char>, SessionView>::empty());
        r
    }

    /// Records what a session plays, in place of what it played before.
    pub fn upsert(&mut self, session_id: String, session: Session)
        ensures
            final(self)@ == old(self)@.insert(session_id@, session@),
    {
        self.table.upsert(session_id, session);
        assert(session_views(old(self).table@.insert(session_id@, session)) =~= session_views(
            old(self).table@,
        ).insert(session_id@, session@));
    }

    /// What a session plays, if it is live.
    pub fn get(&self, session_id: &String) -> (r: Option<&Session>)
        ensures
            match r {
                Some(s) => self@.contains_key(session_id@) && self@[session_id@] == s@,
                None => !self@.contains_key(session_id@),
            },
    {
        self.table.get(session_id)
    }

    /// Forgets a session. Afterwards the store has no entry for it.
    pub fn remove(&mut self, session_id: &String)
        ensures
            final(self)@ == old(self)@.remove(session_id@),
            !final(self)@.contains_key(session_id@),
    {
        self.table.remove(session_id);
        assert(session_views(old(self).table@.remove(session_id@)) =~= session_views(
            old(self).table@,
        ).remove(session_id@));
    }
}

/// The smaller of two lengths.
pub open spec fn least(a: int, b: int) -> int {
    if a <= b {
        a
    } else {
        b
    }
}

/// A history after one more play: the track in front, the oldest entries
/// dropped beyond the bound.
pub open spec fn recorded(list: Seq<TrackView>, track: TrackView) -> Seq<TrackView> {
    (seq![track] + list).take(least(list.len() as int + 1, HISTORY_BOUND as int))
}

/// A client's history in a map of histories: empty where the client has none.
pub open spec fn history_of(m: Map<Seq<char>, Seq<TrackView>>, client_id: Seq<char>) -> Seq<
    TrackView,
> {
    if m.contains_key(client_id) {
        m[client_id]
    } else {
        Seq::empty()
    }
}

/// The history that a run of plays leaves, starting from none; `plays` is in
/// the order played.
pub open spec fn history_after(plays: Seq<TrackView>) -> Seq<TrackView>
    decreases plays.len(),
{
    if plays.len() == 0 {
        Seq::empty()
    } else {
        recorded(history_after(plays.drop_last()), plays.last())
    }
}

/// After any number of plays a history holds as many entries as were played,
/// up to the bound, and holds the latest plays, the most recent first.
pub proof fn lemma_history_bound(plays: Seq<TrackView>)
    ensures
        history_after(plays).len() == least(plays.len() as int, HISTORY_BOUND as int),
        forall|i: int|
            0 <= i < history_after(plays).len() ==> history_after(plays)[i] == plays[plays.len()
                - 1 - i],
    decreases plays.len(),
{
    if plays.len() > 0 {
        let earlier = plays.drop_last();
        lemma_history_bound(earlier);
        let h = history_after(earlier);
        let joined = seq![plays.last()] + h;
        assert forall|i: int| 0 <= i < history_after(plays).len() implies history_after(plays)[i]
            == plays[plays.len() - 1 - i] by {
            assert(history_after(plays)[i] == joined[i]);
            if i > 0 {
                assert(joined[i] == h[i - 1]);
                assert(h[i - 1] == earlier[earlier.len() - 1 - (i - 1)]);
            }
        }
    }
}

/// The store's map, with each history taken by its values.
pub open spec fn history_views(m: Map<Seq<char>, Vec<Track>>) -> Map<Seq<char>, Seq<TrackView>> {
    m.map_values(|l: Vec<Track>| track_views(l@))
}

/// What each client has played lately, the most recent first.
pub struct HistoryStore {
    table: Table<Vec<Track>>,
}

impl View for HistoryStore {
    type V = Map<Seq<char>, Seq<TrackView>>;

    closed spec fn view(&self) -> Map<Seq<char>, Seq<TrackView>> {
        history_views(self.table@)
    }
}

impl HistoryStore {
    #[verifier::type_invariant]
    spec fn bounded(&self) -> bool {
        forall|k: Seq<char>| #[trigger]
            self.table@.contains_key(k) ==> self.table@[k]@.len() <= HISTORY_BOUND
    }

    /// The store with no history.
    pub fn new() -> (r: Self)
        ensures
            r@ == Map::<Seq<char>, Seq<TrackView>>::empty(),
    {
        let r = HistoryStore { table: Table::new() };
        assert(r@ =~= Map::<Seq<char>, Seq<TrackView>>::empty());
        r
    }

    /// A client's history, if it has played anything: never longer than the
    /// bound.
    pub fn get(&self, client_id: &String) -> (r: Option<&Vec<Track>>)
        ensures
            match r {
                Some(l) => self@.contains_key(client_id@) && self@[client_id@] == track_views(l@)
                    && l@.len() <= HISTORY_BOUND,
                None => !self@.contains_key(client_id@),
            },
    {
        proof {
            use_type_invariant(self);
        }
        self.table.get(client_id)
    }

    /// Stores a client's history, in place of what was stored for it. The
    /// history must respect the bound.
    pub fn upsert(&mut self, client_id: String, list: Vec<Track>)
        requires
            list@.len() <= HISTORY_BOUND,
        ensures
            final(self)@ == old(self)@.insert(client_id@, track_views(list@)),
    {
        proof {
            use_type_invariant(&*self);
        }
        let ghost before = self.table@;
        let mut taken = HistoryStore { table: Table::new() };
        core::mem::swap(self, &mut taken);
        let mut table = taken.table;
        table.upsert(client_id, list);
        assert(history_views(before.insert(client_id@, list)) =~= history_views(before).insert(
            client_id@,
            track_views(list@),
        ));
        *self = HistoryStore { table };
    }

    /// Forgets a client's history.
    pub fn remove(&mut self, client_id: &String)
        ensures
            final(self)@ == old(self)@.remove(client_id@),
    {
        proof {
            use_type_invariant(&*self);
        }
        let ghost before = self.table@;
        let mut taken = HistoryStore { table: Table::new() };
        core::mem::swap(self, &mut taken);
        let mut table = taken.table;
        table.remove(client_id);
        assert(history_views(before.remove(client_id@)) =~= history_views(before).remove(
            client_id@,
        ));
        *self = HistoryStore { table };
    }

    /// Puts a track in front of a client's history and drops what lies beyond
    /// the bound. Other clients' histories stay as they are.
    pub fn record(&mut self, client_id: String, track: Track)
        ensures
            final(self)@ == old(self)@.insert(
                client_id@,
                recorded(history_of(old(self)@, client_id@), track@),
            ),
    {
        proof {
            use_type_invariant(&*self);
        }
        let ghost prior = history_of(self@, client_id@);
        let ghost t = track@;
        let mut list: Vec<Track> = Vec::new();
        list.push(track);
        assert(track_views(list@) =~= (seq![t] + prior).take(1));
        match self.table.get(&client_id) {
            Some(held) => {
                let mut i: usize = 0;
                while i < held.len() && list.len() < HISTORY_BOUND
                    invariant
                        i <= held@.len(),
                        list@.len() == i + 1,
                        list@.len() <= HISTORY_BOUND,
                        track_views(held@) == prior,
                        track_views(list@) == (seq![t] + prior).take(i + 1),
                    decreases held@.len() - i,
                {
                    list.push(held[i].clone());
                    i = i + 1;
                    assert(track_views(list@) =~= (seq![t] + prior).take(i + 1));
                }
            },
            None => {},
        }
        assert(track_views(list@) == recorded(prior, t));
        self.upsert(client_id, list);
    }
}

} // verus!
