//! The playback continuity loop of one streaming connection, as a state
//! machine: which track comes next, what to do when the upstream fails, what
//! to publish when a track begins, and when to hold back before the next
//! attempt. The caller performs the network work and reports what happened.

use rand::Rng;
use vstd::prelude::*;
use vstd::string::*;
use crate::store::{history_of, recorded, start_for, HistoryStore, Session, SessionStore, SessionView};
use crate::text::{hex, hex_of, join, parse_u64, parsed_u64};
use crate::track::{first_with_key, lemma_first_with_key, Catalog, Track, TrackView};

verus! {

/// How long to hold back after a failed or suspiciously short attempt.
pub const BACKOFF_MS: u64 = 5000;

/// A stream that relayed fewer bytes than this counts as short.
pub const SHORT_STREAM_BYTES: u64 = 1024;

/// A stream that lasted less than this many milliseconds counts as short.
pub const SHORT_STREAM_MS: u64 = 2000;

/// Where the loop stands.
#[derive(Clone, Copy, Debug, PartialEq, Eq, Structural)]
pub enum Phase {
    /// The next track is to be selected.
    Selecting,
    /// A track was selected; its upstream request is being built or awaited.
    Awaiting,
    /// The upstream answered; its bytes are being relayed.
    Streaming,
    /// The loop has ended.
    Terminated,
}

/// What happened outside since the last step.
#[derive(Clone, Copy, Debug, PartialEq, Eq, Structural)]
pub enum Event {
    /// Nothing is pending: the loop may go on.
    Ready,
    /// No request could be built, the transport failed, or the upstream
    /// answered with a status that is no success.
    Unavailable,
    /// The upstream answered with success at the given time.
    Connected { now_ms: u64 },
    /// The upstream's byte stream ended, in order or by a read error.
    Ended { bytes_sent: u64, elapsed_ms: u64 },
    /// The client went away.
    Disconnected,
}

/// What the caller is to do next.
#[derive(Clone, Copy, Debug, PartialEq, Eq, Structural)]
pub enum Action {
    /// Request the catalog's track at `index` from the upstream, starting
    /// `offset_ms` into it; report `Connected` or `Unavailable`.
    Fetch { index: usize, offset_ms: u64 },
    /// Relay the upstream's bytes to the client; report `Ended`.
    Relay,
    /// Wait this long, then report `Ready`.
    Pause { millis: u64 },
    /// Report `Ready` at once.
    Proceed,
    /// End the connection.
    Stop,
}

/// The state of one connection's loop.
pub struct Playback {
    pub session_id: String,
    pub client_id: String,
    /// The track that the client asked for, until the first selection.
    pub requested: Option<String>,
    /// The seek offset that the next attempt starts at.
    pub offset_ms: u64,
    pub shuffle: bool,
    /// The catalog position of the last selection.
    pub cursor: Option<usize>,
    /// The track in hand was asked for by the client.
    pub specific: bool,
    pub phase: Phase,
    /// The track in hand.
    pub current: Option<Track>,
}

/// The mathematical value of a [`Playback`].
pub struct PlaybackView {
    pub session_id: Seq<char>,
    pub client_id: Seq<char>,
    pub requested: Option<Seq<char>>,
    pub offset_ms: u64,
    pub shuffle: bool,
    pub cursor: Option<usize>,
    pub specific: bool,
    pub phase: Phase,
    pub current: Option<TrackView>,
}

/// The value of a text that may be absent.
pub open spec fn text_view(o: Option<String>) -> Option<Seq<char>> {
    match o {
        Some(s) => Some(s@),
        None => None,
    }
}

/// The value of a track that may be absent.
pub open spec fn track_view(o: Option<Track>) -> Option<TrackView> {
    match o {
        Some(t) => Some(t@),
        None => None,
    }
}

impl View for Playback {
    type V = PlaybackView;

    open spec fn view(&self) -> PlaybackView {
        PlaybackView {
            session_id: self.session_id@,
            client_id: self.client_id@,
            requested: text_view(self.requested),
            offset_ms: self.offset_ms,
            shuffle: self.shuffle,
            cursor: self.cursor,
            specific: self.specific,
            phase: self.phase,
            current: track_view(self.current),
        }
    }
}

/// The catalog position that a selection settles on. A requested key that the
/// catalog holds wins; one that it lacks falls back to the random `pick`.
/// Without a request, shuffle takes the `pick`, and sequential play takes the
/// position after the cursor, wrapping round, or the `pick` where no cursor
/// exists yet.
pub open spec fn chosen_index(
    catalog: Seq<TrackView>,
    requested: Option<Seq<char>>,
    shuffle: bool,
    cursor: Option<usize>,
    pick: int,
) -> int {
    match requested {
        Some(key) => match first_with_key(catalog, key) {
            Some(i) => i,
            None => pick,
        },
        None => if shuffle {
            pick
        } else {
            match cursor {
                Some(c) => (c + 1) % (catalog.len() as int),
                None => pick,
            }
        },
    }
}

/// Whether a selection draws on the random pick at all.
pub open spec fn draws_pick(
    catalog: Seq<TrackView>,
    requested: Option<Seq<char>>,
    shuffle: bool,
    cursor: Option<usize>,
) -> bool {
    match requested {
        Some(key) => first_with_key(catalog, key).is_none(),
        None => shuffle || cursor.is_none(),
    }
}

/// A stream this short is taken for a failed transcode.
pub open spec fn is_short_stream(bytes_sent: u64, elapsed_ms: u64) -> bool {
    bytes_sent < SHORT_STREAM_BYTES || elapsed_ms < SHORT_STREAM_MS
}

/// The state after a step.
pub open spec fn next_state(
    s: PlaybackView,
    catalog: Seq<TrackView>,
    event: Event,
    pick: int,
) -> PlaybackView {
    match (s.phase, event) {
        (Phase::Selecting, Event::Ready) => {
            let index = chosen_index(catalog, s.requested, s.shuffle, s.cursor, pick);
            PlaybackView {
                requested: None,
                specific: s.requested.is_some(),
                cursor: Some(index as usize),
                current: Some(catalog[index]),
                phase: Phase::Awaiting,
                ..s
            }
        },
        (Phase::Awaiting, Event::Unavailable) => if s.specific {
            PlaybackView { phase: Phase::Terminated, ..s }
        } else {
            PlaybackView { phase: Phase::Selecting, offset_ms: 0, ..s }
        },
        (Phase::Awaiting, Event::Connected { now_ms }) => if s.current.is_some() {
            PlaybackView { phase: Phase::Streaming, ..s }
        } else {
            PlaybackView { phase: Phase::Terminated, ..s }
        },
        (Phase::Streaming, Event::Ended { bytes_sent, elapsed_ms }) => PlaybackView {
            phase: Phase::Selecting,
            offset_ms: 0,
            ..s
        },
        _ => PlaybackView { phase: Phase::Terminated, ..s },
    }
}

/// What a step tells the caller to do.
pub open spec fn next_action(
    s: PlaybackView,
    catalog: Seq<TrackView>,
    event: Event,
    pick: int,
) -> Action {
    match (s.phase, event) {
        (Phase::Selecting, Event::Ready) => Action::Fetch {
            index: chosen_index(catalog, s.requested, s.shuffle, s.cursor, pick) as usize,
            offset_ms: s.offset_ms,
        },
        (Phase::Awaiting, Event::Unavailable) => if s.specific {
            Action::Stop
        } else {
            Action::Pause { millis: BACKOFF_MS }
        },
        (Phase::Awaiting, Event::Connected { now_ms }) => if s.current.is_some() {
            Action::Relay
        } else {
            Action::Stop
        },
        (Phase::Streaming, Event::Ended { bytes_sent, elapsed_ms }) => if is_short_stream(
            bytes_sent,
            elapsed_ms,
        ) {
            Action::Pause { millis: BACKOFF_MS }
        } else {
            Action::Proceed
        },
        _ => Action::Stop,
    }
}

/// A step publishes a track: the upstream answered for the track in hand.
pub open spec fn publishes(s: PlaybackView, event: Event) -> bool {
    s.phase == Phase::Awaiting && event is Connected && s.current.is_some()
}

/// The session store after a step: the track in hand is published when the
/// upstream answers, and the session's entry is removed when the loop ends.
pub open spec fn next_sessions(
    s: PlaybackView,
    catalog: Seq<TrackView>,
    event: Event,
    pick: int,
    sessions: Map<Seq<char>, SessionView>,
) -> Map<Seq<char>, SessionView> {
    if publishes(s, event) {
        sessions.insert(
            s.session_id,
            SessionView {
                track: s.current.unwrap(),
                started_at: start_for(event->now_ms, s.offset_ms),
            },
        )
    } else if next_action(s, catalog, event, pick) == Action::Stop {
        sessions.remove(s.session_id)
    } else {
        sessions
    }
}

/// The history store after a step: the track in hand goes in front of the
/// client's history when the upstream answers.
pub open spec fn next_history(
    s: PlaybackView,
    event: Event,
    history: Map<Seq<char>, Seq<TrackView>>,
) -> Map<Seq<char>, Seq<TrackView>> {
    if publishes(s, event) {
        history.insert(s.client_id, recorded(history_of(history, s.client_id), s.current.unwrap()))
    } else {
        history
    }
}

/// The session identifier made from a random number.
pub open spec fn session_name_of(n: u64) -> Seq<char> {
    "radio-"@ + hex_of(n as nat)
}

/// Whether a `shuffle` parameter leaves shuffle on: anything but `false`.
pub open spec fn shuffle_of(param: Option<Seq<char>>) -> bool {
    match param {
        Some(s) => s != "false"@,
        None => true,
    }
}

/// The seek offset that an `offset` parameter asks for: its number, or zero
/// where it is absent or no number.
pub open spec fn offset_of(param: Option<Seq<char>>) -> u64 {
    match param {
        Some(s) => match parsed_u64(s) {
            Some(n) => n,
            None => 0,
        },
        None => 0,
    }
}

/// The state that a connection with the given parameters starts in; `fresh`
/// names the session where the client gave no name.
pub open spec fn opened(
    session: Option<Seq<char>>,
    client_id: Option<Seq<char>>,
    track: Option<Seq<char>>,
    offset: Option<Seq<char>>,
    shuffle: Option<Seq<char>>,
    fresh: u64,
) -> PlaybackView {
    PlaybackView {
        session_id: match session {
            Some(s) => s,
            None => session_name_of(fresh),
        },
        client_id: match client_id {
            Some(c) => c,
            None => "anon"@,
        },
        requested: track,
        offset_ms: offset_of(offset),
        shuffle: shuffle_of(shuffle),
        cursor: None,
        specific: false,
        phase: Phase::Selecting,
        current: None,
    }
}

/// `rand::Rng::gen_range` on `rand::thread_rng()`, over the half-open range
/// from zero to `n`: some number below `n`. It panics on an empty range, so
/// `n` must be positive.
#[verifier::external_body]
fn random_index(n: usize) -> (r: usize)
    requires
        n > 0,
    ensures
        r < n,
{
    rand::thread_rng().gen_range(0..n)
}

/// `rand::Rng::gen` on `rand::thread_rng()` for a `u64`: any number.
#[verifier::external_body]
fn random_u64() -> (r: u64) {
    rand::thread_rng().gen::<u64>()
}

/// The name of a session that the server names itself.
pub fn session_name(n: u64) -> (r: String)
    ensures
        r@ == session_name_of(n),
{
    let digits = hex(n);
    join("radio-", digits.as_str())
}

/// Whether a `shuffle` parameter leaves shuffle on.
pub fn shuffle_enabled(param: &Option<String>) -> (r: bool)
    ensures
        r == shuffle_of(text_view(*param)),
{
    match param {
        Some(s) => {
            let off = String::from_str("false");
            !(*s == off)
        },
        None => true,
    }
}

/// The seek offset that an `offset` parameter asks for.
pub fn seek_offset(param: &Option<String>) -> (r: u64)
    ensures
        r == offset_of(text_view(*param)),
{
    match param {
        Some(s) => match parse_u64(s.as_str()) {
            Some(n) => n,
            None => 0,
        },
        None => 0,
    }
}

/// The catalog position that a selection settles on, given the random pick.
pub fn choose_index(
    catalog: &Catalog,
    requested: &Option<String>,
    shuffle: bool,
    cursor: Option<usize>,
    pick: usize,
) -> (r: usize)
    requires
        pick < catalog@.len(),
    ensures
        r == chosen_index(catalog@, text_view(*requested), shuffle, cursor, pick as int),
        r < catalog@.len(),
{
    let n = catalog.len();
    match requested {
        Some(key) => {
            proof {
                lemma_first_with_key(catalog@, key@);
            }
            match catalog.position(key) {
                Some(i) => i,
                None => pick,
            }
        },
        None => {
            if shuffle {
                pick
            } else {
                match cursor {
                    Some(c) => {
                        let at = c % n;
                        proof {
                            lemma_successor_mod(c as int, n as int);
                        }
                        if at + 1 == n {
                            0
                        } else {
                            at + 1
                        }
                    },
                    None => pick,
                }
            }
        },
    }
}

/// The position after `c` in a round of `n`, from the position of `c` itself.
pub proof fn lemma_successor_mod(c: int, n: int)
    requires
        0 <= c,
        0 < n,
    ensures
        0 <= c % n < n,
        (c + 1) % n == (if c % n + 1 == n {
            0
        } else {
            c % n + 1
        }),
{
    vstd::arithmetic::div_mod::lemma_fundamental_div_mod(c, n);
    vstd::arithmetic::div_mod::lemma_mod_bound(c, n);
    let q = c / n;
    let r = c % n;
    if r + 1 == n {
        assert(c + 1 == (q + 1) * n + 0) by (nonlinear_arith)
            requires
                c == n * q + r,
                r + 1 == n,
        ;
        vstd::arithmetic::div_mod::lemma_fundamental_div_mod_converse(c + 1, n, q + 1, 0);
    } else {
        assert(c + 1 == q * n + (r + 1)) by (nonlinear_arith)
            requires
                c == n * q + r,
        ;
        vstd::arithmetic::div_mod::lemma_fundamental_div_mod_converse(c + 1, n, q, r + 1);
    }
}

/// Every selection settles on a position of the catalog.
pub proof fn lemma_chosen_in_catalog(
    catalog: Seq<TrackView>,
    requested: Option<Seq<char>>,
    shuffle: bool,
    cursor: Option<usize>,
    pick: int,
)
    requires
        0 <= pick < catalog.len(),
    ensures
        0 <= chosen_index(catalog, requested, shuffle, cursor, pick) < catalog.len(),
{
    match requested {
        Some(key) => {
            lemma_first_with_key(catalog, key);
        },
        None => {
            if !shuffle && cursor.is_some() {
                lemma_successor_mod(cursor.unwrap() as int, catalog.len() as int);
            }
        },
    }
}

/// In sequential play, two selections in a row are one position apart,
/// wrapping round, whether the first track streamed or failed in between and
/// whatever the random picks were; in a catalog of more than one track the
/// second is never the first again.
pub proof fn lemma_sequential_advances(
    s: PlaybackView,
    catalog: Seq<TrackView>,
    first_pick: int,
    between: Seq<Event>,
    second_pick: int,
)
    requires
        catalog.len() > 0,
        catalog.len() <= usize::MAX,
        0 <= first_pick < catalog.len(),
        0 <= second_pick < catalog.len(),
        s.phase == Phase::Selecting,
        !s.shuffle,
        s.requested.is_none(),
        between.len() == 1 && between[0] == Event::Unavailable || between.len() == 2
            && between[0] is Connected && between[1] is Ended,
    ensures
        ({
            let picked = next_state(s, catalog, Event::Ready, first_pick);
            let back = after_events(picked, catalog, between);
            let again = next_state(back, catalog, Event::Ready, second_pick);
            &&& picked.cursor.is_some()
            &&& back.phase == Phase::Selecting
            &&& again.cursor == Some(
                ((picked.cursor.unwrap() + 1) % (catalog.len() as int)) as usize,
            )
            &&& next_action(back, catalog, Event::Ready, second_pick) == Action::Fetch {
                index: again.cursor.unwrap(),
                offset_ms: back.offset_ms,
            }
            &&& catalog.len() > 1 ==> again.cursor != picked.cursor
        }),
{
    lemma_chosen_in_catalog(catalog, s.requested, s.shuffle, s.cursor, first_pick);
    let picked = next_state(s, catalog, Event::Ready, first_pick);
    let c = picked.cursor.unwrap();
    lemma_successor_mod(c as int, catalog.len() as int);
    vstd::arithmetic::div_mod::lemma_small_mod(c as nat, catalog.len());
    reveal_with_fuel(after_events, 3);
    if between.len() == 1 {
        assert(between.drop_first().len() == 0);
    } else {
        assert(between.drop_first().len() == 1);
        assert(between.drop_first()[0] == between[1]);
        assert(between.drop_first().drop_first().len() == 0);
    }
}

/// The state after a run of events, none of which selects a track.
pub open spec fn after_events(s: PlaybackView, catalog: Seq<TrackView>, events: Seq<Event>) -> PlaybackView
    decreases events.len(),
{
    if events.len() == 0 {
        s
    } else {
        after_events(next_state(s, catalog, events[0], 0), catalog, events.drop_first())
    }
}

/// A track that the client asked for and the catalog holds is the one
/// selected, whatever the random pick; when the upstream then fails for it,
/// the loop stops and removes the session: no other track is tried, and
/// nothing is published. A key that the catalog lacks falls back to the pick.
pub proof fn lemma_requested_track_is_not_replaced(
    s: PlaybackView,
    catalog: Seq<TrackView>,
    key: Seq<char>,
    pick: int,
    sessions: Map<Seq<char>, SessionView>,
    history: Map<Seq<char>, Seq<TrackView>>,
)
    requires
        0 <= pick < catalog.len(),
        catalog.len() <= usize::MAX,
        s.phase == Phase::Selecting,
        s.requested == Some(key),
    ensures
        ({
            let picked = next_state(s, catalog, Event::Ready, pick);
            let failed = next_state(picked, catalog, Event::Unavailable, pick);
            &&& picked.specific
            &&& picked.requested.is_none()
            &&& match first_with_key(catalog, key) {
                Some(i) => picked.cursor == Some(i as usize) && picked.current == Some(catalog[i])
                    && catalog[i].key == key,
                None => picked.cursor == Some(pick as usize),
            }
            &&& failed.phase == Phase::Terminated
            &&& next_action(picked, catalog, Event::Unavailable, pick) == Action::Stop
            &&& next_history(picked, Event::Unavailable, history) == history
            &&& !next_sessions(picked, catalog, Event::Unavailable, pick, sessions).contains_key(
                s.session_id,
            )
        }),
{
    lemma_first_with_key(catalog, key);
}

/// A failure for a track that the client did not ask for never stops the
/// loop: it holds back for the backoff and selects again.
pub proof fn lemma_unrequested_failure_retries(s: PlaybackView, catalog: Seq<TrackView>, pick: int)
    requires
        s.phase == Phase::Awaiting,
        !s.specific,
    ensures
        next_action(s, catalog, Event::Unavailable, pick) == (Action::Pause { millis: BACKOFF_MS }),
        next_state(s, catalog, Event::Unavailable, pick).phase == Phase::Selecting,
{
}

/// The seek offset applies to the first attempt of a connection and to none
/// after it. The first fetch starts at the offset that the client asked for.
/// Every step that leads back to selecting leaves the offset at zero, so the
/// fetch that follows starts at the beginning of its track, whether the
/// attempt before it streamed or failed; and an offset of zero stays zero.
pub proof fn lemma_offset_applies_once(
    s: PlaybackView,
    catalog: Seq<TrackView>,
    event: Event,
    pick: int,
    next_pick: int,
)
    ensures
        ({
            let after = next_state(s, catalog, event, pick);
            &&& after.phase == Phase::Selecting ==> after.offset_ms == 0
            &&& after.phase == Phase::Selecting ==> next_action(
                after,
                catalog,
                Event::Ready,
                next_pick,
            ) == (Action::Fetch {
                index: chosen_index(
                    catalog,
                    after.requested,
                    after.shuffle,
                    after.cursor,
                    next_pick,
                ) as usize,
                offset_ms: 0,
            })
            &&& s.offset_ms == 0 ==> after.offset_ms == 0
        }),
{
}

/// The first fetch of a connection starts at the offset that the client asked
/// for, and a session published for it starts that much before the time at
/// which the upstream answered.
pub proof fn lemma_first_attempt_uses_offset(
    session: Option<Seq<char>>,
    client_id: Option<Seq<char>>,
    track: Option<Seq<char>>,
    offset: Option<Seq<char>>,
    shuffle: Option<Seq<char>>,
    fresh: u64,
    catalog: Seq<TrackView>,
    pick: int,
    now_ms: u64,
    sessions: Map<Seq<char>, SessionView>,
)
    ensures
        ({
            let start = opened(session, client_id, track, offset, shuffle, fresh);
            let picked = next_state(start, catalog, Event::Ready, pick);
            let connected = Event::Connected { now_ms };
            let published = next_sessions(picked, catalog, connected, pick, sessions);
            &&& next_action(start, catalog, Event::Ready, pick) == (Action::Fetch {
                index: chosen_index(catalog, track, shuffle_of(shuffle), None, pick) as usize,
                offset_ms: offset_of(offset),
            })
            &&& published.contains_key(start.session_id)
            &&& published[start.session_id].started_at == now_ms - offset_of(offset)
            &&& published[start.session_id].track == picked.current.unwrap()
        }),
{
}

/// Whenever a step ends the loop, the session store has no entry for the
/// session afterwards.
pub proof fn lemma_stop_removes_session(
    s: PlaybackView,
    catalog: Seq<TrackView>,
    event: Event,
    pick: int,
    sessions: Map<Seq<char>, SessionView>,
)
    ensures
        next_state(s, catalog, event, pick).phase == Phase::Terminated <==> next_action(
            s,
            catalog,
            event,
            pick,
        ) == Action::Stop,
        next_action(s, catalog, event, pick) == Action::Stop ==> !next_sessions(
            s,
            catalog,
            event,
            pick,
            sessions,
        ).contains_key(s.session_id),
        event == Event::Disconnected ==> next_action(s, catalog, event, pick) == Action::Stop,
{
}

impl Playback {
    /// The state that a connection starts in, with `fresh` naming the
    /// session where the client gave no name.
    pub fn open_with(
        session: Option<String>,
        client_id: Option<String>,
        track: Option<String>,
        offset: Option<String>,
        shuffle: Option<String>,
        fresh: u64,
    ) -> (r: Playback)
        ensures
            r@ == opened(
                text_view(session),
                text_view(client_id),
                text_view(track),
                text_view(offset),
                text_view(shuffle),
                fresh,
            ),
    {
        let offset_ms = seek_offset(&offset);
        let shuffle_on = shuffle_enabled(&shuffle);
        let session_id = match session {
            Some(s) => s,
            None => session_name(fresh),
        };
        let client = match client_id {
            Some(c) => c,
            None => String::from_str("anon"),
        };
        Playback {
            session_id,
            client_id: client,
            requested: track,
            offset_ms,
            shuffle: shuffle_on,
            cursor: None,
            specific: false,
            phase: Phase::Selecting,
            current: None,
        }
    }

    /// The state that a connection starts in. A session that the client did
    /// not name gets a random name.
    pub fn open(
        session: Option<String>,
        client_id: Option<String>,
        track: Option<String>,
        offset: Option<String>,
        shuffle: Option<String>,
    ) -> (r: Playback)
        ensures
            exists|fresh: u64|
                r@ == #[trigger] opened(
                    text_view(session),
                    text_view(client_id),
                    text_view(track),
                    text_view(offset),
                    text_view(shuffle),
                    fresh,
                ),
    {
        let fresh: u64 = if session.is_none() {
            random_u64()
        } else {
            0
        };
        Playback::open_with(session, client_id, track, offset, shuffle, fresh)
    }

    /// One step of the loop, with the random pick given: the state moves as
    /// `next_state` says, the stores as `next_sessions` and `next_history`
    /// say, and the result is the action of `next_action`.
    pub fn step_with(
        &mut self,
        catalog: &Catalog,
        sessions: &mut SessionStore,
        history: &mut HistoryStore,
        event: Event,
        pick: usize,
    ) -> (action: Action)
        requires
            pick < catalog@.len(),
        ensures
            final(self)@ == next_state(old(self)@, catalog@, event, pick as int),
            action == next_action(old(self)@, catalog@, event, pick as int),
            final(sessions)@ == next_sessions(
                old(self)@,
                catalog@,
                event,
                pick as int,
                old(sessions)@,
            ),
            final(history)@ == next_history(old(self)@, event, old(history)@),
            action == Action::Stop <==> final(self).phase == Phase::Terminated,
            action == Action::Stop ==> !final(sessions)@.contains_key(old(self).session_id@),
            action matches Action::Fetch { index, .. } ==> index < catalog@.len(),
    {
        match (self.phase, event) {
            (Phase::Selecting, Event::Ready) => {
                let index = choose_index(catalog, &self.requested, self.shuffle, self.cursor, pick);
                self.specific = self.requested.is_some();
                self.requested = None;
                self.cursor = Some(index);
                self.current = Some(catalog.get(index).clone());
                self.phase = Phase::Awaiting;
                Action::Fetch { index, offset_ms: self.offset_ms }
            },
            (Phase::Awaiting, Event::Unavailable) => {
                if self.specific {
                    self.phase = Phase::Terminated;
                    sessions.remove(&self.session_id);
                    Action::Stop
                } else {
                    self.offset_ms = 0;
                    self.phase = Phase::Selecting;
                    Action::Pause { millis: BACKOFF_MS }
                }
            },
            (Phase::Awaiting, Event::Connected { now_ms }) => {
                match &self.current {
                    Some(track) => {
                        let session = Session::begin(track.clone(), now_ms, self.offset_ms);
                        sessions.upsert(self.session_id.clone(), session);
                        history.record(self.client_id.clone(), track.clone());
                        self.phase = Phase::Streaming;
                        Action::Relay
                    },
                    None => {
                        self.phase = Phase::Terminated;
                        sessions.remove(&self.session_id);
                        Action::Stop
                    },
                }
            },
            (Phase::Streaming, Event::Ended { bytes_sent, elapsed_ms }) => {
                self.offset_ms = 0;
                self.phase = Phase::Selecting;
                if bytes_sent < SHORT_STREAM_BYTES || elapsed_ms < SHORT_STREAM_MS {
                    Action::Pause { millis: BACKOFF_MS }
                } else {
                    Action::Proceed
                }
            },
            _ => {
                self.phase = Phase::Terminated;
                sessions.remove(&self.session_id);
                Action::Stop
            },
        }
    }

    /// One step of the loop. Where the step selects a track and the selection
    /// draws on chance, the pick is some position of the catalog; everything
    /// else is as `step_with` says for that pick.
    pub fn step(
        &mut self,
        catalog: &Catalog,
        sessions: &mut SessionStore,
        history: &mut HistoryStore,
        event: Event,
    ) -> (action: Action)
        ensures
            exists|pick: int|
                0 <= pick < catalog@.len() && final(self)@ == #[trigger] next_state(
                    old(self)@,
                    catalog@,
                    event,
                    pick,
                ) && action == next_action(old(self)@, catalog@, event, pick) && final(sessions)@
                    == next_sessions(old(self)@, catalog@, event, pick, old(sessions)@),
            final(history)@ == next_history(old(self)@, event, old(history)@),
            action == Action::Stop <==> final(self).phase == Phase::Terminated,
            action == Action::Stop ==> !final(sessions)@.contains_key(old(self).session_id@),
            action matches Action::Fetch { index, .. } ==> index < catalog@.len(),
    {
        let n = catalog.len();
        let selecting = match (self.phase, event) {
            (Phase::Selecting, Event::Ready) => true,
            _ => false,
        };
        let pick: usize = if selecting && self.draws_on_chance(catalog) {
            random_index(n)
        } else {
            0
        };
        self.step_with(catalog, sessions, history, event, pick)
    }

    /// Whether the coming selection draws on chance.
    pub fn draws_on_chance(&self, catalog: &Catalog) -> (r: bool)
        ensures
            r == draws_pick(catalog@, self@.requested, self@.shuffle, self@.cursor),
    {
        match &self.requested {
            Some(key) => catalog.position(key).is_none(),
            None => self.shuffle || self.cursor.is_none(),
        }
    }

    /// Forgets the connection's session: to be called on every way out of the
    /// connection. Afterwards the store has no entry for the session.
    pub fn release(&self, sessions: &mut SessionStore)
        ensures
            final(sessions)@ == old(sessions)@.remove(self@.session_id),
            !final(sessions)@.contains_key(self@.session_id),
    {
        sessions.remove(&self.session_id);
    }
}

} // verus!
