use plex_radio::playback::{
    choose_index, seek_offset, session_name, shuffle_enabled, Action, Event, Phase, Playback,
    BACKOFF_MS,
};
use plex_radio::store::{HistoryStore, SessionStore};
use plex_radio::track::{Catalog, Track};

fn track(key: &str) -> Track {
    Track {
        key: key.to_string(),
        title: format!("Title {}", key),
        artist: format!("Artist {}", key),
        duration: 1000,
    }
}

fn catalog(keys: &[&str]) -> Catalog {
    Catalog::new(keys.iter().map(|k| track(k)).collect()).unwrap()
}

fn some(s: &str) -> Option<String> {
    Some(s.to_string())
}

#[test]
fn open_takes_the_given_parameters() {
    let p = Playback::open_with(some("s1"), some("c1"), some("42"), some("1500"), some("false"), 9);
    assert_eq!(p.session_id, "s1");
    assert_eq!(p.client_id, "c1");
    assert_eq!(p.requested, some("42"));
    assert_eq!(p.offset_ms, 1500);
    assert!(!p.shuffle);
    assert_eq!(p.cursor, None);
    assert_eq!(p.phase, Phase::Selecting);
    assert!(p.current.is_none());
}

#[test]
fn open_fills_in_defaults() {
    let p = Playback::open_with(None, None, None, None, None, 255);
    assert_eq!(p.session_id, "radio-ff");
    assert_eq!(p.client_id, "anon");
    assert_eq!(p.requested, None);
    assert_eq!(p.offset_ms, 0);
    assert!(p.shuffle);
}

#[test]
fn open_names_the_session_at_random() {
    let p = Playback::open(None, None, None, None, None);
    assert!(p.session_id.starts_with("radio-"));
    let digits = &p.session_id["radio-".len()..];
    assert!(!digits.is_empty());
    assert!(u64::from_str_radix(digits, 16).is_ok());
    let q = Playback::open(some("mine"), None, None, None, None);
    assert_eq!(q.session_id, "mine");
}

#[test]
fn session_name_is_lowercase_hex() {
    assert_eq!(session_name(0), "radio-0");
    assert_eq!(session_name(255), "radio-ff");
    assert_eq!(session_name(0xdead_beef), "radio-deadbeef");
    assert_eq!(session_name(u64::MAX), "radio-ffffffffffffffff");
}

#[test]
fn shuffle_is_on_unless_false() {
    assert!(shuffle_enabled(&None));
    assert!(shuffle_enabled(&some("true")));
    assert!(shuffle_enabled(&some("")));
    assert!(shuffle_enabled(&some("False")));
    assert!(!shuffle_enabled(&some("false")));
}

#[test]
fn seek_offset_parses_or_is_zero() {
    assert_eq!(seek_offset(&None), 0);
    assert_eq!(seek_offset(&some("1500")), 1500);
    assert_eq!(seek_offset(&some("+7")), 7);
    assert_eq!(seek_offset(&some("007")), 7);
    assert_eq!(seek_offset(&some("")), 0);
    assert_eq!(seek_offset(&some("+")), 0);
    assert_eq!(seek_offset(&some("-1")), 0);
    assert_eq!(seek_offset(&some("-0")), 0);
    assert_eq!(seek_offset(&some("++1")), 0);
    assert_eq!(seek_offset(&some("1_000")), 0);
    assert_eq!(seek_offset(&some("1.5")), 0);
    assert_eq!(seek_offset(&some("0")), 0);
    assert_eq!(seek_offset(&some("00000000000000000000000042")), 42);
    assert_eq!(seek_offset(&some("12a")), 0);
    assert_eq!(seek_offset(&some(" 12")), 0);
    assert_eq!(seek_offset(&some("18446744073709551615")), u64::MAX);
    assert_eq!(seek_offset(&some("18446744073709551616")), 0);
}

#[test]
fn choose_index_follows_the_policy() {
    let c = catalog(&["a", "b", "c"]);
    assert_eq!(choose_index(&c, &some("b"), true, None, 2), 1);
    assert_eq!(choose_index(&c, &some("zz"), true, None, 2), 2);
    assert_eq!(choose_index(&c, &None, true, Some(0), 2), 2);
    assert_eq!(choose_index(&c, &None, false, Some(0), 2), 1);
    assert_eq!(choose_index(&c, &None, false, Some(2), 1), 0);
    assert_eq!(choose_index(&c, &None, false, None, 1), 1);
}

#[test]
fn requested_key_takes_the_first_of_equal_keys() {
    let c = catalog(&["a", "b", "b"]);
    assert_eq!(choose_index(&c, &some("b"), false, Some(2), 0), 1);
}

#[test]
fn sequential_mode_advances_by_one() {
    let c = catalog(&["a", "b", "c"]);
    let mut sessions = SessionStore::new();
    let mut history = HistoryStore::new();
    let mut p = Playback::open_with(some("s"), some("c"), None, None, some("false"), 0);
    let first = p.step_with(&c, &mut sessions, &mut history, Event::Ready, 1);
    assert_eq!(first, Action::Fetch { index: 1, offset_ms: 0 });
    assert_eq!(p.step_with(&c, &mut sessions, &mut history, Event::Connected { now_ms: 10 }, 0), Action::Relay);
    assert_eq!(
        p.step_with(&c, &mut sessions, &mut history, Event::Ended { bytes_sent: 5000, elapsed_ms: 3000 }, 0),
        Action::Proceed
    );
    let second = p.step_with(&c, &mut sessions, &mut history, Event::Ready, 0);
    assert_eq!(second, Action::Fetch { index: 2, offset_ms: 0 });
    assert_eq!(p.step_with(&c, &mut sessions, &mut history, Event::Unavailable, 0), Action::Pause { millis: 5000 });
    let third = p.step_with(&c, &mut sessions, &mut history, Event::Ready, 1);
    assert_eq!(third, Action::Fetch { index: 0, offset_ms: 0 });
}

#[test]
fn shuffle_mode_takes_the_pick() {
    let c = catalog(&["a", "b", "c"]);
    let mut sessions = SessionStore::new();
    let mut history = HistoryStore::new();
    let mut p = Playback::open_with(some("s"), None, None, None, None, 0);
    assert_eq!(
        p.step_with(&c, &mut sessions, &mut history, Event::Ready, 2),
        Action::Fetch { index: 2, offset_ms: 0 }
    );
    assert_eq!(p.current.as_ref().unwrap().key, "c");
    assert_eq!(p.phase, Phase::Awaiting);
    assert!(!p.specific);
}

#[test]
fn step_draws_a_position_of_the_catalog() {
    let c = catalog(&["a", "b", "c"]);
    let mut sessions = SessionStore::new();
    let mut history = HistoryStore::new();
    for _ in 0..50 {
        let mut p = Playback::open_with(some("s"), None, None, None, None, 0);
        match p.step(&c, &mut sessions, &mut history, Event::Ready) {
            Action::Fetch { index, offset_ms } => {
                assert!(index < 3);
                assert_eq!(offset_ms, 0);
                assert_eq!(p.cursor, Some(index));
            }
            other => panic!("unexpected action {:?}", other),
        }
    }
}

#[test]
fn step_needs_no_chance_for_a_known_track() {
    let c = catalog(&["a", "b", "c"]);
    let mut sessions = SessionStore::new();
    let mut history = HistoryStore::new();
    let mut p = Playback::open_with(some("s"), None, some("b"), some("2500"), None, 0);
    assert!(!p.draws_on_chance(&c));
    assert_eq!(
        p.step(&c, &mut sessions, &mut history, Event::Ready),
        Action::Fetch { index: 1, offset_ms: 2500 }
    );
    assert!(p.specific);
    assert_eq!(p.requested, None);
}

#[test]
fn specific_track_failure_does_not_fall_back() {
    let c = catalog(&["a", "b", "c"]);
    let mut sessions = SessionStore::new();
    let mut history = HistoryStore::new();
    let mut p = Playback::open_with(some("s"), some("me"), some("b"), None, None, 0);
    assert_eq!(
        p.step_with(&c, &mut sessions, &mut history, Event::Ready, 0),
        Action::Fetch { index: 1, offset_ms: 0 }
    );
    assert_eq!(p.step_with(&c, &mut sessions, &mut history, Event::Unavailable, 0), Action::Stop);
    assert_eq!(p.phase, Phase::Terminated);
    assert!(sessions.get(&"s".to_string()).is_none());
    assert!(history.get(&"me".to_string()).is_none());
    assert_eq!(p.step_with(&c, &mut sessions, &mut history, Event::Ready, 2), Action::Stop);
}

#[test]
fn unknown_track_falls_back_to_random() {
    let c = catalog(&["a", "b", "c"]);
    let mut sessions = SessionStore::new();
    let mut history = HistoryStore::new();
    let mut p = Playback::open_with(some("s"), None, some("nope"), None, None, 0);
    assert!(p.draws_on_chance(&c));
    assert_eq!(
        p.step_with(&c, &mut sessions, &mut history, Event::Ready, 2),
        Action::Fetch { index: 2, offset_ms: 0 }
    );
    assert!(p.specific);
}

#[test]
fn unrequested_failure_backs_off_and_retries() {
    let c = catalog(&["a", "b"]);
    let mut sessions = SessionStore::new();
    let mut history = HistoryStore::new();
    let mut p = Playback::open_with(some("s"), None, None, some("900"), None, 0);
    p.step_with(&c, &mut sessions, &mut history, Event::Ready, 0);
    assert_eq!(
        p.step_with(&c, &mut sessions, &mut history, Event::Unavailable, 0),
        Action::Pause { millis: BACKOFF_MS }
    );
    assert_eq!(BACKOFF_MS, 5000);
    assert_eq!(p.phase, Phase::Selecting);
    assert_eq!(p.offset_ms, 0);
    assert_eq!(
        p.step_with(&c, &mut sessions, &mut history, Event::Ready, 1),
        Action::Fetch { index: 1, offset_ms: 0 }
    );
}

#[test]
fn offset_is_dropped_after_a_failed_first_attempt() {
    let c = catalog(&["a", "b", "c"]);
    let mut sessions = SessionStore::new();
    let mut history = HistoryStore::new();
    let mut p = Playback::open_with(some("s"), some("me"), None, some("3000"), None, 0);
    assert_eq!(
        p.step_with(&c, &mut sessions, &mut history, Event::Ready, 2),
        Action::Fetch { index: 2, offset_ms: 3000 }
    );
    assert_eq!(
        p.step_with(&c, &mut sessions, &mut history, Event::Unavailable, 0),
        Action::Pause { millis: 5000 }
    );
    assert_eq!(
        p.step_with(&c, &mut sessions, &mut history, Event::Ready, 1),
        Action::Fetch { index: 1, offset_ms: 0 }
    );
    assert_eq!(
        p.step_with(&c, &mut sessions, &mut history, Event::Connected { now_ms: 50_000 }, 0),
        Action::Relay
    );
    let s = sessions.get(&"s".to_string()).unwrap();
    assert_eq!(s.track.key, "b");
    assert_eq!(s.elapsed(50_000), 0);
    assert_eq!(s.elapsed(51_000), 1_000);
}

#[test]
fn offset_stays_dropped_over_repeated_failures() {
    let c = catalog(&["a", "b"]);
    let mut sessions = SessionStore::new();
    let mut history = HistoryStore::new();
    let mut p = Playback::open_with(some("s"), None, None, some("700"), some("false"), 0);
    let mut offsets = Vec::new();
    for pick in [0usize, 1, 0, 1] {
        match p.step_with(&c, &mut sessions, &mut history, Event::Ready, pick) {
            Action::Fetch { index, offset_ms } => {
                assert!(index < 2);
                offsets.push(offset_ms);
            }
            other => panic!("unexpected action {:?}", other),
        }
        p.step_with(&c, &mut sessions, &mut history, Event::Unavailable, 0);
    }
    assert_eq!(offsets, vec![700, 0, 0, 0]);
}

#[test]
fn connecting_publishes_session_and_history() {
    let c = catalog(&["a", "b"]);
    let mut sessions = SessionStore::new();
    let mut history = HistoryStore::new();
    let mut p = Playback::open_with(some("s"), some("me"), some("b"), some("4000"), None, 0);
    p.step_with(&c, &mut sessions, &mut history, Event::Ready, 0);
    assert!(sessions.get(&"s".to_string()).is_none());
    assert_eq!(
        p.step_with(&c, &mut sessions, &mut history, Event::Connected { now_ms: 10_000 }, 0),
        Action::Relay
    );
    let s = sessions.get(&"s".to_string()).unwrap();
    assert_eq!(s.track.key, "b");
    assert_eq!(s.elapsed(10_000), 4000);
    assert_eq!(s.elapsed(12_500), 6500);
    let h = history.get(&"me".to_string()).unwrap();
    assert_eq!(h.len(), 1);
    assert_eq!(h[0].key, "b");
}

#[test]
fn short_stream_backoff() {
    let c = catalog(&["a", "b"]);
    let mut sessions = SessionStore::new();
    let mut history = HistoryStore::new();
    let mut p = Playback::open_with(some("s"), None, None, None, None, 0);
    p.step_with(&c, &mut sessions, &mut history, Event::Ready, 0);
    p.step_with(&c, &mut sessions, &mut history, Event::Connected { now_ms: 1 }, 0);
    assert_eq!(
        p.step_with(&c, &mut sessions, &mut history, Event::Ended { bytes_sent: 500, elapsed_ms: 100 }, 0),
        Action::Pause { millis: 5000 }
    );
    assert_eq!(p.phase, Phase::Selecting);
}

fn ended(bytes_sent: u64, elapsed_ms: u64) -> Action {
    let c = catalog(&["a"]);
    let mut sessions = SessionStore::new();
    let mut history = HistoryStore::new();
    let mut p = Playback::open_with(some("s"), None, None, None, None, 0);
    p.step_with(&c, &mut sessions, &mut history, Event::Ready, 0);
    p.step_with(&c, &mut sessions, &mut history, Event::Connected { now_ms: 1 }, 0);
    p.step_with(&c, &mut sessions, &mut history, Event::Ended { bytes_sent, elapsed_ms }, 0)
}

#[test]
fn short_stream_thresholds() {
    assert_eq!(ended(1023, 60_000), Action::Pause { millis: 5000 });
    assert_eq!(ended(1024, 1999), Action::Pause { millis: 5000 });
    assert_eq!(ended(0, 0), Action::Pause { millis: 5000 });
    assert_eq!(ended(1024, 2000), Action::Proceed);
    assert_eq!(ended(u64::MAX, u64::MAX), Action::Proceed);
}

#[test]
fn offset_applies_to_the_first_stream_only() {
    let c = catalog(&["a", "b"]);
    let mut sessions = SessionStore::new();
    let mut history = HistoryStore::new();
    let mut p = Playback::open_with(some("s"), None, some("a"), some("3000"), None, 0);
    assert_eq!(
        p.step_with(&c, &mut sessions, &mut history, Event::Ready, 0),
        Action::Fetch { index: 0, offset_ms: 3000 }
    );
    p.step_with(&c, &mut sessions, &mut history, Event::Connected { now_ms: 1 }, 0);
    p.step_with(&c, &mut sessions, &mut history, Event::Ended { bytes_sent: 9000, elapsed_ms: 9000 }, 0);
    assert_eq!(p.offset_ms, 0);
    assert_eq!(
        p.step_with(&c, &mut sessions, &mut history, Event::Ready, 1),
        Action::Fetch { index: 1, offset_ms: 0 }
    );
    assert!(!p.specific);
}

#[test]
fn disconnect_removes_the_session() {
    let c = catalog(&["a", "b"]);
    let mut sessions = SessionStore::new();
    let mut history = HistoryStore::new();
    let mut p = Playback::open_with(some("s"), some("me"), None, None, None, 0);
    p.step_with(&c, &mut sessions, &mut history, Event::Ready, 0);
    p.step_with(&c, &mut sessions, &mut history, Event::Connected { now_ms: 1 }, 0);
    assert!(sessions.get(&"s".to_string()).is_some());
    assert_eq!(p.step(&c, &mut sessions, &mut history, Event::Disconnected), Action::Stop);
    assert!(sessions.get(&"s".to_string()).is_none());
    assert_eq!(history.get(&"me".to_string()).unwrap().len(), 1);
    assert_eq!(p.phase, Phase::Terminated);
}

#[test]
fn release_removes_only_its_own_session() {
    let c = catalog(&["a", "b"]);
    let mut sessions = SessionStore::new();
    let mut history = HistoryStore::new();
    let mut p = Playback::open_with(some("one"), None, None, None, None, 0);
    let mut q = Playback::open_with(some("two"), None, None, None, None, 0);
    p.step_with(&c, &mut sessions, &mut history, Event::Ready, 0);
    p.step_with(&c, &mut sessions, &mut history, Event::Connected { now_ms: 1 }, 0);
    q.step_with(&c, &mut sessions, &mut history, Event::Ready, 1);
    q.step_with(&c, &mut sessions, &mut history, Event::Connected { now_ms: 2 }, 0);
    p.release(&mut sessions);
    assert!(sessions.get(&"one".to_string()).is_none());
    assert_eq!(sessions.get(&"two".to_string()).unwrap().track.key, "b");
    p.release(&mut sessions);
    assert!(sessions.get(&"one".to_string()).is_none());
}

#[test]
fn an_event_out_of_turn_ends_the_loop() {
    let c = catalog(&["a"]);
    let mut sessions = SessionStore::new();
    let mut history = HistoryStore::new();
    let mut p = Playback::open_with(some("s"), None, None, None, None, 0);
    assert_eq!(
        p.step_with(&c, &mut sessions, &mut history, Event::Connected { now_ms: 1 }, 0),
        Action::Stop
    );
    assert_eq!(p.phase, Phase::Terminated);
    assert!(history.get(&"anon".to_string()).is_none());
}
