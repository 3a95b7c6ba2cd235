use plex_radio::query::{
    fold_catalog, is_hit, now_playing, query_ids, search, search_folded, Folded, SEARCH_LIMIT,
};
use plex_radio::store::{HistoryStore, Session, SessionStore};
use plex_radio::track::{Catalog, Track};

fn song(key: &str, title: &str, artist: &str) -> Track {
    Track { key: key.to_string(), title: title.to_string(), artist: artist.to_string(), duration: 5 }
}

fn keys(v: &[Track]) -> Vec<String> {
    v.iter().map(|t| t.key.clone()).collect()
}

fn shelf() -> Catalog {
    Catalog::new(vec![
        song("1", "Yesterday", "The Beatles"),
        song("2", "Beat It", "Michael Jackson"),
        song("3", "Heroes", "David Bowie"),
        song("4", "Let It Be", "THE BEATLES"),
        song("5", "Ärger", "Die Ärzte"),
    ])
    .unwrap()
}

#[test]
fn now_playing_excludes_duplicate() {
    let mut sessions = SessionStore::new();
    let mut history = HistoryStore::new();
    let t0 = song("T0", "zero", "a");
    history.record("me".to_string(), song("T2", "two", "a"));
    history.record("me".to_string(), song("T1", "one", "a"));
    history.record("me".to_string(), t0.clone());
    sessions.upsert("s".to_string(), Session::begin(t0, 1_000, 0));
    let np = now_playing(&sessions, &history, &"s".to_string(), &"me".to_string(), 3_500).unwrap();
    assert_eq!(np.track.key, "T0");
    assert_eq!(np.track.title, "zero");
    assert_eq!(np.elapsed, 2_500);
    assert_eq!(keys(&np.history), vec!["T1", "T2"]);
}

#[test]
fn now_playing_of_an_unknown_session_is_absent() {
    let sessions = SessionStore::new();
    let mut history = HistoryStore::new();
    history.record("me".to_string(), song("a", "a", "a"));
    assert!(now_playing(&sessions, &history, &"s".to_string(), &"me".to_string(), 1).is_none());
}

#[test]
fn now_playing_without_history_is_empty() {
    let mut sessions = SessionStore::new();
    let mut history = HistoryStore::new();
    sessions.upsert("s".to_string(), Session::begin(song("a", "a", "a"), 10, 0));
    let np = now_playing(&sessions, &history, &"s".to_string(), &"me".to_string(), 10).unwrap();
    assert!(np.history.is_empty());
    assert_eq!(np.elapsed, 0);
    history.record("me".to_string(), song("a", "a", "a"));
    let np = now_playing(&sessions, &history, &"s".to_string(), &"me".to_string(), 10).unwrap();
    assert!(np.history.is_empty());
}

#[test]
fn now_playing_shows_nine_after_a_full_history() {
    let mut sessions = SessionStore::new();
    let mut history = HistoryStore::new();
    for n in 0..12 {
        history.record("me".to_string(), song(&format!("k{}", n), "t", "a"));
    }
    sessions.upsert("s".to_string(), Session::begin(song("k11", "t", "a"), 0, 0));
    let np = now_playing(&sessions, &history, &"s".to_string(), &"me".to_string(), 0).unwrap();
    assert_eq!(
        keys(&np.history),
        vec!["k10", "k9", "k8", "k7", "k6", "k5", "k4", "k3", "k2"]
    );
}

#[test]
fn query_ids_default() {
    assert_eq!(query_ids(None, None), (String::new(), "anon".to_string()));
    assert_eq!(
        query_ids(Some("s".to_string()), Some("c".to_string())),
        ("s".to_string(), "c".to_string())
    );
}

#[test]
fn search_filtering() {
    let c = shelf();
    assert!(search(&c, "").is_empty());
    assert!(search(&c, "b").is_empty());
    assert_eq!(keys(&search(&c, "beat")), vec!["1", "2", "4"]);
    assert_eq!(keys(&search(&c, "BEAT")), vec!["1", "2", "4"]);
    assert_eq!(keys(&search(&c, "bowie")), vec!["3"]);
    assert_eq!(keys(&search(&c, "it")), vec!["2", "4"]);
    assert!(search(&c, "zappa").is_empty());
}

#[test]
fn search_folds_beyond_ascii() {
    let c = shelf();
    assert_eq!(keys(&search(&c, "ÄR")), vec!["5"]);
    assert_eq!(keys(&search(&c, "är")), vec!["5"]);
}

#[test]
fn search_counts_characters() {
    let c = shelf();
    assert!(search(&c, "ä").is_empty());
    assert_eq!(keys(&search(&c, "ärz")), vec!["5"]);
}

#[test]
fn search_measures_the_query_as_given() {
    let c = Catalog::new(vec![
        song("1", "İstanbul", "Band"),
        song("2", "i\u{307}ki", "Band"),
        song("3", "Aa", "Ab"),
    ])
    .unwrap();
    assert_eq!("İ".to_lowercase().chars().count(), 2);
    assert!(search(&c, "İ").is_empty());
    assert!(search(&c, "a").is_empty());
    assert!(search(&c, "A").is_empty());
    assert!(search(&c, "").is_empty());
    assert_eq!(keys(&search(&c, "İs")), vec!["1"]);
    assert_eq!(keys(&search(&c, "i\u{307}")), vec!["1", "2"]);
    let folds = fold_catalog(&c);
    assert_eq!(keys(&search_folded(&c, &folds, "i\u{307}")), vec!["1", "2"]);
}

#[test]
fn search_returns_whole_tracks() {
    let c = shelf();
    let r = search(&c, "heroes");
    assert_eq!(r.len(), 1);
    assert_eq!(r[0].key, "3");
    assert_eq!(r[0].title, "Heroes");
    assert_eq!(r[0].artist, "David Bowie");
    assert_eq!(r[0].duration, 5);
}

#[test]
fn search_stops_at_fifty() {
    let mut tracks = Vec::new();
    for n in 0..120 {
        let title = if n % 2 == 0 { "Blue Song" } else { "Red Song" };
        tracks.push(song(&format!("{}", n), title, "Band"));
    }
    let c = Catalog::new(tracks).unwrap();
    let r = search(&c, "blue");
    assert_eq!(r.len(), 50);
    assert_eq!(SEARCH_LIMIT, 50);
    for (i, t) in r.iter().enumerate() {
        assert_eq!(t.key, format!("{}", 2 * i));
    }
    assert_eq!(search(&c, "song").len(), 50);
    assert_eq!(search(&c, "band")[49].key, "49");
}

#[test]
fn search_folded_compares_as_given() {
    let c = shelf();
    let folds = fold_catalog(&c);
    assert_eq!(folds.len(), 5);
    assert_eq!(folds[3].artist, "the beatles");
    assert_eq!(folds[0].title, "yesterday");
    assert_eq!(keys(&search_folded(&c, &folds, "beat")), vec!["1", "2", "4"]);
    assert!(search_folded(&c, &folds, "BEAT").is_empty());
    assert!(search_folded(&c, &folds, "y").is_empty());
}

#[test]
fn is_hit_looks_at_title_and_artist() {
    let f = Folded { title: "let it be".to_string(), artist: "the beatles".to_string() };
    assert!(is_hit(&f, "it b"));
    assert!(is_hit(&f, "beat"));
    assert!(is_hit(&f, ""));
    assert!(!is_hit(&f, "bee"));
    assert!(!is_hit(&f, "bethe"));
}
