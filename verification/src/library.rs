//! Startup: the requests that list the remote server's libraries and tracks,
//! the choice of the music library, and the catalog built from what was
//! listed.

use vstd::prelude::*;
use vstd::string::*;
use crate::request::{pair_views, Pair, RequestView, UpstreamRequest};
use crate::text::join;
use crate::track::{track_views, Catalog, Track};

verus! {

/// Why the radio cannot start.
#[derive(Clone, Copy, Debug, PartialEq, Eq, Structural)]
pub enum StartupError {
    /// The library section holds no track.
    EmptyCatalog,
    /// The server has no library of the music kind.
    NoMusicLibrary,
}

/// One library section of the remote server.
pub struct Directory {
    pub key: String,
    /// The kind of content; `artist` marks a music library.
    pub section_type: String,
    pub title: String,
}

/// A section is a music library.
pub open spec fn is_music(dir: Directory) -> bool {
    dir.section_type@ == "artist"@
}

/// The request that lists the server's library sections.
pub open spec fn sections_request_of(base: Seq<char>, token: Seq<char>) -> RequestView {
    RequestView {
        url: base + "/library/sections"@,
        headers: seq![("X-Plex-Token"@, token), ("Accept"@, "application/json"@)],
        query: Seq::empty(),
    }
}

/// The request that lists the tracks of a library section: everything in the
/// section of type 10, the server's number for audio tracks.
pub open spec fn tracks_request_of(base: Seq<char>, token: Seq<char>, section_id: Seq<char>) -> RequestView {
    RequestView {
        url: base + "/library/sections/"@ + section_id + "/all"@,
        headers: seq![("X-Plex-Token"@, token), ("Accept"@, "application/json"@)],
        query: seq![("type"@, "10"@)],
    }
}

fn listing_headers(token: &str) -> (r: Vec<Pair>)
    ensures
        pair_views(r@) == seq![("X-Plex-Token"@, token@), ("Accept"@, "application/json"@)],
{
    let mut headers: Vec<Pair> = Vec::new();
    headers.push(Pair { name: String::from_str("X-Plex-Token"), value: String::from_str(token) });
    headers.push(
        Pair { name: String::from_str("Accept"), value: String::from_str("application/json") },
    );
    assert(pair_views(headers@) =~= seq![
        ("X-Plex-Token"@, token@),
        ("Accept"@, "application/json"@),
    ]);
    headers
}

/// The request that lists the server's library sections.
pub fn sections_request(base_url: &str, token: &str) -> (r: UpstreamRequest)
    ensures
        r@ == sections_request_of(base_url@, token@),
{
    let r = UpstreamRequest {
        url: join(base_url, "/library/sections"),
        headers: listing_headers(token),
        query: Vec::new(),
    };
    assert(r@.query =~= Seq::empty());
    r
}

/// The request that lists the tracks of a library section.
pub fn tracks_request(base_url: &str, token: &str, section_id: &str) -> (r: UpstreamRequest)
    ensures
        r@ == tracks_request_of(base_url@, token@, section_id@),
{
    let url = join(base_url, "/library/sections/");
    let url = join(url.as_str(), section_id);
    let url = join(url.as_str(), "/all");
    let mut query: Vec<Pair> = Vec::new();
    query.push(Pair { name: String::from_str("type"), value: String::from_str("10") });
    assert(pair_views(query@) =~= seq![("type"@, "10"@)]);
    UpstreamRequest { url, headers: listing_headers(token), query }
}

/// The key of the first music library among the server's sections; an error
/// exactly where there is none.
pub fn detect_music_section(dirs: &Vec<Directory>) -> (r: Result<String, StartupError>)
    ensures
        match r {
            Ok(key) => exists|i: int|
                0 <= i < dirs@.len() && is_music(dirs@[i]) && key@ == dirs@[i].key@ && forall|
                    j: int,
                | 0 <= j < i ==> !is_music(dirs@[j]),
            Err(e) => e == StartupError::NoMusicLibrary && forall|i: int|
                0 <= i < dirs@.len() ==> !is_music(dirs@[i]),
        },
{
    let wanted = String::from_str("artist");
    let mut i: usize = 0;
    while i < dirs.len()
        invariant
            i <= dirs@.len(),
            wanted@ == "artist"@,
            forall|j: int| 0 <= j < i ==> !is_music(dirs@[j]),
        decreases dirs@.len() - i,
    {
        if dirs[i].section_type == wanted {
            return Ok(dirs[i].key.clone());
        }
        i = i + 1;
    }
    Err(StartupError::NoMusicLibrary)
}

/// The catalog of the tracks that were listed; an error exactly where none
/// was listed: the radio does not start without a track.
pub fn build_catalog(tracks: Vec<Track>) -> (r: Result<Catalog, StartupError>)
    ensures
        match r {
            Ok(c) => tracks@.len() > 0 && c@ == track_views(tracks@),
            Err(e) => tracks@.len() == 0 && e == StartupError::EmptyCatalog,
        },
{
    match Catalog::new(tracks) {
        Some(c) => Ok(c),
        None => Err(StartupError::EmptyCatalog),
    }
}

impl StartupError {
    /// The error in words.
    pub fn message(&self) -> (r: String)
        ensures
            r@ == (match *self {
                StartupError::EmptyCatalog => "No tracks found. Please check your Section ID."@,
                StartupError::NoMusicLibrary =>
                    "No music library (type='artist') found on this Plex server."@,
            }),
    {
        match self {
            StartupError::EmptyCatalog => String::from_str(
                "No tracks found. Please check your Section ID.",
            ),
            StartupError::NoMusicLibrary => String::from_str(
                "No music library (type='artist') found on this Plex server.",
            ),
        }
    }
}

} // verus!
