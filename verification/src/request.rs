//! The upstream request builder: which request obtains a track's audio, in
//! passthrough mode (the stored file, after resolving where it lies) or in
//! transcode mode (the server's universal transcoder).

use vstd::prelude::*;
use vstd::string::*;
use crate::text::{decimal, decimal_of, join, trim_trailing_slashes, without_trailing_slashes};

verus! {

/// What the builder needs to know of the remote server.
pub struct Config {
    pub base_url: String,
    pub token: String,
    /// The highest audio bitrate to ask the transcoder for.
    pub bitrate: u32,
    pub audio_boost: u32,
    /// Stream stored files as they are, instead of transcoding.
    pub passthrough: bool,
}

/// A header or a query parameter.
#[derive(Debug)]
pub struct Pair {
    pub name: String,
    pub value: String,
}

impl View for Pair {
    type V = (Seq<char>, Seq<char>);

    open spec fn view(&self) -> (Seq<char>, Seq<char>) {
        (self.name@, self.value@)
    }
}

/// The values of a run of pairs, in order.
pub open spec fn pair_views(pairs: Seq<Pair>) -> Seq<(Seq<char>, Seq<char>)> {
    pairs.map_values(|p: Pair| p@)
}

/// A GET request to the remote server.
#[derive(Debug)]
pub struct UpstreamRequest {
    pub url: String,
    pub headers: Vec<Pair>,
    pub query: Vec<Pair>,
}

/// The mathematical value of an [`UpstreamRequest`].
pub struct RequestView {
    pub url: Seq<char>,
    pub headers: Seq<(Seq<char>, Seq<char>)>,
    pub query: Seq<(Seq<char>, Seq<char>)>,
}

impl View for UpstreamRequest {
    type V = RequestView;

    open spec fn view(&self) -> RequestView {
        RequestView {
            url: self.url@,
            headers: pair_views(self.headers@),
            query: pair_views(self.query@),
        }
    }
}

/// The media of one metadata entry, each with the file keys of its parts.
pub struct MediaEntry {
    pub media: Vec<Vec<String>>,
}

/// The file key of the first part of the first media of the first entry, if
/// all three exist.
pub open spec fn first_part_of(entries: Seq<MediaEntry>) -> Option<Seq<char>> {
    if entries.len() > 0 && entries[0].media@.len() > 0 && entries[0].media@[0]@.len() > 0 {
        Some(entries[0].media@[0]@[0]@)
    } else {
        None
    }
}

/// The address of a track's metadata.
pub open spec fn metadata_url_of(base: Seq<char>, track_key: Seq<char>) -> Seq<char> {
    base + "/library/metadata/"@ + track_key
}

/// The request that resolves where a track's file lies.
pub open spec fn resolution_of(base: Seq<char>, token: Seq<char>, track_key: Seq<char>) -> RequestView {
    RequestView {
        url: metadata_url_of(base, track_key),
        headers: seq![("X-Plex-Token"@, token), ("Accept"@, "application/json"@)],
        query: Seq::empty(),
    }
}

/// The request for a stored file, as it is.
pub open spec fn passthrough_of(base: Seq<char>, token: Seq<char>, part_key: Seq<char>) -> RequestView {
    RequestView { url: base + part_key, headers: seq![("X-Plex-Token"@, token)], query: Seq::empty() }
}

/// The request to the universal transcoder: the source path with the access
/// token, media and part zero, the start in whole seconds, fast seek on,
/// direct play off, direct stream on, the configured boost and bitrate, and
/// the session, by which the server can tell transcodes apart.
pub open spec fn transcode_of(
    base: Seq<char>,
    token: Seq<char>,
    bitrate: u32,
    audio_boost: u32,
    track_key: Seq<char>,
    session_id: Seq<char>,
    offset_ms: u64,
) -> RequestView {
    let root = without_trailing_slashes(base);
    RequestView {
        url: root + "/music/:/transcode/universal/start.mp3"@,
        headers: seq![
            ("X-Plex-Token"@, token),
            ("X-Plex-Client-Identifier"@, "plex-radio-rust"@),
            ("X-Plex-Product"@, "Plex Radio"@),
            ("X-Plex-Version"@, "1.0"@),
            ("X-Plex-Platform"@, "Generic"@),
            ("X-Plex-Device"@, "Plex Radio"@),
            ("X-Plex-Session-Id"@, session_id),
        ],
        query: seq![
            ("path"@, metadata_url_of(root, track_key) + "?X-Plex-Token="@ + token),
            ("mediaIndex"@, "0"@),
            ("partIndex"@, "0"@),
            ("protocol"@, "http"@),
            ("offset"@, decimal_of((offset_ms / 1000) as nat)),
            ("fastSeek"@, "1"@),
            ("directPlay"@, "0"@),
            ("directStream"@, "1"@),
            ("audioBoost"@, decimal_of(audio_boost as nat)),
            ("maxAudioBitrate"@, decimal_of(bitrate as nat)),
            ("context"@, "static"@),
            ("session"@, session_id),
        ],
    }
}

/// What the builder does first for a track.
pub enum Plan {
    /// Send this request for the track's metadata and hand the answer to
    /// [`Config::resolved`].
    Resolve(UpstreamRequest),
    /// Send this request: it obtains the audio.
    Fetch(UpstreamRequest),
}

fn pair(name: &str, value: &str) -> (r: Pair)
    ensures
        r@ == (name@, value@),
{
    Pair { name: String::from_str(name), value: String::from_str(value) }
}

/// The file key of the first part of the first media of the first entry.
pub fn first_part_key(entries: &Vec<MediaEntry>) -> (r: Option<String>)
    ensures
        match r {
            Some(k) => first_part_of(entries@) == Some(k@),
            None => first_part_of(entries@).is_none(),
        },
{
    if entries.len() == 0 {
        return None;
    }
    let entry = &entries[0];
    if entry.media.len() == 0 {
        return None;
    }
    let parts = &entry.media[0];
    if parts.len() == 0 {
        return None;
    }
    Some(parts[0].clone())
}

impl Config {
    /// The configuration for a server; slashes at the end of its address are
    /// dropped.
    pub fn new(base_url: &str, token: String, bitrate: u32, audio_boost: u32, passthrough: bool) -> (r:
        Config)
        ensures
            r.base_url@ == without_trailing_slashes(base_url@),
            r.token@ == token@,
            r.bitrate == bitrate,
            r.audio_boost == audio_boost,
            r.passthrough == passthrough,
    {
        Config { base_url: trim_trailing_slashes(base_url), token, bitrate, audio_boost, passthrough }
    }

    /// The address of a track's metadata.
    pub fn metadata_url(&self, track_key: &str) -> (r: String)
        ensures
            r@ == metadata_url_of(self.base_url@, track_key@),
    {
        let head = join(self.base_url.as_str(), "/library/metadata/");
        join(head.as_str(), track_key)
    }

    /// The request that resolves where a track's file lies.
    pub fn resolution_request(&self, track_key: &str) -> (r: UpstreamRequest)
        ensures
            r@ == resolution_of(self.base_url@, self.token@, track_key@),
    {
        let mut headers: Vec<Pair> = Vec::new();
        headers.push(pair("X-Plex-Token", self.token.as_str()));
        headers.push(pair("Accept", "application/json"));
        let r = UpstreamRequest { url: self.metadata_url(track_key), headers, query: Vec::new() };
        assert(r@.headers =~= resolution_of(self.base_url@, self.token@, track_key@).headers);
        assert(r@.query =~= Seq::empty());
        r
    }

    /// The request for a stored file, as it is.
    pub fn passthrough_request(&self, part_key: &str) -> (r: UpstreamRequest)
        ensures
            r@ == passthrough_of(self.base_url@, self.token@, part_key@),
    {
        let mut headers: Vec<Pair> = Vec::new();
        headers.push(pair("X-Plex-Token", self.token.as_str()));
        let r = UpstreamRequest {
            url: join(self.base_url.as_str(), part_key),
            headers,
            query: Vec::new(),
        };
        assert(r@.headers =~= passthrough_of(self.base_url@, self.token@, part_key@).headers);
        assert(r@.query =~= Seq::empty());
        r
    }

    /// The request to the universal transcoder for a track, starting
    /// `offset_ms` into it.
    pub fn transcode_request(&self, track_key: &str, session_id: &str, offset_ms: u64) -> (r:
        UpstreamRequest)
        ensures
            r@ == transcode_of(
                self.base_url@,
                self.token@,
                self.bitrate,
                self.audio_boost,
                track_key@,
                session_id@,
                offset_ms,
            ),
    {
        let ghost want = transcode_of(
            self.base_url@,
            self.token@,
            self.bitrate,
            self.audio_boost,
            track_key@,
            session_id@,
            offset_ms,
        );
        let root = trim_trailing_slashes(self.base_url.as_str());
        let url = join(root.as_str(), "/music/:/transcode/universal/start.mp3");
        let source = join(root.as_str(), "/library/metadata/");
        let source = join(source.as_str(), track_key);
        let source = join(source.as_str(), "?X-Plex-Token=");
        let source = join(source.as_str(), self.token.as_str());

        let mut headers: Vec<Pair> = Vec::new();
        headers.push(pair("X-Plex-Token", self.token.as_str()));
        headers.push(pair("X-Plex-Client-Identifier", "plex-radio-rust"));
        headers.push(pair("X-Plex-Product", "Plex Radio"));
        headers.push(pair("X-Plex-Version", "1.0"));
        headers.push(pair("X-Plex-Platform", "Generic"));
        headers.push(pair("X-Plex-Device", "Plex Radio"));
        headers.push(pair("X-Plex-Session-Id", session_id));
        assert(pair_views(headers@) =~= want.headers);

        let seconds: u64 = offset_ms / 1000;
        let mut query: Vec<Pair> = Vec::new();
        query.push(pair("path", source.as_str()));
        query.push(pair("mediaIndex", "0"));
        query.push(pair("partIndex", "0"));
        query.push(pair("protocol", "http"));
        query.push(pair("offset", decimal(seconds).as_str()));
        query.push(pair("fastSeek", "1"));
        query.push(pair("directPlay", "0"));
        query.push(pair("directStream", "1"));
        query.push(pair("audioBoost", decimal(self.audio_boost as u64).as_str()));
        query.push(pair("maxAudioBitrate", decimal(self.bitrate as u64).as_str()));
        query.push(pair("context", "static"));
        query.push(pair("session", session_id));
        assert(pair_views(query@) =~= want.query);

        UpstreamRequest { url, headers, query }
    }

    /// The first step for a track: in passthrough mode the request that
    /// resolves its file, else the transcode request, which needs no
    /// resolution.
    pub fn plan(&self, track_key: &str, session_id: &str, offset_ms: u64) -> (r: Plan)
        ensures
            match r {
                Plan::Resolve(q) => self.passthrough && q@ == resolution_of(
                    self.base_url@,
                    self.token@,
                    track_key@,
                ),
                Plan::Fetch(q) => !self.passthrough && q@ == transcode_of(
                    self.base_url@,
                    self.token@,
                    self.bitrate,
                    self.audio_boost,
                    track_key@,
                    session_id@,
                    offset_ms,
                ),
            },
    {
        if self.passthrough {
            Plan::Resolve(self.resolution_request(track_key))
        } else {
            Plan::Fetch(self.transcode_request(track_key, session_id, offset_ms))
        }
    }

    /// The request for a track's file, from the answer to its resolution:
    /// none where the resolution failed (`answer` is `None`) or named no
    /// part, else the request for the first part's file.
    pub fn resolved(&self, answer: &Option<Vec<MediaEntry>>) -> (r: Option<UpstreamRequest>)
        ensures
            match r {
                Some(q) => answer.is_some() && first_part_of(answer.unwrap()@).is_some() && q@
                    == passthrough_of(
                    self.base_url@,
                    self.token@,
                    first_part_of(answer.unwrap()@).unwrap(),
                ),
                None => answer.is_none() || first_part_of(answer.unwrap()@).is_none(),
            },
    {
        match answer {
            Some(entries) => match first_part_key(entries) {
                Some(part_key) => Some(self.passthrough_request(part_key.as_str())),
                None => None,
            },
            None => None,
        }
    }
}

} // verus!
