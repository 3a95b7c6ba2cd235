//! The decision logic of a personal radio endpoint backed by a remote media
//! server: the track catalog, the session and history stores, the upstream
//! request builder, the playback continuity state machine and the read-only
//! query accessors. Everything here works on plain values; sockets, clocks
//! and the HTTP surface live outside this library.

pub mod text;
pub mod track;
pub mod table;
pub mod store;
pub mod playback;
pub mod request;
pub mod query;
pub mod library;
