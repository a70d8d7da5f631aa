//! Verified core of a lyrics fetcher for local audio tracks: it matches a
//! track against a remote lyrics database over a three-tier fallback
//! strategy, ranks search candidates, scores text similarity, models the
//! sidecar files the results are persisted to, parses the synced-lyrics
//! format for tag embedding, and solves the proof-of-work challenge that
//! authorizes publishing.  Network, file and tag input and output live in
//! the unverified shell around the library.

pub mod catalog;
pub mod challenge_solver;
pub mod lrc_format;
pub mod lrclib;
pub mod lyrics;
pub mod response;
pub mod search;
pub mod sidecar;
pub mod text;
pub mod utils;
pub mod workflow;
