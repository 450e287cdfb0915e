//! Note threads: their metadata, titles, transcripts and audio files.

pub mod artifacts;
pub mod model;
pub mod title;
pub mod transcript_store;
pub mod repository;
pub mod readiness;
pub mod import;
pub mod digest;
pub mod storage;
pub mod edits;
pub mod create;
