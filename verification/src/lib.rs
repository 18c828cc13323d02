//! Core of a multi-session collaborative audio-broadcast server.
//!
//! A session owns an ordered play queue and a broadcaster that paces
//! Opus-in-Ogg pages into a shared media track; a controller keeps the
//! registry of sessions and the per-user uniqueness rule; an ingestion
//! pipeline turns external URLs into stored audio blobs with metadata.
//! The modules here hold the decision logic of those components as
//! verified data types; the asynchronous plumbing around them lives with
//! the embedding program.

pub mod auth;
pub mod broadcaster;
pub mod ctx;
pub mod dec;
pub mod errors;
mod ids;
pub mod ingest;
pub mod ogg;
pub mod peer;
pub mod controller;
pub mod queue;
pub mod session;
