//! Core logic of a polling bridge that watches lecture-capture folders on a
//! remote recording platform and announces newly uploaded recordings through a
//! chat-service webhook: credential lifecycle, per-folder colors, chronological
//! ordering, cutoff filtering, and deduplication against a persisted seen-set.

pub mod cache;
pub mod color;
pub mod config;
pub mod engine;
pub mod recording;
pub mod token;
pub mod urls;
pub mod webhook;
