//! Playback synchronisation engine for a scrolling lyrics display.
//!
//! The crate keeps a lyric timeline aligned with an external playback
//! position: it resolves and parses time-coded lyrics, stores per-track timing
//! corrections, decides how the playback source is polled, and derives the
//! line that is active at a given position.
pub mod cache;
pub mod config;
pub mod desktop;
pub mod encoding;
pub mod lyrics;
pub mod offset_manager;
pub mod patterns;
pub mod similarity;
pub mod spotify;
pub mod sync_engine;
pub mod text;
pub mod text_map;
pub mod types;
