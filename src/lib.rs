//! Download pipeline for a music library: search policy, candidate filters,
//! the per-track state machine, the batch admission gate, lyric and tag
//! formatting, and the settings model.

pub mod config;
pub mod errors;
pub mod text;
pub mod search;
pub mod track;
pub mod naming;
pub mod converter;
pub mod pipeline;
pub mod scheduler;
pub mod settings;
pub mod rate_limit;
pub mod utils;
pub mod lyrics;
pub mod enrichment;
pub mod metadata;
pub mod tool;
