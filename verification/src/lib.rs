//! Match-history tracking for ranked games: per-opponent win/loss records
//! reconstructed from partially labelled match feeds, and a time-bounded
//! request cache.

pub mod cache;
pub mod decimal;
pub mod error;
pub mod fetch;
pub mod filters;
pub mod format;
pub mod lookup;
pub mod player_tracker;
pub mod tracker_laws;
