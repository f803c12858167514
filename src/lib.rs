//! Keeps remote playlists in step with a rolling week of radio-show track listings.
//!
//! `models` groups episodes and deduplicates their tracks, `engine` decides each remote call of
//! a reconciliation pass, `cache` and `index` hold the search outcomes and the owned playlists.
pub mod text;
pub mod models;
pub mod error;
pub mod listing;
pub mod ownership;
pub mod index;
pub mod cache;
pub mod auth;
pub mod engine;
pub mod laws;
pub mod config;
