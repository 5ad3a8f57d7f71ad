//! Cache synchronisation rules and notification aggregation for a set of
//! "image of the day" feeds.
//!
//! The crate holds the decisions only: how a feed item is named in the cache,
//! which cached files are stale, how progress is computed, and how progress
//! reports from several runs merge into one view. Reading files, talking to
//! the network and passing messages are left to the caller, which drives the
//! [`engine::SyncEngine`] with the outcomes of that work.

pub mod bing;
pub mod date;
pub mod download;
pub mod engine;
pub mod eviction;
pub mod feed;
pub mod nasa;
pub mod notification;
pub mod notification_center;
pub mod report;
pub mod service;
pub mod signals;
pub mod spotlight;
pub mod text;
