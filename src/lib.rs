//! Metadata synthesis and download bookkeeping for a small archive browser.
//!
//! The library normalizes loosely typed search and item metadata, derives a
//! deterministic broadcast-style schedule entry for each downloaded item, and
//! keeps the registry of background downloads.

pub mod category;
pub mod decode;
pub mod guide;
pub mod item;
pub mod json;
pub mod listing;
pub mod present;
pub mod registry;
pub mod schedule;
pub mod text;
