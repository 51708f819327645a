//! Feed watcher core: polls syndication feeds, deduplicates items by guid,
//! keeps a durable notification queue, and plans delivery to webhook targets.
//!
//! The store is modelled as plain tables with uniqueness invariants; every
//! ingestion and dispatch decision is a verified function over that model.
//! Network transport and the database wiring live outside the library.
pub mod config;
pub mod cycle;
pub mod feed;
pub mod notification;
pub mod store;
pub mod webhook;
