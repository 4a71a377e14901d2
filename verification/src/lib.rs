//! A single-node file synchronisation core: a content-addressed blob store,
//! a metadata table with per-path versions, a reconciliation planner and the
//! normalisation of filesystem notifications.

pub mod client;
pub mod clock;
pub mod config;
pub mod db;
pub mod error;
pub mod hashing;
pub mod ident;
pub mod service;
pub mod text;
pub mod watcher;
