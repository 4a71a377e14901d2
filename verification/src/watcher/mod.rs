//! The change detector: what a filesystem notification means, and what is
//! done about it.

pub mod file_watcher;

pub use file_watcher::{convert_event, handle_event, FileEvent, RawEvent, RawKind};
