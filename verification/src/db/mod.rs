//! The metadata table: file, device and sync records, and the operations
//! that keep them.

pub mod lookup;
pub mod models;
pub mod repository;

pub use models::{
    Database, DeviceRecord, FileRecord, NewDeviceRecord, NewFileRecord, NewSyncRecord, SyncRecord,
    SyncStatus,
};
pub use repository::Repository;
