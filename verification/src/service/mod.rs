//! The services of the core: the blob store, the reconciliation engine and
//! the versions of files.

pub mod integrity;
pub mod layout;
pub mod objects;
pub mod storage;
pub mod sync;
pub mod version;
