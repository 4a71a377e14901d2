//! The client side of reconciliation: the description of local files and
//! the execution of a plan that the server made.

pub mod paths;
pub mod sync;

pub use sync::{LocalFile, Step, SyncPlanItem, SyncReport};
