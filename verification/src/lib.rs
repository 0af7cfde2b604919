//! Core of a device-pairing and file-sync server.
//!
//! A set of personal devices registers with a coordinating server, proves
//! possession of a shared secret on every request, and pushes or pulls files
//! that the server tracks per device under a deterministic, path-derived
//! addressing key.

pub mod clock;
pub mod coordinator;
pub mod credential;
pub mod device;
pub mod digest;
pub mod errors;
pub mod image;
pub mod laws;
pub mod ledger;
pub mod storage;
pub mod platform;
pub mod registry;

pub use coordinator::SyncCoordinator;
pub use errors::ApiError;
