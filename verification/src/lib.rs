//! Verified core of a bidirectional file synchronization engine.
//!
//! The library holds everything the engine decides or computes: the ignore
//! filter over file names, path normalization, the length-prefixed wire
//! codec for change events, the echo-suppression registry, and the per-event
//! decision logic of a connection session.  The surrounding process (socket
//! and file I/O, the filesystem watcher, the discovery beacon) lives outside
//! the library and only hands plain values in and out.

pub mod paths;
pub mod ignore;
pub mod event;
pub mod wire;
pub mod registry;
pub mod hashing;
pub mod pending;
pub mod engine;

pub use ignore::is_ignore;
pub use paths::normalize_path;
pub use event::{Action, SyncEvent};
pub use registry::SyncRegistry;
pub use pending::PendingRemovals;
pub use engine::{apply_inbound, local_removal, local_upsert, local_upsert_from_contents, InboundPlan};
