//! A verified core for a multi-manager package inventory tool.
//!
//! The library holds the logic of the scan/enrich/mutate pipeline: the data
//! model, the TTL cache, the subprocess-executor decision rules, the
//! per-manager listing and outdated-check logic, the filesystem usage
//! scanner, and the shared application state with its refresh coalescing.
//! All I/O (subprocesses, HTTP, the filesystem walk) lives outside, in a
//! thin driver that hands the library plain values.

pub mod cache;
pub mod clock;
pub mod commands;
pub mod enrich;
pub mod executor;
pub mod format;
pub mod jsonmodel;
pub mod listing;
pub mod models;
pub mod outdated;
pub mod scanner;
pub mod store;
pub mod strutil;

pub use cache::{CacheEntry, TtlCache};
pub use format::format_size;
pub use models::{Dependency, Package, PackageManager, PackageUsage, Project};
pub use store::DepMgrApp;
