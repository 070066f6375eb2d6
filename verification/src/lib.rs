//! A miniature distributed file system, split into a naming service and
//! storage services.
//!
//! The naming service is the single authority for the global path namespace:
//! a tree of directories and regular files, a registry of storage nodes, and
//! the registration-time reconciliation that deduplicates file replicas
//! across nodes. Those parts are verified here. The HTTP transport and the
//! raw disk operations live outside the library.

pub mod dir_tree;
pub mod error;
pub mod laws;
pub mod path;
pub mod registration;
pub mod server;
pub mod service;
pub mod storage;

pub use error::TinyDfsError;
