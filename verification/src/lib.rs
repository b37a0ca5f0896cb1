//! Watches a directory tree for source-file changes and decides when an
//! external test command should be rerun.
//!
//! The crate is organised around a small run loop: a tree walk discovers
//! every directory under a root, each one is registered with the kernel's
//! change-notification primitive, and a blocking wait hands back batches of
//! change events.  The decision logic — which events qualify, when a batch
//! triggers a rerun, and when the loop shuts down — is verified here; the
//! binary around the library performs the actual I/O.

pub mod controller;
pub mod events;
pub mod file_watch;
pub mod paths;
pub mod tree;
