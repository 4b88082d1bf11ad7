//! Dependency resolution and fetch engine of a package manager: version
//! constraints against a repository catalog, transitive discovery through
//! artifact manifests, and the lock ledger that records what was fetched.

pub mod catalog;
pub mod config;
pub mod fetch;
pub mod layout;
pub mod lock;
pub mod manifest;
pub mod toolchain;
pub mod version;
