//! Discovery and scheduling rules for keeping bare mirrors of git repositories.
//!
//! The crate decides *what* has to be done: which local directory belongs to a
//! remote, which repositories a cycle works on, when a paginated listing is
//! complete and which git invocation a repository needs. Performing the work
//! (HTTP, the file system, the `git` binary) is left to the caller.

pub mod config;
pub mod git;
pub mod providers;
pub mod repo;
pub mod scheduler;
