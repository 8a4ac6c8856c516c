//! Release-note generation for a git-hosted project.
//!
//! Given a tag-name prefix and an upper bound reference, the library finds
//! the most recent release tag matching that prefix, enumerates the commits
//! reachable from the upper bound but not from that tag, extracts the
//! review-request identifiers embedded in those commits, and prepares the
//! paginated lookup that resolves those identifiers against a remote
//! code-review API.
//!
//! The source-control storage backend is consumed through a narrow
//! read-only query facade over the `git2` crate; the wire-level HTTP
//! transport is left to the caller, which drives the paginated fetch state
//! machine defined here.

pub mod config;
pub mod errors;
pub mod extract;
pub mod fetch;
pub mod ids;
pub mod numbers;
pub mod orchestrate;
pub mod range;
pub mod repo;
pub mod tags;
