//! Verified core of a tool that applies git operations across many
//! repositories at once: remote listing with pagination, local repository
//! location with nested-checkout pruning, round-robin work distribution, and
//! the per-repository clone/sync and commit/push decision logic.

pub mod cmd;
pub mod commands;
pub mod config;
pub mod engine;
pub mod lister;
pub mod locator;
pub mod pattern;
pub mod provider;
pub mod repo;
pub mod sync;
pub mod strutil;
pub mod workflow;

pub use repo::RemoteRepository;
