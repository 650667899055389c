//! A file-integrity monitor: snapshots of filesystem trees are persisted in an
//! embedded transactional store and later re-walked to detect additions,
//! removals and attribute changes; file hashes can be enriched with a remote
//! reputation score through a persistent TTL cache.
pub mod types;
pub mod codec;
pub mod error;
pub mod store;
pub mod fileops;
pub mod circl;
pub mod render;
pub mod walk;
