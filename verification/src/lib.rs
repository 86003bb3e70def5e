//! Verified core of the bdstorage state store: how file metadata, content
//! reference counts and vaulted inodes are laid out as byte keys and values
//! in the three tables of the state database, what each operation writes,
//! how each read is interpreted, how the vault summary is tallied, and how
//! queued operations are grouped into batches.

pub mod types;
pub mod codec;
pub mod store;
pub mod paths;
pub mod summary;
pub mod batcher;
