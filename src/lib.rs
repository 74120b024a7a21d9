//! Reconciles a crate manifest with its lock file: the dependencies that the
//! manifest declares, paired with the exact versions that the lock records.

pub mod doc;
pub mod package;
