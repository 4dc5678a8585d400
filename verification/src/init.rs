//! Creating a Lon lock file from the lock files of other tools.
pub mod niv;
