//! Lon: locking and updating Nix sources that live in Git repositories.
pub mod text;
pub mod git;
pub mod sources;
pub mod update;
pub mod commit_message;
pub mod lock;
pub mod http;
pub mod init;
pub mod nix;
