//! Managing a helper on another machine: over SSH, or in a local WSL
//! distribution.

pub mod askpass;
pub mod auth;
pub mod credentials;
pub mod prompt;
pub mod shell;
pub mod ssh;
pub mod ssh_output;
pub mod store;
pub mod transport;
pub mod types;
pub mod wsl;
