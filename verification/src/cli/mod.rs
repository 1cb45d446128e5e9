//! The commands of a helper.

pub mod commands;
pub mod dispatch;
pub mod logger;
pub mod proc_manager;
pub mod proxy;
pub mod proxy_start;
pub mod sandbox;
pub mod sandbox_start;
pub mod serve;
pub mod types;
