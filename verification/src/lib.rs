//! The decision core of CSSwitch: everything that the desktop shell and the
//! remote helper compute, stated in contracts and proved.

pub mod text;
pub mod cli;
pub mod config;
pub mod crypto;
pub mod desktop;
pub mod json;
pub mod launch;
pub mod paths;
pub mod process;
pub mod product;
pub mod protocol;
pub mod remote;
pub mod remote_commands;
