//! What the desktop shell decides: which sources may be used, how the proxy and the
//! sandbox on this machine are started and stopped, and what the user is told.

pub mod checks;
pub mod models;
pub mod one_click;
pub mod probe;
pub mod profiles;
pub mod proxy;
pub mod sandbox;
pub mod shown;
pub mod state;
pub mod views;
