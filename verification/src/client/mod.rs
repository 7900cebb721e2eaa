//! The client: bootstrap, peer messages and packet routing.

pub mod bootstrap;
pub mod net;
pub mod tun;
pub mod types;
