//! The registrar: the registry of networks and the requests that change it.

pub mod net;
pub mod registry;
pub mod types;
pub mod utils;
