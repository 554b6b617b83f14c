//! A TCP/UDP tunnel carried inside a WebSocket: the verified protocol core.

pub mod client;
pub mod flow;
pub mod forward;
pub mod frame;
pub mod laws;
pub mod model;
pub mod mux;
pub mod server;
pub mod session;
pub mod socks;
pub mod task;
pub mod text;
