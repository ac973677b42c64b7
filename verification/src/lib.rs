//! Verified core of a relay that tunnels HTTP requests through a task broker.
pub mod text;
pub mod ids;
pub mod uri;
pub mod patterns;
pub mod config;
pub mod structs;
pub mod errors;
pub mod logic_ask;
pub mod logic_reply;
pub mod sockets;
pub mod msg;
pub mod banner;
pub mod server;
pub mod example_targets;
