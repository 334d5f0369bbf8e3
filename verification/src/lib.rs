//! The verified core of a server that runs MATLAB in a pseudo-terminal and
//! takes commands for it over a Unix socket.

pub mod client;
pub mod config;
pub mod delivery;
pub mod host;
pub mod log;
pub mod matlab;
pub mod protocol;
pub mod pump;
pub mod server;
pub mod spawn;
pub mod supervisor;
pub mod text;
