//! The control plane of a supervised Tor process, as verified logic without
//! I/O: the reply protocol of the control port, the supervisor's view of the
//! bootstrap, the request routing of the status endpoint with its credential
//! check and rate limiter, and the SOCKS5 probe for the exit address. Each
//! part takes the bytes and lines that its caller read and says what to send
//! or do next.

pub mod config;
pub mod error;
pub mod exit_probe;
pub mod json;
pub mod number;
pub mod rate_limit;
pub mod split;
pub mod state;
pub mod status_server;
pub mod text;
pub mod tor_control;
pub mod tor_manager;
