//! A ping/pong exchange over a framed transport, with its rules proved.
//!
//! The crate holds what both ends decide and compute: the wire form of the two
//! message kinds, the server's table of per-connection counters, and the
//! client's reaction to each event. Sockets, timers and signals belong to the
//! program that drives these state machines.

pub mod client;
pub mod message;
pub mod server;
pub mod wire;
