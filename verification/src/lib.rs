//! The rules of a trip-tracking service: sessions, the per-connection protocol,
//! stop detection, movement statistics, and the vehicle that drives along a
//! road graph. Everything here is decided on plain values; sockets, the
//! database, the clock and floating-point arithmetic belong to the caller.

pub mod admin;
pub mod connection;
pub mod cpu_log;
pub mod credentials;
pub mod double;
pub mod exchange;
pub mod graph;
pub mod hub;
pub mod laws;
pub mod names;
pub mod protocol;
pub mod requests;
pub mod rng;
pub mod rules;
pub mod sessions;
pub mod simulator;
pub mod startup;
pub mod stats;
pub mod text;
pub mod trips;
