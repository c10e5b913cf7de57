//! The channel engine of an embeddable real-time messaging server.
//!
//! A server keeps two tables of channels, one for the connection-oriented
//! transport and one for the connectionless transport. Each channel owns a
//! registry of clients and a table of event handlers. Remote peers send JSON
//! envelopes `{"event": .., "data": ..}`; the channel routes each to the
//! handler registered under the event name and frames what comes back.
//!
//! Everything in this crate is a decision or a state change: sockets, threads
//! and locks belong to the program that embeds it. That program performs the
//! reads and writes and reports their outcomes to the functions found here.

pub mod error;
pub mod js_interface;
pub mod laws;
pub mod search;
pub mod socket_instance;
pub mod wire;
