//! A cluster node for a value-dissemination (gossip / anti-entropy) protocol.
//!
//! Clients inject values at any node; every node must eventually observe every
//! value injected anywhere, using only point-to-point messages over a fixed
//! neighbor topology. The core of the library is the broadcast engine in
//! [`broadcast`]: the value set a node keeps, how it merges incoming gossip,
//! and how it decides what to re-send to which neighbor on each timer tick.
//!
//! The library itself performs no I/O: every handler takes an event as a plain
//! value and returns the messages to send. Reading, decoding, and writing wire
//! messages is left to the surrounding program.

pub mod broadcast;
pub mod echo;
pub mod laws;
pub mod protocol;
pub mod unique_ids;
pub mod values;
