//! Core of a network-diagnostics service that measures link characteristics
//! between a client and a server.
//!
//! The library holds the connection-handling and streaming engine: a paced
//! byte-stream generator for download probing ([`paced`]), an upload byte
//! counter ([`upload`]), the latency-probe session protocol spoken over text
//! frames ([`json`], [`protocol`]), the shared store of latency samples
//! ([`store`]), the upgrade-handshake token derivation ([`handshake`]), and
//! the classification of inbound requests ([`routing`]). The surrounding
//! transport (HTTP dispatch, sockets, timers) is left to the embedding
//! program, which hands the library plain values and carries out the actions
//! it decides on.
pub mod bytes;
pub mod json;
pub mod handshake;
pub mod paced;
pub mod protocol;
pub mod routing;
pub mod store;
pub mod upload;
