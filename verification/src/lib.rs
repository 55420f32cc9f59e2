//! Core engine of a TCP tunnelling proxy: a client behind a firewall keeps one
//! outbound control connection to a public relay server, which leases the
//! client a public port and forwards every connection accepted there back to
//! the client over fresh data connections, matched by opaque identifiers.
//!
//! This crate holds the protocol logic alone — the wire codec, the
//! challenge/response authenticator, the port registry, the pending-pairing
//! table and both control-session state machines — as verified code with
//! contracts. All sockets, timers and tasks live outside; they feed events in
//! and carry the returned actions out.

pub mod auth;
pub mod client;
pub mod codec;
pub mod fault;
pub mod pairing;
pub mod ports;
pub mod relay;
pub mod server;
