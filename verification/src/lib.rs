//! Core logic of a relay hub: a server that forwards opaque packets between
//! peers that are identified by a public key.
//!
//! Clients reach the hub over HTTP and upgrade the connection to the relay
//! protocol ([`gateway`]). After a handshake that proves possession of their
//! key ([`handshake`], [`signature`], [`key_cache`]) they exchange frames ([`frame`]). The
//! dispatcher ([`dispatcher`]) keeps one slot for each connected key, with a
//! bounded mailbox of outbound frames ([`mailbox`]); a packet for a peer goes
//! into the mailbox of that peer, or is dropped if the mailbox is full. Each
//! connection has a read loop and a write loop ([`client_conn`]), and may
//! have a limit on what it receives ([`rate_limit`]). Beside the relay
//! endpoint the hub answers STUN binding requests ([`stun`]) and a few
//! plain HTTP requests ([`portal`]).
//!
//! Nothing here waits, reads a socket or looks at a clock: the functions
//! decide, on plain values, what the loops around them do next. Their
//! contracts say what they return; the laws that hold of them together are
//! stated and proved as `lemma_` functions.

pub mod client_conn;
pub mod config;
pub mod dispatcher;
pub mod frame;
pub mod gateway;
pub mod handshake;
pub mod headers;
pub mod hex_key;
pub mod key;
pub mod key_cache;
pub mod mailbox;
pub mod net;
pub mod portal;
pub mod rate_limit;
pub mod response;
pub mod signature;
pub mod store;
pub mod stun;
pub mod text;
pub mod tls;
