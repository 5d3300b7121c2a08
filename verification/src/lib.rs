//! An encrypted two-hop SOCKS5 tunnel: the record codec that protects the link
//! between the two proxies, the reader that turns records back into a byte
//! stream, and the SOCKS5 handshake that the remote proxy runs over them.
//!
//! Nothing here touches a socket. Every function works on bytes that the
//! caller has read or will write, so that the same code can be driven by any
//! transport.

pub mod cipher;
pub mod config;
pub mod decryption;
pub mod encryption;
pub mod error;
pub mod local_server;
pub mod ratchet;
pub mod reader;
pub mod relay;
pub mod remote_server;
pub mod session;
pub mod socks5;
pub mod wire;
