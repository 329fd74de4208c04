//! Device-communication engine for pellet-stove controllers that speak a
//! line-based text protocol: frame codec with CRC-16 checksums, payload
//! decoding, request/response correlation, the standing poller and the
//! connection decision logic.

pub mod codec;
pub mod hottoh_const;
pub mod hottoh_structs;
pub mod tcp_client_structs;
pub mod shared_struct;
pub mod tcp_client;
pub mod config;
pub mod settings;
