//! Signalling: resolving names, rewriting session descriptions, routing packets.

pub mod dns;
pub mod media;
pub mod packet;
pub mod server;
