//! The decision core of a SIP session border controller: RTP relay latching,
//! relay port allocation, SDP rewriting, name resolution with caching, packet
//! routing and structured log records, each stated in contracts and proved.
//!
//! Sockets, timers, tasks and the SIP codec stay with the caller. The core takes
//! plain values and gives plain values back.

pub mod addr;
pub mod config;
pub mod maps;
pub mod rtp;
pub mod sip;
pub mod telemetry;
pub mod text;

