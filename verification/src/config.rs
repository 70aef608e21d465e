//! The settings that the core reads.

use vstd::prelude::*;

verus! {

/// The settings of a border controller.
#[derive(Debug)]
pub struct AppConfig {
    /// The address that signalling is received on.
    pub sip_bind_ip: String,
    /// The port that signalling is received on.
    pub sip_port: u16,
    /// The address that the inside leg is told to send media to.
    pub sip_internal_ip: String,
    /// The address that the outside leg is told to send media to.
    pub sip_public_ip: String,
    /// The proxy that requests from outside are passed to.
    pub proxy_sip_addr: String,
    /// The first port that a relay can have.
    pub rtp_start_port: u16,
    /// The last port that a relay can have.
    pub rtp_end_port: u16,
}

} // verus!
