//! The two probe protocols and the settings each probe is sent with.

use vstd::prelude::*;

verus! {

/// How a hop is probed.
#[derive(Debug, Clone, Copy, PartialEq, Eq, Structural)]
pub enum ProbeProtocol {
    /// An ICMP echo request on a raw socket shared by the whole sweep.
    IcmpEcho,
    /// A TCP connection attempt on a socket of its own.
    TcpConnect,
}

/// Read and write timeout of an ICMP probe, in milliseconds.
pub const ICMP_TIMEOUT_MS: u64 = 300;

/// Connect timeout of a TCP probe, in milliseconds.
pub const TCP_TIMEOUT_MS: u64 = 1000;

impl ProbeProtocol {
    /// The fixed per-probe timeout of this protocol, in milliseconds.
    pub fn timeout_ms(&self) -> (r: u64)
        ensures
            *self == ProbeProtocol::IcmpEcho ==> r == ICMP_TIMEOUT_MS,
            *self == ProbeProtocol::TcpConnect ==> r == TCP_TIMEOUT_MS,
    {
        match self {
            ProbeProtocol::IcmpEcho => ICMP_TIMEOUT_MS,
            ProbeProtocol::TcpConnect => TCP_TIMEOUT_MS,
        }
    }
}

/// The echo sequence number of the probe sent with `ttl`: the TTL itself,
/// truncated to 16 bits.
pub fn sequence_number(ttl: u32) -> (r: u16)
    ensures
        r as int == ttl as int % 65536,
{
    (ttl % 65536) as u16
}

} // verus!
