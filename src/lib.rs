//! Hop discovery: probe construction, reply classification and the TTL sweep
//! that turns per-hop outcomes into an ordered report.

pub mod checksum;
pub mod icmp;
pub mod probe;
pub mod report;
pub mod status;
pub mod sweep;
