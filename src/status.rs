//! What one probe observed, and the hop status it stands for.

use vstd::prelude::*;
use crate::icmp::{icmp_type_of, reply_icmp_type, ICMP_TIME_EXCEEDED};

verus! {

/// The status of one hop.
#[derive(Debug, Clone, Copy, PartialEq, Eq, Structural)]
pub enum HopStatus {
    /// A node short of the destination answered.
    InProgress,
    /// The destination answered: the sweep is done.
    Reached,
    /// A node reported the destination unreachable.
    Unreachable,
    /// No usable answer: a timeout or another I/O error.
    Failed,
}

/// What one probe observed, before it is classified.
#[derive(Debug, Clone, Copy, PartialEq, Eq, Structural)]
pub enum RawOutcome {
    /// An ICMP message of the given type arrived.
    IcmpReply(u8),
    /// A datagram arrived that holds no readable ICMP header.
    MalformedReply,
    /// The TCP connection was established.
    Connected,
    /// The TCP connection was refused or reset.
    ConnectionRefused,
    /// The OS reported the host or network unreachable.
    HostUnreachable,
    /// Nothing arrived within the probe's timeout.
    TimedOut,
    /// Any other I/O error.
    OtherError,
}

/// The hop status that an outcome stands for.
pub open spec fn status_of(o: RawOutcome) -> HopStatus {
    match o {
        RawOutcome::IcmpReply(t) => if t == ICMP_TIME_EXCEEDED {
            HopStatus::InProgress
        } else {
            HopStatus::Reached
        },
        RawOutcome::Connected => HopStatus::Reached,
        RawOutcome::ConnectionRefused => HopStatus::InProgress,
        RawOutcome::HostUnreachable => HopStatus::Unreachable,
        RawOutcome::MalformedReply | RawOutcome::TimedOut | RawOutcome::OtherError => HopStatus::Failed,
    }
}

/// Classifies a probe's outcome.
pub fn classify(o: RawOutcome) -> (r: HopStatus)
    ensures
        r == status_of(o),
{
    match o {
        RawOutcome::IcmpReply(t) => if t == ICMP_TIME_EXCEEDED {
            HopStatus::InProgress
        } else {
            HopStatus::Reached
        },
        RawOutcome::Connected => HopStatus::Reached,
        RawOutcome::ConnectionRefused => HopStatus::InProgress,
        RawOutcome::HostUnreachable => HopStatus::Unreachable,
        RawOutcome::MalformedReply | RawOutcome::TimedOut | RawOutcome::OtherError => HopStatus::Failed,
    }
}

/// Classification depends on the outcome alone: equal outcomes give equal
/// statuses.
pub proof fn lemma_classify_deterministic(a: RawOutcome, b: RawOutcome)
    requires
        a == b,
    ensures
        status_of(a) == status_of(b),
{
}

/// The outcome of a received IPv4 datagram.
pub open spec fn datagram_outcome(d: Seq<u8>) -> RawOutcome {
    match reply_icmp_type(d) {
        Some(t) => RawOutcome::IcmpReply(t),
        None => RawOutcome::MalformedReply,
    }
}

/// Turns a received IPv4 datagram into a probe outcome.
pub fn outcome_of_datagram(datagram: &[u8]) -> (r: RawOutcome)
    ensures
        r == datagram_outcome(datagram@),
{
    match icmp_type_of(datagram) {
        Some(t) => RawOutcome::IcmpReply(t),
        None => RawOutcome::MalformedReply,
    }
}

} // verus!
