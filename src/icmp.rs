//! ICMP echo requests on the wire, and the type of an ICMP reply found in a
//! received IPv4 datagram.

use vstd::prelude::*;
use crate::checksum::{checksum_of, internet_checksum, with_checksum};

verus! {

/// Length of an echo request: an 8-byte header and a zero-filled payload.
pub const ECHO_PACKET_LEN: usize = 28;

/// Identifier carried by every echo request.
pub const ECHO_IDENTIFIER: u16 = 0x1234;

/// ICMP type of an echo request.
pub const ICMP_ECHO_REQUEST: u8 = 8;

/// ICMP type of an echo reply.
pub const ICMP_ECHO_REPLY: u8 = 0;

/// ICMP type of a time-exceeded message.
pub const ICMP_TIME_EXCEEDED: u8 = 11;

/// The echo request for `seq` with its checksum field still zero.
pub open spec fn echo_template(seq: u16) -> Seq<u8> {
    Seq::new(ECHO_PACKET_LEN as nat, |i: int|
        if i == 0 {
            ICMP_ECHO_REQUEST
        } else if i == 4 {
            (ECHO_IDENTIFIER / 256) as u8
        } else if i == 5 {
            (ECHO_IDENTIFIER % 256) as u8
        } else if i == 6 {
            (seq / 256) as u8
        } else if i == 7 {
            (seq % 256) as u8
        } else {
            0u8
        })
}

/// The echo request for `seq` as it is sent.
pub open spec fn echo_packet(seq: u16) -> Seq<u8> {
    with_checksum(echo_template(seq), checksum_of(echo_template(seq), 1))
}

/// Builds the echo request with sequence number `seq`.
pub fn create_echo_packet(seq: u16) -> (r: Vec<u8>)
    ensures
        r@ == echo_packet(seq),
{
    let mut buf: Vec<u8> = Vec::new();
    let mut i: usize = 0;
    while i < ECHO_PACKET_LEN
        invariant
            i <= ECHO_PACKET_LEN,
            buf@ == echo_template(seq).take(i as int),
        decreases ECHO_PACKET_LEN - i,
    {
        let b: u8 = if i == 0 {
            ICMP_ECHO_REQUEST
        } else if i == 4 {
            (ECHO_IDENTIFIER / 256) as u8
        } else if i == 5 {
            (ECHO_IDENTIFIER % 256) as u8
        } else if i == 6 {
            (seq / 256) as u8
        } else if i == 7 {
            (seq % 256) as u8
        } else {
            0u8
        };
        buf.push(b);
        i = i + 1;
        assert(buf@ =~= echo_template(seq).take(i as int));
    }
    assert(buf@ =~= echo_template(seq));
    let c = internet_checksum(buf.as_slice(), 1);
    buf.set(2, (c / 256) as u8);
    buf.set(3, (c % 256) as u8);
    assert(buf@ =~= echo_packet(seq));
    buf
}

/// Offset of the ICMP message within an IPv4 datagram: the header length
/// field counts 32-bit words.
pub open spec fn ip_header_len(d: Seq<u8>) -> int {
    (d[0] % 16) as int * 4
}

/// The ICMP type of the message carried in the IPv4 datagram `d`, if the
/// datagram is long enough to hold a valid header and the type byte.
pub open spec fn reply_icmp_type(d: Seq<u8>) -> Option<u8> {
    if d.len() == 0 || ip_header_len(d) < 20 || d.len() <= ip_header_len(d) {
        None
    } else {
        Some(d[ip_header_len(d)])
    }
}

/// Reads the ICMP type out of a received IPv4 datagram, checking every
/// offset against the received length.
pub fn icmp_type_of(datagram: &[u8]) -> (r: Option<u8>)
    ensures
        r == reply_icmp_type(datagram@),
{
    if datagram.len() == 0 {
        return None;
    }
    let header_len: usize = (datagram[0] % 16) as usize * 4;
    if header_len < 20 || datagram.len() <= header_len {
        None
    } else {
        Some(datagram[header_len])
    }
}

} // verus!
