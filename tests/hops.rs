use atr::checksum::checksum_valid;
use atr::icmp::{create_echo_packet, icmp_type_of, ECHO_PACKET_LEN};
use atr::probe::{sequence_number, ProbeProtocol};
use atr::status::{classify, outcome_of_datagram, HopStatus, RawOutcome};
use atr::sweep::{ttls_to_launch, ConcurrentSweep, HopResult, Sweep, DEFAULT_MAX_HOPS};

fn ipv4_datagram(icmp_type: u8) -> Vec<u8> {
    let mut d = vec![0u8; 48];
    d[0] = 0x45;
    d[20] = icmp_type;
    d
}

#[test]
fn echo_packet_layout() {
    let p = create_echo_packet(1);
    assert_eq!(p.len(), ECHO_PACKET_LEN);
    assert_eq!(p[0], 8);
    assert_eq!(p[1], 0);
    assert_eq!(p[4], 0x12);
    assert_eq!(p[5], 0x34);
    assert_eq!(p[6], 0);
    assert_eq!(p[7], 1);
    assert!(p[8..].iter().all(|b| *b == 0));
}

#[test]
fn echo_packet_checksum_value() {
    // 0x0800 + 0x1234 + 0x0001 = 0x1a35, complemented.
    let p = create_echo_packet(1);
    assert_eq!(p[2], 0xe5);
    assert_eq!(p[3], 0xca);
}

#[test]
fn echo_packet_sequence_big_endian() {
    let p = create_echo_packet(0x0102);
    assert_eq!(p[6], 0x01);
    assert_eq!(p[7], 0x02);
}

#[test]
fn checksum_round_trip_is_zero() {
    for seq in [0u16, 1, 5, 64, 0x1234, 0xffff] {
        let p = create_echo_packet(seq);
        assert!(checksum_valid(&p));
    }
}

#[test]
fn checksum_detects_corruption() {
    let mut p = create_echo_packet(7);
    p[10] ^= 0x01;
    assert!(!checksum_valid(&p));
}

#[test]
fn classify_is_deterministic() {
    let outcomes = [
        RawOutcome::IcmpReply(11),
        RawOutcome::IcmpReply(0),
        RawOutcome::Connected,
        RawOutcome::ConnectionRefused,
        RawOutcome::HostUnreachable,
        RawOutcome::TimedOut,
        RawOutcome::OtherError,
        RawOutcome::MalformedReply,
    ];
    for o in outcomes {
        assert_eq!(classify(o), classify(o));
    }
}

#[test]
fn tcp_connect_reached() {
    let status = classify(RawOutcome::Connected);
    assert_eq!(status, HopStatus::Reached);
    let h = HopResult::new(5, 1234, status, None);
    assert!(h.elapsed_us > 0);
    assert_eq!(h.render(), "5 * Reached 1.234 ms");
}

#[test]
fn tcp_connection_refused_in_progress() {
    assert_eq!(classify(RawOutcome::ConnectionRefused), HopStatus::InProgress);
}

#[test]
fn tcp_host_unreachable() {
    assert_eq!(classify(RawOutcome::HostUnreachable), HopStatus::Unreachable);
}

#[test]
fn tcp_other_error_failed() {
    assert_eq!(classify(RawOutcome::OtherError), HopStatus::Failed);
}

#[test]
fn icmp_time_exceeded_in_progress() {
    let d = ipv4_datagram(11);
    assert_eq!(outcome_of_datagram(&d), RawOutcome::IcmpReply(11));
    assert_eq!(classify(outcome_of_datagram(&d)), HopStatus::InProgress);
}

#[test]
fn icmp_echo_reply_reached() {
    let d = ipv4_datagram(0);
    assert_eq!(classify(outcome_of_datagram(&d)), HopStatus::Reached);
}

#[test]
fn icmp_type_after_ip_options() {
    let mut d = vec![0u8; 40];
    d[0] = 0x46;
    d[20] = 11;
    d[24] = 0;
    assert_eq!(icmp_type_of(&d), Some(0));
}

#[test]
fn icmp_short_datagram_failed() {
    let d = vec![0x45u8; 20];
    assert_eq!(icmp_type_of(&d), None);
    assert_eq!(outcome_of_datagram(&d), RawOutcome::MalformedReply);
    assert_eq!(classify(outcome_of_datagram(&d)), HopStatus::Failed);
    assert_eq!(outcome_of_datagram(&[]), RawOutcome::MalformedReply);
}

#[test]
fn icmp_bad_header_length_failed() {
    let mut d = ipv4_datagram(11);
    d[0] = 0x44;
    assert_eq!(icmp_type_of(&d), None);
}

#[test]
fn receive_timeout_failed() {
    let timeout = ProbeProtocol::IcmpEcho.timeout_ms();
    assert_eq!(timeout, 300);
    let status = classify(RawOutcome::TimedOut);
    assert_eq!(status, HopStatus::Failed);
    let h = HopResult::new(3, timeout * 1000, status, None);
    assert_eq!(h.render(), "3 * Failed 300.000 ms");
}

#[test]
fn tcp_timeout_setting() {
    assert_eq!(ProbeProtocol::TcpConnect.timeout_ms(), 1000);
}

#[test]
fn render_with_responder() {
    let h = HopResult::new(12, 5, HopStatus::InProgress, Some("10.0.0.1".to_string()));
    assert_eq!(h.render(), "12 10.0.0.1 InProgress 0.005 ms");
    let u = HopResult::new(7, 20_050, HopStatus::Unreachable, Some("192.168.1.1".to_string()));
    assert_eq!(u.render(), "7 192.168.1.1 Unreachable 20.050 ms");
}

#[test]
fn sequence_number_is_ttl() {
    assert_eq!(sequence_number(5), 5);
    assert_eq!(sequence_number(70000), 4464);
}

#[test]
fn sequential_sweep_stops_at_reached() {
    let mut s = Sweep::new(DEFAULT_MAX_HOPS);
    let statuses = [
        HopStatus::InProgress,
        HopStatus::Failed,
        HopStatus::Unreachable,
        HopStatus::Reached,
        HopStatus::InProgress,
    ];
    let mut probed = Vec::new();
    for st in statuses {
        match s.next_ttl() {
            Some(ttl) => {
                probed.push(ttl);
                s.record(10, st, None);
            }
            None => break,
        }
    }
    assert_eq!(probed, vec![1, 2, 3, 4]);
    assert!(s.is_done());
    assert_eq!(s.next_ttl(), None);
    let ttls: Vec<u32> = s.results().iter().map(|h| h.ttl).collect();
    assert_eq!(ttls, vec![1, 2, 3, 4]);
    assert_eq!(s.results()[3].status, HopStatus::Reached);
}

#[test]
fn sequential_sweep_stops_at_ceiling() {
    let mut s = Sweep::new(3);
    while let Some(ttl) = s.next_ttl() {
        assert_eq!(ttl as usize, s.results().len() + 1);
        s.record(1, HopStatus::Failed, None);
    }
    assert_eq!(s.results().len(), 3);
    assert_eq!(s.max_hops(), 3);
    s.record(1, HopStatus::Reached, None);
    assert_eq!(s.results().len(), 3);
}

#[test]
fn sequential_sweep_reached_at_first_hop() {
    let mut s = Sweep::new(64);
    s.record(1, HopStatus::Reached, None);
    assert!(s.is_done());
    assert_eq!(s.results().len(), 1);
}

#[test]
fn concurrent_launches_each_ttl_once() {
    assert_eq!(ttls_to_launch(10), (1..=10).collect::<Vec<u32>>());
    assert!(ttls_to_launch(0).is_empty());
}

#[test]
fn concurrent_reached_reported_once() {
    let mut c = ConcurrentSweep::new(10);
    assert!(c.complete(Some(HopResult::new(2, 5, HopStatus::InProgress, None))));
    assert!(c.complete(Some(HopResult::new(1, 5, HopStatus::InProgress, None))));
    assert!(!c.complete(None));
    assert!(!c.complete(Some(HopResult::new(2, 9, HopStatus::Failed, None))));
    assert!(!c.complete(Some(HopResult::new(11, 5, HopStatus::InProgress, None))));
    assert!(!c.complete(Some(HopResult::new(0, 5, HopStatus::InProgress, None))));
    assert!(c.complete(Some(HopResult::new(4, 7, HopStatus::Reached, None))));
    assert!(c.is_reached());
    // Completions after the destination was reached are discarded.
    assert!(!c.complete(Some(HopResult::new(3, 8, HopStatus::InProgress, None))));
    assert!(!c.complete(Some(HopResult::new(4, 8, HopStatus::Reached, None))));
    assert!(!c.complete(Some(HopResult::new(5, 8, HopStatus::Reached, None))));
    let ttls: Vec<u32> = c.reported().iter().map(|h| h.ttl).collect();
    assert_eq!(ttls, vec![2, 1, 4]);
    assert_eq!(ttls.iter().filter(|t| **t == 4).count(), 1);
}
