use rsping::net::icmp::{calculate_checksum, IcmpProto, PACKET_SIZE};
use rsping::ping::errors::{PingErrors, PingRecvErrs};
use rsping::ping::{Pinger, RecvStatus, SendStatus, TimeoutOption};

fn v4_pinger(id: u16) -> Pinger {
    Pinger::new(TimeoutOption::TTL(64), 2, id)
}

#[test]
fn timeout_option_value() {
    assert_eq!(TimeoutOption::TTL(64).value(), 64);
    assert_eq!(TimeoutOption::HOPS(3).value(), 3);
}

#[test]
fn new_session_settings() {
    let p = Pinger::new(TimeoutOption::HOPS(3), 5, 1);
    assert_eq!(p.socket_timeout(), 5);
    assert_eq!(p.hop_limit(), 3);
}

#[test]
fn prepare_send_encodes_current_request() {
    let p = v4_pinger(0x1234);
    let bytes = p.prepare_send(IcmpProto::V4, "10.0.0.1", "AB").unwrap();
    assert_eq!(bytes.len(), 10);
    assert_eq!(&bytes[0..2], &[8, 0]);
    assert_eq!(&bytes[4..8], &[0x12, 0x34, 0x00, 0x01]);
    assert_eq!(&bytes[8..10], b"AB");
    assert_eq!(calculate_checksum(&bytes), 0);
    // 0x0800 + 0x1234 + 0x0001 + 0x4142 = 0x5b77, complemented.
    assert_eq!(u16::from_be_bytes([bytes[2], bytes[3]]), 0xa488);
}

#[test]
fn prepare_send_v6_type() {
    let p = Pinger::new(TimeoutOption::HOPS(3), 2, 0);
    let bytes = p.prepare_send(IcmpProto::V6, "::1", "").unwrap();
    assert_eq!(bytes.len(), 8);
    assert_eq!(bytes[0], 128);
    assert_eq!(u16::from_be_bytes([bytes[2], bytes[3]]), 0x7ffe);
}

#[test]
fn prepare_send_refuses_oversized_payload() {
    let p = v4_pinger(1);
    let err = p.prepare_send(IcmpProto::V4, "10.0.0.1", &"z".repeat(57)).unwrap_err();
    assert_eq!(err.target, "10.0.0.1");
    assert!(matches!(err.err, PingErrors::PayloadTooLarge));
    let full = p.prepare_send(IcmpProto::V4, "10.0.0.1", &"z".repeat(56)).unwrap();
    assert_eq!(full.len(), PACKET_SIZE);
}

#[test]
fn send_reports_sequence_then_increments() {
    let mut p = v4_pinger(1);
    let r = p.record_send(IcmpProto::V4, "10.0.0.1", SendStatus::Sent(64)).unwrap();
    assert_eq!(r.seq, 1);
    assert_eq!(r.payload_bytes, 64);
    assert_eq!(r.ttl, TimeoutOption::TTL(64));
    assert!(r.is_first());
    let bytes = p.prepare_send(IcmpProto::V4, "10.0.0.1", "").unwrap();
    assert_eq!(bytes.len(), 8);
    assert_eq!(&bytes[6..8], &[0, 2]);
    let r = p.record_send(IcmpProto::V4, "10.0.0.1", SendStatus::Sent(64)).unwrap();
    assert_eq!(r.seq, 2);
    assert!(!r.is_first());
}

#[test]
fn sequence_numbers_have_no_gaps_or_repeats() {
    let mut p = v4_pinger(1);
    let mut seen = Vec::new();
    for i in 0..20u32 {
        if i % 3 == 0 {
            let r = p.record_recv(RecvStatus::TimedOut).unwrap();
            assert_eq!(r.reply_bytes, 0);
        }
        if i % 4 == 0 {
            assert!(p.record_send(IcmpProto::V4, "t", SendStatus::NoSocket).is_err());
        }
        if i % 5 == 0 {
            let failed = SendStatus::Failed { target: "t:0".to_string(), cause: "down".to_string() };
            assert!(p.record_send(IcmpProto::V4, "t", failed).is_err());
        }
        seen.push(p.record_send(IcmpProto::V4, "t", SendStatus::Sent(64)).unwrap().seq);
    }
    let expected: Vec<u16> = (1..=20).collect();
    assert_eq!(seen, expected);
}

#[test]
fn sent_requests_carry_the_reported_sequence_number() {
    let mut p = v4_pinger(7);
    for k in 1..=1000u16 {
        if k % 7 == 0 {
            p.record_recv(RecvStatus::WouldBlock).unwrap();
        }
        let bytes = p.prepare_send(IcmpProto::V4, "t", "ping").unwrap();
        assert_eq!(bytes.len(), 12);
        assert_eq!(calculate_checksum(&bytes), 0);
        let r = p.record_send(IcmpProto::V4, "t", SendStatus::Sent(bytes.len())).unwrap();
        assert_eq!(r.seq, k);
        assert_eq!(u16::from_be_bytes([bytes[6], bytes[7]]), r.seq);
        assert_eq!(r.payload_bytes, 12);
    }
}

#[test]
fn sequence_wraps_at_sixteen_bits() {
    let mut p = v4_pinger(1);
    let mut last = 0;
    for _ in 0..65535u32 {
        last = p.record_send(IcmpProto::V4, "t", SendStatus::Sent(8)).unwrap().seq;
    }
    assert_eq!(last, 65535);
    assert_eq!(p.record_send(IcmpProto::V4, "t", SendStatus::Sent(8)).unwrap().seq, 0);
    assert_eq!(p.record_send(IcmpProto::V4, "t", SendStatus::Sent(8)).unwrap().seq, 1);
}

#[test]
fn send_errors() {
    let mut p = Pinger::new(TimeoutOption::HOPS(3), 2, 1);
    let e = p.record_send(IcmpProto::V6, "::1", SendStatus::NoSocket).unwrap_err();
    assert_eq!(e.target, "::1");
    assert!(matches!(e.err, PingErrors::LookupErr));
    let failed = SendStatus::Failed { target: "[::1]:0".to_string(), cause: "denied".to_string() };
    let e = p.record_send(IcmpProto::V6, "::1", failed).unwrap_err();
    assert_eq!(e.target, "[::1]:0");
    assert!(matches!(e.err, PingErrors::PingErr(ref c) if c == "denied"));
    assert!(!e.is_fatal());
    let refused = SendStatus::SocketRefused("permission denied".to_string());
    let e = p.record_send(IcmpProto::V6, "::1", refused).unwrap_err();
    assert_eq!(e.target, "::1");
    assert!(matches!(e.err, PingErrors::SocketErr(ref c) if c == "permission denied"));
    assert!(e.is_fatal());
    let r = p.record_send(IcmpProto::V6, "::1", SendStatus::Sent(64)).unwrap();
    assert_eq!(r.seq, 1);
    assert_eq!(r.ttl, TimeoutOption::HOPS(3));
}

#[test]
fn receive_outcomes() {
    let p = v4_pinger(1);
    let r = p.record_recv(RecvStatus::Received(84)).unwrap();
    assert_eq!(r.reply_bytes, 84);
    assert!(r.has_reply());
    for status in [RecvStatus::TimedOut, RecvStatus::WouldBlock, RecvStatus::Interrupted] {
        let r = p.record_recv(status).unwrap();
        assert_eq!(r.reply_bytes, 0);
        assert!(!r.has_reply());
    }
    match p.record_recv(RecvStatus::Failed("reset".to_string())) {
        Err(PingRecvErrs::RecvErr(c)) => assert_eq!(c, "reset"),
        Ok(_) => panic!("a failed receive must be an error"),
    }
    match p.record_recv(RecvStatus::NoSocket) {
        Err(PingRecvErrs::RecvErr(c)) => assert_eq!(c, ""),
        Ok(_) => panic!("a receive without socket must be an error"),
    }
}
