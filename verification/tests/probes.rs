use ampscan::db::models::Port;
use ampscan::scanner::probes::{
    build_dns_payload, build_dns_payload_for_txid, build_ldap_payload, build_memcached_payload,
    build_netbios_payload, build_netbios_payload_for_txid, build_netbios_payload_with_txid,
    build_ntp_payload, build_payload, build_ripv1_payload, build_rpc_payload,
    build_snmp_payload, build_ssdp_payload, build_tftp_payload, dns_probe_status, failure_status,
    plan_probe, probe_kind, snmp_probe_status, tcp_probe_status, udp_attempt_action, udp_probe_status,
    validate_udp_response, ProbeKind, ProbePlan, TcpOutcome, UdpAttemptAction, UdpAttemptEvent,
    UdpExchange,
};
use ampscan::scanner::result::PortStatus;

#[test]
fn test_dns_payload_structure() {
    let pkt = build_dns_payload();
    assert!(pkt.len() >= 28);
    assert_eq!(pkt[2], 0x01);
    assert_eq!(pkt[3], 0x00);
    assert_eq!(pkt[4], 0x00);
    assert_eq!(pkt[5], 0x01);
    assert_eq!(pkt[12], 6);
    assert_eq!(&pkt[13..19], b"google");
}

#[test]
fn test_snmp_payload_structure() {
    let pkt = build_snmp_payload();
    assert_eq!(pkt.len(), 43);
    assert_eq!(pkt[0], 0x30);
    assert_eq!(&pkt[7..13], b"public");
}

#[test]
fn test_ntp_payload_structure() {
    let pkt = build_ntp_payload();
    assert_eq!(pkt.len(), 12);
    assert_eq!(pkt[0], 0x16);
    assert_eq!(pkt[1], 0x02);
}

#[test]
fn test_netbios_payload_structure() {
    let pkt = build_netbios_payload();
    assert_eq!(pkt[12], 0x20);
    assert_eq!(pkt[13], b'C');
    assert_eq!(pkt[14], b'K');
    let type_offset = pkt.len() - 4;
    assert_eq!(pkt[type_offset], 0x00);
    assert_eq!(pkt[type_offset + 1], 0x21);
}

#[test]
fn test_rpc_payload_structure() {
    let pkt = build_rpc_payload();
    assert_eq!(pkt.len(), 40);
    assert_eq!(&pkt[12..16], &[0x00, 0x01, 0x86, 0xA0]);
}

#[test]
fn test_ssdp_payload_contains_msearch() {
    let pkt = build_ssdp_payload();
    let text = String::from_utf8_lossy(&pkt);
    assert!(text.contains("M-SEARCH"));
    assert!(text.contains("upnp:rootdevice"));
}

#[test]
fn test_tftp_payload_structure() {
    let pkt = build_tftp_payload();
    assert_eq!(pkt[0], 0x00);
    assert_eq!(pkt[1], 0x01);
    assert_eq!(&pkt[2..7], b"a.pdf");
}

#[test]
fn test_ldap_payload_structure() {
    let pkt = build_ldap_payload();
    assert_eq!(pkt.len(), 39);
    assert_eq!(pkt[0], 0x30);
    assert_eq!(pkt[5], 0x63);
}

#[test]
fn test_memcached_payload_contains_stats() {
    let pkt = build_memcached_payload();
    assert_eq!(pkt.len(), 14);
    assert_eq!(&pkt[8..], b"stats\n");
}

#[test]
fn test_ripv1_payload_structure() {
    let pkt = build_ripv1_payload();
    assert_eq!(pkt.len(), 24);
    assert_eq!(pkt[0], 0x01);
    assert_eq!(pkt[1], 0x01);
    assert_eq!(&pkt[20..24], &[0x00, 0x00, 0x00, 0x10]);
}

#[test]
fn test_build_payload_dispatch() {
    for pt in &["dns", "mdns", "snmp", "ntp", "ssdp", "tftp", "netbios", "rpc", "ldap", "memcached", "ripv1"] {
        let payload = build_payload(pt, None);
        assert!(!payload.is_empty(), "Probe '{}' should produce non-empty payload", pt);
    }
    let empty = build_payload("udp_payload", None);
    assert!(empty.is_empty());
    let data = vec![0xFF, 0x01];
    let result = build_payload("udp_payload", Some(&data));
    assert_eq!(result, data);
}

#[test]
fn dns_payload_carries_transaction_id() {
    let pkt = build_dns_payload_for_txid(0xABCD);
    assert_eq!(pkt.len(), 28);
    assert_eq!(pkt[0], 0xAB);
    assert_eq!(pkt[1], 0xCD);
    assert_eq!(&pkt[20..23], b"com");
}

#[test]
fn netbios_payload_carries_transaction_id() {
    let pkt = build_netbios_payload_for_txid(0xBEEF);
    assert_eq!(pkt.len(), 50);
    assert_eq!(pkt[0], 0xBE);
    assert_eq!(pkt[1], 0xEF);
    let other = build_netbios_payload_for_txid(0x0001);
    assert_eq!(other[0], 0x00);
    assert_eq!(other[1], 0x01);
    assert_eq!(&pkt[2..], &other[2..]);
    let (drawn, txid) = build_netbios_payload_with_txid();
    assert_eq!(drawn, build_netbios_payload_for_txid(txid));
    let plain = build_netbios_payload();
    assert_eq!(&plain[2..], &other[2..]);
}

#[test]
fn probe_kind_is_exact_and_case_sensitive() {
    assert_eq!(probe_kind("dns"), ProbeKind::Dns);
    assert_eq!(probe_kind("udp_payload"), ProbeKind::UdpPayload);
    assert_eq!(probe_kind("DNS"), ProbeKind::Other);
    assert_eq!(probe_kind("tcp_connect"), ProbeKind::Other);
}

#[test]
fn unknown_probe_type_sends_stored_bytes() {
    let data = vec![1u8, 2, 3];
    assert_eq!(build_payload("whatever", Some(&data)), data);
    assert!(build_payload("whatever", None).is_empty());
}

#[test]
fn ntp_reply_validation() {
    let mut reply = vec![0u8; 12];
    reply[0] = 0x16; // mode 6
    assert!(validate_udp_response("ntp", &reply));
    assert!(!validate_udp_response("ntp", &reply[..11]));
    let zero = vec![0u8; 12];
    assert!(!validate_udp_response("ntp", &zero));
    assert!(!validate_udp_response("ntp", &[]));
    // a client request (version 3, mode 3) is no answer
    let mut request = vec![0u8; 12];
    request[0] = 0x1B;
    assert!(!validate_udp_response("ntp", &request));
    // a server answer (version 4, mode 4)
    let mut server = vec![0u8; 12];
    server[0] = 0x24;
    assert!(validate_udp_response("ntp", &server));
    // a control answer of version 1 is refused, of version 4 accepted
    let mut control = vec![0u8; 12];
    control[0] = 0x0E;
    assert!(!validate_udp_response("ntp", &control));
    control[0] = 0x26;
    assert!(validate_udp_response("ntp", &control));
}

#[test]
fn ssdp_reply_validation() {
    assert!(validate_udp_response("ssdp", b"HTTP/1.1 200 OK\r\n"));
    assert!(validate_udp_response("ssdp", b"xx LOCATION: http://a"));
    assert!(!validate_udp_response("ssdp", b"hello there"));
}

#[test]
fn memcached_reply_validation() {
    assert!(validate_udp_response("memcached", b"\0\0\0\0\0\x01\0\0STAT pid 1"));
    assert!(validate_udp_response("memcached", &[0x81, 0, 0, 0]));
    assert!(!validate_udp_response("memcached", b"nothing"));
}

#[test]
fn rpc_reply_validation() {
    let mut r = vec![0u8; 16];
    r[3] = 1; // transaction id 1, as sent
    r[7] = 1; // message type REPLY
    assert!(validate_udp_response("rpc", &r));
    assert!(!validate_udp_response("rpc", &r[..15]));
    r[7] = 0;
    assert!(!validate_udp_response("rpc", &r));
    let foreign = [0xDE, 0xAD, 0xBE, 0xEF, 0, 0, 0, 1, 0, 0, 0, 0, 0, 0, 0, 0];
    assert!(!validate_udp_response("rpc", &foreign));
}

#[test]
fn generic_reply_rejects_reflected_ip_header() {
    let mut r = vec![1u8; 12];
    assert!(validate_udp_response("udp_payload", &r));
    r[0] = 0x45;
    assert!(!validate_udp_response("udp_payload", &r));
    assert!(!validate_udp_response("udp_payload", &[0u8; 12]));
    assert!(!validate_udp_response("udp_payload", &[1u8; 11]));
    assert!(validate_udp_response("other", &[1u8; 8]));
}

#[test]
fn dns_reply_verdicts() {
    let txid = 0x1234;
    let mut r = vec![0u8; 12];
    r[0] = 0x12;
    r[1] = 0x34;
    r[2] = 0x81;
    r[3] = 0x80; // RA set, RCODE 0
    let (st, ms) = dns_probe_status(&UdpExchange::Reply { bytes: r.clone(), elapsed_ms: 7 }, txid);
    assert_eq!(st, PortStatus::Open);
    assert_eq!(ms, Some(7));
    r[3] = 0x85; // REFUSED
    let (st, _) = dns_probe_status(&UdpExchange::Reply { bytes: r.clone(), elapsed_ms: 7 }, txid);
    assert_eq!(st, PortStatus::OpenProtected);
    r[1] = 0x35; // wrong transaction id
    let (st, ms) = dns_probe_status(&UdpExchange::Reply { bytes: r, elapsed_ms: 7 }, txid);
    assert_eq!(st, PortStatus::Inconclusive);
    assert_eq!(ms, None);
    let (st, _) = dns_probe_status(&UdpExchange::NoReply, txid);
    assert_eq!(st, PortStatus::Inconclusive);
}

#[test]
fn snmp_reply_verdicts() {
    let mut r = vec![0u8; 15];
    r[0] = 0x30;
    r[9] = 0xA2;
    let (st, ms) = snmp_probe_status(&UdpExchange::Reply { bytes: r.clone(), elapsed_ms: 3 });
    assert_eq!(st, PortStatus::Open);
    assert_eq!(ms, Some(3));
    r[9] = 0;
    let (st, _) = snmp_probe_status(&UdpExchange::Reply { bytes: r, elapsed_ms: 3 });
    assert_eq!(st, PortStatus::Inconclusive);
}

#[test]
fn fd_exhaustion_is_marked() {
    let st = failure_status(Some(24), &"Too many open files".to_string());
    assert_eq!(st, PortStatus::Error("CRITICAL_FD_EXHAUSTION: Too many open files".to_string()));
    let st = failure_status(Some(13), &"Permission denied".to_string());
    assert_eq!(st, PortStatus::Error("Permission denied".to_string()));
    let (st, ms) = udp_probe_status(
        ProbeKind::Ntp,
        &UdpExchange::Failed { os_code: Some(23), message: "x".to_string() },
    );
    assert_eq!(st, PortStatus::Error("CRITICAL_FD_EXHAUSTION: x".to_string()));
    assert_eq!(ms, None);
}

#[test]
fn tcp_probe_verdicts() {
    assert_eq!(tcp_probe_status(&TcpOutcome::Connected, 12), (PortStatus::Open, Some(12)));
    assert_eq!(
        tcp_probe_status(&TcpOutcome::Failed { os_code: Some(111), refused: true, message: "r".to_string() }, 1),
        (PortStatus::Closed, None)
    );
    assert_eq!(
        tcp_probe_status(&TcpOutcome::Failed { os_code: None, refused: false, message: "u".to_string() }, 1),
        (PortStatus::Inconclusive, None)
    );
    assert_eq!(tcp_probe_status(&TcpOutcome::TimedOut, 1), (PortStatus::Inconclusive, None));
}

#[test]
fn udp_attempts_retry_until_exhausted() {
    assert!(matches!(udp_attempt_action(1, 3, UdpAttemptEvent::TimedOut), UdpAttemptAction::RetryAfterPause));
    assert!(matches!(
        udp_attempt_action(3, 3, UdpAttemptEvent::TimedOut),
        UdpAttemptAction::Finish(UdpExchange::NoReply)
    ));
    assert!(matches!(
        udp_attempt_action(1, 3, UdpAttemptEvent::BindFailed { os_code: Some(98), message: "b".to_string() }),
        UdpAttemptAction::Finish(UdpExchange::NoReply)
    ));
    assert!(matches!(
        udp_attempt_action(1, 3, UdpAttemptEvent::SendFailed { os_code: Some(24), message: "s".to_string() }),
        UdpAttemptAction::Finish(UdpExchange::Failed { .. })
    ));
    assert!(matches!(
        udp_attempt_action(2, 3, UdpAttemptEvent::Received { bytes: vec![1], elapsed_ms: 5 }),
        UdpAttemptAction::Finish(UdpExchange::Reply { .. })
    ));
}

fn port(protocol: &str, probe_type: &str) -> Port {
    Port {
        id: 1,
        port: 53,
        protocol: protocol.to_string(),
        name: "DNS".to_string(),
        description: "d".to_string(),
        probe_type: probe_type.to_string(),
        probe_payload: None,
        enabled: true,
        created_at: String::new(),
        updated_at: String::new(),
    }
}

#[test]
fn probe_plans_follow_protocol_and_type() {
    assert!(matches!(plan_probe(&port("tcp", "tcp_connect")), ProbePlan::Tcp));
    assert!(matches!(plan_probe(&port("icmp", "dns")), ProbePlan::UnknownProtocol));
    match plan_probe(&port("udp", "dns")) {
        ProbePlan::Dns { payload, txid } => {
            assert_eq!(payload[0], (txid >> 8) as u8);
            assert_eq!(payload[1], (txid & 0xff) as u8);
        }
        _ => panic!("expected a DNS plan"),
    }
    match plan_probe(&port("udp", "ntp")) {
        ProbePlan::Udp { kind, payload } => {
            assert_eq!(kind, ProbeKind::Ntp);
            assert_eq!(payload, build_ntp_payload());
        }
        _ => panic!("expected a UDP plan"),
    }
}
