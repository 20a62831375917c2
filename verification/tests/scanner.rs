use ampscan::db::models::{Port, Prefix};
use ampscan::scanner::result::{insert_sorted_unique, IpAddress, PortStatus, ProbeResult, ScanReport};
use ampscan::scanner::run::{RunIntake, ScanRun};
use ampscan::scanner::targets::{
    command_scan_prefixes, parse_network, plan_scan, resolve_target, target_is_valid, wants_pdf_report, ScanError,
    ScanSetupError,
};
use ampscan::scanner::{
    begin_scan, conclude_scan, infer_closed_ports, take_probe_result, ProbeCursor, ProbeIntake, ScanConfig,
};

fn prefix(text: &str) -> Prefix {
    Prefix {
        id: 1,
        prefix: text.to_string(),
        description: String::new(),
        ip_version: 4,
        enabled: true,
        created_at: String::new(),
        updated_at: String::new(),
    }
}

fn port(n: u16, name: &str) -> Port {
    Port {
        id: n as i64,
        port: n,
        protocol: "udp".to_string(),
        name: name.to_string(),
        description: String::new(),
        probe_type: "udp_payload".to_string(),
        probe_payload: None,
        enabled: true,
        created_at: String::new(),
        updated_at: String::new(),
    }
}

fn v4(a: u8, b: u8, c: u8, d: u8) -> IpAddress {
    IpAddress::v4(u32::from_be_bytes([a, b, c, d]))
}

fn result(ip: IpAddress, port: u16, service: &str, status: PortStatus) -> ProbeResult {
    ProbeResult {
        ip,
        port,
        protocol: "udp".to_string(),
        service_name: service.to_string(),
        description: String::new(),
        status,
        response_time_ms: None,
        timestamp: 0,
    }
}

#[test]
fn test_ipv4_prefix_expansion_includes_network_and_broadcast() {
    let plan = plan_scan(1, &vec![prefix("192.168.1.0/24")]).ok().unwrap();
    assert_eq!(plan.ips.len(), 256);
    assert_eq!(plan.ips[0], v4(192, 168, 1, 0));
    assert_eq!(plan.ips[255], v4(192, 168, 1, 255));
    assert_eq!(plan.total_ips, 256);
}

#[test]
fn test_ipv6_prefix_expansion_includes_all() {
    let plan = plan_scan(2, &vec![prefix("fd00::/126")]).ok().unwrap();
    let base: u128 = 0xfd00 << 112;
    assert_eq!(plan.ips.len(), 4);
    assert_eq!(plan.ips[0], IpAddress::v6(base));
    assert_eq!(plan.ips[3], IpAddress::v6(base + 3));
    assert_eq!(plan.total_probes, 8);
}

#[test]
fn overlapping_prefixes_are_merged_in_order() {
    let plan = plan_scan(3, &vec![prefix("10.0.0.4/30"), prefix("10.0.0.0/29"), prefix("::1/128")]).ok().unwrap();
    assert_eq!(plan.ips.len(), 9);
    for k in 0..8u8 {
        assert_eq!(plan.ips[k as usize], v4(10, 0, 0, k));
    }
    assert_eq!(plan.ips[8], IpAddress::v6(1));
    assert_eq!(plan.total_probes, 27);
    assert_eq!(plan.prefixes_scanned, vec!["10.0.0.4/30", "10.0.0.0/29", "::1/128"]);
}

#[test]
fn host_bits_of_the_prefix_address_are_ignored() {
    let plan = plan_scan(1, &vec![prefix("10.1.2.3/30")]).ok().unwrap();
    assert_eq!(plan.ips, vec![v4(10, 1, 2, 0), v4(10, 1, 2, 1), v4(10, 1, 2, 2), v4(10, 1, 2, 3)]);
}

#[test]
fn prefixes_too_large_or_invalid_are_refused() {
    let e = plan_scan(1, &vec![prefix("10.0.0.0/24"), prefix("10.0.0.0/15")]).err().unwrap();
    assert_eq!(e, ScanError::PrefixTooLarge { prefix: "10.0.0.0/15".to_string(), is_v6: false, prefix_len: 15 });
    let e = plan_scan(1, &vec![prefix("2001:db8::/64")]).err().unwrap();
    assert_eq!(e, ScanError::PrefixTooLarge { prefix: "2001:db8::/64".to_string(), is_v6: true, prefix_len: 64 });
    let e = plan_scan(1, &vec![prefix("not a prefix"), prefix("10.0.0.0/8")]).err().unwrap();
    assert_eq!(e, ScanError::InvalidPrefix("not a prefix".to_string()));
    let e = plan_scan(1, &vec![prefix("10.0.0.1")]).err().unwrap();
    assert_eq!(e, ScanError::InvalidPrefix("10.0.0.1".to_string()));
    assert_eq!(e.message(), "Invalid prefix: 10.0.0.1");
    assert_eq!(
        ScanError::PrefixTooLarge { prefix: "10.0.0.0/8".to_string(), is_v6: false, prefix_len: 8 }.message(),
        "IPv4 prefix 10.0.0.0/8 is too large to scan (prefix /8). The maximum allowed is /16 (65536 hosts)."
    );
}

#[test]
fn largest_allowed_prefixes_hold_65536_addresses() {
    assert_eq!(plan_scan(1, &vec![prefix("10.0.0.0/16")]).ok().unwrap().total_ips, 65536);
    assert_eq!(plan_scan(1, &vec![prefix("fd00::/112")]).ok().unwrap().total_ips, 65536);
}

#[test]
fn cidr_parsing() {
    assert_eq!(parse_network("192.168.1.0/24"), Some((false, 0xC0A80100, 24)));
    assert_eq!(parse_network("::/0"), Some((true, 0, 0)));
    assert_eq!(parse_network("10.0.0.0/33"), None);
    assert_eq!(parse_network("10.0.0.1"), None);
}

#[test]
fn single_targets_resolve() {
    let plan = resolve_target(" 10.0.0.1 ", Some(v4(10, 0, 0, 1))).ok().unwrap();
    assert_eq!(plan.prefix.prefix, "10.0.0.1/32");
    let one = plan_scan(1, &vec![plan.prefix.clone()]).ok().unwrap();
    assert_eq!(one.ips, vec![v4(10, 0, 0, 1)]);
    let six = resolve_target("fd00::5", Some(IpAddress::v6((0xfd00u128 << 112) + 5))).ok().unwrap();
    assert_eq!(six.prefix.prefix, "fd00::5/128");
    assert_eq!(six.prefix.ip_version, 6);
    assert_eq!(plan.prefix.description, "Target Scan");
    assert_eq!(plan.prefix.ip_version, 4);
    assert_eq!(plan.host_count, 1);
    let plan = resolve_target("10.0.0.0/24", None).ok().unwrap();
    assert_eq!(plan.host_count, 254);
    let plan = resolve_target("10.0.0.0/31", None).ok().unwrap();
    assert_eq!(plan.host_count, 2);
    let plan = resolve_target("fd00::/126", None).ok().unwrap();
    assert_eq!(plan.host_count, 4);
    assert_eq!(plan.prefix.ip_version, 6);
    assert_eq!(
        resolve_target("10.0.0.0/8", None).err().unwrap(),
        ScanError::PrefixTooLarge { prefix: "10.0.0.0/8".to_string(), is_v6: false, prefix_len: 8 }
    );
    assert_eq!(resolve_target(" junk ", None).err().unwrap(), ScanError::InvalidTarget("junk".to_string()));
}

#[test]
fn target_validity() {
    assert!(target_is_valid("10.0.0.1", true));
    assert!(target_is_valid("10.0.0.0/24", false));
    assert!(!target_is_valid("", true));
    assert!(!target_is_valid("nonsense", false));
}

#[test]
fn scan_config_defaults() {
    let c = ScanConfig::default();
    assert_eq!((c.concurrency, c.timeout_secs, c.retries), (256, 3, 2));
}

#[test]
fn begin_scan_opens_a_report() {
    let ports = vec![port(53, "DNS"), port(123, "NTP")];
    let (report, ips) = begin_scan(&ports, &vec![prefix("10.0.0.0/30")]).ok().unwrap();
    assert_eq!(ips.len(), 4);
    assert_eq!(report.total_ips, 4);
    assert_eq!(report.total_probes, 8);
    assert_eq!(report.scan_id.len(), 36);
    assert_eq!(report.prefixes_scanned, vec!["10.0.0.0/30"]);
    assert!(report.results.is_empty());
    assert!(report.finished_at.is_none());
    let (empty, none) = begin_scan(&ports, &vec![]).ok().unwrap();
    assert!(none.is_empty());
    assert!(empty.finished_at.is_some());
    assert!(begin_scan(&ports, &vec![prefix("bad")]).is_err());
}

#[test]
fn fd_exhaustion_aborts_the_scan() {
    let mut report = ScanReport::new("id".to_string(), vec![]);
    let ok = result(v4(1, 1, 1, 1), 53, "DNS", PortStatus::Open);
    assert!(matches!(take_probe_result(&mut report, ok), ProbeIntake::Recorded));
    assert_eq!(report.results.len(), 1);
    let bad = result(v4(1, 1, 1, 1), 123, "NTP", PortStatus::Error("CRITICAL_FD_EXHAUSTION: Too many open files".to_string()));
    match take_probe_result(&mut report, bad) {
        ProbeIntake::Abort(m) => assert_eq!(m, "CRITICAL_FD_EXHAUSTION: Too many open files"),
        ProbeIntake::Recorded => panic!("exhaustion must abort"),
    }
    assert_eq!(report.results.len(), 1);
    let other = result(v4(1, 1, 1, 1), 123, "NTP", PortStatus::Error("timed out".to_string()));
    assert!(matches!(take_probe_result(&mut report, other), ProbeIntake::Recorded));
    assert_eq!(report.results.len(), 2);
    let e = conclude_scan(report, Some("CRITICAL_FD_EXHAUSTION: x".to_string())).err().unwrap();
    assert_eq!(e, ScanError::ResourceExhausted("CRITICAL_FD_EXHAUSTION: x".to_string()));
}

#[test]
fn closed_ports_are_inferred_on_alive_hosts() {
    let alive = v4(10, 0, 0, 1);
    let silent = v4(10, 0, 0, 2);
    let mut results = vec![
        result(alive, 53, "DNS", PortStatus::Inconclusive),
        result(alive, 123, "NTP", PortStatus::OpenProtected),
        result(silent, 53, "DNS", PortStatus::Inconclusive),
        result(alive, 161, "SNMP", PortStatus::Error("e".to_string())),
    ];
    infer_closed_ports(&mut results);
    assert_eq!(results[0].status, PortStatus::Closed);
    assert_eq!(results[1].status, PortStatus::OpenProtected);
    assert_eq!(results[2].status, PortStatus::Inconclusive);
    assert_eq!(results[3].status, PortStatus::Error("e".to_string()));
    let snapshot: Vec<PortStatus> = results.iter().map(|r| r.status.clone()).collect();
    infer_closed_ports(&mut results);
    let again: Vec<PortStatus> = results.iter().map(|r| r.status.clone()).collect();
    assert_eq!(snapshot, again);
}

#[test]
fn conclude_scan_finishes_the_report() {
    let mut report = ScanReport::new("id".to_string(), vec!["10.0.0.0/30".to_string()]);
    report.results.push(result(v4(10, 0, 0, 1), 53, "DNS", PortStatus::Open));
    report.results.push(result(v4(10, 0, 0, 1), 19, "CHARGEN", PortStatus::Inconclusive));
    let done = conclude_scan(report, None).ok().unwrap();
    assert!(done.finished_at.is_some());
    assert_eq!(done.results[1].status, PortStatus::Closed);
    assert_eq!(done.scan_id, "id");
}

#[test]
fn report_views() {
    let a = v4(10, 0, 0, 9);
    let b = v4(10, 0, 0, 3);
    let mut report = ScanReport::new("id".to_string(), vec![]);
    report.results = vec![
        result(a, 53, "DNS", PortStatus::Open),
        result(b, 123, "NTP", PortStatus::OpenProtected),
        result(b, 53, "DNS", PortStatus::Open),
        result(a, 19, "CHARGEN", PortStatus::Closed),
        result(b, 11211, "MEMCACHED", PortStatus::Open),
        result(a, 11211, "MEMCACHED", PortStatus::Open),
        result(a, 161, "SNMP", PortStatus::Open),
    ];
    assert_eq!(report.vulnerable_results().len(), 5);
    assert_eq!(report.detected_results().len(), 6);
    assert_eq!(report.vulnerable_ips(), vec![b, a]);
    assert_eq!(report.detected_ips(), vec![b, a]);
    let by_service = report.vulnerable_by_service();
    assert_eq!(
        by_service,
        vec![("DNS".to_string(), 2), ("MEMCACHED".to_string(), 2), ("SNMP".to_string(), 1)]
    );
    assert_eq!(PortStatus::Error("boom".to_string()).label(), "ERROR: boom");
    assert_eq!(PortStatus::Open.label(), "OPEN (VULNERABLE)");
    report.finalize();
    assert!(report.finished_at.unwrap() >= report.started_at);
}

#[test]
fn sorted_insertion_keeps_one_of_each() {
    let mut v = vec![];
    for ip in [v4(1, 0, 0, 5), IpAddress::v6(0), v4(1, 0, 0, 1), v4(1, 0, 0, 5)] {
        insert_sorted_unique(&mut v, ip);
    }
    assert_eq!(v, vec![v4(1, 0, 0, 1), v4(1, 0, 0, 5), IpAddress::v6(0)]);
}

#[test]
fn probe_cursor_walks_every_address_port_pair_once() {
    let mut c = ProbeCursor::new(2, 3).unwrap();
    let mut seen = Vec::new();
    while let Some(pair) = c.next_probe() {
        seen.push(pair);
    }
    assert_eq!(seen, vec![(0, 0), (0, 1), (0, 2), (1, 0), (1, 1), (1, 2)]);
    assert_eq!(c.next_probe(), None);
    let mut empty = ProbeCursor::new(5, 0).unwrap();
    assert_eq!(empty.next_probe(), None);
    let mut none = ProbeCursor::new(0, 4).unwrap();
    assert_eq!(none.next_probe(), None);
    assert!(ProbeCursor::new(usize::MAX, 2).is_none());
    assert!(ProbeCursor::new(usize::MAX, 1).is_some());
}

#[test]
fn too_many_probes_is_reported() {
    assert_eq!(ScanError::TooManyProbes.message(), "Scan too large: too many addresses and ports.");
}

#[test]
fn scan_run_records_one_result_per_address_and_port() {
    let mut run = ScanRun::start(vec![port(53, "DNS"), port(123, "NTP")], &vec![prefix("10.0.0.0/31")]).unwrap();
    assert_eq!(run.report().total_ips, 2);
    assert_eq!(run.report().total_probes, 4);
    let mut tickets = Vec::new();
    while let Some(t) = run.next_probe() {
        tickets.push((t.step, t.ip, t.port_index));
    }
    assert_eq!(
        tickets,
        vec![(0, v4(10, 0, 0, 0), 0), (1, v4(10, 0, 0, 0), 1), (2, v4(10, 0, 0, 1), 0), (3, v4(10, 0, 0, 1), 1)]
    );
    assert_eq!(run.port_at(1).port, 123);
    assert!(!run.is_complete());
    // results come back in any order; the run names address and port itself
    match run.record(2, PortStatus::Open, Some(7)) {
        RunIntake::Recorded(r) => {
            assert_eq!(r.ip, v4(10, 0, 0, 1));
            assert_eq!(r.port, 53);
            assert_eq!(r.service_name, "DNS");
            assert_eq!(r.status, PortStatus::Open);
            assert_eq!(r.response_time_ms, Some(7));
        }
        _ => panic!("expected the result to be recorded"),
    }
    assert!(matches!(run.record(2, PortStatus::Closed, None), RunIntake::Ignored));
    assert!(matches!(run.record(9, PortStatus::Closed, None), RunIntake::Ignored));
    assert!(matches!(run.record(0, PortStatus::Inconclusive, None), RunIntake::Recorded(_)));
    assert!(matches!(run.record(3, PortStatus::Inconclusive, None), RunIntake::Recorded(_)));
    assert!(!run.is_complete());
    assert!(matches!(run.record(1, PortStatus::Closed, None), RunIntake::Recorded(_)));
    assert!(run.is_complete());
    assert_eq!(run.report().results.len(), 4);
    let report = run.finish(None).unwrap();
    assert!(report.finished_at.is_some());
    let mut pairs: Vec<(IpAddress, u16)> = report.results.iter().map(|r| (r.ip, r.port)).collect();
    pairs.sort_by_key(|(ip, p)| (ip.bits, *p));
    assert_eq!(
        pairs,
        vec![(v4(10, 0, 0, 0), 53), (v4(10, 0, 0, 0), 123), (v4(10, 0, 0, 1), 53), (v4(10, 0, 0, 1), 123)]
    );
    // the inconclusive port on the host that answered is inferred closed
    let inferred = report.results.iter().find(|r| r.ip == v4(10, 0, 0, 1) && r.port == 123).unwrap();
    assert_eq!(inferred.status, PortStatus::Closed);
}

#[test]
fn scan_run_stops_on_exhaustion_and_refuses_bad_prefixes() {
    let mut run = ScanRun::start(vec![port(53, "DNS")], &vec![prefix("10.0.0.7/32")]).unwrap();
    let t = run.next_probe().unwrap();
    assert!(run.next_probe().is_none());
    match run.record(t.step, PortStatus::Error("CRITICAL_FD_EXHAUSTION: out".to_string()), None) {
        RunIntake::Abort(m) => assert_eq!(m, "CRITICAL_FD_EXHAUSTION: out"),
        _ => panic!("expected an abort"),
    }
    assert!(run.report().results.is_empty());
    let e = run.finish(Some("CRITICAL_FD_EXHAUSTION: out".to_string())).err().unwrap();
    assert_eq!(e, ScanError::ResourceExhausted("CRITICAL_FD_EXHAUSTION: out".to_string()));
    let e = ScanRun::start(vec![port(53, "DNS")], &vec![prefix("10.0.0.0/8")]).err().unwrap();
    assert_eq!(e, ScanError::PrefixTooLarge { prefix: "10.0.0.0/8".to_string(), is_v6: false, prefix_len: 8 });
    let mut empty = ScanRun::start(Vec::new(), &vec![prefix("10.0.0.0/30")]).unwrap();
    assert!(empty.next_probe().is_none());
    assert!(empty.is_complete());
    assert!(empty.finish(None).unwrap().results.is_empty());
}

#[test]
fn command_line_scan_setup() {
    assert_eq!(
        command_scan_prefixes(0, Some("10.0.0.0/24"), Vec::new()).err(),
        Some(ScanSetupError::NoEnabledPorts)
    );
    let typed = command_scan_prefixes(3, Some("2001:db8::/120"), vec![prefix("10.0.0.0/24")]).unwrap();
    assert_eq!(typed.len(), 1);
    assert_eq!(typed[0].prefix, "2001:db8::/120");
    assert_eq!(typed[0].ip_version, 6);
    assert_eq!(typed[0].description, "Manual prefix");
    assert_eq!(command_scan_prefixes(3, None, Vec::new()).err(), Some(ScanSetupError::NoEnabledPrefixes));
    let stored = command_scan_prefixes(3, None, vec![prefix("10.0.0.0/24")]).unwrap();
    assert_eq!(stored.len(), 1);
    assert_eq!(stored[0].prefix, "10.0.0.0/24");
    assert_eq!(
        ScanSetupError::NoEnabledPrefixes.message(),
        "No enabled prefixes in the database. Register a prefix or use --prefix."
    );
    assert_eq!(ScanSetupError::NoEnabledPorts.message(), "No enabled ports. Use 'ampscan port list' to view ports.");
    assert!(wants_pdf_report(true, false));
    assert!(!wants_pdf_report(true, true));
    assert!(!wants_pdf_report(false, false));
}
