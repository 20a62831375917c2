use ampscan::report::{duration_seconds, ip_detail_lines, prefixes_line};
use ampscan::scanner::result::{finding_counts, IpAddress, PortStatus, ProbeResult, ScanReport};
use ampscan::scanner::targets::manual_prefix;

fn result(ip: IpAddress, port: u16, protocol: &str, service: &str, description: &str, status: PortStatus) -> ProbeResult {
    ProbeResult {
        ip,
        port,
        protocol: protocol.to_string(),
        service_name: service.to_string(),
        description: description.to_string(),
        status,
        response_time_ms: None,
        timestamp: 0,
    }
}

#[test]
fn detail_lines_list_open_ports_of_one_address() {
    let a = IpAddress::v4(0x0A000001);
    let b = IpAddress::v4(0x0A000002);
    let mut report = ScanReport::new("id".to_string(), vec![]);
    let long = "Memcached - massive amplification up to 51000x, extremely dangerous and exposed to the whole internet";
    report.results = vec![
        result(a, 53, "udp", "DNS", "Open resolver", PortStatus::Open),
        result(b, 53, "udp", "DNS", "Open resolver", PortStatus::Open),
        result(a, 123, "udp", "NTP", "x", PortStatus::OpenProtected),
        result(a, 11211, "udp", "MEMCACHED", long, PortStatus::Open),
        result(a, 5678, "tcp", "MT5678", "Meris", PortStatus::Open),
    ];
    let lines = ip_detail_lines(&report, a);
    assert_eq!(lines.len(), 3);
    assert_eq!(lines[0], "  * 53/UDP (DNS) - Open resolver");
    assert_eq!(
        lines[1],
        format!("  * 11211/UDP (MEMCACHED) - {}...", long.chars().take(77).collect::<String>())
    );
    assert_eq!(lines[2], "  * 5678/TCP (MT5678) - Meris");
    assert!(ip_detail_lines(&report, IpAddress::v6(1)).is_empty());
}

#[test]
fn durations_round_toward_zero() {
    assert_eq!(duration_seconds(1_000, 4_999), 3);
    assert_eq!(duration_seconds(0, 0), 0);
    assert_eq!(duration_seconds(5_000, 3_500), -1);
    assert_eq!(duration_seconds(i64::MIN, i64::MAX), (u64::MAX / 1000) as i64);
}

#[test]
fn prefixes_are_joined_with_commas() {
    assert_eq!(prefixes_line(&vec![]), "Scanned prefixes: ");
    assert_eq!(prefixes_line(&vec!["10.0.0.0/24".to_string()]), "Scanned prefixes: 10.0.0.0/24");
    assert_eq!(
        prefixes_line(&vec!["10.0.0.0/24".to_string(), "fd00::/120".to_string()]),
        "Scanned prefixes: 10.0.0.0/24, fd00::/120"
    );
}

#[test]
fn manual_prefixes_guess_the_version() {
    let p = manual_prefix("10.0.0.0/29");
    assert_eq!((p.ip_version, p.description.as_str(), p.prefix.as_str()), (4, "Manual prefix", "10.0.0.0/29"));
    assert_eq!(manual_prefix("2001:db8::/120").ip_version, 6);
}

#[test]
fn findings_are_counted_by_status() {
    let ip = IpAddress::v4(1);
    let results = vec![
        result(ip, 1, "udp", "A", "", PortStatus::Open),
        result(ip, 2, "udp", "B", "", PortStatus::OpenProtected),
        result(ip, 3, "udp", "C", "", PortStatus::Open),
        result(ip, 4, "udp", "D", "", PortStatus::Closed),
    ];
    assert_eq!(finding_counts(&results), (2, 1));
    assert_eq!(finding_counts(&vec![]), (0, 0));
}
