use ampscan::scanner::result::{IpAddress, PortStatus, ProbeResult};
use ampscan::tui::app::{App, ScanStats, Tab, TuiEvent, TuiFollowUp};
use ampscan::tui::events::{handle_key, Key, KeyInput, UserAction};
use ampscan::tui::view::results_window;

fn app() -> App {
    App::new("db".to_string(), "key".to_string(), 256, 3, 2, false, "out.pdf".to_string(), None, None)
}

fn press(key: Key) -> KeyInput {
    KeyInput { key, shift: false, pressed: true }
}

fn result(last: u8, port: u16, status: PortStatus) -> ProbeResult {
    ProbeResult {
        ip: IpAddress::v4(u32::from_be_bytes([10, 0, 0, last])),
        port,
        protocol: "udp".to_string(),
        service_name: "DNS".to_string(),
        description: String::new(),
        status,
        response_time_ms: Some(1),
        timestamp: 0,
    }
}

#[test]
fn tab_titles() {
    assert_eq!(Tab::Dashboard.title(), "Dashboard");
    assert_eq!(Tab::Results.title(), "Results Viewer");
    assert_eq!(Tab::CidrScan.title(), "CIDR Scan");
    assert_eq!(Tab::SingleTarget.title(), "Target Scan");
    assert_eq!(Tab::PortDatabase.title(), "Port Database");
    assert_eq!(Tab::Settings.title(), "Settings");
    assert_eq!(Tab::all().len(), Tab::COUNT);
}

#[test]
fn tab_navigation_wraps_and_undoes() {
    let mut a = app();
    assert_eq!(a.active_tab, Tab::Dashboard);
    a.prev_tab();
    assert_eq!(a.active_tab, Tab::Settings);
    a.next_tab();
    assert_eq!(a.active_tab, Tab::Dashboard);
    for _ in 0..6 {
        a.next_tab();
    }
    assert_eq!(a.active_tab, Tab::Dashboard);
    for t in Tab::all() {
        assert_eq!(Tab::at(t.position()), t);
    }
}

#[test]
fn new_app_shows_settings_in_decimal() {
    let a = App::new("p".to_string(), "k".to_string(), 1000, 60, 10, true, "r.pdf".to_string(), None, None);
    assert_eq!(a.concurrency_input, "1000");
    assert_eq!(a.timeout_input, "60");
    assert_eq!(a.retries_input, "10");
    assert!(!a.is_scanning);
    let s = ScanStats::default();
    assert_eq!((s.total_probes, s.completed_probes, s.closed_count), (0, 0, 0));
    assert!(s.start_time.is_none());
}

#[test]
fn probe_results_are_counted() {
    let mut a = app();
    a.add_probe_result(result(1, 53, PortStatus::Open));
    a.add_probe_result(result(1, 53, PortStatus::Open));
    a.add_probe_result(result(2, 123, PortStatus::OpenProtected));
    a.add_probe_result(result(3, 123, PortStatus::Inconclusive));
    a.add_probe_result(result(3, 19, PortStatus::Error("x".to_string())));
    assert_eq!(a.stats.completed_probes, 5);
    assert_eq!(a.stats.vulnerable_count, 2);
    assert_eq!(a.stats.protected_count, 1);
    assert_eq!(a.stats.closed_count, 2);
    assert_eq!(a.port_stats.get(&53), Some(&(2, 0)));
    assert_eq!(a.port_stats.get(&123), Some(&(0, 1)));
    assert_eq!(a.port_stats.get(&19), None);
    assert_eq!(a.filtered_log_indices, vec![0, 1, 2]);
    assert_eq!(a.get_filtered_findings_count(), 3);
    a.clear_scan_data();
    assert!(a.logs.is_empty());
    assert!(a.port_stats.is_empty());
    assert_eq!(a.get_filtered_findings_count(), 0);
    assert!(a.stats.start_time.is_some());
}

#[test]
fn scan_events_update_the_app() {
    let mut a = app();
    a.is_scanning = true;
    assert!(matches!(a.apply_tui_event(TuiEvent::ScanStarted(40)), TuiFollowUp::Nothing));
    assert_eq!(a.stats.total_probes, 40);
    a.apply_tui_event(TuiEvent::ProbeCompleted(result(1, 53, PortStatus::Open)));
    assert_eq!(a.logs.len(), 1);
    assert!(matches!(a.apply_tui_event(TuiEvent::ScanFinished), TuiFollowUp::Nothing));
    assert!(!a.is_scanning);
    assert_eq!(a.status_message.as_deref(), Some("Scan completed!"));
    a.apply_tui_event(TuiEvent::ScanError("boom".to_string()));
    assert_eq!(a.status_message.as_deref(), Some("Scan error: boom"));
}

#[test]
fn finished_scan_with_pdf_asks_for_export() {
    let mut a = App::new("p".to_string(), "k".to_string(), 8, 3, 2, true, "r.pdf".to_string(), None, None);
    a.is_scanning = true;
    assert!(matches!(a.apply_tui_event(TuiEvent::ScanFinished), TuiFollowUp::ExportPdf));
    a.set_pdf_outcome(Ok(()));
    assert_eq!(a.status_message.as_deref(), Some("Scan completed! PDF report generated: r.pdf"));
    a.set_pdf_outcome(Err("disk full".to_string()));
    assert_eq!(a.status_message.as_deref(), Some("Scan completed! PDF report error: disk full"));
}

#[test]
fn report_from_logs_counts_distinct_addresses() {
    let mut a = app();
    a.stats.total_probes = 2;
    a.add_probe_result(result(1, 53, PortStatus::Open));
    a.add_probe_result(result(1, 123, PortStatus::Closed));
    a.add_probe_result(result(2, 53, PortStatus::Inconclusive));
    a.stats.start_time = Some(1234);
    let r = a.report_from_logs();
    assert_eq!(r.total_ips, 2);
    assert_eq!(r.total_probes, 3);
    assert_eq!(r.results.len(), 3);
    assert_eq!(r.started_at, 1234);
    assert!(r.finished_at.is_some());
}

#[test]
fn full_scan_requests() {
    let mut a = app();
    a.concurrency_input = "oops".to_string();
    let req = a.request_full_scan().unwrap();
    assert!(req.target.is_none());
    assert_eq!(req.config.concurrency, 256);
    assert_eq!(req.config.timeout_secs, 3);
    assert_eq!(req.config.retries, 2);
    assert!(a.is_scanning);
    assert!(a.stats.start_time.is_some());
    assert_eq!(a.status_message.as_deref(), Some("Starting full database CIDR scan..."));
    assert!(a.request_full_scan().is_none());
}

#[test]
fn single_scan_requests() {
    let mut a = app();
    assert!(a.request_single_scan(false).is_none());
    assert_eq!(a.status_message.as_deref(), Some("Please enter a target IP or CIDR prefix in Target Scan tab"));
    a.single_ip_input = " zz ".to_string();
    assert!(a.request_single_scan(false).is_none());
    assert_eq!(a.status_message.as_deref(), Some("Invalid IP or CIDR Prefix: 'zz'"));
    a.single_ip_input = " 10.0.0.0/24 ".to_string();
    a.timeout_input = "7".to_string();
    let req = a.request_single_scan(false).unwrap();
    assert_eq!(req.target.as_deref(), Some("10.0.0.0/24"));
    assert_eq!(req.config.timeout_secs, 7);
    assert!(a.is_scanning);
    assert_eq!(a.status_message.as_deref(), Some("Starting target scan for 10.0.0.0/24..."));
}

#[test]
fn target_tab_keys() {
    let mut a = app();
    a.active_tab = Tab::SingleTarget;
    for c in "10.0.0.1/3a".chars() {
        assert!(matches!(handle_key(&mut a, press(Key::Char(c))), UserAction::NoAction));
    }
    assert_eq!(a.single_ip_input, "10.0.0.1/3a");
    handle_key(&mut a, press(Key::Char('z')));
    assert_eq!(a.single_ip_input, "10.0.0.1/3a");
    handle_key(&mut a, press(Key::Backspace));
    assert_eq!(a.single_ip_input, "10.0.0.1/3");
    assert!(matches!(handle_key(&mut a, press(Key::Enter)), UserAction::StartSingleScan));
    assert!(matches!(handle_key(&mut a, press(Key::Char('S'))), UserAction::StartSingleScan));
    // 'f' is a hexadecimal digit here, not the full-scan key.
    assert!(matches!(handle_key(&mut a, press(Key::Char('f'))), UserAction::NoAction));
    assert_eq!(a.single_ip_input, "10.0.0.1/3f");
    handle_key(&mut a, press(Key::Tab));
    assert_eq!(a.active_tab, Tab::PortDatabase);
    a.active_tab = Tab::SingleTarget;
    handle_key(&mut a, press(Key::Char('Q')));
    assert!(a.should_quit);
}

#[test]
fn settings_tab_keys() {
    let mut a = App::new("p".to_string(), "k".to_string(), 100, 6, 1, false, "r".to_string(), None, None);
    a.active_tab = Tab::Settings;
    handle_key(&mut a, press(Key::Char('0')));
    assert_eq!(a.concurrency_input, "1000");
    handle_key(&mut a, press(Key::Char('0')));
    assert_eq!(a.concurrency_input, "10000");
    handle_key(&mut a, press(Key::Char('0')));
    assert_eq!(a.concurrency_input, "10000");
    handle_key(&mut a, press(Key::Char('x')));
    assert_eq!(a.concurrency_input, "10000");
    handle_key(&mut a, press(Key::Down));
    assert_eq!(a.focused_field, 1);
    handle_key(&mut a, press(Key::Char('1')));
    assert_eq!(a.timeout_input, "6");
    handle_key(&mut a, press(Key::Char('0')));
    assert_eq!(a.timeout_input, "60");
    handle_key(&mut a, press(Key::Backspace));
    assert_eq!(a.timeout_input, "6");
    handle_key(&mut a, press(Key::Up));
    handle_key(&mut a, press(Key::Up));
    assert_eq!(a.focused_field, 2);
    handle_key(&mut a, press(Key::Char('0')));
    assert_eq!(a.retries_input, "10");
    handle_key(&mut a, press(Key::Char('q')));
    assert!(!a.should_quit);
    handle_key(&mut a, press(Key::Esc));
    assert!(a.should_quit);
}

#[test]
fn global_keys() {
    let mut a = app();
    assert!(matches!(handle_key(&mut a, press(Key::Char('f'))), UserAction::StartFullScan));
    assert!(matches!(handle_key(&mut a, press(Key::Char('s'))), UserAction::StartSingleScan));
    handle_key(&mut a, KeyInput { key: Key::Tab, shift: true, pressed: true });
    assert_eq!(a.active_tab, Tab::Settings);
    handle_key(&mut a, press(Key::Right));
    assert_eq!(a.active_tab, Tab::Dashboard);
    for k in 0..20u8 {
        a.add_probe_result(result(k, 53, PortStatus::Open));
    }
    handle_key(&mut a, press(Key::PageDown));
    assert_eq!(a.selected_log_index, 15);
    handle_key(&mut a, press(Key::PageDown));
    assert_eq!(a.selected_log_index, 19);
    handle_key(&mut a, press(Key::Down));
    assert_eq!(a.selected_log_index, 19);
    handle_key(&mut a, press(Key::Up));
    assert_eq!(a.selected_log_index, 18);
    handle_key(&mut a, press(Key::PageUp));
    assert_eq!(a.selected_log_index, 3);
    handle_key(&mut a, press(Key::PageUp));
    assert_eq!(a.selected_log_index, 0);
    handle_key(&mut a, KeyInput { key: Key::Char('q'), shift: false, pressed: false });
    assert!(!a.should_quit);
    handle_key(&mut a, press(Key::Char('Q')));
    assert!(!a.should_quit);
    handle_key(&mut a, press(Key::Char('q')));
    assert!(a.should_quit);
}

#[test]
fn results_window_keeps_selection_visible() {
    assert_eq!(results_window(0, 10, 5), (0, 0));
    assert_eq!(results_window(5, 10, 9), (4, 0));
    assert_eq!(results_window(100, 10, 50), (50, 45));
    assert_eq!(results_window(100, 10, 99), (99, 90));
    assert_eq!(results_window(100, 10, 2), (2, 0));
    for sel in 0..120usize {
        let (s, start) = results_window(100, 7, sel);
        assert!(start <= s && s < start + 7 && s < 100);
    }
}

#[test]
fn keys_at_the_edges_of_the_counters() {
    let mut a = app();
    a.active_tab = Tab::Settings;
    a.focused_field = usize::MAX;
    handle_key(&mut a, press(Key::Char('7')));
    assert_eq!(a.concurrency_input, "256");
    handle_key(&mut a, press(Key::Down));
    assert_eq!(a.focused_field, 1);
    let mut b = app();
    b.selected_log_index = usize::MAX;
    handle_key(&mut b, press(Key::PageDown));
    assert_eq!(b.selected_log_index, usize::MAX);
    handle_key(&mut b, press(Key::Down));
    assert_eq!(b.selected_log_index, usize::MAX);
    handle_key(&mut b, press(Key::PageUp));
    assert_eq!(b.selected_log_index, usize::MAX - 15);
}

#[test]
fn space_pauses_and_resumes_a_running_scan() {
    let mut a = app();
    handle_key(&mut a, press(Key::Char(' ')));
    assert!(!a.scan_paused);
    assert!(a.request_full_scan().is_some());
    assert!(!a.scan_paused);
    handle_key(&mut a, press(Key::Char(' ')));
    assert!(a.scan_paused);
    handle_key(&mut a, press(Key::Char(' ')));
    assert!(!a.scan_paused);
    handle_key(&mut a, press(Key::Char(' ')));
    assert!(a.scan_paused);
    a.apply_tui_event(TuiEvent::ScanFinished);
    assert!(!a.is_scanning);
    assert!(!a.scan_paused);
}

#[test]
fn findings_list_follows_the_log() {
    let mut a = app();
    let statuses = [PortStatus::Open, PortStatus::Closed, PortStatus::OpenProtected, PortStatus::Inconclusive, PortStatus::Open];
    for (k, st) in statuses.iter().enumerate() {
        a.add_probe_result(result(k as u8, 53, st.clone()));
    }
    assert_eq!(a.filtered_log_indices, vec![0, 2, 4]);
    assert_eq!(a.stats.completed_probes, 5);
    assert_eq!(a.stats.vulnerable_count + a.stats.protected_count + a.stats.closed_count, 5);
}
