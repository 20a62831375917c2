//! State of the terminal user interface.

use crate::db::models::{Port, Prefix};
use crate::scanner::new_scan_id;
use crate::scanner::result::{
    insert_sorted_unique, now_millis, strictly_sorted, IpAddress, PortStatus, ProbeResult,
    ScanReport,
};
use crate::scanner::targets::{parsed_ipnet, target_is_valid};
use crate::text::{decimal_digits, decimal_string, decimal_value, is_trim_of, parse_decimal, push_char, trim};
use std::collections::HashMap;
use vstd::prelude::*;

verus! {

broadcast use vstd::std_specs::hash::group_hash_axioms;

/// The screens of the interface, in the order the tab bar shows them.
#[derive(Debug, Clone, Copy, PartialEq, Eq, Structural)]
pub enum Tab {
    Dashboard,
    Results,
    CidrScan,
    SingleTarget,
    PortDatabase,
    Settings,
}

/// Position of a tab in the tab bar (0 to 5).
pub open spec fn tab_position(t: Tab) -> int {
    match t {
        Tab::Dashboard => 0,
        Tab::Results => 1,
        Tab::CidrScan => 2,
        Tab::SingleTarget => 3,
        Tab::PortDatabase => 4,
        Tab::Settings => 5,
    }
}

/// The tab at a position of the tab bar (positions outside 0 to 5 give the last tab).
pub open spec fn tab_at(i: int) -> Tab {
    if i == 0 {
        Tab::Dashboard
    } else if i == 1 {
        Tab::Results
    } else if i == 2 {
        Tab::CidrScan
    } else if i == 3 {
        Tab::SingleTarget
    } else if i == 4 {
        Tab::PortDatabase
    } else {
        Tab::Settings
    }
}

/// The tab to the right, wrapping around from the last to the first.
pub open spec fn next_of(t: Tab) -> Tab {
    tab_at((tab_position(t) + 1) % 6)
}

/// The tab to the left, wrapping around from the first to the last.
pub open spec fn prev_of(t: Tab) -> Tab {
    if tab_position(t) == 0 {
        tab_at(5)
    } else {
        tab_at(tab_position(t) - 1)
    }
}

/// The title shown for a tab.
pub open spec fn tab_title(t: Tab) -> Seq<char> {
    match t {
        Tab::Dashboard => "Dashboard"@,
        Tab::Results => "Results Viewer"@,
        Tab::CidrScan => "CIDR Scan"@,
        Tab::SingleTarget => "Target Scan"@,
        Tab::PortDatabase => "Port Database"@,
        Tab::Settings => "Settings"@,
    }
}

impl Tab {
    /// Number of tabs.
    pub const COUNT: usize = 6;

    /// Every tab, in tab-bar order.
    pub fn all() -> (tabs: Vec<Tab>)
        ensures
            tabs@.len() == 6,
            forall|i: int| 0 <= i < 6 ==> #[trigger] tabs@[i] == tab_at(i),
    {
        vec![Tab::Dashboard, Tab::Results, Tab::CidrScan, Tab::SingleTarget, Tab::PortDatabase, Tab::Settings]
    }

    /// Position of this tab in the tab bar.
    pub fn position(&self) -> (i: usize)
        ensures
            i == tab_position(*self),
            i < 6,
    {
        match self {
            Tab::Dashboard => 0,
            Tab::Results => 1,
            Tab::CidrScan => 2,
            Tab::SingleTarget => 3,
            Tab::PortDatabase => 4,
            Tab::Settings => 5,
        }
    }

    /// The tab at a position of the tab bar.
    pub fn at(i: usize) -> (t: Tab)
        ensures
            t == tab_at(i as int),
    {
        if i == 0 {
            Tab::Dashboard
        } else if i == 1 {
            Tab::Results
        } else if i == 2 {
            Tab::CidrScan
        } else if i == 3 {
            Tab::SingleTarget
        } else if i == 4 {
            Tab::PortDatabase
        } else {
            Tab::Settings
        }
    }

    /// The title shown in the tab bar.
    pub fn title(&self) -> (t: &'static str)
        ensures
            t@ == tab_title(*self),
    {
        match self {
            Tab::Dashboard => "Dashboard",
            Tab::Results => "Results Viewer",
            Tab::CidrScan => "CIDR Scan",
            Tab::SingleTarget => "Target Scan",
            Tab::PortDatabase => "Port Database",
            Tab::Settings => "Settings",
        }
    }
}

/// Every tab sits at its own position, and the tab at that position is itself.
pub proof fn lemma_tab_positions(t: Tab)
    ensures
        0 <= tab_position(t) < 6,
        tab_at(tab_position(t)) == t,
        forall|k: int| 0 <= k < 6 ==> tab_position(#[trigger] tab_at(k)) == k,
{
}

/// Moving right then left, or left then right, comes back to the same tab;
/// moving always leaves the current tab.
pub proof fn lemma_tab_moves_undo(t: Tab)
    ensures
        prev_of(next_of(t)) == t,
        next_of(prev_of(t)) == t,
        next_of(t) != t,
        prev_of(t) != t,
{
}

/// Six moves to the right come back to the start.
pub proof fn lemma_tab_cycle(t: Tab)
    ensures
        next_of(next_of(next_of(next_of(next_of(next_of(t)))))) == t,
{
}

/// Progress counters of the current scan.
pub struct ScanStats {
    pub total_probes: usize,
    pub completed_probes: usize,
    pub vulnerable_count: usize,
    pub protected_count: usize,
    /// Every completed probe that was neither vulnerable nor protected.
    pub closed_count: usize,
    /// When the scan started, in milliseconds since the Unix epoch.
    pub start_time: Option<i64>,
}

/// Counters all zero, no start time.
pub open spec fn fresh_stats(s: ScanStats) -> bool {
    &&& s.total_probes == 0
    &&& s.completed_probes == 0
    &&& s.vulnerable_count == 0
    &&& s.protected_count == 0
    &&& s.closed_count == 0
    &&& s.start_time is None
}

impl Default for ScanStats {
    fn default() -> (s: Self)
        ensures
            fresh_stats(s),
    {
        ScanStats {
            total_probes: 0,
            completed_probes: 0,
            vulnerable_count: 0,
            protected_count: 0,
            closed_count: 0,
            start_time: None,
        }
    }
}

/// A background event of a running scan.
pub enum TuiEvent {
    ScanStarted(usize),
    ProbeCompleted(ProbeResult),
    ScanFinished,
    ScanError(String),
}

/// The whole state of the interface.
pub struct App {
    pub active_tab: Tab,
    pub should_quit: bool,
    pub is_scanning: bool,
    /// The running scan is held: no further probe is sent until it is
    /// resumed.
    pub scan_paused: bool,
    pub stats: ScanStats,
    /// Every probe result received, in arrival order.
    pub logs: Vec<ProbeResult>,
    /// Positions in `logs` of the findings (open or protected).
    pub filtered_log_indices: Vec<usize>,
    /// Per port: (vulnerable results, protected results).
    pub port_stats: HashMap<u16, (usize, usize)>,
    pub selected_log_index: usize,
    pub prefixes: Vec<Prefix>,
    pub ports: Vec<Port>,
    pub selected_prefix_index: usize,
    pub selected_port_index: usize,
    pub db_path: String,
    pub db_key: String,
    pub single_ip_input: String,
    pub custom_prefix_input: String,
    pub concurrency_input: String,
    pub timeout_input: String,
    pub retries_input: String,
    /// Which settings field takes input: 0 concurrency, 1 timeout, 2 retries.
    pub focused_field: usize,
    pub pdf_export: bool,
    pub pdf_output: String,
    pub pdf_client_name: Option<String>,
    pub pdf_recipient: Option<String>,
    /// Message shown in the notification bar.
    pub status_message: Option<String>,
}

/// The (vulnerable, protected) tally of a port, zero when none is recorded.
pub open spec fn port_tally(m: Map<u16, (usize, usize)>, port: u16) -> (usize, usize) {
    if m.contains_key(port) {
        m[port]
    } else {
        (0, 0)
    }
}

/// No counter that a result would advance is at its largest value.
pub open spec fn can_record(app: App, result: ProbeResult) -> bool {
    &&& app.stats.completed_probes < usize::MAX
    &&& app.stats.vulnerable_count < usize::MAX
    &&& app.stats.protected_count < usize::MAX
    &&& app.stats.closed_count < usize::MAX
    &&& port_tally(app.port_stats@, result.port).0 < usize::MAX
    &&& port_tally(app.port_stats@, result.port).1 < usize::MAX
}

/// `after` is `before` with one more probe result recorded: counted as
/// vulnerable, protected or closed (every other status), tallied per port
/// when it is a finding, appended to the log, and listed in the results
/// viewer when it is a finding; nothing else changes.
pub open spec fn probe_recorded(before: App, after: App, result: ProbeResult) -> bool {
    let finding = result.status is Open || result.status is OpenProtected;
    let tally = port_tally(before.port_stats@, result.port);
    &&& after == (App {
        stats: after.stats,
        logs: after.logs,
        filtered_log_indices: after.filtered_log_indices,
        port_stats: after.port_stats,
        ..before
    })
    &&& after.logs@ == before.logs@.push(result)
    &&& after.stats.completed_probes == before.stats.completed_probes + 1
    &&& after.stats.total_probes == before.stats.total_probes
    &&& after.stats.start_time == before.stats.start_time
    &&& after.stats.vulnerable_count == before.stats.vulnerable_count + (if result.status is Open { 1int } else { 0 })
    &&& after.stats.protected_count == before.stats.protected_count + (if result.status is OpenProtected {
        1int
    } else {
        0
    })
    &&& after.stats.closed_count == before.stats.closed_count + (if finding { 0int } else { 1 })
    &&& result.status is Open ==> after.port_stats@ == before.port_stats@.insert(
        result.port,
        ((tally.0 + 1) as usize, tally.1),
    )
    &&& result.status is OpenProtected ==> after.port_stats@ == before.port_stats@.insert(
        result.port,
        (tally.0, (tally.1 + 1) as usize),
    )
    &&& !finding ==> after.port_stats@ == before.port_stats@
    &&& finding ==> after.filtered_log_indices@ == before.filtered_log_indices@.push(before.logs@.len() as usize)
    &&& !finding ==> after.filtered_log_indices@ == before.filtered_log_indices@
}

/// A result the results viewer lists: open or protected.
pub open spec fn is_finding(r: ProbeResult) -> bool {
    r.status is Open || r.status is OpenProtected
}

/// The positions, in increasing order, of the findings in a log.
pub open spec fn finding_positions(logs: Seq<ProbeResult>) -> Seq<usize>
    decreases logs.len(),
{
    if logs.len() == 0 {
        Seq::empty()
    } else if is_finding(logs.last()) {
        finding_positions(logs.drop_last()).push((logs.len() - 1) as usize)
    } else {
        finding_positions(logs.drop_last())
    }
}

/// The results viewer lists exactly the findings of the log, in log order,
/// and every recorded probe is counted once as vulnerable, protected or
/// closed.
pub open spec fn log_consistent(app: App) -> bool {
    &&& app.filtered_log_indices@ == finding_positions(app.logs@)
    &&& app.stats.vulnerable_count + app.stats.protected_count + app.stats.closed_count
        == app.stats.completed_probes
}

/// Recording a probe result keeps the results viewer and the counters
/// consistent with the log: the viewer still lists exactly the findings, in
/// order, and the three counters still add up to the probes completed.
pub proof fn lemma_recording_keeps_log_consistent(before: App, after: App, result: ProbeResult)
    requires
        log_consistent(before),
        probe_recorded(before, after, result),
    ensures
        log_consistent(after),
{
    let s = after.logs@;
    assert(s.drop_last() =~= before.logs@);
    assert(s.last() == result);
}

impl App {
    /// The start state: dashboard shown, nothing scanned, settings fields
    /// holding the given values in decimal.
    pub fn new(
        db_path: String,
        db_key: String,
        concurrency: usize,
        timeout: u64,
        retries: usize,
        pdf_export: bool,
        pdf_output: String,
        pdf_client_name: Option<String>,
        pdf_recipient: Option<String>,
    ) -> (app: Self)
        ensures
            app.active_tab == Tab::Dashboard,
            !app.should_quit,
            !app.is_scanning,
            !app.scan_paused,
            fresh_stats(app.stats),
            log_consistent(app),
            app.logs@.len() == 0,
            app.filtered_log_indices@.len() == 0,
            app.port_stats@ == Map::<u16, (usize, usize)>::empty(),
            app.selected_log_index == 0,
            app.prefixes@.len() == 0,
            app.ports@.len() == 0,
            app.selected_prefix_index == 0,
            app.selected_port_index == 0,
            app.db_path == db_path,
            app.db_key == db_key,
            app.single_ip_input@.len() == 0,
            app.custom_prefix_input@.len() == 0,
            app.concurrency_input@ == decimal_digits(concurrency as nat),
            app.timeout_input@ == decimal_digits(timeout as nat),
            app.retries_input@ == decimal_digits(retries as nat),
            app.focused_field == 0,
            app.pdf_export == pdf_export,
            app.pdf_output == pdf_output,
            app.pdf_client_name == pdf_client_name,
            app.pdf_recipient == pdf_recipient,
            app.status_message is None,
    {
        App {
            active_tab: Tab::Dashboard,
            should_quit: false,
            is_scanning: false,
            scan_paused: false,
            stats: ScanStats::default(),
            logs: Vec::new(),
            filtered_log_indices: Vec::new(),
            port_stats: HashMap::new(),
            selected_log_index: 0,
            prefixes: Vec::new(),
            ports: Vec::new(),
            selected_prefix_index: 0,
            selected_port_index: 0,
            db_path,
            db_key,
            single_ip_input: String::new(),
            custom_prefix_input: String::new(),
            concurrency_input: decimal_string(concurrency as u64),
            timeout_input: decimal_string(timeout),
            retries_input: decimal_string(retries as u64),
            focused_field: 0,
            pdf_export,
            pdf_output,
            pdf_client_name,
            pdf_recipient,
            status_message: None,
        }
    }

    /// Shows the tab to the right (wrapping around); nothing else changes.
    pub fn next_tab(&mut self)
        ensures
            *final(self) == (App { active_tab: next_of(old(self).active_tab), ..*old(self) }),
    {
        let next = Tab::at((self.active_tab.position() + 1) % 6);
        self.active_tab = next;
    }

    /// Shows the tab to the left (wrapping around); nothing else changes.
    pub fn prev_tab(&mut self)
        ensures
            *final(self) == (App { active_tab: prev_of(old(self).active_tab), ..*old(self) }),
    {
        let i = self.active_tab.position();
        let prev = if i == 0 { Tab::at(5) } else { Tab::at(i - 1) };
        self.active_tab = prev;
    }

    /// Forgets the results of the previous scan and starts the clock anew.
    pub fn clear_scan_data(&mut self)
        ensures
            final(self).logs@.len() == 0,
            final(self).filtered_log_indices@.len() == 0,
            final(self).port_stats@ == Map::<u16, (usize, usize)>::empty(),
            final(self).selected_log_index == 0,
            final(self).stats.total_probes == 0,
            final(self).stats.completed_probes == 0,
            final(self).stats.vulnerable_count == 0,
            final(self).stats.protected_count == 0,
            final(self).stats.closed_count == 0,
            final(self).stats.start_time is Some,
            log_consistent(*final(self)),
            *final(self) == (App {
                stats: final(self).stats,
                logs: final(self).logs,
                filtered_log_indices: final(self).filtered_log_indices,
                port_stats: final(self).port_stats,
                selected_log_index: 0,
                ..*old(self)
            }),
    {
        self.logs.clear();
        self.filtered_log_indices.clear();
        self.port_stats.clear();
        self.selected_log_index = 0;
        self.stats = ScanStats::default();
        self.stats.start_time = Some(now_millis());
    }

    /// Number of findings listed in the results viewer.
    pub fn get_filtered_findings_count(&self) -> (n: usize)
        ensures
            n == self.filtered_log_indices@.len(),
    {
        self.filtered_log_indices.len()
    }

    /// Records one probe result: counts it as vulnerable, protected or
    /// closed (every other status), tallies findings per port, appends it to
    /// the log, and lists findings in the results viewer.
    pub fn add_probe_result(&mut self, result: ProbeResult)
        requires
            can_record(*old(self), result),
        ensures
            probe_recorded(*old(self), *final(self), result),
    {
        let is_finding = match result.status {
            PortStatus::Open => true,
            PortStatus::OpenProtected => true,
            _ => false,
        };
        let tally: (usize, usize) = match self.port_stats.get(&result.port) {
            Some(t) => *t,
            None => (0, 0),
        };
        match result.status {
            PortStatus::Open => {
                self.stats.vulnerable_count = self.stats.vulnerable_count + 1;
                self.port_stats.insert(result.port, (tally.0 + 1, tally.1));
            },
            PortStatus::OpenProtected => {
                self.stats.protected_count = self.stats.protected_count + 1;
                self.port_stats.insert(result.port, (tally.0, tally.1 + 1));
            },
            _ => {
                self.stats.closed_count = self.stats.closed_count + 1;
            },
        }
        self.stats.completed_probes = self.stats.completed_probes + 1;
        let new_idx = self.logs.len();
        self.logs.push(result);
        if is_finding {
            self.filtered_log_indices.push(new_idx);
        }
    }
}


/// The value a settings field stands for: its number when it holds one no
/// larger than `limit`, `default` otherwise.
pub open spec fn setting_or(input: Seq<char>, limit: nat, default: nat) -> nat {
    match decimal_value(input) {
        Some(v) => if v <= limit {
            v
        } else {
            default
        },
        None => default,
    }
}

fn setting_value(input: &String, limit: u64, default: u64) -> (v: u64)
    requires
        default <= limit,
    ensures
        v == setting_or(input@, limit as nat, default as nat),
        v <= limit,
{
    match parse_decimal(input.as_str(), limit) {
        Some(v) => v,
        None => default,
    }
}

/// A scan the interface asks for: a single target, or every enabled
/// prefix when `target` is `None`.
pub struct ScanRequest {
    pub target: Option<String>,
    pub config: crate::scanner::ScanConfig,
}

/// The settings fields read as a scan configuration: 256 probes in flight,
/// 3 seconds and 2 retries wherever a field does not hold a number in range.
pub open spec fn requested_config(app: App, c: crate::scanner::ScanConfig) -> bool {
    &&& c.concurrency == setting_or(app.concurrency_input@, usize::MAX as nat, 256)
    &&& c.timeout_secs == setting_or(app.timeout_input@, u64::MAX as nat, 3)
    &&& c.retries == setting_or(app.retries_input@, usize::MAX as nat, 2)
}

/// The state of an interface that has just started a scan: scanning, not
/// paused, log emptied, counters reset and the clock started; everything
/// else as it was but the notification.
pub open spec fn scan_started(before: App, after: App) -> bool {
    &&& after.is_scanning
    &&& !after.scan_paused
    &&& after.logs@.len() == 0
    &&& after.stats.total_probes == 0
    &&& after.stats.completed_probes == 0
    &&& after.stats.vulnerable_count == 0
    &&& after.stats.protected_count == 0
    &&& after.stats.closed_count == 0
    &&& after.stats.start_time is Some
    &&& after == (App {
        is_scanning: true,
        scan_paused: false,
        logs: after.logs,
        stats: after.stats,
        status_message: after.status_message,
        ..before
    })
}

impl App {
    fn settings_config(&self) -> (c: crate::scanner::ScanConfig)
        ensures
            requested_config(*self, c),
    {
        let concurrency = setting_value(&self.concurrency_input, usize::MAX as u64, 256) as usize;
        let timeout_secs = setting_value(&self.timeout_input, u64::MAX, 3);
        let retries = setting_value(&self.retries_input, usize::MAX as u64, 2) as usize;
        crate::scanner::ScanConfig { concurrency, timeout_secs, retries }
    }

    fn start_scanning(&mut self)
        ensures
            scan_started(*old(self), *final(self)),
            final(self).status_message == old(self).status_message,
    {
        self.is_scanning = true;
        self.scan_paused = false;
        self.logs.clear();
        self.stats = ScanStats::default();
        self.stats.start_time = Some(now_millis());
    }

    /// Asks for a scan of every enabled prefix. While a scan runs nothing
    /// happens; otherwise the scan starts with the configuration the
    /// settings fields give.
    pub fn request_full_scan(&mut self) -> (req: Option<ScanRequest>)
        ensures
            old(self).is_scanning ==> req is None && *final(self) == *old(self),
            !old(self).is_scanning ==> {
                &&& scan_started(*old(self), *final(self))
                &&& final(self).status_message matches Some(m) && m@ == "Starting full database CIDR scan..."@
                &&& req matches Some(r) && r.target is None && requested_config(*old(self), r.config)
            },
    {
        if self.is_scanning {
            return None;
        }
        let config = self.settings_config();
        self.start_scanning();
        self.status_message = Some(String::from_str("Starting full database CIDR scan..."));
        Some(ScanRequest { target: None, config })
    }

    /// Asks for a scan of the target typed in the target field. While a
    /// scan runs nothing happens. An empty target, or one that is neither an
    /// IP address (as `ip_parses`, the caller's parse of the trimmed field,
    /// says) nor CIDR notation, is refused with a notification; otherwise the
    /// scan starts on the trimmed target.
    pub fn request_single_scan(&mut self, ip_parses: bool) -> (req: Option<ScanRequest>)
        ensures
            old(self).is_scanning ==> req is None && *final(self) == *old(self),
            !old(self).is_scanning ==> forall|t: Seq<char>| #[trigger] is_trim_of(old(self).single_ip_input@, t) ==> {
                &&& t.len() == 0 ==> req is None && *final(self) == (App {
                    status_message: final(self).status_message,
                    ..*old(self)
                }) && (final(self).status_message matches Some(m)
                    && m@ == "Please enter a target IP or CIDR prefix in Target Scan tab"@)
                &&& (t.len() > 0 && !ip_parses && parsed_ipnet(t) is None) ==> req is None && *final(self)
                    == (App { status_message: final(self).status_message, ..*old(self) }) && (
                final(self).status_message matches Some(m) && m@ == "Invalid IP or CIDR Prefix: '"@ + t + "'"@)
                &&& (t.len() > 0 && (ip_parses || parsed_ipnet(t) is Some)) ==> {
                    &&& scan_started(*old(self), *final(self))
                    &&& final(self).status_message matches Some(m) && m@ == "Starting target scan for "@ + t
                        + "..."@
                    &&& req matches Some(r) && r.target matches Some(x) && x@ == t && requested_config(
                        *old(self),
                        r.config,
                    )
                }
            },
    {
        if self.is_scanning {
            return None;
        }
        let target = trim(self.single_ip_input.as_str());
        proof {
            assert forall|t2: Seq<char>| is_trim_of(self.single_ip_input@, t2) implies t2 == target@ by {
                crate::scanner::targets::lemma_trim_unique(self.single_ip_input@, t2, target@);
            }
        }
        if target.unicode_len() == 0 {
            self.status_message = Some(String::from_str("Please enter a target IP or CIDR prefix in Target Scan tab"));
            return None;
        }
        if !target_is_valid(target.as_str(), ip_parses) {
            let mut m = String::from_str("Invalid IP or CIDR Prefix: '");
            m.append(target.as_str());
            m.append("'");
            self.status_message = Some(m);
            return None;
        }
        let config = self.settings_config();
        self.start_scanning();
        let mut m = String::from_str("Starting target scan for ");
        m.append(target.as_str());
        m.append("...");
        self.status_message = Some(m);
        Some(ScanRequest { target: Some(target), config })
    }
}

/// What the caller has to do after an event was applied.
pub enum TuiFollowUp {
    Nothing,
    /// The scan finished and a PDF report is wanted: build it with
    /// [`App::report_from_logs`], write it, and hand the outcome to
    /// [`App::set_pdf_outcome`].
    ExportPdf,
}

impl App {
    /// Applies a background scan event: a start sets the probe total, a
    /// completed probe is recorded, the end of the scan (or its failure)
    /// stops scanning and says so in the notification bar.
    pub fn apply_tui_event(&mut self, event: TuiEvent) -> (follow: TuiFollowUp)
        requires
            event matches TuiEvent::ProbeCompleted(r) ==> can_record(*old(self), r),
        ensures
            event matches TuiEvent::ScanStarted(total) ==> (follow is Nothing && *final(self) == (App {
                stats: ScanStats { total_probes: total, ..old(self).stats },
                ..*old(self)
            })),
            event matches TuiEvent::ProbeCompleted(r) ==> (follow is Nothing && probe_recorded(
                *old(self),
                *final(self),
                r,
            )),
            event is ScanFinished ==> !final(self).is_scanning && (if old(self).pdf_export {
                follow is ExportPdf && *final(self) == (App { is_scanning: false, scan_paused: false, ..*old(self) })
            } else {
                follow is Nothing && *final(self) == (App {
                    is_scanning: false,
                    scan_paused: false,
                    status_message: final(self).status_message,
                    ..*old(self)
                }) && (final(self).status_message matches Some(m) && m@ == "Scan completed!"@)
            }),
            event matches TuiEvent::ScanError(msg) ==> (follow is Nothing && *final(self) == (App {
                is_scanning: false,
                scan_paused: false,
                status_message: final(self).status_message,
                ..*old(self)
            }) && (final(self).status_message matches Some(m) && m@ == "Scan error: "@ + msg@)),
    {
        match event {
            TuiEvent::ScanStarted(total) => {
                self.stats.total_probes = total;
                TuiFollowUp::Nothing
            },
            TuiEvent::ProbeCompleted(r) => {
                self.add_probe_result(r);
                TuiFollowUp::Nothing
            },
            TuiEvent::ScanFinished => {
                self.is_scanning = false;
                self.scan_paused = false;
                if self.pdf_export {
                    TuiFollowUp::ExportPdf
                } else {
                    self.status_message = Some(String::from_str("Scan completed!"));
                    TuiFollowUp::Nothing
                }
            },
            TuiEvent::ScanError(msg) => {
                self.is_scanning = false;
                self.scan_paused = false;
                let mut m = String::from_str("Scan error: ");
                m.append(msg.as_str());
                self.status_message = Some(m);
                TuiFollowUp::Nothing
            },
        }
    }

    /// Notes in the notification bar how writing the PDF report went.
    pub fn set_pdf_outcome(&mut self, outcome: Result<(), String>)
        ensures
            *final(self) == (App { status_message: final(self).status_message, ..*old(self) }),
            outcome is Ok ==> (final(self).status_message matches Some(m) && m@
                == "Scan completed! PDF report generated: "@ + old(self).pdf_output@),
            outcome matches Err(e) ==> (final(self).status_message matches Some(m) && m@
                == "Scan completed! PDF report error: "@ + e@),
    {
        let m = match outcome {
            Ok(()) => {
                let mut m = String::from_str("Scan completed! PDF report generated: ");
                m.append(self.pdf_output.as_str());
                m
            },
            Err(e) => {
                let mut m = String::from_str("Scan completed! PDF report error: ");
                m.append(e.as_str());
                m
            },
        };
        self.status_message = Some(m);
    }
}

/// The distinct addresses that occur in a list of results.
pub open spec fn logged_ips(s: Seq<ProbeResult>) -> Set<IpAddress> {
    Set::new(|x: IpAddress| exists|i: int| 0 <= i < s.len() && s[i].ip == x)
}

fn distinct_ip_count(logs: &Vec<ProbeResult>) -> (n: usize)
    ensures
        n == logged_ips(logs@).len(),
{
    let mut seen: Vec<IpAddress> = Vec::new();
    let mut i: usize = 0;
    while i < logs.len()
        invariant
            i <= logs@.len(),
            strictly_sorted(seen@),
            forall|x: IpAddress| seen@.contains(x) <==> exists|k: int| 0 <= k < i && logs@[k].ip == x,
        decreases logs.len() - i,
    {
        let ghost before = seen@;
        insert_sorted_unique(&mut seen, logs[i].ip);
        proof {
            assert forall|x: IpAddress| seen@.contains(x) <==> exists|k: int| 0 <= k < i + 1 && logs@[k].ip == x by {
                if x == logs@[i as int].ip {
                    assert(exists|k: int| 0 <= k < i + 1 && logs@[k].ip == x);
                }
                if exists|k: int| 0 <= k < i + 1 && logs@[k].ip == x {
                    let k = choose|k: int| 0 <= k < i + 1 && logs@[k].ip == x;
                    if k < i {
                        assert(before.contains(x));
                    }
                }
            }
        }
        i = i + 1;
    }
    proof {
        assert(seen@.no_duplicates()) by {
            assert forall|a: int, b: int| 0 <= a < seen@.len() && 0 <= b < seen@.len() && a != b implies seen@[a]
                != seen@[b] by {
                if a < b {
                    assert(crate::scanner::result::ip_key(seen@[a]) < crate::scanner::result::ip_key(seen@[b]));
                } else {
                    assert(crate::scanner::result::ip_key(seen@[b]) < crate::scanner::result::ip_key(seen@[a]));
                }
            }
        }
        seen@.unique_seq_to_set();
        assert(seen@.to_set() =~= logged_ips(logs@));
    }
    seen.len()
}

impl App {
    /// The report of the scan shown in the log: every logged result, the
    /// enabled prefixes, the number of distinct addresses logged, the larger
    /// of the announced and the received probe counts, started when the
    /// scan was started (now, if no start was recorded) and finished now.
    pub fn report_from_logs(&self) -> (report: ScanReport)
        ensures
            report.results@ == self.logs@,
            report.prefixes_scanned@.len() == self.prefixes@.len(),
            forall|i: int| 0 <= i < self.prefixes@.len() ==> #[trigger] report.prefixes_scanned@[i]@
                == self.prefixes@[i].prefix@,
            report.total_ips == logged_ips(self.logs@).len(),
            report.total_probes == if self.stats.total_probes >= self.logs@.len() {
                self.stats.total_probes as int
            } else {
                self.logs@.len() as int
            },
            self.stats.start_time matches Some(t) ==> report.started_at == t,
            report.finished_at is Some,
            report.scan_id@.len() == 36,
    {
        let mut names: Vec<String> = Vec::new();
        let mut i: usize = 0;
        while i < self.prefixes.len()
            invariant
                i <= self.prefixes@.len(),
                names@.len() == i,
                forall|k: int| 0 <= k < i ==> #[trigger] names@[k]@ == self.prefixes@[k].prefix@,
            decreases self.prefixes.len() - i,
        {
            names.push(self.prefixes[i].prefix.clone());
            i = i + 1;
        }
        let mut results: Vec<ProbeResult> = Vec::new();
        let mut j: usize = 0;
        while j < self.logs.len()
            invariant
                j <= self.logs@.len(),
                results@ == self.logs@.take(j as int),
            decreases self.logs.len() - j,
        {
            results.push(self.logs[j].duplicate());
            assert(self.logs@.take(j + 1) =~= self.logs@.take(j as int).push(self.logs@[j as int]));
            j = j + 1;
        }
        assert(self.logs@.take(self.logs@.len() as int) =~= self.logs@);
        let mut report = ScanReport::new(new_scan_id(), names);
        report.total_ips = distinct_ip_count(&self.logs);
        report.total_probes = if self.stats.total_probes >= self.logs.len() {
            self.stats.total_probes
        } else {
            self.logs.len()
        };
        report.results = results;
        if let Some(t) = self.stats.start_time {
            report.started_at = t;
        }
        report.finalize();
        report
    }
}

} // verus!
