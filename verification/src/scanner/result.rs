//! Probe results and the aggregated scan report.

use vstd::prelude::*;

verus! {

/// An IP address: an IPv4 address when `is_v6` is false (its value then
/// lies below 2^32), an IPv6 address otherwise.
#[derive(Clone, Copy, Debug, PartialEq, Eq, Structural, Hash)]
pub struct IpAddress {
    pub is_v6: bool,
    pub bits: u128,
}

/// The position of an address in the usual address order: every IPv4
/// address comes before every IPv6 address, and addresses of one family
/// are ordered by value.
pub open spec fn ip_key(ip: IpAddress) -> int {
    if ip.is_v6 {
        0x1_0000_0000_0000_0000_0000_0000_0000_0000int + ip.bits
    } else {
        ip.bits as int
    }
}

/// An IPv4 address carries a 32-bit value.
pub open spec fn ip_well_formed(ip: IpAddress) -> bool {
    !ip.is_v6 ==> ip.bits < 0x1_0000_0000
}

/// Addresses in strictly increasing order (hence free of repeats).
pub open spec fn strictly_sorted(s: Seq<IpAddress>) -> bool {
    forall|i: int, j: int| 0 <= i < j < s.len() ==> ip_key(s[i]) < ip_key(s[j])
}

/// Two addresses with the same key are the same address.
pub proof fn lemma_ip_key_injective(a: IpAddress, b: IpAddress)
    ensures
        ip_key(a) == ip_key(b) <==> a == b,
{
}

impl IpAddress {
    /// The IPv4 address with the given 32-bit value.
    pub fn v4(bits: u32) -> (ip: IpAddress)
        ensures
            !ip.is_v6,
            ip.bits == bits,
            ip_well_formed(ip),
    {
        IpAddress { is_v6: false, bits: bits as u128 }
    }

    /// The IPv6 address with the given 128-bit value.
    pub fn v6(bits: u128) -> (ip: IpAddress)
        ensures
            ip.is_v6,
            ip.bits == bits,
    {
        IpAddress { is_v6: true, bits }
    }

    /// Whether `self` comes strictly before `other` in address order.
    pub fn less_than(&self, other: &IpAddress) -> (lt: bool)
        ensures
            lt == (ip_key(*self) < ip_key(*other)),
    {
        (!self.is_v6 && other.is_v6) || (self.is_v6 == other.is_v6 && self.bits < other.bits)
    }
}

/// Adds `ip` to an address list kept in strictly increasing order; an
/// address already present is not added twice.
pub fn insert_sorted_unique(v: &mut Vec<IpAddress>, ip: IpAddress)
    requires
        strictly_sorted(old(v)@),
    ensures
        strictly_sorted(final(v)@),
        forall|x: IpAddress| final(v)@.contains(x) <==> (old(v)@.contains(x) || x == ip),
        final(v)@.len() <= old(v)@.len() + 1,
{
    let n = v.len();
    if n == 0 || v[n - 1].less_than(&ip) {
        let ghost before = v@;
        v.push(ip);
        proof {
            assert forall|x: IpAddress| v@.contains(x) <==> (before.contains(x) || x == ip) by {
                if v@.contains(x) {
                    let k = choose|k: int| 0 <= k < v@.len() && v@[k] == x;
                    if k < before.len() {
                        assert(before[k] == x);
                    }
                }
                if before.contains(x) {
                    let k = choose|k: int| 0 <= k < before.len() && before[k] == x;
                    assert(v@[k] == x);
                }
                if x == ip {
                    assert(v@[before.len() as int] == x);
                }
            }
            assert(before == old(v)@);
            assert(forall|x: IpAddress| v@.contains(x) <==> (old(v)@.contains(x) || x == ip));
        }
        return;
    }
    // Binary search for the first position whose address is not below `ip`.
    let mut lo: usize = 0;
    let mut hi: usize = n;
    while lo < hi
        invariant
            n == v@.len(),
            strictly_sorted(v@),
            0 <= lo <= hi <= n,
            forall|k: int| 0 <= k < lo ==> ip_key(v@[k]) < ip_key(ip),
            forall|k: int| hi <= k < n ==> ip_key(ip) <= ip_key(v@[k]),
        decreases hi - lo,
    {
        let mid = lo + (hi - lo) / 2;
        if v[mid].less_than(&ip) {
            lo = mid + 1;
        } else {
            hi = mid;
        }
    }
    let pos = lo;
    if pos < n && !ip.less_than(&v[pos]) {
        // Same key: `ip` is already in the list.
        proof {
            lemma_ip_key_injective(v@[pos as int], ip);
        }
        return;
    }
    let ghost before = v@;
    v.insert(pos, ip);
    proof {
        before.insert_ensures(pos as int, ip);
        assert forall|i: int, j: int| 0 <= i < j < v@.len() implies ip_key(v@[i]) < ip_key(v@[j]) by {
            if j < pos {
            } else if j == pos {
            } else if i < pos {
                assert(v@[j] == before[j - 1]);
            } else if i == pos {
                assert(v@[j] == before[j - 1]);
            } else {
                assert(v@[i] == before[i - 1]);
                assert(v@[j] == before[j - 1]);
            }
        }
        assert forall|x: IpAddress| v@.contains(x) <==> (before.contains(x) || x == ip) by {
            if v@.contains(x) {
                let k = choose|k: int| 0 <= k < v@.len() && v@[k] == x;
                if k < pos {
                    assert(before[k] == x);
                } else if k > pos {
                    assert(before[k - 1] == x);
                }
            }
            if before.contains(x) {
                let k = choose|k: int| 0 <= k < before.len() && before[k] == x;
                if k < pos {
                    assert(v@[k] == x);
                } else {
                    assert(v@[k + 1] == x);
                }
            }
            if x == ip {
                assert(v@[pos as int] == x);
            }
        }
    }
}


/// Current wall-clock time in milliseconds since the Unix epoch
/// (`chrono::Utc::now`). Nothing is claimed of the value: it is the clock.
#[verifier::external_body]
pub fn now_millis() -> i64 {
    chrono::Utc::now().timestamp_millis()
}

/// Status of a single port probe.
#[derive(Clone, Debug, PartialEq, Eq)]
pub enum PortStatus {
    /// The port answered the probe: vulnerable to amplification.
    Open,
    /// The port answered but is protected (e.g. a resolver refusing recursion).
    OpenProtected,
    /// The host is alive but this port did not answer.
    Closed,
    /// No conclusion could be drawn.
    Inconclusive,
    /// Probing failed.
    Error(String),
}

/// Open, or open with protection: a finding.
pub open spec fn is_finding(s: PortStatus) -> bool {
    s is Open || s is OpenProtected
}

/// The statuses a selection keeps: only `Open`, or also `OpenProtected`.
pub open spec fn selected(s: PortStatus, with_protected: bool) -> bool {
    s is Open || (with_protected && s is OpenProtected)
}

/// The label under which a status is displayed.
pub open spec fn status_label(s: PortStatus) -> Seq<char> {
    match s {
        PortStatus::Open => "OPEN (VULNERABLE)"@,
        PortStatus::OpenProtected => "OPEN (PROTECTED)"@,
        PortStatus::Closed => "CLOSED"@,
        PortStatus::Inconclusive => "INCONCLUSIVE"@,
        PortStatus::Error(e) => "ERROR: "@ + e@,
    }
}

impl PortStatus {
    /// The display label of this status.
    pub fn label(&self) -> (out: String)
        ensures
            out@ == status_label(*self),
    {
        match self {
            PortStatus::Open => String::from_str("OPEN (VULNERABLE)"),
            PortStatus::OpenProtected => String::from_str("OPEN (PROTECTED)"),
            PortStatus::Closed => String::from_str("CLOSED"),
            PortStatus::Inconclusive => String::from_str("INCONCLUSIVE"),
            PortStatus::Error(e) => {
                let mut out = String::from_str("ERROR: ");
                out.append(e.as_str());
                out
            },
        }
    }

    /// An identical copy of this status.
    pub fn duplicate(&self) -> (out: PortStatus)
        ensures
            out == *self,
    {
        match self {
            PortStatus::Open => PortStatus::Open,
            PortStatus::OpenProtected => PortStatus::OpenProtected,
            PortStatus::Closed => PortStatus::Closed,
            PortStatus::Inconclusive => PortStatus::Inconclusive,
            PortStatus::Error(e) => PortStatus::Error(e.clone()),
        }
    }

    /// Whether this status is `Open`, or `OpenProtected` when `with_protected`.
    pub fn is_selected(&self, with_protected: bool) -> (keep: bool)
        ensures
            keep == selected(*self, with_protected),
    {
        match self {
            PortStatus::Open => true,
            PortStatus::OpenProtected => with_protected,
            _ => false,
        }
    }
}

/// Result of a single probe against one IP:port combination.
#[derive(Clone, Debug)]
pub struct ProbeResult {
    pub ip: IpAddress,
    pub port: u16,
    pub protocol: String,
    pub service_name: String,
    pub description: String,
    pub status: PortStatus,
    pub response_time_ms: Option<u64>,
    /// Milliseconds since the Unix epoch.
    pub timestamp: i64,
}

impl ProbeResult {
    /// An identical copy of this result.
    pub fn duplicate(&self) -> (out: ProbeResult)
        ensures
            out == *self,
    {
        ProbeResult {
            ip: self.ip,
            port: self.port,
            protocol: self.protocol.clone(),
            service_name: self.service_name.clone(),
            description: self.description.clone(),
            status: self.status.duplicate(),
            response_time_ms: self.response_time_ms,
            timestamp: self.timestamp,
        }
    }
}

/// The results whose status is selected, in the order they came.
pub open spec fn selected_results(s: Seq<ProbeResult>, with_protected: bool) -> Seq<ProbeResult>
    decreases s.len(),
{
    if s.len() == 0 {
        Seq::empty()
    } else {
        let rest = selected_results(s.drop_last(), with_protected);
        if selected(s.last().status, with_protected) {
            rest.push(s.last())
        } else {
            rest
        }
    }
}

/// Number of `Open` results of the service called `name`.
pub open spec fn open_count_of(s: Seq<ProbeResult>, name: Seq<char>) -> nat
    decreases s.len(),
{
    if s.len() == 0 {
        0
    } else {
        open_count_of(s.drop_last(), name) + (if s.last().status is Open && s.last().service_name@
            == name {
            1nat
        } else {
            0nat
        })
    }
}

/// Some result with a selected status comes from `ip`.
pub open spec fn has_selected_ip(s: Seq<ProbeResult>, ip: IpAddress, with_protected: bool) -> bool {
    exists|i: int| 0 <= i < s.len() && selected(s[i].status, with_protected) && s[i].ip == ip
}

/// Aggregated report for an entire scan run.
#[derive(Clone, Debug)]
pub struct ScanReport {
    pub scan_id: String,
    /// Milliseconds since the Unix epoch.
    pub started_at: i64,
    pub finished_at: Option<i64>,
    pub prefixes_scanned: Vec<String>,
    pub total_ips: usize,
    pub total_probes: usize,
    pub results: Vec<ProbeResult>,
}

fn select_results(results: &Vec<ProbeResult>, with_protected: bool) -> (out: Vec<&ProbeResult>)
    ensures
        out@.map_values(|r: &ProbeResult| *r) == selected_results(results@, with_protected),
{
    let mut out: Vec<&ProbeResult> = Vec::new();
    let mut i: usize = 0;
    while i < results.len()
        invariant
            i <= results.len(),
            out@.map_values(|r: &ProbeResult| *r) == selected_results(results@.take(i as int), with_protected),
        decreases results.len() - i,
    {
        let r = &results[i];
        proof {
            assert(results@.take(i + 1).drop_last() =~= results@.take(i as int));
        }
        if r.status.is_selected(with_protected) {
            out.push(r);
        }
        proof {
            assert(out@.map_values(|r: &ProbeResult| *r) =~= selected_results(results@.take(i + 1), with_protected));
        }
        i = i + 1;
    }
    assert(results@.take(results.len() as int) =~= results@);
    out
}

pub(crate) fn selected_ips(results: &Vec<ProbeResult>, with_protected: bool) -> (out: Vec<IpAddress>)
    ensures
        strictly_sorted(out@),
        forall|x: IpAddress| out@.contains(x) <==> has_selected_ip(results@, x, with_protected),
{
    let mut out: Vec<IpAddress> = Vec::new();
    let mut i: usize = 0;
    while i < results.len()
        invariant
            i <= results.len(),
            strictly_sorted(out@),
            forall|x: IpAddress| out@.contains(x) <==> has_selected_ip(results@.take(i as int), x, with_protected),
        decreases results.len() - i,
    {
        let ghost prev = out@;
        if results[i].status.is_selected(with_protected) {
            insert_sorted_unique(&mut out, results[i].ip);
        }
        proof {
            let t = results@.take(i + 1);
            assert forall|x: IpAddress| out@.contains(x) <==> has_selected_ip(t, x, with_protected) by {
                if has_selected_ip(t, x, with_protected) {
                    let k = choose|k: int| 0 <= k < t.len() && selected(t[k].status, with_protected) && t[k].ip == x;
                    if k < i {
                        assert(results@.take(i as int)[k] == t[k]);
                    }
                }
                if has_selected_ip(results@.take(i as int), x, with_protected) {
                    let k = choose|k: int| 0 <= k < i && selected(results@.take(i as int)[k].status, with_protected) && results@.take(i as int)[k].ip == x;
                    assert(t[k] == results@.take(i as int)[k]);
                }
                if out@.contains(x) && !prev.contains(x) {
                    assert(t[i as int] == results@[i as int]);
                }
            }
        }
        i = i + 1;
    }
    assert(results@.take(results.len() as int) =~= results@);
    out
}

impl ScanReport {
    /// A fresh report for the given scan id and prefixes, started now.
    pub fn new(scan_id: String, prefixes: Vec<String>) -> (report: ScanReport)
        ensures
            report.scan_id == scan_id,
            report.prefixes_scanned == prefixes,
            report.finished_at is None,
            report.total_ips == 0,
            report.total_probes == 0,
            report.results@.len() == 0,
    {
        ScanReport {
            scan_id,
            started_at: now_millis(),
            finished_at: None,
            prefixes_scanned: prefixes,
            total_ips: 0,
            total_probes: 0,
            results: Vec::new(),
        }
    }

    /// Marks the report as finished now; nothing else changes.
    pub fn finalize(&mut self)
        ensures
            final(self).finished_at is Some,
            final(self).scan_id == old(self).scan_id,
            final(self).started_at == old(self).started_at,
            final(self).prefixes_scanned == old(self).prefixes_scanned,
            final(self).total_ips == old(self).total_ips,
            final(self).total_probes == old(self).total_probes,
            final(self).results == old(self).results,
    {
        self.finished_at = Some(now_millis());
    }

    /// The results whose port is open (vulnerable), in scan order.
    pub fn vulnerable_results(&self) -> (out: Vec<&ProbeResult>)
        ensures
            out@.map_values(|r: &ProbeResult| *r) == selected_results(self.results@, false),
    {
        select_results(&self.results, false)
    }

    /// The results that are open (vulnerable) or open (protected), in scan order.
    pub fn detected_results(&self) -> (out: Vec<&ProbeResult>)
        ensures
            out@.map_values(|r: &ProbeResult| *r) == selected_results(self.results@, true),
    {
        select_results(&self.results, true)
    }

    /// The distinct addresses with at least one vulnerable port, in increasing order.
    pub fn vulnerable_ips(&self) -> (out: Vec<IpAddress>)
        ensures
            strictly_sorted(out@),
            forall|x: IpAddress| out@.contains(x) <==> has_selected_ip(self.results@, x, false),
    {
        selected_ips(&self.results, false)
    }

    /// The distinct addresses with at least one detected (vulnerable or
    /// protected) port, in increasing order.
    pub fn detected_ips(&self) -> (out: Vec<IpAddress>)
        ensures
            strictly_sorted(out@),
            forall|x: IpAddress| out@.contains(x) <==> has_selected_ip(self.results@, x, true),
    {
        selected_ips(&self.results, true)
    }
}


/// The per-service tally of vulnerable results: each service named once,
/// with its number of `Open` results, in non-increasing order of that number.
pub open spec fn is_service_tally(results: Seq<ProbeResult>, tally: Seq<(String, usize)>) -> bool {
    &&& forall|i: int, j: int| 0 <= i < j < tally.len() ==> tally[i].0@ != tally[j].0@
    &&& forall|i: int| 0 <= i < tally.len() ==> tally[i].1 == open_count_of(results, #[trigger] tally[i].0@)
        && tally[i].1 > 0
    &&& forall|k: int| 0 <= k < results.len() && results[k].status is Open ==> exists|i: int|
        0 <= i < tally.len() && #[trigger] tally[i].0@ == results[k].service_name@
    &&& forall|i: int, j: int| 0 <= i < j < tally.len() ==> tally[i].1 >= tally[j].1
}

proof fn lemma_open_count_absent(s: Seq<ProbeResult>, name: Seq<char>)
    requires
        forall|k: int| 0 <= k < s.len() && s[k].status is Open ==> s[k].service_name@ != name,
    ensures
        open_count_of(s, name) == 0,
    decreases s.len(),
{
    if s.len() > 0 {
        lemma_open_count_absent(s.drop_last(), name);
    }
}

proof fn lemma_open_count_bound(s: Seq<ProbeResult>, name: Seq<char>)
    ensures
        open_count_of(s, name) <= s.len(),
    decreases s.len(),
{
    if s.len() > 0 {
        lemma_open_count_bound(s.drop_last(), name);
    }
}

/// Counts the vulnerable results of each service, in order of first appearance.
fn tally_in_order(results: &Vec<ProbeResult>) -> (tally: Vec<(String, usize)>)
    ensures
        forall|i: int, j: int| 0 <= i < j < tally@.len() ==> tally@[i].0@ != tally@[j].0@,
        forall|i: int| 0 <= i < tally@.len() ==> tally@[i].1 == open_count_of(results@, #[trigger] tally@[i].0@)
            && tally@[i].1 > 0,
        forall|k: int| 0 <= k < results@.len() && results@[k].status is Open ==> exists|i: int|
            0 <= i < tally@.len() && #[trigger] tally@[i].0@ == results@[k].service_name@,
{
    let mut tally: Vec<(String, usize)> = Vec::new();
    let mut i: usize = 0;
    while i < results.len()
        invariant
            i <= results.len(),
            forall|a: int, b: int| 0 <= a < b < tally@.len() ==> tally@[a].0@ != tally@[b].0@,
            forall|a: int| 0 <= a < tally@.len() ==> tally@[a].1 == open_count_of(results@.take(i as int), #[trigger] tally@[a].0@)
                && tally@[a].1 > 0,
            forall|k: int| 0 <= k < i && results@[k].status is Open ==> exists|a: int|
                0 <= a < tally@.len() && #[trigger] tally@[a].0@ == results@[k].service_name@,
        decreases results.len() - i,
    {
        let ghost t0 = results@.take(i as int);
        let ghost t1 = results@.take(i + 1);
        let ghost old_tally = tally@;
        proof {
            assert(t1.drop_last() =~= t0);
            assert(t1.last() == results@[i as int]);
        }
        let r = &results[i];
        if matches!(r.status, PortStatus::Open) {
            let mut j: usize = 0;
            while j < tally.len() && !(tally[j].0 == r.service_name)
                invariant
                    j <= tally.len(),
                    tally@ == old_tally,
                    forall|a: int| 0 <= a < j ==> tally@[a].0@ != r.service_name@,
                decreases tally.len() - j,
            {
                j = j + 1;
            }
            if j < tally.len() {
                proof {
                    lemma_open_count_bound(t0, tally@[j as int].0@);
                }
                let name = tally[j].0.clone();
                let count = tally[j].1;
                tally.set(j, (name, count + 1));
                proof {
                    assert forall|a: int| 0 <= a < tally@.len() implies tally@[a].1 == open_count_of(t1, #[trigger] tally@[a].0@)
                        && tally@[a].1 > 0 by {
                        if a != j {
                            assert(tally@[a] == old_tally[a]);
                            assert(old_tally[a].0@ != old_tally[j as int].0@);
                        }
                    }
                    assert forall|k: int| 0 <= k < i + 1 && results@[k].status is Open implies exists|a: int|
                        0 <= a < tally@.len() && #[trigger] tally@[a].0@ == results@[k].service_name@ by {
                        if k < i {
                            let a = choose|a: int| 0 <= a < old_tally.len() && #[trigger] old_tally[a].0@ == results@[k].service_name@;
                            assert(tally@[a].0@ == old_tally[a].0@);
                        } else {
                            assert(tally@[j as int].0@ == results@[k].service_name@);
                        }
                    }
                }
            } else {
                proof {
                    assert forall|k: int| 0 <= k < t0.len() && t0[k].status is Open implies t0[k].service_name@ != r.service_name@ by {
                        assert(t0[k] == results@[k]);
                        let a = choose|a: int| 0 <= a < old_tally.len() && #[trigger] old_tally[a].0@ == results@[k].service_name@;
                        assert(old_tally[a].0@ != r.service_name@);
                    }
                    lemma_open_count_absent(t0, r.service_name@);
                }
                tally.push((r.service_name.clone(), 1));
                proof {
                    assert forall|a: int| 0 <= a < tally@.len() implies tally@[a].1 == open_count_of(t1, #[trigger] tally@[a].0@)
                        && tally@[a].1 > 0 by {
                        if a < old_tally.len() {
                            assert(tally@[a] == old_tally[a]);
                            assert(old_tally[a].0@ != r.service_name@);
                        }
                    }
                    assert forall|k: int| 0 <= k < i + 1 && results@[k].status is Open implies exists|a: int|
                        0 <= a < tally@.len() && #[trigger] tally@[a].0@ == results@[k].service_name@ by {
                        if k < i {
                            let a = choose|a: int| 0 <= a < old_tally.len() && #[trigger] old_tally[a].0@ == results@[k].service_name@;
                            assert(tally@[a] == old_tally[a]);
                        } else {
                            assert(tally@[old_tally.len() as int].0@ == results@[k].service_name@);
                        }
                    }
                }
            }
        } else {
            proof {
                assert(!(t1.last().status is Open));
                assert forall|a: int| 0 <= a < tally@.len() implies tally@[a].1 == open_count_of(t1, #[trigger] tally@[a].0@)
                    && tally@[a].1 > 0 by {
                    assert(open_count_of(t1, tally@[a].0@) == open_count_of(t0, tally@[a].0@));
                }
            }
        }
        i = i + 1;
    }
    assert(results@.take(results.len() as int) =~= results@);
    tally
}

/// Names pairwise distinct and counts non-increasing.
pub open spec fn tally_ordered(t: Seq<(String, usize)>) -> bool {
    &&& forall|i: int, j: int| 0 <= i < j < t.len() ==> t[i].0@ != t[j].0@
    &&& forall|i: int, j: int| 0 <= i < j < t.len() ==> t[i].1 >= t[j].1
}

/// Inserts `entry` after every entry whose count is at least its own.
fn insert_by_count(out: &mut Vec<(String, usize)>, entry: (String, usize))
    requires
        tally_ordered(old(out)@),
        forall|a: int| 0 <= a < old(out)@.len() ==> old(out)@[a].0@ != entry.0@,
    ensures
        tally_ordered(final(out)@),
        forall|e: (String, usize)| final(out)@.contains(e) <==> (old(out)@.contains(e) || e == entry),
{
    let mut p: usize = 0;
    while p < out.len() && out[p].1 >= entry.1
        invariant
            p <= out.len(),
            forall|a: int| 0 <= a < p ==> out@[a].1 >= entry.1,
        decreases out.len() - p,
    {
        p = p + 1;
    }
    let ghost before = out@;
    let ghost e = entry;
    out.insert(p, entry);
    proof {
        before.insert_ensures(p as int, e);
        assert forall|i: int, j: int| 0 <= i < j < out@.len() implies out@[i].0@ != out@[j].0@ && out@[i].1 >= out@[j].1 by {
            if j < p {
            } else if j == p {
                assert(out@[i] == before[i]);
            } else if i < p {
                assert(out@[j] == before[j - 1]);
                assert(out@[i] == before[i]);
            } else if i == p {
                assert(out@[j] == before[j - 1]);
            } else {
                assert(out@[i] == before[i - 1]);
                assert(out@[j] == before[j - 1]);
            }
        }
        assert forall|x: (String, usize)| out@.contains(x) <==> (before.contains(x) || x == e) by {
            if out@.contains(x) {
                let k = choose|k: int| 0 <= k < out@.len() && out@[k] == x;
                if k < p {
                    assert(before[k] == x);
                } else if k > p {
                    assert(before[k - 1] == x);
                }
            }
            if before.contains(x) {
                let k = choose|k: int| 0 <= k < before.len() && before[k] == x;
                if k < p {
                    assert(out@[k] == x);
                } else {
                    assert(out@[k + 1] == x);
                }
            }
            if x == e {
                assert(out@[p as int] == x);
            }
        }
    }
}

impl ScanReport {
    /// Number of vulnerable results per service name, most frequent first
    /// (services with equal counts keep their order of first appearance).
    pub fn vulnerable_by_service(&self) -> (out: Vec<(String, usize)>)
        ensures
            is_service_tally(self.results@, out@),
    {
        let tally = tally_in_order(&self.results);
        let mut out: Vec<(String, usize)> = Vec::new();
        let mut k: usize = 0;
        while k < tally.len()
            invariant
                k <= tally.len(),
                forall|i: int, j: int| 0 <= i < j < tally@.len() ==> tally@[i].0@ != tally@[j].0@,
                tally_ordered(out@),
                forall|e: (String, usize)| out@.contains(e) <==> tally@.take(k as int).contains(e),
            decreases tally.len() - k,
        {
            let entry = (tally[k].0.clone(), tally[k].1);
            proof {
                assert(entry == tally@[k as int]);
                assert forall|a: int| 0 <= a < out@.len() implies out@[a].0@ != entry.0@ by {
                    assert(out@.contains(out@[a]));
                    let b = choose|b: int| 0 <= b < k && #[trigger] tally@.take(k as int)[b] == out@[a];
                    assert(tally@[b] == out@[a]);
                }
            }
            insert_by_count(&mut out, entry);
            proof {
                assert forall|e: (String, usize)| out@.contains(e) <==> tally@.take(k + 1).contains(e) by {
                    if tally@.take(k + 1).contains(e) {
                        let b = choose|b: int| 0 <= b < k + 1 && #[trigger] tally@.take(k + 1)[b] == e;
                        if b < k {
                            assert(tally@.take(k as int)[b] == e);
                        }
                    }
                    if tally@.take(k as int).contains(e) {
                        let b = choose|b: int| 0 <= b < k && #[trigger] tally@.take(k as int)[b] == e;
                        assert(tally@.take(k + 1)[b] == e);
                    }
                    if e == entry {
                        assert(tally@.take(k + 1)[k as int] == e);
                    }
                }
            }
            k = k + 1;
        }
        proof {
            assert(tally@.take(tally@.len() as int) =~= tally@);
            assert forall|i: int| 0 <= i < out@.len() implies out@[i].1 == open_count_of(self.results@, #[trigger] out@[i].0@)
                && out@[i].1 > 0 by {
                assert(out@.contains(out@[i]));
                let b = choose|b: int| 0 <= b < tally@.len() && #[trigger] tally@[b] == out@[i];
            }
            assert forall|r: int| 0 <= r < self.results@.len() && self.results@[r].status is Open implies exists|i: int|
                0 <= i < out@.len() && #[trigger] out@[i].0@ == self.results@[r].service_name@ by {
                let b = choose|b: int| 0 <= b < tally@.len() && #[trigger] tally@[b].0@ == self.results@[r].service_name@;
                assert(tally@.contains(tally@[b]));
                assert(tally@.take(tally@.len() as int).contains(tally@[b]));
                assert(out@.contains(tally@[b]));
                let a = choose|a: int| 0 <= a < out@.len() && #[trigger] out@[a] == tally@[b];
                assert(out@[a].0@ == self.results@[r].service_name@);
            }
        }
        out
    }
}


/// Number of results with exactly the status `st`.
pub open spec fn status_count(s: Seq<ProbeResult>, st: PortStatus) -> nat
    decreases s.len(),
{
    if s.len() == 0 {
        0
    } else {
        status_count(s.drop_last(), st) + (if s.last().status == st {
            1nat
        } else {
            0nat
        })
    }
}

/// Counts the vulnerable (open) and the protected results.
pub fn finding_counts(results: &Vec<ProbeResult>) -> (counts: (usize, usize))
    ensures
        counts.0 == status_count(results@, PortStatus::Open),
        counts.1 == status_count(results@, PortStatus::OpenProtected),
{
    let mut open: usize = 0;
    let mut protected: usize = 0;
    let mut i: usize = 0;
    while i < results.len()
        invariant
            i <= results@.len(),
            open == status_count(results@.take(i as int), PortStatus::Open),
            protected == status_count(results@.take(i as int), PortStatus::OpenProtected),
            open <= i,
            protected <= i,
        decreases results.len() - i,
    {
        assert(results@.take(i + 1).drop_last() =~= results@.take(i as int));
        match results[i].status {
            PortStatus::Open => {
                open = open + 1;
            },
            PortStatus::OpenProtected => {
                protected = protected + 1;
            },
            _ => {},
        }
        i = i + 1;
    }
    assert(results@.take(results@.len() as int) =~= results@);
    (open, protected)
}


/// Every address with a vulnerable port is among the addresses with a
/// finding, and there are never more vulnerable results than findings.
pub proof fn lemma_vulnerable_within_detected(s: Seq<ProbeResult>, x: IpAddress)
    ensures
        has_selected_ip(s, x, false) ==> has_selected_ip(s, x, true),
        selected_results(s, false).len() <= selected_results(s, true).len(),
    decreases s.len(),
{
    if s.len() > 0 {
        lemma_vulnerable_within_detected(s.drop_last(), x);
    }
}

/// The vulnerable and protected counts add up to the number of findings.
pub proof fn lemma_counts_add_up(s: Seq<ProbeResult>)
    ensures
        status_count(s, PortStatus::Open) + status_count(s, PortStatus::OpenProtected) == selected_results(
            s,
            true,
        ).len(),
        status_count(s, PortStatus::Open) == selected_results(s, false).len(),
    decreases s.len(),
{
    if s.len() > 0 {
        lemma_counts_add_up(s.drop_last());
    }
}

} // verus!
