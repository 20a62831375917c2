//! Scanning engine: prefix expansion, probe planning and result handling.
//!
//! The network work itself (sending probes, waiting on sockets, running
//! probes concurrently) is done by the caller; this module decides what to
//! scan, what to do with each probe result, and how the finished report
//! reads.

pub mod probes;
pub mod result;
pub mod run;
pub mod targets;

use crate::db::models::{Port, Prefix};
use crate::scanner::result::{
    has_selected_ip, ip_well_formed, selected_ips, strictly_sorted, IpAddress, PortStatus,
    ProbeResult, ScanReport,
};
use crate::scanner::targets::{
    all_scannable, in_some_prefix, plan_scan, prefix_addresses, reports_first_bad_prefix, ScanError,
};
use crate::text::{contains_chars, contains_str};
use vstd::prelude::*;

verus! {

/// Configuration for a scan run.
pub struct ScanConfig {
    /// Maximum number of probes in flight at once.
    pub concurrency: usize,
    /// Time allowed for each probe, in seconds.
    pub timeout_secs: u64,
    /// Extra attempts for a UDP probe that got no reply.
    pub retries: usize,
}

impl Default for ScanConfig {
    /// 256 probes in flight, 3 seconds per probe, 2 retries.
    fn default() -> (config: Self)
        ensures
            config.concurrency == 256,
            config.timeout_secs == 3,
            config.retries == 2,
    {
        ScanConfig { concurrency: 256, timeout_secs: 3, retries: 2 }
    }
}

/// A fresh scan identifier: a random (version 4) UUID in its hyphenated
/// text form (`uuid::Uuid::new_v4`). Only its length, 36 characters, is
/// claimed: the value is random.
#[verifier::external_body]
pub(crate) fn new_scan_id() -> (id: String)
    ensures
        id@.len() == 36,
{
    uuid::Uuid::new_v4().to_string()
}

/// Prepares a scan of the given prefixes with the given ports: expands the
/// prefixes (see [`plan_scan`]) and opens a report under a fresh scan id,
/// started now, carrying the prefix texts and the address and probe
/// totals. Returns the report and the addresses to probe, in increasing
/// order. A scan with no address at all is finished at once.
pub fn begin_scan(ports: &Vec<Port>, prefixes: &Vec<Prefix>) -> (r: Result<(ScanReport, Vec<IpAddress>), ScanError>)
    ensures
        r is Ok <==> all_scannable(prefixes@) && prefix_addresses(prefixes@).len() * ports@.len() <= usize::MAX,
        !all_scannable(prefixes@) ==> (r matches Err(e) && reports_first_bad_prefix(e, prefixes@)),
        all_scannable(prefixes@) && prefix_addresses(prefixes@).len() * ports@.len() > usize::MAX ==> (r matches Err(
            ScanError::TooManyProbes,
        )),
        r matches Ok((report, ips)) ==> {
            &&& strictly_sorted(ips@)
            &&& forall|k: int| 0 <= k < ips@.len() ==> ip_well_formed(#[trigger] ips@[k])
            &&& forall|x: IpAddress| ips@.contains(x) <==> in_some_prefix(x, prefixes@)
            &&& ips@.len() == prefix_addresses(prefixes@).len()
            &&& report.scan_id@.len() == 36
            &&& report.total_ips == ips@.len()
            &&& report.total_probes == ips@.len() * ports@.len()
            &&& report.results@.len() == 0
            &&& (report.finished_at is Some <==> ips@.len() == 0)
            &&& report.prefixes_scanned@.len() == prefixes@.len()
            &&& forall|i: int| 0 <= i < prefixes@.len() ==> #[trigger] report.prefixes_scanned@[i]@
                == prefixes@[i].prefix@
        },
{
    match plan_scan(ports.len(), prefixes) {
        Err(e) => Err(e),
        Ok(plan) => {
            let mut report = ScanReport::new(new_scan_id(), plan.prefixes_scanned);
            report.total_ips = plan.total_ips;
            report.total_probes = plan.total_probes;
            if plan.total_ips == 0 {
                report.finalize();
            }
            Ok((report, plan.ips))
        },
    }
}

/// The probe reported that the process ran out of file descriptors.
pub open spec fn is_exhaustion_report(s: PortStatus) -> bool {
    s matches PortStatus::Error(e) && contains_chars(e@, "CRITICAL_FD_EXHAUSTION"@)
}

/// What became of a probe result handed to the report.
pub enum ProbeIntake {
    /// The result was added to the report.
    Recorded,
    /// The process ran out of file descriptors: the scan must stop. The
    /// probe's error message is carried.
    Abort(String),
}

/// Takes one finished probe into the report: a probe that reports
/// file-descriptor exhaustion stops the scan and is not recorded; any other
/// result is appended.
pub fn take_probe_result(report: &mut ScanReport, result: ProbeResult) -> (intake: ProbeIntake)
    ensures
        is_exhaustion_report(result.status) ==> {
            &&& (intake matches ProbeIntake::Abort(m) && result.status matches PortStatus::Error(e) && m@ == e@)
            &&& *final(report) == *old(report)
        },
        !is_exhaustion_report(result.status) ==> {
            &&& intake is Recorded
            &&& final(report).results@ == old(report).results@.push(result)
            &&& final(report).scan_id == old(report).scan_id
            &&& final(report).started_at == old(report).started_at
            &&& final(report).finished_at == old(report).finished_at
            &&& final(report).prefixes_scanned == old(report).prefixes_scanned
            &&& final(report).total_ips == old(report).total_ips
            &&& final(report).total_probes == old(report).total_probes
        },
{
    if let PortStatus::Error(e) = &result.status {
        if contains_str(e.as_str(), "CRITICAL_FD_EXHAUSTION") {
            return ProbeIntake::Abort(e.clone());
        }
    }
    report.results.push(result);
    ProbeIntake::Recorded
}

/// The status a result takes once the scan is over: a port that gave no
/// conclusion on a host that answered on some port (open or protected) is
/// closed; every other status stays.
pub open spec fn inferred_status(results: Seq<ProbeResult>, r: ProbeResult) -> PortStatus {
    if r.status is Inconclusive && has_selected_ip(results, r.ip, true) {
        PortStatus::Closed
    } else {
        r.status
    }
}

/// The results with closed ports inferred on the hosts known to be alive.
pub open spec fn with_closed_inferred(results: Seq<ProbeResult>) -> Seq<ProbeResult> {
    Seq::new(
        results.len(),
        |i: int| ProbeResult { status: inferred_status(results, results[i]), ..results[i] },
    )
}

/// Whether `ip` occurs in an address list kept in increasing order.
fn contains_sorted(v: &Vec<IpAddress>, ip: IpAddress) -> (found: bool)
    requires
        strictly_sorted(v@),
    ensures
        found == v@.contains(ip),
{
    let mut lo: usize = 0;
    let mut hi: usize = v.len();
    while lo < hi
        invariant
            strictly_sorted(v@),
            0 <= lo <= hi <= v@.len(),
            forall|k: int| 0 <= k < lo ==> crate::scanner::result::ip_key(v@[k]) < crate::scanner::result::ip_key(ip),
            forall|k: int| hi <= k < v@.len() ==> crate::scanner::result::ip_key(ip) < crate::scanner::result::ip_key(v@[k]),
        decreases hi - lo,
    {
        let mid = lo + (hi - lo) / 2;
        if v[mid].less_than(&ip) {
            lo = mid + 1;
        } else if ip.less_than(&v[mid]) {
            hi = mid;
        } else {
            proof {
                crate::scanner::result::lemma_ip_key_injective(v@[mid as int], ip);
            }
            return true;
        }
    }
    proof {
        if v@.contains(ip) {
            let k = choose|k: int| 0 <= k < v@.len() && v@[k] == ip;
            assert(crate::scanner::result::ip_key(v@[k]) == crate::scanner::result::ip_key(ip));
        }
    }
    false
}

/// Marks as closed every inconclusive port of a host that answered on some
/// other port: the host is reachable, the port is just filtered.
pub fn infer_closed_ports(results: &mut Vec<ProbeResult>)
    ensures
        final(results)@ == with_closed_inferred(old(results)@),
{
    let alive = selected_ips(results, true);
    let ghost orig = results@;
    let n = results.len();
    let mut i: usize = 0;
    while i < n
        invariant
            n == orig.len(),
            results@.len() == n,
            i <= n,
            strictly_sorted(alive@),
            forall|x: IpAddress| alive@.contains(x) <==> has_selected_ip(orig, x, true),
            forall|k: int| 0 <= k < i ==> #[trigger] results@[k] == with_closed_inferred(orig)[k],
            forall|k: int| i <= k < n ==> #[trigger] results@[k] == orig[k],
        decreases n - i,
    {
        let is_open_question = matches!(results[i].status, PortStatus::Inconclusive);
        if is_open_question && contains_sorted(&alive, results[i].ip) {
            let mut closed = results[i].duplicate();
            closed.status = PortStatus::Closed;
            results.set(i, closed);
        }
        proof {
            assert(results@[i as int] == with_closed_inferred(orig)[i as int]);
        }
        i = i + 1;
    }
    proof {
        assert(results@ =~= with_closed_inferred(orig));
    }
}

/// The step at which a scan with `port_count` ports per address probes
/// port `j` of address `i`.
pub open spec fn probe_step(i: int, j: int, port_count: int) -> int {
    i * port_count + j
}

/// The probe taken at step `k` of a scan with `port_count` ports per
/// address: the index of the address and the index of the port. Addresses
/// are walked in order, and for each address every port in order.
pub open spec fn probe_pair(k: int, port_count: int) -> (int, int) {
    (k / port_count, k % port_count)
}

/// Walks the probes of a scan: every pair of an address index below
/// `ip_count` and a port index below `port_count`, one per call of
/// [`ProbeCursor::next_probe`]. Its view is (steps taken, address count,
/// port count).
pub struct ProbeCursor {
    next: usize,
    ip_count: usize,
    port_count: usize,
}

impl View for ProbeCursor {
    type V = (nat, nat, nat);

    closed spec fn view(&self) -> (nat, nat, nat) {
        (self.next as nat, self.ip_count as nat, self.port_count as nat)
    }
}

impl ProbeCursor {
    #[verifier::type_invariant]
    spec fn steps_within_total(self) -> bool {
        self.ip_count * self.port_count <= usize::MAX && self.next <= self.ip_count * self.port_count
    }

    /// A cursor before the first probe of `ip_count` addresses times
    /// `port_count` ports; `None` when that number of probes does not fit
    /// in a `usize`.
    pub fn new(ip_count: usize, port_count: usize) -> (r: Option<ProbeCursor>)
        ensures
            r is Some <==> ip_count * port_count <= usize::MAX,
            r matches Some(c) ==> c@ == (0nat, ip_count as nat, port_count as nat),
    {
        match ip_count.checked_mul(port_count) {
            None => None,
            Some(_) => Some(ProbeCursor { next: 0, ip_count, port_count }),
        }
    }

    /// A cursor over no probe at all.
    pub(crate) fn idle() -> (c: ProbeCursor)
        ensures
            c@ == (0nat, 0nat, 0nat),
    {
        ProbeCursor { next: 0, ip_count: 0, port_count: 0 }
    }

    /// The next probe, as (address index, port index), or `None` once every
    /// pair has been handed out.
    pub fn next_probe(&mut self) -> (r: Option<(usize, usize)>)
        ensures
            old(self)@.1 == final(self)@.1,
            old(self)@.2 == final(self)@.2,
            old(self)@.0 < old(self)@.1 * old(self)@.2 ==> {
                &&& r matches Some((i, j)) && (i as int, j as int) == probe_pair(
                    old(self)@.0 as int,
                    old(self)@.2 as int,
                )
                &&& final(self)@.0 == old(self)@.0 + 1
            },
            old(self)@.0 >= old(self)@.1 * old(self)@.2 ==> r is None && final(self)@ == old(self)@,
    {
        proof {
            use_type_invariant(&*self);
        }
        let k = self.next;
        if self.port_count == 0 || k >= self.ip_count * self.port_count {
            proof {
                if self.port_count == 0 {
                    assert(self.ip_count * self.port_count == 0) by (nonlinear_arith)
                        requires
                            self.port_count == 0,
                    ;
                }
            }
            return None;
        }
        proof {
            lemma_probe_pair_in_range(k as int, self.ip_count as int, self.port_count as int);
        }
        self.next = k + 1;
        Some((k / self.port_count, k % self.port_count))
    }
}

proof fn lemma_probe_pair_in_range(k: int, ni: int, np: int)
    requires
        0 <= k < ni * np,
        np > 0,
    ensures
        0 <= probe_pair(k, np).0 < ni,
        0 <= probe_pair(k, np).1 < np,
{
    vstd::arithmetic::div_mod::lemma_fundamental_div_mod(k, np);
    vstd::arithmetic::div_mod::lemma_div_pos_is_pos(k, np);
    vstd::arithmetic::div_mod::lemma_mod_bound(k, np);
    let q = k / np;
    if q >= ni {
        vstd::arithmetic::mul::lemma_mul_inequality(ni, q, np);
        assert(ni * np <= q * np);
        assert(np * q == q * np) by (nonlinear_arith);
    }
}

/// A walk of the probes of `ni` addresses times `np` ports hands out each
/// (address, port) pair exactly once: every step names an address below
/// `ni` and a port below `np`, two different steps name different pairs,
/// and every such pair is named, at step [`probe_step`]`(i, j, np)`.
pub proof fn lemma_probe_walk_covers_each_pair_once(ni: int, np: int)
    requires
        ni >= 0,
        np >= 0,
    ensures
        forall|k: int|
            0 <= k < ni * np ==> 0 <= #[trigger] probe_pair(k, np).0 < ni && 0 <= probe_pair(k, np).1 < np,
        forall|k1: int, k2: int|
            0 <= k1 < ni * np && 0 <= k2 < ni * np && k1 != k2 ==> #[trigger] probe_pair(k1, np)
                != #[trigger] probe_pair(k2, np),
        forall|i: int, j: int|
            0 <= i < ni && 0 <= j < np ==> 0 <= #[trigger] probe_step(i, j, np) < ni * np && probe_pair(
                probe_step(i, j, np),
                np,
            ) == (i, j),
{
    assert forall|k: int| 0 <= k < ni * np implies 0 <= #[trigger] probe_pair(k, np).0 < ni && 0 <= probe_pair(
        k,
        np,
    ).1 < np by {
        if np == 0 {
            assert(ni * np == 0) by (nonlinear_arith)
                requires
                    np == 0,
            ;
        } else {
            lemma_probe_pair_in_range(k, ni, np);
        }
    }
    assert forall|k1: int, k2: int|
        0 <= k1 < ni * np && 0 <= k2 < ni * np && k1 != k2 implies #[trigger] probe_pair(k1, np)
            != #[trigger] probe_pair(k2, np) by {
        if np == 0 {
            assert(ni * np == 0) by (nonlinear_arith)
                requires
                    np == 0,
            ;
        } else {
            vstd::arithmetic::div_mod::lemma_fundamental_div_mod(k1, np);
            vstd::arithmetic::div_mod::lemma_fundamental_div_mod(k2, np);
        }
    }
    assert forall|i: int, j: int| 0 <= i < ni && 0 <= j < np implies 0 <= #[trigger] probe_step(i, j, np) < ni * np
        && probe_pair(probe_step(i, j, np), np) == (i, j) by {
        lemma_probe_pair_of_step(i, j, ni, np);
    }
}

proof fn lemma_probe_pair_of_step(i: int, j: int, ni: int, np: int)
    requires
        0 <= i < ni,
        0 <= j < np,
    ensures
        0 <= i * np + j < ni * np,
        probe_pair(i * np + j, np) == (i, j),
{
    assert(0 <= i * np + j < ni * np) by (nonlinear_arith)
        requires
            0 <= i < ni,
            0 <= j < np,
    ;
    vstd::arithmetic::div_mod::lemma_fundamental_div_mod_converse(i * np + j, np, i, j);
}

/// Closes a scan: a scan stopped by file-descriptor exhaustion fails with
/// the probe's message; otherwise closed ports are inferred on the hosts
/// known to be alive and the report is marked finished.
pub fn conclude_scan(report: ScanReport, exhaustion: Option<String>) -> (r: Result<ScanReport, ScanError>)
    ensures
        exhaustion matches Some(m) ==> (r matches Err(ScanError::ResourceExhausted(e)) && e@ == m@),
        exhaustion is None ==> (r matches Ok(done) && {
            &&& done.results@ == with_closed_inferred(report.results@)
            &&& done.finished_at is Some
            &&& done.scan_id == report.scan_id
            &&& done.started_at == report.started_at
            &&& done.prefixes_scanned == report.prefixes_scanned
            &&& done.total_ips == report.total_ips
            &&& done.total_probes == report.total_probes
        }),
{
    match exhaustion {
        Some(m) => Err(ScanError::ResourceExhausted(m)),
        None => {
            let mut done = report;
            infer_closed_ports(&mut done.results);
            done.finalize();
            Ok(done)
        },
    }
}

/// Inferring closed ports leaves the set of hosts with a finding as it was.
pub proof fn lemma_inference_keeps_alive_hosts(results: Seq<ProbeResult>, x: IpAddress)
    ensures
        has_selected_ip(with_closed_inferred(results), x, true) == has_selected_ip(results, x, true),
{
    let s = with_closed_inferred(results);
    if has_selected_ip(results, x, true) {
        let k = choose|k: int| 0 <= k < results.len() && crate::scanner::result::selected(results[k].status, true) && results[k].ip == x;
        assert(s[k].status == results[k].status);
    }
    if has_selected_ip(s, x, true) {
        let k = choose|k: int| 0 <= k < s.len() && crate::scanner::result::selected(s[k].status, true) && s[k].ip == x;
        assert(s[k].ip == results[k].ip);
    }
}

/// Inferring closed ports a second time changes nothing.
pub proof fn lemma_inference_idempotent(results: Seq<ProbeResult>)
    ensures
        with_closed_inferred(with_closed_inferred(results)) == with_closed_inferred(results),
{
    let s = with_closed_inferred(results);
    assert forall|k: int| 0 <= k < s.len() implies #[trigger] with_closed_inferred(s)[k] == s[k] by {
        lemma_inference_keeps_alive_hosts(results, s[k].ip);
    }
    assert(with_closed_inferred(s) =~= s);
}

/// After inference, a port is left inconclusive only on a host with no
/// finding, and only an inconclusive port ever changes (to closed).
pub proof fn lemma_inference_changes_only_inconclusive(results: Seq<ProbeResult>, k: int)
    requires
        0 <= k < results.len(),
    ensures
        with_closed_inferred(results)[k].status is Inconclusive ==> !has_selected_ip(
            with_closed_inferred(results),
            results[k].ip,
            true,
        ),
        with_closed_inferred(results)[k].status != results[k].status ==> results[k].status is Inconclusive
            && with_closed_inferred(results)[k].status is Closed,
        with_closed_inferred(results)[k].ip == results[k].ip,
        with_closed_inferred(results)[k].port == results[k].port,
{
    lemma_inference_keeps_alive_hosts(results, results[k].ip);
}

} // verus!
