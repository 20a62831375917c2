//! A scan in progress: the probes handed out, address by address and port
//! by port, and the result taken back for each of them.
//!
//! The caller sends each probe it is handed and reports back, under the
//! probe's step, the status it observed; the run builds the result itself
//! from its own address and port, so the finished report holds one result
//! for every (address, port) pair of the scan and nothing else.

use crate::db::models::{Port, Prefix};
use crate::scanner::probes::probe_result;
use crate::scanner::result::{ip_well_formed, strictly_sorted, IpAddress, PortStatus, ProbeResult, ScanReport};
use crate::scanner::targets::{
    all_scannable, in_some_prefix, prefix_addresses, reports_first_bad_prefix, ScanError,
};
use crate::scanner::{
    begin_scan, conclude_scan, is_exhaustion_report, lemma_probe_walk_covers_each_pair_once, probe_pair,
    probe_step, take_probe_result, with_closed_inferred, ProbeCursor, ProbeIntake,
};
use vstd::prelude::*;

verus! {

/// A probe to send: its step in the scan, the address, and the position of
/// the port in the scan's port list.
pub struct ProbeTicket {
    pub step: usize,
    pub ip: IpAddress,
    pub port_index: usize,
}

/// `r` is a result for step `k` of a scan of `ips` times `ports`: it names
/// the address and the port of that step's pair.
pub open spec fn result_of_step(r: ProbeResult, ips: Seq<IpAddress>, ports: Seq<Port>, k: int) -> bool {
    let i = probe_pair(k, ports.len() as int).0;
    let j = probe_pair(k, ports.len() as int).1;
    &&& r.ip == ips[i]
    &&& r.port == ports[j].port
    &&& r.protocol@ == ports[j].protocol@
    &&& r.service_name@ == ports[j].name@
    &&& r.description@ == ports[j].description@
}

/// What became of a status handed back to a run.
pub enum RunIntake {
    /// The result was added to the report; a copy is carried.
    Recorded(ProbeResult),
    /// The process ran out of file descriptors: the scan must stop. The
    /// probe's error message is carried.
    Abort(String),
    /// The step was never handed out, or its result was already taken.
    Ignored,
}

/// A scan in progress.
pub struct ScanRun {
    report: ScanReport,
    ips: Vec<IpAddress>,
    ports: Vec<Port>,
    cursor: ProbeCursor,
    /// One entry per probe handed out: whether its result was taken.
    taken: Vec<bool>,
    /// The step of each result of the report, in report order.
    steps: Ghost<Seq<int>>,
}

impl ScanRun {
    #[verifier::type_invariant]
    spec fn results_match_steps(self) -> bool {
        let n = self.ips@.len() * self.ports@.len();
        &&& self.cursor@.1 == self.ips@.len()
        &&& self.cursor@.2 == self.ports@.len()
        &&& n <= usize::MAX
        &&& self.cursor@.0 <= n
        &&& self.taken@.len() == self.cursor@.0
        &&& self.steps@.len() == self.report.results@.len()
        &&& forall|m: int|
            0 <= m < self.steps@.len() ==> {
                &&& 0 <= #[trigger] self.steps@[m] < self.taken@.len()
                &&& self.taken@[self.steps@[m]]
                &&& result_of_step(self.report.results@[m], self.ips@, self.ports@, self.steps@[m])
            }
        &&& forall|m1: int, m2: int|
            0 <= m1 < self.steps@.len() && 0 <= m2 < self.steps@.len() && m1 != m2 ==> #[trigger] self.steps@[m1]
                != #[trigger] self.steps@[m2]
        &&& forall|k: int| 0 <= k < self.taken@.len() && #[trigger] self.taken@[k] ==> self.steps@.contains(k)
    }

    /// The report being filled.
    pub closed spec fn report_of(self) -> ScanReport {
        self.report
    }

    /// The addresses of the scan, in the order they are walked.
    pub closed spec fn addresses(self) -> Seq<IpAddress> {
        self.ips@
    }

    /// The ports of the scan, in the order they are walked for each address.
    pub closed spec fn port_list(self) -> Seq<Port> {
        self.ports@
    }

    /// How many probes have been handed out.
    pub closed spec fn handed_out(self) -> nat {
        self.cursor@.0
    }

    /// Whether the result of step `k` has been taken.
    pub closed spec fn taken_at(self, k: int) -> bool {
        0 <= k < self.taken@.len() && self.taken@[k]
    }

    /// The step whose result stands at position `m` of the report.
    pub closed spec fn step_of(self, m: int) -> int {
        self.steps@[m]
    }

    /// Every probe has been handed out and every result taken.
    pub open spec fn complete(self) -> bool {
        &&& self.handed_out() == self.addresses().len() * self.port_list().len()
        &&& forall|k: int| 0 <= k < self.handed_out() ==> #[trigger] self.taken_at(k)
    }

    /// Starts a scan of the given prefixes with the given ports, as
    /// [`begin_scan`] does; the run then hands out every (address, port)
    /// pair once, addresses in increasing order and, for each address, the
    /// ports in the order given.
    pub fn start(ports: Vec<Port>, prefixes: &Vec<Prefix>) -> (r: Result<ScanRun, ScanError>)
        ensures
            r is Ok <==> all_scannable(prefixes@) && prefix_addresses(prefixes@).len() * ports@.len()
                <= usize::MAX,
            !all_scannable(prefixes@) ==> (r matches Err(e) && reports_first_bad_prefix(e, prefixes@)),
            all_scannable(prefixes@) && prefix_addresses(prefixes@).len() * ports@.len() > usize::MAX ==> (
            r matches Err(ScanError::TooManyProbes)),
            r matches Ok(run) ==> {
                let ips = run.addresses();
                let report = run.report_of();
                &&& strictly_sorted(ips)
                &&& forall|k: int| 0 <= k < ips.len() ==> ip_well_formed(#[trigger] ips[k])
                &&& forall|x: IpAddress| ips.contains(x) <==> in_some_prefix(x, prefixes@)
                &&& ips.len() == prefix_addresses(prefixes@).len()
                &&& run.port_list() == ports@
                &&& run.handed_out() == 0
                &&& report.scan_id@.len() == 36
                &&& report.total_ips == ips.len()
                &&& report.total_probes == ips.len() * ports@.len()
                &&& report.results@.len() == 0
                &&& (report.finished_at is Some <==> ips.len() == 0)
                &&& report.prefixes_scanned@.len() == prefixes@.len()
                &&& forall|i: int| 0 <= i < prefixes@.len() ==> #[trigger] report.prefixes_scanned@[i]@
                    == prefixes@[i].prefix@
            },
    {
        match begin_scan(&ports, prefixes) {
            Err(e) => Err(e),
            Ok((report, ips)) => match ProbeCursor::new(ips.len(), ports.len()) {
                None => Err(ScanError::TooManyProbes),
                Some(cursor) => {
                    let run = ScanRun {
                        report,
                        ips,
                        ports,
                        cursor,
                        taken: Vec::new(),
                        steps: Ghost(Seq::empty()),
                    };
                    Ok(run)
                },
            },
        }
    }

    /// The report being filled.
    pub fn report(&self) -> (r: &ScanReport)
        ensures
            *r == self.report_of(),
    {
        &self.report
    }

    /// The port at position `j` of the scan's port list.
    pub fn port_at(&self, j: usize) -> (p: &Port)
        requires
            j < self.port_list().len(),
        ensures
            *p == self.port_list()[j as int],
    {
        &self.ports[j]
    }

    /// Hands out the next probe: step `k` probes port `k % P` of address
    /// `k / P` (P ports). `None` once every pair has been handed out.
    pub fn next_probe(&mut self) -> (t: Option<ProbeTicket>)
        ensures
            final(self).report_of() == old(self).report_of(),
            final(self).addresses() == old(self).addresses(),
            final(self).port_list() == old(self).port_list(),
            forall|m: int| #[trigger] final(self).step_of(m) == old(self).step_of(m),
            forall|k: int| 0 <= k < old(self).handed_out() ==> #[trigger] final(self).taken_at(k) == old(
                self,
            ).taken_at(k),
            old(self).handed_out() < old(self).addresses().len() * old(self).port_list().len() ==> {
                let k = old(self).handed_out() as int;
                let (i, j) = probe_pair(k, old(self).port_list().len() as int);
                &&& t matches Some(ticket) && ticket.step == k && ticket.ip == old(self).addresses()[i]
                    && ticket.port_index == j
                &&& final(self).handed_out() == k + 1
                &&& !final(self).taken_at(k)
            },
            old(self).handed_out() >= old(self).addresses().len() * old(self).port_list().len() ==> t is None
                && final(self).handed_out() == old(self).handed_out(),
    {
        let mut this = ScanRun::placeholder();
        std::mem::swap(self, &mut this);
        proof {
            use_type_invariant(&this);
        }
        let ScanRun { report, ips, ports, mut cursor, mut taken, steps } = this;
        let k = taken.len();
        let ticket = match cursor.next_probe() {
            None => None,
            Some((i, j)) => {
                proof {
                    lemma_probe_walk_covers_each_pair_once(ips@.len() as int, ports@.len() as int);
                }
                let ip = ips[i];
                taken.push(false);
                Some(ProbeTicket { step: k, ip, port_index: j })
            },
        };
        proof {
            assert forall|q: int| 0 <= q < taken@.len() && #[trigger] taken@[q] implies steps@.contains(q) by {
                assert(this.taken@[q]);
            }
        }
        *self = ScanRun { report, ips, ports, cursor, taken, steps };
        ticket
    }

    /// A run over no probe, to stand in while a run is being updated.
    fn placeholder() -> (r: ScanRun) {
        ScanRun {
            report: ScanReport {
                scan_id: String::new(),
                started_at: 0,
                finished_at: None,
                prefixes_scanned: Vec::new(),
                total_ips: 0,
                total_probes: 0,
                results: Vec::new(),
            },
            ips: Vec::new(),
            ports: Vec::new(),
            cursor: ProbeCursor::idle(),
            taken: Vec::new(),
            steps: Ghost(Seq::empty()),
        }
    }

    /// Takes back the status observed for the probe of step `step`. The
    /// run builds the result from its own address and port for that step.
    /// A step that was not handed out, or whose result was already taken,
    /// is ignored; a status that reports file-descriptor exhaustion stops
    /// the scan and is not recorded.
    pub fn record(&mut self, step: usize, status: PortStatus, latency_ms: Option<u64>) -> (intake: RunIntake)
        ensures
            final(self).addresses() == old(self).addresses(),
            final(self).port_list() == old(self).port_list(),
            final(self).handed_out() == old(self).handed_out(),
            step >= old(self).handed_out() || old(self).taken_at(step as int) ==> intake is Ignored
                && final(self).report_of() == old(self).report_of() && forall|k: int| #[trigger]
                final(self).taken_at(k) == old(self).taken_at(k),
            step < old(self).handed_out() && !old(self).taken_at(step as int) && is_exhaustion_report(status)
                ==> (intake matches RunIntake::Abort(m) && status matches PortStatus::Error(e) && m@ == e@)
                && final(self).report_of() == old(self).report_of() && forall|k: int| #[trigger]
                final(self).taken_at(k) == old(self).taken_at(k),
            step < old(self).handed_out() && !old(self).taken_at(step as int) && !is_exhaustion_report(status)
                ==> {
                let before = old(self).report_of();
                let after = final(self).report_of();
                let n = before.results@.len();
                &&& intake matches RunIntake::Recorded(copy) && copy == after.results@[n as int]
                &&& after.results@.len() == n + 1
                &&& after.results@.take(n as int) == before.results@
                &&& result_of_step(after.results@[n as int], old(self).addresses(), old(self).port_list(), step as int)
                &&& after.results@[n as int].status == status
                &&& after.results@[n as int].response_time_ms == latency_ms
                &&& after == (ScanReport { results: after.results, ..before })
                &&& final(self).step_of(n as int) == step
                &&& forall|m: int| 0 <= m < n ==> #[trigger] final(self).step_of(m) == old(self).step_of(m)
                &&& forall|k: int| #[trigger] final(self).taken_at(k) == (old(self).taken_at(k) || k == step)
            },
    {
        let mut this = ScanRun::placeholder();
        std::mem::swap(self, &mut this);
        proof {
            use_type_invariant(&this);
        }
        let ScanRun { mut report, ips, ports, cursor, mut taken, steps } = this;
        let mut new_steps = steps;
        let intake = if step >= taken.len() || taken[step] {
            RunIntake::Ignored
        } else {
            let np = ports.len();
            proof {
                if np == 0 {
                    assert(ips@.len() * np == 0) by (nonlinear_arith)
                        requires
                            np == 0,
                    ;
                }
            }
            let i = step / np;
            let j = step % np;
            proof {
                lemma_probe_walk_covers_each_pair_once(ips@.len() as int, np as int);
                assert(0 <= probe_pair(step as int, np as int).0 < ips@.len());
            }
            let result = probe_result(ips[i], &ports[j], status, latency_ms);
            let copy = result.duplicate();
            let ghost before = report.results@;
            match take_probe_result(&mut report, result) {
                ProbeIntake::Abort(m) => RunIntake::Abort(m),
                ProbeIntake::Recorded => {
                    taken.set(step, true);
                    let ghost old_steps = steps@;
                    new_steps = Ghost(steps@.push(step as int));
                    proof {
                        assert(report.results@ == before.push(copy));
                        assert(report.results@.take(before.len() as int) =~= before);
                        assert forall|k: int| 0 <= k < taken@.len() && #[trigger] taken@[k] implies new_steps@.contains(k) by {
                            if k == step {
                                assert(new_steps@[old_steps.len() as int] == k);
                            } else {
                                assert(old_steps.contains(k));
                                let m = choose|m: int| 0 <= m < old_steps.len() && old_steps[m] == k;
                                assert(new_steps@[m] == k);
                            }
                        }
                    }
                    RunIntake::Recorded(copy)
                },
            }
        };
        *self = ScanRun { report, ips, ports, cursor, taken, steps: new_steps };
        intake
    }

    /// Whether every probe has been handed out and every result taken.
    pub fn is_complete(&self) -> (b: bool)
        ensures
            b == self.complete(),
    {
        proof {
            use_type_invariant(self);
        }
        if self.taken.len() < self.ips.len() * self.ports.len() {
            return false;
        }
        let mut k: usize = 0;
        while k < self.taken.len()
            invariant
                k <= self.taken@.len(),
                self.taken@.len() == self.handed_out(),
                forall|q: int| 0 <= q < k ==> #[trigger] self.taken_at(q),
            decreases self.taken.len() - k,
        {
            if !self.taken[k] {
                assert(!self.taken_at(k as int));
                return false;
            }
            k = k + 1;
        }
        true
    }

    /// Closes the scan as [`conclude_scan`] does. When the run is complete
    /// and was not stopped, the report holds exactly one result for every
    /// (address, port) pair of the scan: as many results as pairs, each
    /// result naming the pair of its own step, no step twice, and every
    /// pair's step present.
    pub fn finish(self, exhaustion: Option<String>) -> (r: Result<ScanReport, ScanError>)
        ensures
            exhaustion matches Some(m) ==> (r matches Err(ScanError::ResourceExhausted(e)) && e@ == m@),
            exhaustion is None ==> (r matches Ok(done) && {
                let report = self.report_of();
                &&& done.results@ == with_closed_inferred(report.results@)
                &&& done.finished_at is Some
                &&& done.scan_id == report.scan_id
                &&& done.started_at == report.started_at
                &&& done.prefixes_scanned == report.prefixes_scanned
                &&& done.total_ips == report.total_ips
                &&& done.total_probes == report.total_probes
            }),
            exhaustion is None && self.complete() ==> (r matches Ok(done) && {
                let ips = self.addresses();
                let ports = self.port_list();
                let n = ips.len() * ports.len();
                &&& done.results@.len() == n
                &&& forall|m: int|
                    0 <= m < n ==> 0 <= #[trigger] self.step_of(m) < n && result_of_step(
                        done.results@[m],
                        ips,
                        ports,
                        self.step_of(m),
                    )
                &&& forall|m1: int, m2: int|
                    0 <= m1 < n && 0 <= m2 < n && m1 != m2 ==> #[trigger] self.step_of(m1) != #[trigger] self.step_of(
                        m2,
                    )
                &&& forall|i: int, j: int|
                    0 <= i < ips.len() && 0 <= j < ports.len() ==> 0 <= #[trigger] probe_step(i, j, ports.len() as int)
                        < n && exists|m: int|
                        0 <= m < n && #[trigger] self.step_of(m) == probe_step(i, j, ports.len() as int)
                            && probe_pair(self.step_of(m), ports.len() as int) == (i, j)
            }),
    {
        proof {
            use_type_invariant(&self);
        }
        let ghost s = self.steps@;
        let ghost results = self.report.results@;
        let ghost ni = self.ips@.len() as int;
        let ghost np = self.ports@.len() as int;
        proof {
            if exhaustion is None && self.complete() {
                let n = ni * np;
                lemma_probe_walk_covers_each_pair_once(ni, np);
                assert forall|k: int| 0 <= k < n implies s.contains(k) by {
                    assert(self.taken_at(k));
                }
                vstd::set_lib::lemma_int_range(0, n);
                assert(s.to_set() =~= vstd::set_lib::set_int_range(0, n)) by {
                    assert forall|k: int| s.to_set().contains(k) implies 0 <= k < n by {
                        let m = choose|m: int| 0 <= m < s.len() && s[m] == k;
                        assert(0 <= s[m] < self.taken@.len());
                    }
                }
                assert(s.no_duplicates()) by {
                    assert forall|m1: int, m2: int| 0 <= m1 < s.len() && 0 <= m2 < s.len() && m1 != m2 implies s[m1] != s[m2] by {
                        assert(self.steps@[m1] != self.steps@[m2]);
                    }
                }
                s.unique_seq_to_set();
                assert(s.len() == n);
                assert(with_closed_inferred(results).len() == n);
                assert forall|i: int, j: int|
                    0 <= i < ni && 0 <= j < np implies 0 <= #[trigger] probe_step(i, j, np) < n && exists|m: int|
                    0 <= m < n && #[trigger] self.step_of(m) == probe_step(i, j, np) && probe_pair(
                        self.step_of(m),
                        np,
                    ) == (i, j) by {
                    let k = probe_step(i, j, np);
                    assert(0 <= k < n && probe_pair(k, np) == (i, j));
                    assert(s.contains(k));
                    let m = choose|m: int| 0 <= m < s.len() && s[m] == k;
                    assert(self.step_of(m) == k);
                }
                assert forall|m: int| 0 <= m < n implies 0 <= #[trigger] self.step_of(m) < n && result_of_step(
                    with_closed_inferred(results)[m],
                    self.ips@,
                    self.ports@,
                    self.step_of(m),
                ) by {
                    assert(0 <= s[m] < self.taken@.len());
                    assert(result_of_step(results[m], self.ips@, self.ports@, s[m]));
                }
            }
        }
        conclude_scan(self.report, exhaustion)
    }
}

} // verus!
