# ampscan

A verified library for auditing networks for ports that can be abused in
DDoS amplification attacks, with the command-line program around it.

## Layout

- `src/` — the library, verified with Verus:
  - `scanner/probes.rs` — probe payloads for each protocol, checks on UDP
    replies, the verdict on each exchange and the UDP retry decisions;
  - `scanner/targets.rs` — CIDR prefixes and single targets: size limits
    and expansion into the addresses to probe;
  - `scanner/result.rs` — probe results and the scan report with its
    views (vulnerable results and addresses, counts per service);
  - `scanner/mod.rs` — starting a scan, walking its (address, port)
    probes, taking in each probe result, inferring closed ports and
    closing the report;
  - `scanner/run.rs` — a scan in progress: it hands out every (address,
    port) probe once and builds each result itself, so a finished scan
    holds exactly one result per pair;
  - `db/` — records, the default ports, and the rules of the repositories;
  - `auth.rs` — Argon2id password hashing and the rules for new passwords;
  - `tui/` — the state of the terminal interface, its key handling
    (including pausing and resuming a scan with Space) and the
    results-viewer layout;
  - `report.rs`, `text.rs` — text for the PDF report and for tables;
  - `sys_limits.rs` — what to do about the open-file limit.
- `app/` — the program: command line, encrypted database, network I/O,
  terminal drawing and PDF writing.
- `tests/` — tests of the library.
