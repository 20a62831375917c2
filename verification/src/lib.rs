//! AmpScan library: probe payloads and reply checks, prefix expansion,
//! scan-report aggregation, the rules of the record store, password
//! hashing, the state of the terminal interface, and the text helpers of
//! the command line and the PDF report.

pub mod auth;
pub mod db;
pub mod report;
pub mod scanner;
pub mod sys_limits;
pub mod text;
pub mod tui;
