//! Records kept in the database: amplification ports, network prefixes and
//! administrator users.

use vstd::prelude::*;

verus! {

/// An amplification port to be tested.
#[derive(Clone, Debug)]
pub struct Port {
    pub id: i64,
    pub port: u16,
    /// "udp" or "tcp"
    pub protocol: String,
    /// Human-readable name (e.g. "DNS", "NTP", "SNMP")
    pub name: String,
    /// Description of the amplification risk
    pub description: String,
    /// Probe type: "dns", "snmp", "ntp", "udp_payload", "tcp_connect", ...
    pub probe_type: String,
    /// Raw payload bytes for the "udp_payload" probe type
    pub probe_payload: Option<Vec<u8>>,
    /// Whether this port is enabled for scanning
    pub enabled: bool,
    pub created_at: String,
    pub updated_at: String,
}

/// A network prefix (CIDR) to be scanned.
#[derive(Clone, Debug)]
pub struct Prefix {
    pub id: i64,
    /// CIDR notation, e.g. "192.168.0.0/24" or "2001:db8::/120"
    pub prefix: String,
    /// Description of this prefix (e.g. customer name, AS number)
    pub description: String,
    /// 4 for IPv4, 6 for IPv6
    pub ip_version: u8,
    /// Whether this prefix is enabled for scanning
    pub enabled: bool,
    pub created_at: String,
    pub updated_at: String,
}

/// An administrator user.
#[derive(Clone, Debug)]
pub struct User {
    pub id: i64,
    pub username: String,
    /// Argon2id hash in PHC string form
    pub password_hash: String,
    pub created_at: String,
    pub updated_at: String,
}

} // verus!
