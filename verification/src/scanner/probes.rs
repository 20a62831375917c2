//! Probe payloads and the classification of probe replies.

use crate::db::models::Port;
use crate::scanner::result::{is_finding, now_millis, IpAddress, PortStatus, ProbeResult};
use crate::text::str_eq;
use rand::Rng;
use vstd::prelude::*;

verus! {

// ───────────────────────────── payload specifications ─────────────────────────────

/// RIPv1 request for the full routing table (command 1, version 1, metric 16).
pub open spec fn ripv1_request() -> Seq<u8> {
    seq![
        0x01u8, 0x01, 0x00, 0x00, 0x00, 0x00, 0x00, 0x00, 0x00, 0x00, 0x00, 0x00,
        0x00, 0x00, 0x00, 0x00, 0x00, 0x00, 0x00, 0x00, 0x00, 0x00, 0x00, 0x10,
    ]
}

/// Builds the payload described by [`ripv1_request`].
pub fn build_ripv1_payload() -> (pkt: Vec<u8>)
    ensures
        pkt@ == ripv1_request(),
{
    let pkt = vec![
        0x01u8, 0x01, 0x00, 0x00, 0x00, 0x00, 0x00, 0x00, 0x00, 0x00, 0x00, 0x00,
        0x00, 0x00, 0x00, 0x00, 0x00, 0x00, 0x00, 0x00, 0x00, 0x00, 0x00, 0x10,
    ];
    assert(pkt@ =~= ripv1_request());
    pkt
}

/// PTR query for `_services._dns-sd._udp.local` (transaction id 0).
pub open spec fn mdns_query() -> Seq<u8> {
    seq![
        0x00u8, 0x00, 0x00, 0x00, 0x00, 0x01, 0x00, 0x00, 0x00, 0x00, 0x00, 0x00,
        0x09, 0x5f, 0x73, 0x65, 0x72, 0x76, 0x69, 0x63, 0x65, 0x73, 0x07, 0x5f,
        0x64, 0x6e, 0x73, 0x2d, 0x73, 0x64, 0x04, 0x5f, 0x75, 0x64, 0x70, 0x05,
        0x6c, 0x6f, 0x63, 0x61, 0x6c, 0x00, 0x00, 0x0c, 0x00, 0x01,
    ]
}

/// Builds the payload described by [`mdns_query`].
pub fn build_mdns_payload() -> (pkt: Vec<u8>)
    ensures
        pkt@ == mdns_query(),
{
    let pkt = vec![
        0x00u8, 0x00, 0x00, 0x00, 0x00, 0x01, 0x00, 0x00, 0x00, 0x00, 0x00, 0x00,
        0x09, 0x5f, 0x73, 0x65, 0x72, 0x76, 0x69, 0x63, 0x65, 0x73, 0x07, 0x5f,
        0x64, 0x6e, 0x73, 0x2d, 0x73, 0x64, 0x04, 0x5f, 0x75, 0x64, 0x70, 0x05,
        0x6c, 0x6f, 0x63, 0x61, 0x6c, 0x00, 0x00, 0x0c, 0x00, 0x01,
    ];
    assert(pkt@ =~= mdns_query());
    pkt
}

/// SNMPv2c GetRequest, community `public`, OID 1.3.6.1.2.1.1.1.0 (sysDescr.0).
pub open spec fn snmp_get_request() -> Seq<u8> {
    seq![
        0x30u8, 0x29, 0x02, 0x01, 0x01, 0x04, 0x06, 0x70, 0x75, 0x62, 0x6c, 0x69,
        0x63, 0xa0, 0x1c, 0x02, 0x04, 0x00, 0x00, 0x00, 0x01, 0x02, 0x01, 0x00,
        0x02, 0x01, 0x00, 0x30, 0x0e, 0x30, 0x0c, 0x06, 0x08, 0x2b, 0x06, 0x01,
        0x02, 0x01, 0x01, 0x01, 0x00, 0x05, 0x00,
    ]
}

/// Builds the payload described by [`snmp_get_request`].
pub fn build_snmp_payload() -> (pkt: Vec<u8>)
    ensures
        pkt@ == snmp_get_request(),
{
    let pkt = vec![
        0x30u8, 0x29, 0x02, 0x01, 0x01, 0x04, 0x06, 0x70, 0x75, 0x62, 0x6c, 0x69,
        0x63, 0xa0, 0x1c, 0x02, 0x04, 0x00, 0x00, 0x00, 0x01, 0x02, 0x01, 0x00,
        0x02, 0x01, 0x00, 0x30, 0x0e, 0x30, 0x0c, 0x06, 0x08, 0x2b, 0x06, 0x01,
        0x02, 0x01, 0x01, 0x01, 0x00, 0x05, 0x00,
    ];
    assert(pkt@ =~= snmp_get_request());
    pkt
}

/// NTP control message (mode 6) with opcode 2 (readvar).
pub open spec fn ntp_readvar_request() -> Seq<u8> {
    seq![
        0x16u8, 0x02, 0x00, 0x01, 0x00, 0x00, 0x00, 0x00, 0x00, 0x00, 0x00, 0x00,
    ]
}

/// Builds the payload described by [`ntp_readvar_request`].
pub fn build_ntp_payload() -> (pkt: Vec<u8>)
    ensures
        pkt@ == ntp_readvar_request(),
{
    let pkt = vec![
        0x16u8, 0x02, 0x00, 0x01, 0x00, 0x00, 0x00, 0x00, 0x00, 0x00, 0x00, 0x00,
    ];
    assert(pkt@ =~= ntp_readvar_request());
    pkt
}

/// SSDP `M-SEARCH` discovery request for `upnp:rootdevice`.
pub open spec fn ssdp_msearch() -> Seq<u8> {
    seq![
        0x4du8, 0x2d, 0x53, 0x45, 0x41, 0x52, 0x43, 0x48, 0x20, 0x2a, 0x20, 0x48,
        0x54, 0x54, 0x50, 0x2f, 0x31, 0x2e, 0x31, 0x0d, 0x0a, 0x48, 0x6f, 0x73,
        0x74, 0x3a, 0x32, 0x33, 0x39, 0x2e, 0x32, 0x35, 0x35, 0x2e, 0x32, 0x35,
        0x35, 0x2e, 0x32, 0x35, 0x30, 0x3a, 0x31, 0x39, 0x30, 0x30, 0x0d, 0x0a,
        0x53, 0x54, 0x3a, 0x75, 0x70, 0x6e, 0x70, 0x3a, 0x72, 0x6f, 0x6f, 0x74,
        0x64, 0x65, 0x76, 0x69, 0x63, 0x65, 0x0d, 0x0a, 0x4d, 0x61, 0x6e, 0x3a,
        0x22, 0x73, 0x73, 0x64, 0x70, 0x3a, 0x64, 0x69, 0x73, 0x63, 0x6f, 0x76,
        0x65, 0x72, 0x22, 0x0d, 0x0a, 0x4d, 0x58, 0x3a, 0x33, 0x0d, 0x0a, 0x0d,
        0x0a,
    ]
}

/// Builds the payload described by [`ssdp_msearch`].
pub fn build_ssdp_payload() -> (pkt: Vec<u8>)
    ensures
        pkt@ == ssdp_msearch(),
{
    let pkt = vec![
        0x4du8, 0x2d, 0x53, 0x45, 0x41, 0x52, 0x43, 0x48, 0x20, 0x2a, 0x20, 0x48,
        0x54, 0x54, 0x50, 0x2f, 0x31, 0x2e, 0x31, 0x0d, 0x0a, 0x48, 0x6f, 0x73,
        0x74, 0x3a, 0x32, 0x33, 0x39, 0x2e, 0x32, 0x35, 0x35, 0x2e, 0x32, 0x35,
        0x35, 0x2e, 0x32, 0x35, 0x30, 0x3a, 0x31, 0x39, 0x30, 0x30, 0x0d, 0x0a,
        0x53, 0x54, 0x3a, 0x75, 0x70, 0x6e, 0x70, 0x3a, 0x72, 0x6f, 0x6f, 0x74,
        0x64, 0x65, 0x76, 0x69, 0x63, 0x65, 0x0d, 0x0a, 0x4d, 0x61, 0x6e, 0x3a,
        0x22, 0x73, 0x73, 0x64, 0x70, 0x3a, 0x64, 0x69, 0x73, 0x63, 0x6f, 0x76,
        0x65, 0x72, 0x22, 0x0d, 0x0a, 0x4d, 0x58, 0x3a, 0x33, 0x0d, 0x0a, 0x0d,
        0x0a,
    ];
    assert(pkt@ =~= ssdp_msearch());
    pkt
}

/// TFTP read request (RRQ) for `a.pdf` in octet mode.
pub open spec fn tftp_read_request() -> Seq<u8> {
    seq![
        0x00u8, 0x01, 0x61, 0x2e, 0x70, 0x64, 0x66, 0x00, 0x6f, 0x63, 0x74, 0x65,
        0x74, 0x00,
    ]
}

/// Builds the payload described by [`tftp_read_request`].
pub fn build_tftp_payload() -> (pkt: Vec<u8>)
    ensures
        pkt@ == tftp_read_request(),
{
    let pkt = vec![
        0x00u8, 0x01, 0x61, 0x2e, 0x70, 0x64, 0x66, 0x00, 0x6f, 0x63, 0x74, 0x65,
        0x74, 0x00,
    ];
    assert(pkt@ =~= tftp_read_request());
    pkt
}

/// NetBIOS node status request (NBSTAT) for the wildcard name `*`, under
/// transaction id `txid` (big-endian in the first two bytes).
pub open spec fn netbios_status_request(txid: u16) -> Seq<u8> {
    seq![
        (txid / 256) as u8, (txid % 256) as u8, 0x00, 0x00, 0x00, 0x01, 0x00, 0x00, 0x00, 0x00, 0x00, 0x00,
        0x20, 0x43, 0x4b, 0x41, 0x41, 0x41, 0x41, 0x41, 0x41, 0x41, 0x41, 0x41,
        0x41, 0x41, 0x41, 0x41, 0x41, 0x41, 0x41, 0x41, 0x41, 0x41, 0x41, 0x41,
        0x41, 0x41, 0x41, 0x41, 0x41, 0x41, 0x41, 0x41, 0x41, 0x00, 0x00, 0x21,
        0x00, 0x01,
    ]
}

/// Builds the request of [`netbios_status_request`] for the given
/// transaction id.
pub fn build_netbios_payload_for_txid(txid: u16) -> (pkt: Vec<u8>)
    ensures
        pkt@ == netbios_status_request(txid),
{
    let hi = (txid / 256) as u8;
    let lo = (txid % 256) as u8;
    let pkt = vec![
        hi, lo, 0x00, 0x00, 0x00, 0x01, 0x00, 0x00, 0x00, 0x00, 0x00, 0x00,
        0x20, 0x43, 0x4b, 0x41, 0x41, 0x41, 0x41, 0x41, 0x41, 0x41, 0x41, 0x41,
        0x41, 0x41, 0x41, 0x41, 0x41, 0x41, 0x41, 0x41, 0x41, 0x41, 0x41, 0x41,
        0x41, 0x41, 0x41, 0x41, 0x41, 0x41, 0x41, 0x41, 0x41, 0x00, 0x00, 0x21,
        0x00, 0x01,
    ];
    assert(pkt@ =~= netbios_status_request(txid));
    pkt
}

/// A NetBIOS node status request under a fresh random transaction id, and
/// that id.
pub fn build_netbios_payload_with_txid() -> (res: (Vec<u8>, u16))
    ensures
        res.0@ == netbios_status_request(res.1),
{
    let txid = random_u16();
    (build_netbios_payload_for_txid(txid), txid)
}

/// A NetBIOS node status request under a random transaction id.
pub fn build_netbios_payload() -> (pkt: Vec<u8>)
    ensures
        exists|txid: u16| pkt@ == netbios_status_request(txid),
{
    let (pkt, txid) = build_netbios_payload_with_txid();
    pkt
}

/// RPC call to the portmapper (program 100000, version 2, procedure DUMP).
pub open spec fn rpc_dump_call() -> Seq<u8> {
    seq![
        0x00u8, 0x00, 0x00, 0x01, 0x00, 0x00, 0x00, 0x00, 0x00, 0x00, 0x00, 0x02,
        0x00, 0x01, 0x86, 0xa0, 0x00, 0x00, 0x00, 0x02, 0x00, 0x00, 0x00, 0x04,
        0x00, 0x00, 0x00, 0x00, 0x00, 0x00, 0x00, 0x00, 0x00, 0x00, 0x00, 0x00,
        0x00, 0x00, 0x00, 0x00,
    ]
}

/// Builds the payload described by [`rpc_dump_call`].
pub fn build_rpc_payload() -> (pkt: Vec<u8>)
    ensures
        pkt@ == rpc_dump_call(),
{
    let pkt = vec![
        0x00u8, 0x00, 0x00, 0x01, 0x00, 0x00, 0x00, 0x00, 0x00, 0x00, 0x00, 0x02,
        0x00, 0x01, 0x86, 0xa0, 0x00, 0x00, 0x00, 0x02, 0x00, 0x00, 0x00, 0x04,
        0x00, 0x00, 0x00, 0x00, 0x00, 0x00, 0x00, 0x00, 0x00, 0x00, 0x00, 0x00,
        0x00, 0x00, 0x00, 0x00,
    ];
    assert(pkt@ =~= rpc_dump_call());
    pkt
}

/// CLDAP base-scope search request with the filter `(objectClass=*)`.
pub open spec fn cldap_search_request() -> Seq<u8> {
    seq![
        0x30u8, 0x25, 0x02, 0x01, 0x01, 0x63, 0x20, 0x04, 0x00, 0x0a, 0x01, 0x00,
        0x0a, 0x01, 0x00, 0x02, 0x01, 0x00, 0x02, 0x01, 0x00, 0x01, 0x01, 0x00,
        0x87, 0x0b, 0x6f, 0x62, 0x6a, 0x65, 0x63, 0x74, 0x43, 0x6c, 0x61, 0x73,
        0x73, 0x30, 0x00,
    ]
}

/// Builds the payload described by [`cldap_search_request`].
pub fn build_ldap_payload() -> (pkt: Vec<u8>)
    ensures
        pkt@ == cldap_search_request(),
{
    let pkt = vec![
        0x30u8, 0x25, 0x02, 0x01, 0x01, 0x63, 0x20, 0x04, 0x00, 0x0a, 0x01, 0x00,
        0x0a, 0x01, 0x00, 0x02, 0x01, 0x00, 0x02, 0x01, 0x00, 0x01, 0x01, 0x00,
        0x87, 0x0b, 0x6f, 0x62, 0x6a, 0x65, 0x63, 0x74, 0x43, 0x6c, 0x61, 0x73,
        0x73, 0x30, 0x00,
    ];
    assert(pkt@ =~= cldap_search_request());
    pkt
}

/// Memcached UDP frame carrying the `stats` command.
pub open spec fn memcached_stats_request() -> Seq<u8> {
    seq![
        0x00u8, 0x00, 0x00, 0x00, 0x00, 0x01, 0x00, 0x00, 0x73, 0x74, 0x61, 0x74,
        0x73, 0x0a,
    ]
}

/// Builds the payload described by [`memcached_stats_request`].
pub fn build_memcached_payload() -> (pkt: Vec<u8>)
    ensures
        pkt@ == memcached_stats_request(),
{
    let pkt = vec![
        0x00u8, 0x00, 0x00, 0x00, 0x00, 0x01, 0x00, 0x00, 0x73, 0x74, 0x61, 0x74,
        0x73, 0x0a,
    ];
    assert(pkt@ =~= memcached_stats_request());
    pkt
}


// ───────────────────────────── DNS query ─────────────────────────────

/// A uniformly random 16-bit value (`rand::thread_rng().gen()`). Nothing is
/// claimed of the value: it is drawn at random.
#[verifier::external_body]
fn random_u16() -> u16 {
    rand::thread_rng().gen()
}

/// Standard DNS query for `google.com` (type A, class IN) with recursion
/// desired, under transaction id `txid` (big-endian in the first two bytes).
pub open spec fn dns_query(txid: u16) -> Seq<u8> {
    seq![
        (txid / 256) as u8, (txid % 256) as u8, 0x01, 0x00, 0x00, 0x01, 0x00, 0x00, 0x00, 0x00,
        0x00, 0x00, 0x06, 0x67, 0x6f, 0x6f, 0x67, 0x6c, 0x65, 0x03, 0x63, 0x6f, 0x6d, 0x00,
        0x00, 0x01, 0x00, 0x01,
    ]
}

/// Builds the DNS query of [`dns_query`] for the given transaction id.
pub fn build_dns_payload_for_txid(txid: u16) -> (pkt: Vec<u8>)
    ensures
        pkt@ == dns_query(txid),
{
    let hi = (txid / 256) as u8;
    let lo = (txid % 256) as u8;
    let pkt = vec![
        hi, lo, 0x01, 0x00, 0x00, 0x01, 0x00, 0x00, 0x00, 0x00,
        0x00, 0x00, 0x06, 0x67, 0x6f, 0x6f, 0x67, 0x6c, 0x65, 0x03, 0x63, 0x6f, 0x6d, 0x00,
        0x00, 0x01, 0x00, 0x01,
    ];
    assert(pkt@ =~= dns_query(txid));
    pkt
}

/// A DNS query under a fresh random transaction id, and that id.
pub fn build_dns_payload_with_txid() -> (res: (Vec<u8>, u16))
    ensures
        res.0@ == dns_query(res.1),
{
    let txid = random_u16();
    (build_dns_payload_for_txid(txid), txid)
}

/// A DNS query under a random transaction id.
pub fn build_dns_payload() -> (pkt: Vec<u8>)
    ensures
        exists|txid: u16| pkt@ == dns_query(txid),
{
    let (pkt, txid) = build_dns_payload_with_txid();
    pkt
}

// ───────────────────────────── probe types ─────────────────────────────

/// The probe types that have a payload builder or a reply check of their own.
#[derive(Clone, Copy, Debug, PartialEq, Eq, Structural)]
pub enum ProbeKind {
    Dns,
    Mdns,
    Snmp,
    Ntp,
    Ssdp,
    Tftp,
    Netbios,
    Rpc,
    Ldap,
    Memcached,
    Ripv1,
    UdpPayload,
    Other,
}

/// The kind named by a probe type string (exact, case-sensitive match).
pub open spec fn probe_kind_of(name: Seq<char>) -> ProbeKind {
    if name == "dns"@ {
        ProbeKind::Dns
    } else if name == "mdns"@ {
        ProbeKind::Mdns
    } else if name == "snmp"@ {
        ProbeKind::Snmp
    } else if name == "ntp"@ {
        ProbeKind::Ntp
    } else if name == "ssdp"@ {
        ProbeKind::Ssdp
    } else if name == "tftp"@ {
        ProbeKind::Tftp
    } else if name == "netbios"@ {
        ProbeKind::Netbios
    } else if name == "rpc"@ {
        ProbeKind::Rpc
    } else if name == "ldap"@ {
        ProbeKind::Ldap
    } else if name == "memcached"@ {
        ProbeKind::Memcached
    } else if name == "ripv1"@ {
        ProbeKind::Ripv1
    } else if name == "udp_payload"@ {
        ProbeKind::UdpPayload
    } else {
        ProbeKind::Other
    }
}

/// Reads the kind named by a probe type string.
pub fn probe_kind(probe_type: &str) -> (kind: ProbeKind)
    ensures
        kind == probe_kind_of(probe_type@),
{
    if str_eq(probe_type, "dns") {
        ProbeKind::Dns
    } else if str_eq(probe_type, "mdns") {
        ProbeKind::Mdns
    } else if str_eq(probe_type, "snmp") {
        ProbeKind::Snmp
    } else if str_eq(probe_type, "ntp") {
        ProbeKind::Ntp
    } else if str_eq(probe_type, "ssdp") {
        ProbeKind::Ssdp
    } else if str_eq(probe_type, "tftp") {
        ProbeKind::Tftp
    } else if str_eq(probe_type, "netbios") {
        ProbeKind::Netbios
    } else if str_eq(probe_type, "rpc") {
        ProbeKind::Rpc
    } else if str_eq(probe_type, "ldap") {
        ProbeKind::Ldap
    } else if str_eq(probe_type, "memcached") {
        ProbeKind::Memcached
    } else if str_eq(probe_type, "ripv1") {
        ProbeKind::Ripv1
    } else if str_eq(probe_type, "udp_payload") {
        ProbeKind::UdpPayload
    } else {
        ProbeKind::Other
    }
}

/// The stored payload bytes, or none.
pub open spec fn stored_bytes(db_payload: Option<&[u8]>) -> Seq<u8> {
    match db_payload {
        Some(d) => d@,
        None => Seq::empty(),
    }
}

/// The payload sent for a probe kind whose payload is fixed (all but DNS
/// and NetBIOS, whose queries carry a random transaction id): the built
/// packet, or the stored bytes for `udp_payload` and unknown types.
pub open spec fn fixed_payload(kind: ProbeKind, stored: Seq<u8>) -> Seq<u8> {
    match kind {
        ProbeKind::Mdns => mdns_query(),
        ProbeKind::Snmp => snmp_get_request(),
        ProbeKind::Ntp => ntp_readvar_request(),
        ProbeKind::Ssdp => ssdp_msearch(),
        ProbeKind::Tftp => tftp_read_request(),
        ProbeKind::Rpc => rpc_dump_call(),
        ProbeKind::Ldap => cldap_search_request(),
        ProbeKind::Memcached => memcached_stats_request(),
        ProbeKind::Ripv1 => ripv1_request(),
        _ => stored,
    }
}

/// `pkt` is a payload for a probe of this kind: a DNS or NetBIOS query
/// under some transaction id, or the fixed payload of the kind.
pub open spec fn payload_of_kind(kind: ProbeKind, stored: Seq<u8>, pkt: Seq<u8>) -> bool {
    match kind {
        ProbeKind::Dns => exists|txid: u16| pkt == dns_query(txid),
        ProbeKind::Netbios => exists|txid: u16| pkt == netbios_status_request(txid),
        _ => pkt == fixed_payload(kind, stored),
    }
}

/// Builds the probe payload for a probe type: the protocol packet for the
/// types with a builder, otherwise the stored bytes (empty when none).
pub fn build_payload(probe_type: &str, db_payload: Option<&[u8]>) -> (pkt: Vec<u8>)
    ensures
        payload_of_kind(probe_kind_of(probe_type@), stored_bytes(db_payload), pkt@),
{
    let kind = probe_kind(probe_type);
    payload_for_kind(kind, db_payload)
}

fn payload_for_kind(kind: ProbeKind, db_payload: Option<&[u8]>) -> (pkt: Vec<u8>)
    ensures
        payload_of_kind(kind, stored_bytes(db_payload), pkt@),
{
    match kind {
        ProbeKind::Dns => build_dns_payload(),
        ProbeKind::Mdns => build_mdns_payload(),
        ProbeKind::Snmp => build_snmp_payload(),
        ProbeKind::Ntp => build_ntp_payload(),
        ProbeKind::Ssdp => build_ssdp_payload(),
        ProbeKind::Tftp => build_tftp_payload(),
        ProbeKind::Netbios => build_netbios_payload(),
        ProbeKind::Rpc => build_rpc_payload(),
        ProbeKind::Ldap => build_ldap_payload(),
        ProbeKind::Memcached => build_memcached_payload(),
        ProbeKind::Ripv1 => build_ripv1_payload(),
        _ => match db_payload {
            Some(d) => vstd::slice::slice_to_vec(d),
            None => Vec::new(),
        },
    }
}

// ───────────────────────────── reply checks ─────────────────────────────

/// `needle` occurs as a contiguous run of bytes in `hay`.
///
/// Looking for an ASCII text in a reply decoded lossily as UTF-8 is this
/// byte search: an ASCII byte always decodes to itself and no other decoded
/// character is ASCII.
pub open spec fn contains_bytes(hay: Seq<u8>, needle: Seq<u8>) -> bool {
    exists|i: int|
        0 <= i && i + needle.len() <= hay.len() && #[trigger] hay.subrange(i, i + needle.len())
            == needle
}

/// Whether `needle` occurs as a contiguous run of bytes in `hay`.
pub fn contains_subslice(hay: &[u8], needle: &[u8]) -> (found: bool)
    ensures
        found == contains_bytes(hay@, needle@),
{
    let n = hay.len();
    let m = needle.len();
    if m > n {
        return false;
    }
    let mut i: usize = 0;
    while i <= n - m
        invariant
            n == hay@.len(),
            m == needle@.len(),
            m <= n,
            i <= n - m + 1,
            forall|j: int| 0 <= j < i ==> #[trigger] hay@.subrange(j, j + m) != needle@,
        decreases n - m + 1 - i,
    {
        let mut k: usize = 0;
        while k < m && hay[i + k] == needle[k]
            invariant
                n == hay@.len(),
                m == needle@.len(),
                i + m <= n,
                k <= m,
                forall|t: int| 0 <= t < k ==> hay@[i + t] == needle@[t],
            decreases m - k,
        {
            k = k + 1;
        }
        if k == m {
            assert(hay@.subrange(i as int, i + m) =~= needle@);
            return true;
        }
        assert(hay@.subrange(i as int, i + m)[k as int] != needle@[k as int]);
        i = i + 1;
    }
    proof {
        assert forall|j: int| 0 <= j && j + needle@.len() <= hay@.len() implies #[trigger] hay@.subrange(j, j + needle@.len())
            != needle@ by {
            assert(j < i);
        }
    }
    false
}

/// Some byte of `b` equals `x` or `y`.
pub open spec fn has_byte(b: Seq<u8>, x: u8, y: u8) -> bool {
    exists|i: int| 0 <= i < b.len() && (b[i] == x || b[i] == y)
}

fn any_byte(b: &[u8], x: u8, y: u8) -> (found: bool)
    ensures
        found == has_byte(b@, x, y),
{
    let mut i: usize = 0;
    while i < b.len()
        invariant
            i <= b@.len(),
            forall|j: int| 0 <= j < i ==> b@[j] != x && b@[j] != y,
        decreases b.len() - i,
    {
        if b[i] == x || b[i] == y {
            return true;
        }
        i = i + 1;
    }
    false
}

/// Some byte of `b` is not zero.
pub open spec fn has_nonzero(b: Seq<u8>) -> bool {
    exists|i: int| 0 <= i < b.len() && b[i] != 0
}

fn any_nonzero(b: &[u8]) -> (found: bool)
    ensures
        found == has_nonzero(b@),
{
    let mut i: usize = 0;
    while i < b.len()
        invariant
            i <= b@.len(),
            forall|j: int| 0 <= j < i ==> b@[j] == 0,
        decreases b.len() - i,
    {
        if b[i] != 0 {
            return true;
        }
        i = i + 1;
    }
    false
}

/// The big-endian 16-bit value at offset `i`.
pub open spec fn be_u16(b: Seq<u8>, i: int) -> int {
    b[i] * 256 + b[i + 1]
}

/// The big-endian 32-bit value at offset `i`.
pub open spec fn be_u32(b: Seq<u8>, i: int) -> int {
    b[i] * 16777216 + b[i + 1] * 65536 + b[i + 2] * 256 + b[i + 3]
}

/// The first byte looks like the start of an IPv4 or IPv6 header (an ICMP
/// reflection rather than a service reply).
pub open spec fn looks_like_ip_header(b: Seq<u8>) -> bool {
    (b[0] & 0xF0) == 0x40 || (b[0] & 0xF0) == 0x60
}

/// The ASCII text `HTTP/1.1`.
pub open spec fn text_http11() -> Seq<u8> {
    seq![0x48u8, 0x54, 0x54, 0x50, 0x2f, 0x31, 0x2e, 0x31]
}

/// The ASCII text `ST:`.
pub open spec fn text_st() -> Seq<u8> {
    seq![0x53u8, 0x54, 0x3a]
}

/// The ASCII text `LOCATION:`.
pub open spec fn text_location() -> Seq<u8> {
    seq![0x4cu8, 0x4f, 0x43, 0x41, 0x54, 0x49, 0x4f, 0x4e, 0x3a]
}

/// The ASCII text `STAT ` (with its space).
pub open spec fn text_stat() -> Seq<u8> {
    seq![0x53u8, 0x54, 0x41, 0x54, 0x20]
}

/// The ASCII text `END`.
pub open spec fn text_end() -> Seq<u8> {
    seq![0x45u8, 0x4e, 0x44]
}

/// Whether a UDP reply has the structure expected of the probed protocol.
pub open spec fn udp_reply_valid(kind: ProbeKind, r: Seq<u8>) -> bool {
    r.len() > 0 && match kind {
        ProbeKind::Ntp => r.len() >= 12 && (((r[0] & 0x07) == 6 && 2 <= ((r[0] & 0x38) >> 3u8) <= 4) || (
        r[0] & 0x07) == 4),
        ProbeKind::Ssdp => contains_bytes(r, text_http11()) || contains_bytes(r, text_st())
            || contains_bytes(r, text_location()),
        ProbeKind::Memcached => contains_bytes(r, text_stat()) || contains_bytes(r, text_end()) || (
        r.len() >= 4 && r[0] == 0x81),
        ProbeKind::Rpc => r.len() >= 16 && be_u32(r, 0) == 1 && be_u32(r, 4) == 1,
        ProbeKind::Ldap => r.len() >= 10 && r[0] == 0x30 && has_byte(r, 0x64, 0x65),
        ProbeKind::Netbios => r.len() >= 50 && be_u16(r, 2) >= 0x8000,
        ProbeKind::Mdns => r.len() >= 12 && be_u16(r, 2) >= 0x8000,
        ProbeKind::Tftp => r.len() >= 4 && (be_u16(r, 0) == 3 || be_u16(r, 0) == 5),
        ProbeKind::Ripv1 => r.len() >= 24 && r[0] == 0x02 && (r[1] == 0x01 || r[1] == 0x02),
        ProbeKind::UdpPayload => r.len() >= 12 && !looks_like_ip_header(r) && has_nonzero(r),
        _ => r.len() >= 8 && !looks_like_ip_header(r) && has_nonzero(r),
    }
}

fn reply_valid_for_kind(kind: ProbeKind, resp: &[u8]) -> (valid: bool)
    ensures
        valid == udp_reply_valid(kind, resp@),
{
    let n = resp.len();
    if n == 0 {
        return false;
    }
    match kind {
        ProbeKind::Ntp => {
            let mode = resp[0] & 0x07;
            let version = (resp[0] & 0x38) >> 3u8;
            n >= 12 && ((mode == 6 && 2 <= version && version <= 4) || mode == 4)
        },
        ProbeKind::Ssdp => {
            let a = vec![0x48u8, 0x54, 0x54, 0x50, 0x2f, 0x31, 0x2e, 0x31];
            let b = vec![0x53u8, 0x54, 0x3a];
            let c = vec![0x4cu8, 0x4f, 0x43, 0x41, 0x54, 0x49, 0x4f, 0x4e, 0x3a];
            assert(a@ =~= text_http11());
            assert(b@ =~= text_st());
            assert(c@ =~= text_location());
            contains_subslice(resp, a.as_slice()) || contains_subslice(resp, b.as_slice())
                || contains_subslice(resp, c.as_slice())
        },
        ProbeKind::Memcached => {
            let a = vec![0x53u8, 0x54, 0x41, 0x54, 0x20];
            let b = vec![0x45u8, 0x4e, 0x44];
            assert(a@ =~= text_stat());
            assert(b@ =~= text_end());
            contains_subslice(resp, a.as_slice()) || contains_subslice(resp, b.as_slice()) || (n
                >= 4 && resp[0] == 0x81)
        },
        ProbeKind::Rpc => {
            if n >= 16 {
                let xid: u64 = (resp[0] as u64) * 16777216 + (resp[1] as u64) * 65536 + (resp[2] as u64)
                    * 256 + (resp[3] as u64);
                let msg_type: u64 = (resp[4] as u64) * 16777216 + (resp[5] as u64) * 65536 + (resp[6] as u64)
                    * 256 + (resp[7] as u64);
                xid == 1 && msg_type == 1
            } else {
                false
            }
        },
        ProbeKind::Ldap => n >= 10 && resp[0] == 0x30 && any_byte(resp, 0x64, 0x65),
        ProbeKind::Netbios => n >= 50 && (resp[2] as u32) * 256 + (resp[3] as u32) >= 0x8000,
        ProbeKind::Mdns => n >= 12 && (resp[2] as u32) * 256 + (resp[3] as u32) >= 0x8000,
        ProbeKind::Tftp => {
            if n >= 4 {
                let op = (resp[0] as u32) * 256 + (resp[1] as u32);
                op == 3 || op == 5
            } else {
                false
            }
        },
        ProbeKind::Ripv1 => n >= 24 && resp[0] == 0x02 && (resp[1] == 0x01 || resp[1] == 0x02),
        ProbeKind::UdpPayload => {
            let nibble = resp[0] & 0xF0;
            let ip_header = nibble == 0x40 || nibble == 0x60;
            n >= 12 && !ip_header && any_nonzero(resp)
        },
        _ => {
            let nibble = resp[0] & 0xF0;
            let ip_header = nibble == 0x40 || nibble == 0x60;
            n >= 8 && !ip_header && any_nonzero(resp)
        },
    }
}

/// Checks the protocol-specific structure of a UDP reply for the given
/// probe type.
pub fn validate_udp_response(probe_type: &str, resp: &[u8]) -> (valid: bool)
    ensures
        valid == udp_reply_valid(probe_kind_of(probe_type@), resp@),
{
    let kind = probe_kind(probe_type);
    reply_valid_for_kind(kind, resp)
}

// ───────────────────────────── probe outcomes ─────────────────────────────

/// What a UDP exchange produced: a reply, nothing, or an operating-system error.
pub enum UdpExchange {
    Reply { bytes: Vec<u8>, elapsed_ms: u64 },
    NoReply,
    Failed { os_code: Option<i32>, message: String },
}

/// What a TCP connection attempt produced.
pub enum TcpOutcome {
    Connected,
    Failed { os_code: Option<i32>, refused: bool, message: String },
    TimedOut,
}

/// The OS error is ENFILE (23) or EMFILE (24): the process ran out of file
/// descriptors.
pub open spec fn is_fd_exhaustion(os_code: Option<i32>) -> bool {
    os_code == Some(23i32) || os_code == Some(24i32)
}

/// Whether an OS error code means file-descriptor exhaustion.
pub fn fd_exhaustion(os_code: Option<i32>) -> (exhausted: bool)
    ensures
        exhausted == is_fd_exhaustion(os_code),
{
    match os_code {
        Some(c) => c == 23 || c == 24,
        None => false,
    }
}

/// The error message recorded for a failed probe: file-descriptor exhaustion
/// is marked so that the scan can abort.
pub open spec fn failure_message(os_code: Option<i32>, message: Seq<char>) -> Seq<char> {
    if is_fd_exhaustion(os_code) {
        "CRITICAL_FD_EXHAUSTION: "@ + message
    } else {
        message
    }
}

/// The status recorded for a probe that failed with an OS error.
pub fn failure_status(os_code: Option<i32>, message: &String) -> (status: PortStatus)
    ensures
        status matches PortStatus::Error(e) && e@ == failure_message(os_code, message@),
{
    if fd_exhaustion(os_code) {
        let mut text = String::from_str("CRITICAL_FD_EXHAUSTION: ");
        text.append(message.as_str());
        PortStatus::Error(text)
    } else {
        PortStatus::Error(message.clone())
    }
}

/// A reply's verdict paired with its latency: the latency is kept only for
/// findings.
pub open spec fn with_latency(verdict: PortStatus, ms: u64) -> (PortStatus, Option<u64>) {
    if is_finding(verdict) {
        (verdict, Some(ms))
    } else {
        (verdict, None)
    }
}

/// The outcome of a UDP probe whose reply is judged by `verdict`.
pub open spec fn udp_outcome(ex: UdpExchange, verdict: spec_fn(Seq<u8>) -> PortStatus, out: (PortStatus, Option<u64>)) -> bool {
    match ex {
        UdpExchange::Reply { bytes, elapsed_ms } => out == with_latency(verdict(bytes@), elapsed_ms),
        UdpExchange::NoReply => out == (PortStatus::Inconclusive, None::<u64>),
        UdpExchange::Failed { os_code, message } => out.1 is None && (out.0 matches PortStatus::Error(e)
            && e@ == failure_message(os_code, message@)),
    }
}

/// A UDP probe reports a response time only when it found the port open
/// (vulnerable or protected), whatever the exchange and the verdict.
pub proof fn lemma_latency_only_for_findings(
    ex: UdpExchange,
    verdict: spec_fn(Seq<u8>) -> PortStatus,
    out: (PortStatus, Option<u64>),
)
    requires
        udp_outcome(ex, verdict, out),
    ensures
        out.1 is Some ==> is_finding(out.0),
{
}

/// Verdict on a DNS reply to the query sent under `txid`: the transaction id
/// must match and the QR bit must be set; recursion available with RCODE 0
/// makes an open resolver, any other answer a protected one.
pub open spec fn dns_reply_verdict(r: Seq<u8>, txid: u16) -> PortStatus {
    if r.len() < 12 || be_u16(r, 0) != txid || (r[2] & 0x80) == 0 {
        PortStatus::Inconclusive
    } else if (r[3] & 0x0F) == 0 && (r[3] & 0x80) != 0 {
        PortStatus::Open
    } else {
        PortStatus::OpenProtected
    }
}

/// Verdict on an SNMP reply: a SEQUENCE of at least 15 bytes holding a
/// GetResponse (0xA2) or Report (0xA8) tag.
pub open spec fn snmp_reply_verdict(r: Seq<u8>) -> PortStatus {
    if r.len() >= 15 && r[0] == 0x30 && has_byte(r, 0xA2, 0xA8) {
        PortStatus::Open
    } else {
        PortStatus::Inconclusive
    }
}

/// Verdict on a reply to any other UDP probe.
pub open spec fn udp_reply_verdict(kind: ProbeKind, r: Seq<u8>) -> PortStatus {
    if udp_reply_valid(kind, r) {
        PortStatus::Open
    } else {
        PortStatus::Inconclusive
    }
}

fn exchange_failure(os_code: Option<i32>, message: &String) -> (out: (PortStatus, Option<u64>))
    ensures
        out.1 is None,
        out.0 matches PortStatus::Error(e) && e@ == failure_message(os_code, message@),
{
    (failure_status(os_code, message), None)
}

/// Status and latency of a DNS probe sent under `txid`.
pub fn dns_probe_status(exchange: &UdpExchange, txid: u16) -> (out: (PortStatus, Option<u64>))
    ensures
        udp_outcome(*exchange, |r: Seq<u8>| dns_reply_verdict(r, txid), out),
{
    match exchange {
        UdpExchange::Reply { bytes, elapsed_ms } => {
            let r = bytes.as_slice();
            if r.len() >= 12 {
                let resp_txid: u32 = (r[0] as u32) * 256 + (r[1] as u32);
                if resp_txid != txid as u32 {
                    return (PortStatus::Inconclusive, None);
                }
                if (r[2] & 0x80) == 0 {
                    return (PortStatus::Inconclusive, None);
                }
                let rcode = r[3] & 0x0F;
                let ra = (r[3] & 0x80) != 0;
                if rcode == 0 && ra {
                    (PortStatus::Open, Some(*elapsed_ms))
                } else {
                    (PortStatus::OpenProtected, Some(*elapsed_ms))
                }
            } else {
                (PortStatus::Inconclusive, None)
            }
        },
        UdpExchange::NoReply => (PortStatus::Inconclusive, None),
        UdpExchange::Failed { os_code, message } => exchange_failure(*os_code, message),
    }
}

/// Status and latency of an SNMP probe.
pub fn snmp_probe_status(exchange: &UdpExchange) -> (out: (PortStatus, Option<u64>))
    ensures
        udp_outcome(*exchange, |r: Seq<u8>| snmp_reply_verdict(r), out),
{
    match exchange {
        UdpExchange::Reply { bytes, elapsed_ms } => {
            let r = bytes.as_slice();
            if r.len() >= 15 && r[0] == 0x30 && any_byte(r, 0xA2, 0xA8) {
                (PortStatus::Open, Some(*elapsed_ms))
            } else {
                (PortStatus::Inconclusive, None)
            }
        },
        UdpExchange::NoReply => (PortStatus::Inconclusive, None),
        UdpExchange::Failed { os_code, message } => exchange_failure(*os_code, message),
    }
}

/// Status and latency of any other UDP probe, judged by the reply check of
/// its kind.
pub fn udp_probe_status(kind: ProbeKind, exchange: &UdpExchange) -> (out: (PortStatus, Option<u64>))
    ensures
        udp_outcome(*exchange, |r: Seq<u8>| udp_reply_verdict(kind, r), out),
{
    match exchange {
        UdpExchange::Reply { bytes, elapsed_ms } => {
            if reply_valid_for_kind(kind, bytes.as_slice()) {
                (PortStatus::Open, Some(*elapsed_ms))
            } else {
                (PortStatus::Inconclusive, None)
            }
        },
        UdpExchange::NoReply => (PortStatus::Inconclusive, None),
        UdpExchange::Failed { os_code, message } => exchange_failure(*os_code, message),
    }
}

/// Status and latency of a TCP connect probe that took `elapsed_ms`.
pub fn tcp_probe_status(outcome: &TcpOutcome, elapsed_ms: u64) -> (out: (PortStatus, Option<u64>))
    ensures
        match *outcome {
            TcpOutcome::Connected => out == (PortStatus::Open, Some(elapsed_ms)),
            TcpOutcome::Failed { os_code, refused, message } => out.1 is None && (if is_fd_exhaustion(os_code) {
                out.0 matches PortStatus::Error(e) && e@ == failure_message(os_code, message@)
            } else if refused {
                out.0 is Closed
            } else {
                out.0 is Inconclusive
            }),
            TcpOutcome::TimedOut => out == (PortStatus::Inconclusive, None::<u64>),
        },
{
    match outcome {
        TcpOutcome::Connected => (PortStatus::Open, Some(elapsed_ms)),
        TcpOutcome::Failed { os_code, refused, message } => {
            if fd_exhaustion(*os_code) {
                (failure_status(*os_code, message), None)
            } else if *refused {
                (PortStatus::Closed, None)
            } else {
                (PortStatus::Inconclusive, None)
            }
        },
        TcpOutcome::TimedOut => (PortStatus::Inconclusive, None),
    }
}

// ───────────────────────────── UDP attempts ─────────────────────────────

/// Pause between two UDP attempts, in milliseconds.
pub const UDP_RETRY_PAUSE_MS: u64 = 300;

/// What one UDP attempt (bind, connect, send, receive with timeout) ran into.
pub enum UdpAttemptEvent {
    BindFailed { os_code: Option<i32>, message: String },
    ConnectFailed { os_code: Option<i32>, message: String },
    SendFailed { os_code: Option<i32>, message: String },
    Received { bytes: Vec<u8>, elapsed_ms: u64 },
    ReceivedEmpty,
    ReceiveFailed { os_code: Option<i32>, message: String },
    TimedOut,
}

/// What to do after an attempt: stop with an exchange, or pause
/// `UDP_RETRY_PAUSE_MS` and try again.
pub enum UdpAttemptAction {
    Finish(UdpExchange),
    RetryAfterPause,
}

/// After a failure that is not descriptor exhaustion or an empty/missing
/// reply: try again while attempts remain, else give up without a reply.
pub open spec fn retry_or_give_up(attempt: usize, max_attempts: usize) -> UdpAttemptAction {
    if attempt < max_attempts {
        UdpAttemptAction::RetryAfterPause
    } else {
        UdpAttemptAction::Finish(UdpExchange::NoReply)
    }
}

/// The decision taken after attempt number `attempt` (counting from 1) of
/// `max_attempts`.
pub open spec fn udp_attempt_decision(attempt: usize, max_attempts: usize, event: UdpAttemptEvent) -> UdpAttemptAction {
    match event {
        UdpAttemptEvent::Received { bytes, elapsed_ms } => UdpAttemptAction::Finish(
            UdpExchange::Reply { bytes, elapsed_ms },
        ),
        UdpAttemptEvent::BindFailed { os_code, message } => if is_fd_exhaustion(os_code) {
            UdpAttemptAction::Finish(UdpExchange::Failed { os_code, message })
        } else {
            UdpAttemptAction::Finish(UdpExchange::NoReply)
        },
        UdpAttemptEvent::ConnectFailed { os_code, message }
        | UdpAttemptEvent::SendFailed { os_code, message }
        | UdpAttemptEvent::ReceiveFailed { os_code, message } => if is_fd_exhaustion(os_code) {
            UdpAttemptAction::Finish(UdpExchange::Failed { os_code, message })
        } else {
            retry_or_give_up(attempt, max_attempts)
        },
        UdpAttemptEvent::ReceivedEmpty | UdpAttemptEvent::TimedOut => retry_or_give_up(
            attempt,
            max_attempts,
        ),
    }
}

/// Decides what follows a UDP attempt: a reply or descriptor exhaustion ends
/// the probe at once, a failed bind gives up without a reply, and any other
/// failure, empty reply or timeout leads to another attempt while attempts
/// remain.
pub fn udp_attempt_action(attempt: usize, max_attempts: usize, event: UdpAttemptEvent) -> (action: UdpAttemptAction)
    requires
        1 <= attempt <= max_attempts,
    ensures
        action == udp_attempt_decision(attempt, max_attempts, event),
{
    let more = attempt < max_attempts;
    match event {
        UdpAttemptEvent::Received { bytes, elapsed_ms } => UdpAttemptAction::Finish(
            UdpExchange::Reply { bytes, elapsed_ms },
        ),
        UdpAttemptEvent::BindFailed { os_code, message } => {
            if fd_exhaustion(os_code) {
                UdpAttemptAction::Finish(UdpExchange::Failed { os_code, message })
            } else {
                UdpAttemptAction::Finish(UdpExchange::NoReply)
            }
        },
        UdpAttemptEvent::ConnectFailed { os_code, message }
        | UdpAttemptEvent::SendFailed { os_code, message }
        | UdpAttemptEvent::ReceiveFailed { os_code, message } => {
            if fd_exhaustion(os_code) {
                UdpAttemptAction::Finish(UdpExchange::Failed { os_code, message })
            } else if more {
                UdpAttemptAction::RetryAfterPause
            } else {
                UdpAttemptAction::Finish(UdpExchange::NoReply)
            }
        },
        UdpAttemptEvent::ReceivedEmpty | UdpAttemptEvent::TimedOut => {
            if more {
                UdpAttemptAction::RetryAfterPause
            } else {
                UdpAttemptAction::Finish(UdpExchange::NoReply)
            }
        },
    }
}

// ───────────────────────────── probe plans ─────────────────────────────

/// How to probe one port.
pub enum ProbePlan {
    Tcp,
    Dns { payload: Vec<u8>, txid: u16 },
    Snmp { payload: Vec<u8> },
    Udp { kind: ProbeKind, payload: Vec<u8> },
    UnknownProtocol,
}

/// The stored payload of a port, as bytes.
pub open spec fn port_stored_bytes(port: Port) -> Seq<u8> {
    match port.probe_payload {
        Some(d) => d@,
        None => Seq::empty(),
    }
}

/// Chooses how to probe a port: by TCP connect for "tcp", by the DNS or
/// SNMP exchange or a payload for "udp", and not at all for any other
/// protocol.
pub fn plan_probe(port: &Port) -> (plan: ProbePlan)
    ensures
        port.protocol@ == "tcp"@ ==> plan is Tcp,
        port.protocol@ != "tcp"@ && port.protocol@ != "udp"@ ==> plan is UnknownProtocol,
        port.protocol@ != "tcp"@ && port.protocol@ == "udp"@ ==> {
            let kind = probe_kind_of(port.probe_type@);
            if kind is Dns {
                plan matches ProbePlan::Dns { payload, txid } && payload@ == dns_query(txid)
            } else if kind is Snmp {
                plan matches ProbePlan::Snmp { payload } && payload@ == snmp_get_request()
            } else {
                plan matches ProbePlan::Udp { kind: k, payload } && k == kind && payload_of_kind(
                    kind,
                    port_stored_bytes(*port),
                    payload@,
                )
            }
        },
{
    if str_eq(port.protocol.as_str(), "tcp") {
        ProbePlan::Tcp
    } else if str_eq(port.protocol.as_str(), "udp") {
        let kind = probe_kind(port.probe_type.as_str());
        match kind {
            ProbeKind::Dns => {
                let (payload, txid) = build_dns_payload_with_txid();
                ProbePlan::Dns { payload, txid }
            },
            ProbeKind::Snmp => ProbePlan::Snmp { payload: build_snmp_payload() },
            _ => {
                let payload = match &port.probe_payload {
                    Some(d) => payload_for_kind(kind, Some(d.as_slice())),
                    None => payload_for_kind(kind, None),
                };
                ProbePlan::Udp { kind, payload }
            },
        }
    } else {
        ProbePlan::UnknownProtocol
    }
}

/// The status recorded for a port whose protocol is neither "udp" nor "tcp".
pub fn unknown_protocol_status(protocol: &String) -> (status: PortStatus)
    ensures
        status matches PortStatus::Error(e) && e@ == "Unknown protocol: "@ + protocol@,
{
    let mut text = String::from_str("Unknown protocol: ");
    text.append(protocol.as_str());
    PortStatus::Error(text)
}

/// The result of probing `port` on `ip`, stamped with the current time.
pub fn probe_result(ip: IpAddress, port: &Port, status: PortStatus, latency_ms: Option<u64>) -> (r: ProbeResult)
    ensures
        r.ip == ip,
        r.port == port.port,
        r.protocol@ == port.protocol@,
        r.service_name@ == port.name@,
        r.description@ == port.description@,
        r.status == status,
        r.response_time_ms == latency_ms,
{
    ProbeResult {
        ip,
        port: port.port,
        protocol: port.protocol.clone(),
        service_name: port.name.clone(),
        description: port.description.clone(),
        status,
        response_time_ms: latency_ms,
        timestamp: now_millis(),
    }
}

/// A TFTP server answers the read request either with the first DATA block
/// (opcode 3) or with an ERROR packet (opcode 5, such as "File not found");
/// either answer of at least four bytes shows the service reachable. Exactly
/// these replies are taken as TFTP answers.
pub proof fn lemma_tftp_answer_is_data_or_error(r: Seq<u8>)
    ensures
        udp_reply_valid(ProbeKind::Tftp, r) <==> (r.len() >= 4 && r[0] == 0 && (r[1] == 3 || r[1] == 5)),
{
}

/// A TFTP probe whose reply is a DATA or ERROR packet finds the port open
/// and keeps the reply's latency; any other reply leaves it inconclusive
/// with no latency.
pub proof fn lemma_tftp_probe_verdict(bytes: Vec<u8>, elapsed_ms: u64, out: (PortStatus, Option<u64>))
    requires
        udp_outcome(
            UdpExchange::Reply { bytes, elapsed_ms },
            |r: Seq<u8>| udp_reply_verdict(ProbeKind::Tftp, r),
            out,
        ),
    ensures
        bytes@.len() >= 4 && bytes@[0] == 0 && (bytes@[1] == 3 || bytes@[1] == 5) ==> out == (
        PortStatus::Open, Some(elapsed_ms)),
        !(bytes@.len() >= 4 && bytes@[0] == 0 && (bytes@[1] == 3 || bytes@[1] == 5)) ==> out == (
        PortStatus::Inconclusive, None::<u64>),
{
    lemma_tftp_answer_is_data_or_error(bytes@);
}

/// The first two bytes of a DNS message hold its transaction id, high byte
/// first.
pub open spec fn carries_id(r: Seq<u8>, txid: u16) -> bool {
    r.len() >= 2 && r[0] == txid / 256 && r[1] == txid % 256
}

/// A DNS probe reports an open resolver only for an answer to its own query
/// (same transaction id, QR bit 0x80 of byte 2 set) with RCODE 0 (low four
/// bits of byte 3) and the recursion-available bit (0x80 of byte 3) set. Any
/// other such answer of full header length (recursion not offered, or an
/// error code) is a protected resolver; both keep the latency. A reply that
/// is not an answer to the query, or no reply, finds nothing.
pub proof fn lemma_dns_open_needs_recursion(ex: UdpExchange, txid: u16, out: (PortStatus, Option<u64>))
    requires
        udp_outcome(ex, |r: Seq<u8>| dns_reply_verdict(r, txid), out),
    ensures
        out.0 is Open ==> (ex matches UdpExchange::Reply { bytes, elapsed_ms } && bytes@.len() >= 12
            && carries_id(bytes@, txid) && (bytes@[2] & 0x80) != 0 && (bytes@[3] & 0x80) != 0 && (bytes@[3]
            & 0x0F) == 0 && out.1 == Some(elapsed_ms)),
        ex matches UdpExchange::Reply { bytes, elapsed_ms } ==> (bytes@.len() >= 12 && carries_id(bytes@, txid)
            && (bytes@[2] & 0x80) != 0 && ((bytes@[3] & 0x80) == 0 || (bytes@[3] & 0x0F) != 0) ==> out == (
        PortStatus::OpenProtected, Some(elapsed_ms))),
        ex matches UdpExchange::Reply { bytes, elapsed_ms } ==> ((bytes@.len() < 12 || !carries_id(bytes@, txid)
            || (bytes@[2] & 0x80) == 0) ==> out == (PortStatus::Inconclusive, None::<u64>)),
        ex is NoReply ==> out == (PortStatus::Inconclusive, None::<u64>),
{
}

/// A big-endian 16-bit field.
pub open spec fn wire_u16(v: u16) -> Seq<u8> {
    seq![(v / 256) as u8, (v % 256) as u8]
}

/// A domain name in DNS wire format: each label preceded by its length,
/// closed by the empty label.
pub open spec fn wire_name(labels: Seq<Seq<u8>>) -> Seq<u8>
    decreases labels.len(),
{
    if labels.len() == 0 {
        seq![0u8]
    } else {
        seq![labels[0].len() as u8] + labels[0] + wire_name(labels.drop_first())
    }
}

/// A DNS query message: header (id, flags, one question, no answer,
/// authority or additional record) and the question (name, type, class).
pub open spec fn wire_query(id: u16, flags: u16, name: Seq<u8>, qtype: u16, qclass: u16) -> Seq<u8> {
    wire_u16(id) + wire_u16(flags) + wire_u16(1) + wire_u16(0) + wire_u16(0) + wire_u16(0) + name + wire_u16(
        qtype,
    ) + wire_u16(qclass)
}

/// The bytes of an ASCII text.
pub open spec fn ascii_bytes(s: Seq<char>) -> Seq<u8> {
    s.map_values(|c: char| c as u8)
}

/// The mDNS probe is the DNS-SD service enumeration: a query, id 0 and no
/// flags, for `_services._dns-sd._udp.local` of type PTR (12) and class IN
/// (1), so that a responder answers with the list of its services.
pub proof fn lemma_mdns_probe_enumerates_services(stored: Seq<u8>, pkt: Seq<u8>)
    requires
        payload_of_kind(ProbeKind::Mdns, stored, pkt),
    ensures
        pkt == wire_query(
            0,
            0,
            wire_name(
                seq![ascii_bytes("_services"@), ascii_bytes("_dns-sd"@), ascii_bytes("_udp"@), ascii_bytes("local"@)],
            ),
            12,
            1,
        ),
        pkt.len() >= 4 && pkt.subrange(pkt.len() - 4, pkt.len() as int) == seq![0u8, 12u8, 0u8, 1u8],
{
    reveal_strlit("_services");
    reveal_strlit("_dns-sd");
    reveal_strlit("_udp");
    reveal_strlit("local");
    let l1 = ascii_bytes("_services"@);
    let l2 = ascii_bytes("_dns-sd"@);
    let l3 = ascii_bytes("_udp"@);
    let l4 = ascii_bytes("local"@);
    assert(l1 =~= seq![0x5fu8, 0x73, 0x65, 0x72, 0x76, 0x69, 0x63, 0x65, 0x73]);
    assert(l2 =~= seq![0x5fu8, 0x64, 0x6e, 0x73, 0x2d, 0x73, 0x64]);
    assert(l3 =~= seq![0x5fu8, 0x75, 0x64, 0x70]);
    assert(l4 =~= seq![0x6cu8, 0x6f, 0x63, 0x61, 0x6c]);
    let labels = seq![l1, l2, l3, l4];
    let t2 = seq![l2, l3, l4];
    let t3 = seq![l3, l4];
    let t4 = seq![l4];
    let e = Seq::<Seq<u8>>::empty();
    assert(t4.drop_first() =~= e);
    assert(t3.drop_first() =~= t4);
    assert(t2.drop_first() =~= t3);
    assert(labels.drop_first() =~= t2);
    assert(wire_name(e) == seq![0u8]);
    assert(wire_name(t4) == seq![5u8] + l4 + wire_name(e));
    assert(wire_name(t3) == seq![4u8] + l3 + wire_name(t4));
    assert(wire_name(t2) == seq![7u8] + l2 + wire_name(t3));
    assert(wire_name(labels) == seq![9u8] + l1 + wire_name(t2));
    let name = wire_name(labels);
    assert(name =~= seq![
        0x09u8, 0x5f, 0x73, 0x65, 0x72, 0x76, 0x69, 0x63, 0x65, 0x73, 0x07, 0x5f,
        0x64, 0x6e, 0x73, 0x2d, 0x73, 0x64, 0x04, 0x5f, 0x75, 0x64, 0x70, 0x05,
        0x6c, 0x6f, 0x63, 0x61, 0x6c, 0x00,
    ]);
    assert(wire_query(0, 0, name, 12, 1) =~= mdns_query());
    assert(pkt.subrange(pkt.len() - 4, pkt.len() as int) =~= seq![0u8, 12u8, 0u8, 1u8]);
}

/// A big-endian 32-bit field.
pub open spec fn wire_u32(v: u32) -> Seq<u8> {
    seq![(v / 16777216) as u8, ((v / 65536) % 256) as u8, ((v / 256) % 256) as u8, (v % 256) as u8]
}

/// A BER element with a short-form length: tag, length, content.
pub open spec fn ber(tag: u8, content: Seq<u8>) -> Seq<u8> {
    seq![tag, content.len() as u8] + content
}

/// The first-level encoding of a NetBIOS name (RFC 1001): each byte of the
/// 16-byte name becomes two letters, `'A'` plus its high half and `'A'`
/// plus its low half.
pub open spec fn netbios_half_bytes(name: Seq<u8>) -> Seq<u8> {
    Seq::new(
        2 * name.len(),
        |k: int| (0x41 + (if k % 2 == 0 { name[k / 2] / 16 } else { name[k / 2] % 16 })) as u8,
    )
}

/// The DNS probe asks for the A record (type 1, class IN) of `google.com`
/// with recursion desired (flags 0x0100), under the given transaction id.
pub proof fn lemma_dns_query_wire_format(txid: u16)
    ensures
        dns_query(txid) == wire_query(
            txid,
            0x0100,
            wire_name(seq![ascii_bytes("google"@), ascii_bytes("com"@)]),
            1,
            1,
        ),
{
    reveal_strlit("google");
    reveal_strlit("com");
    let l1 = ascii_bytes("google"@);
    let l2 = ascii_bytes("com"@);
    assert(l1 =~= seq![0x67u8, 0x6f, 0x6f, 0x67, 0x6c, 0x65]);
    assert(l2 =~= seq![0x63u8, 0x6f, 0x6d]);
    let labels = seq![l1, l2];
    let t2 = seq![l2];
    let e = Seq::<Seq<u8>>::empty();
    assert(t2.drop_first() =~= e);
    assert(labels.drop_first() =~= t2);
    assert(wire_name(e) == seq![0u8]);
    assert(wire_name(t2) == seq![3u8] + l2 + wire_name(e));
    assert(wire_name(labels) == seq![6u8] + l1 + wire_name(t2));
    assert(wire_query(txid, 0x0100, wire_name(labels), 1, 1) =~= dns_query(txid));
}

/// The NetBIOS probe is a node status query (type NBSTAT 0x21, class IN)
/// for the wildcard name `*` padded with zero bytes to sixteen, under the
/// given transaction id and with no flags.
pub proof fn lemma_netbios_query_wire_format(txid: u16)
    ensures
        netbios_status_request(txid) == wire_query(
            txid,
            0,
            wire_name(seq![netbios_half_bytes(seq![0x2au8] + Seq::new(15, |k: int| 0u8))]),
            0x21,
            1,
        ),
{
    let padded = seq![0x2au8] + Seq::new(15, |k: int| 0u8);
    let label = netbios_half_bytes(padded);
    assert(label =~= seq![
        0x43u8, 0x4b, 0x41, 0x41, 0x41, 0x41, 0x41, 0x41, 0x41, 0x41, 0x41, 0x41, 0x41, 0x41, 0x41, 0x41,
        0x41, 0x41, 0x41, 0x41, 0x41, 0x41, 0x41, 0x41, 0x41, 0x41, 0x41, 0x41, 0x41, 0x41, 0x41, 0x41,
    ]);
    let labels = seq![label];
    let e = Seq::<Seq<u8>>::empty();
    assert(labels.drop_first() =~= e);
    assert(wire_name(e) == seq![0u8]);
    assert(wire_name(labels) == seq![32u8] + label + wire_name(e));
    assert(wire_query(txid, 0, wire_name(labels), 0x21, 1) =~= netbios_status_request(txid));
}

/// The NTP probe is a control message (mode 6) of version 2 asking to read
/// the system variables (opcode 2), sequence 1, with no status, association,
/// offset or data.
pub proof fn lemma_ntp_request_wire_format()
    ensures
        ntp_readvar_request() == seq![(2 * 8 + 6) as u8, 2u8] + wire_u16(1) + wire_u16(0) + wire_u16(0)
            + wire_u16(0) + wire_u16(0),
{
    assert(ntp_readvar_request() =~= seq![(2 * 8 + 6) as u8, 2u8] + wire_u16(1) + wire_u16(0) + wire_u16(0)
        + wire_u16(0) + wire_u16(0));
}

/// The RPC probe calls the portmapper: transaction id 1, message CALL (0),
/// RPC version 2, program 100000 version 2, procedure DUMP (4), with null
/// credential and verifier.
pub proof fn lemma_rpc_call_wire_format()
    ensures
        rpc_dump_call() == wire_u32(1) + wire_u32(0) + wire_u32(2) + wire_u32(100000) + wire_u32(2) + wire_u32(
            4,
        ) + wire_u32(0) + wire_u32(0) + wire_u32(0) + wire_u32(0),
{
    assert(rpc_dump_call() =~= wire_u32(1) + wire_u32(0) + wire_u32(2) + wire_u32(100000) + wire_u32(2)
        + wire_u32(4) + wire_u32(0) + wire_u32(0) + wire_u32(0) + wire_u32(0));
}

/// The TFTP probe is a read request (opcode 1) for the file `a.pdf` in
/// octet mode, each text closed by a zero byte.
pub proof fn lemma_tftp_request_wire_format()
    ensures
        tftp_read_request() == wire_u16(1) + ascii_bytes("a.pdf"@) + seq![0u8] + ascii_bytes("octet"@) + seq![
            0u8,
        ],
{
    reveal_strlit("a.pdf");
    reveal_strlit("octet");
    assert(tftp_read_request() =~= wire_u16(1) + ascii_bytes("a.pdf"@) + seq![0u8] + ascii_bytes("octet"@)
        + seq![0u8]);
}

/// The SSDP probe is the UPnP discovery request for root devices, sent to
/// the multicast group 239.255.255.250:1900.
pub proof fn lemma_ssdp_request_text()
    ensures
        ssdp_msearch() == ascii_bytes(
            "M-SEARCH * HTTP/1.1\r\nHost:239.255.255.250:1900\r\nST:upnp:rootdevice\r\nMan:\"ssdp:discover\"\r\nMX:3\r\n\r\n"@,
        ),
{
    reveal_strlit(
        "M-SEARCH * HTTP/1.1\r\nHost:239.255.255.250:1900\r\nST:upnp:rootdevice\r\nMan:\"ssdp:discover\"\r\nMX:3\r\n\r\n",
    );
    assert(ssdp_msearch() =~= ascii_bytes(
        "M-SEARCH * HTTP/1.1\r\nHost:239.255.255.250:1900\r\nST:upnp:rootdevice\r\nMan:\"ssdp:discover\"\r\nMX:3\r\n\r\n"@,
    ));
}

/// The memcached probe is one UDP frame (request id 0, sequence 0, one
/// datagram) carrying the text command `stats`.
pub proof fn lemma_memcached_request_wire_format()
    ensures
        memcached_stats_request() == wire_u16(0) + wire_u16(0) + wire_u16(1) + wire_u16(0) + ascii_bytes(
            "stats\n"@,
        ),
{
    reveal_strlit("stats\n");
    assert(memcached_stats_request() =~= wire_u16(0) + wire_u16(0) + wire_u16(1) + wire_u16(0) + ascii_bytes(
        "stats\n"@,
    ));
}

/// The RIPv1 probe is a request (command 1, version 1) with one entry of
/// unspecified address family and metric 16 (infinity): a request for the
/// whole routing table.
pub proof fn lemma_ripv1_request_wire_format()
    ensures
        ripv1_request() == seq![1u8, 1u8] + wire_u16(0) + wire_u16(0) + wire_u16(0) + wire_u32(0) + wire_u32(0)
            + wire_u32(0) + wire_u32(16),
{
    assert(ripv1_request() =~= seq![1u8, 1u8] + wire_u16(0) + wire_u16(0) + wire_u16(0) + wire_u32(0) + wire_u32(
        0,
    ) + wire_u32(0) + wire_u32(16));
}

/// The SNMP probe is an SNMPv2c (version 1) GetRequest under the community
/// `public`, request id 1, for the single object sysDescr.0
/// (1.3.6.1.2.1.1.1.0) with a null value.
pub proof fn lemma_snmp_request_wire_format()
    ensures
        snmp_get_request() == ber(
            0x30,
            ber(0x02, seq![1u8]) + ber(0x04, ascii_bytes("public"@)) + ber(
                0xa0,
                ber(0x02, seq![0u8, 0, 0, 1]) + ber(0x02, seq![0u8]) + ber(0x02, seq![0u8]) + ber(
                    0x30,
                    ber(0x30, ber(0x06, seq![0x2bu8, 6, 1, 2, 1, 1, 1, 0]) + ber(0x05, Seq::empty())),
                ),
            ),
        ),
{
    reveal_strlit("public");
    let oid = ber(0x06, seq![0x2bu8, 6, 1, 2, 1, 1, 1, 0]) + ber(0x05, Seq::<u8>::empty());
    assert(oid.len() == 12);
    let varbind = ber(0x30, oid);
    let list = ber(0x30, varbind);
    assert(list.len() == 16);
    let pdu = ber(0x02, seq![0u8, 0, 0, 1]) + ber(0x02, seq![0u8]) + ber(0x02, seq![0u8]) + list;
    assert(pdu.len() == 28);
    let body = ber(0x02, seq![1u8]) + ber(0x04, ascii_bytes("public"@)) + ber(0xa0, pdu);
    assert(body.len() == 41);
    assert(ber(0x30, body) =~= snmp_get_request());
}

/// The CLDAP probe is message 1, a search request on the root entry (empty
/// base, scope base object, never dereferencing aliases, no size or time
/// limit, names and values) with the filter `(objectClass=*)` and no
/// attribute list.
pub proof fn lemma_cldap_request_wire_format()
    ensures
        cldap_search_request() == ber(
            0x30,
            ber(0x02, seq![1u8]) + ber(
                0x63,
                ber(0x04, Seq::empty()) + ber(0x0a, seq![0u8]) + ber(0x0a, seq![0u8]) + ber(0x02, seq![0u8]) + ber(
                    0x02,
                    seq![0u8],
                ) + ber(0x01, seq![0u8]) + ber(0x87, ascii_bytes("objectClass"@)) + ber(0x30, Seq::empty()),
            ),
        ),
{
    reveal_strlit("objectClass");
    let search = ber(0x04, Seq::<u8>::empty()) + ber(0x0a, seq![0u8]) + ber(0x0a, seq![0u8]) + ber(0x02, seq![0u8])
        + ber(0x02, seq![0u8]) + ber(0x01, seq![0u8]) + ber(0x87, ascii_bytes("objectClass"@)) + ber(
        0x30,
        Seq::<u8>::empty(),
    );
    assert(search.len() == 32);
    let body = ber(0x02, seq![1u8]) + ber(0x63, search);
    assert(body.len() == 37);
    assert(ber(0x30, body) =~= cldap_search_request());
}

/// Which replies count as an answer of the probed service, byte by byte:
/// - NTP: at least a 12-byte header whose mode (low three bits of the first
///   byte) is 6, a control reply of version (next three bits) 2 to 4, or 4,
///   a server reply;
/// - SSDP: the reply holds `HTTP/1.1`, `ST:` or `LOCATION:`;
/// - memcached: the reply holds `STAT ` or `END`, or is a binary-protocol
///   response (magic byte 0x81) of at least four bytes;
/// - RPC: at least 16 bytes, transaction id 1 (the one sent) and message
///   type REPLY (1), both big-endian 32-bit;
/// - CLDAP: at least 10 bytes, a BER SEQUENCE (0x30) holding a search
///   result entry (0x64) or done (0x65) tag;
/// - NetBIOS: at least 50 bytes with the response bit (high bit of byte 2)
///   set; mDNS: at least a 12-byte header with that bit set;
/// - RIPv1: at least 24 bytes, a response (command 2) of version 1 or 2;
/// - stored raw payloads: at least 12 bytes, not starting like an IPv4 or
///   IPv6 header (an ICMP reflection), and not all zero; replies to probes
///   of an unknown type likewise, from 8 bytes.
pub proof fn lemma_reply_checks(r: Seq<u8>)
    ensures
        udp_reply_valid(ProbeKind::Ntp, r) <==> r.len() >= 12 && ((r[0] % 8 == 6 && 2 <= (r[0] / 8) % 8 <= 4)
            || r[0] % 8 == 4),
        udp_reply_valid(ProbeKind::Ssdp, r) <==> r.len() > 0 && (contains_bytes(r, ascii_bytes("HTTP/1.1"@))
            || contains_bytes(r, ascii_bytes("ST:"@)) || contains_bytes(r, ascii_bytes("LOCATION:"@))),
        udp_reply_valid(ProbeKind::Memcached, r) <==> r.len() > 0 && (contains_bytes(r, ascii_bytes("STAT "@))
            || contains_bytes(r, ascii_bytes("END"@)) || (r.len() >= 4 && r[0] == 0x81)),
        udp_reply_valid(ProbeKind::Rpc, r) <==> r.len() >= 16 && r.subrange(0, 8) == seq![0u8, 0, 0, 1, 0, 0, 0, 1],
        udp_reply_valid(ProbeKind::Ldap, r) <==> r.len() >= 10 && r[0] == 0x30 && exists|i: int|
            0 <= i < r.len() && (r[i] == 0x64 || r[i] == 0x65),
        udp_reply_valid(ProbeKind::Netbios, r) <==> r.len() >= 50 && r[2] >= 0x80,
        udp_reply_valid(ProbeKind::Mdns, r) <==> r.len() >= 12 && r[2] >= 0x80,
        udp_reply_valid(ProbeKind::Ripv1, r) <==> r.len() >= 24 && r[0] == 2 && (r[1] == 1 || r[1] == 2),
        udp_reply_valid(ProbeKind::UdpPayload, r) <==> r.len() >= 12 && r[0] / 16 != 4 && r[0] / 16 != 6
            && exists|i: int| 0 <= i < r.len() && r[i] != 0,
        udp_reply_valid(ProbeKind::Other, r) <==> r.len() >= 8 && r[0] / 16 != 4 && r[0] / 16 != 6 && exists|i: int|
            0 <= i < r.len() && r[i] != 0,
{
    reveal_strlit("HTTP/1.1");
    reveal_strlit("ST:");
    reveal_strlit("LOCATION:");
    reveal_strlit("STAT ");
    reveal_strlit("END");
    assert(ascii_bytes("HTTP/1.1"@) =~= text_http11());
    assert(ascii_bytes("ST:"@) =~= text_st());
    assert(ascii_bytes("LOCATION:"@) =~= text_location());
    assert(ascii_bytes("STAT "@) =~= text_stat());
    assert(ascii_bytes("END"@) =~= text_end());
    if r.len() > 0 {
        let b = r[0];
        assert((b & 0x07) == b % 8 && ((b & 0x38) >> 3u8) == (b / 8) % 8) by (bit_vector);
        assert((b & 0xF0) == 0x40 <==> b / 16 == 4) by (bit_vector);
        assert((b & 0xF0) == 0x60 <==> b / 16 == 6) by (bit_vector);
    }
    if r.len() >= 16 {
        assert(r.subrange(0, 8) == seq![0u8, 0, 0, 1, 0, 0, 0, 1] <==> (be_u32(r, 0) == 1 && be_u32(r, 4) == 1)) by {
            if be_u32(r, 0) == 1 && be_u32(r, 4) == 1 {
                assert(r.subrange(0, 8) =~= seq![0u8, 0, 0, 1, 0, 0, 0, 1]);
            }
            if r.subrange(0, 8) == seq![0u8, 0, 0, 1, 0, 0, 0, 1] {
                assert(r[0] == r.subrange(0, 8)[0] && r[1] == r.subrange(0, 8)[1] && r[2] == r.subrange(0, 8)[2]
                    && r[3] == r.subrange(0, 8)[3] && r[4] == r.subrange(0, 8)[4] && r[5] == r.subrange(0, 8)[5]
                    && r[6] == r.subrange(0, 8)[6] && r[7] == r.subrange(0, 8)[7]);
            }
        }
    }
}

/// An SNMP probe finds the agent open exactly when the reply is a BER
/// SEQUENCE (0x30) of at least 15 bytes holding a GetResponse (0xA2) or
/// Report (0xA8) PDU tag; the latency is then kept, and otherwise the port
/// is inconclusive.
pub proof fn lemma_snmp_probe_verdict(bytes: Vec<u8>, elapsed_ms: u64, out: (PortStatus, Option<u64>))
    requires
        udp_outcome(UdpExchange::Reply { bytes, elapsed_ms }, |r: Seq<u8>| snmp_reply_verdict(r), out),
    ensures
        (bytes@.len() >= 15 && bytes@[0] == 0x30 && exists|i: int|
            0 <= i < bytes@.len() && (bytes@[i] == 0xA2 || bytes@[i] == 0xA8)) ==> out == (
        PortStatus::Open, Some(elapsed_ms)),
        !(bytes@.len() >= 15 && bytes@[0] == 0x30 && exists|i: int|
            0 <= i < bytes@.len() && (bytes@[i] == 0xA2 || bytes@[i] == 0xA8)) ==> out == (
        PortStatus::Inconclusive, None::<u64>),
{
}

} // verus!
