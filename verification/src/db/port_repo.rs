//! The ports a new database is seeded with, and the rules the port
//! repository applies.

use crate::scanner::probes::{probe_kind_of, ProbeKind};
use vstd::prelude::*;

verus! {

/// One default amplification port: number, protocol, name, description,
/// probe type and, for raw UDP probes, the payload to send.
pub struct PortSeed {
    pub port: u16,
    pub protocol: &'static str,
    pub name: &'static str,
    pub description: &'static str,
    pub probe_type: &'static str,
    pub payload: Option<Vec<u8>>,
}

/// Number of default ports.
pub const SEED_COUNT: usize = 21;

/// The default port at position `i` (0 to 20): port, protocol, name,
/// description, probe type, payload (empty when the probe builds its own).
pub open spec fn seed_entry(i: int) -> (u16, Seq<char>, Seq<char>, Seq<char>, Seq<char>, Seq<u8>) {
    if i == 0 {
        (17, "udp"@, "QOTD"@, "Quote of the Day - legacy service that responds to any packet, used for DDoS amplification"@, "udp_payload"@, Seq::<u8>::empty())
    } else if i == 1 {
        (19, "udp"@, "CHARGEN"@, "Character Generator - legacy service that generates a character stream, used for DDoS amplification"@, "udp_payload"@, Seq::<u8>::empty())
    } else if i == 2 {
        (53, "udp"@, "DNS"@, "Domain Name System - open resolvers can amplify traffic up to 54x"@, "dns"@, Seq::<u8>::empty())
    } else if i == 3 {
        (69, "udp"@, "TFTP"@, "Trivial File Transfer Protocol - exposed TFTP servers allow file extraction and amplification"@, "tftp"@, Seq::<u8>::empty())
    } else if i == 4 {
        (111, "udp"@, "RPC"@, "Remote Procedure Call Portmapper - exposure allows service enumeration and amplification"@, "rpc"@, Seq::<u8>::empty())
    } else if i == 5 {
        (123, "udp"@, "NTP"@, "Network Time Protocol - servers with monlist/readvar amplify traffic up to 556x"@, "ntp"@, Seq::<u8>::empty())
    } else if i == 6 {
        (137, "udp"@, "NETBIOS"@, "NetBIOS Name Service - exposure reveals network information and allows amplification"@, "netbios"@, Seq::<u8>::empty())
    } else if i == 7 {
        (161, "udp"@, "SNMP"@, "Simple Network Management Protocol - 'public' community exposes data and amplifies up to 6.3x"@, "snmp"@, Seq::<u8>::empty())
    } else if i == 8 {
        (389, "udp"@, "LDAP"@, "CLDAP - Connectionless LDAP used for massive amplification up to 70x"@, "ldap"@, Seq::<u8>::empty())
    } else if i == 9 {
        (427, "udp"@, "SLP"@, "Service Location Protocol - used for service amplification up to 2200x"@, "udp_payload"@, seq![0x02u8, 0x01u8, 0x00u8, 0x00u8, 0x36u8, 0x20u8, 0x00u8, 0x00u8, 0x00u8, 0x00u8, 0x00u8, 0x01u8, 0x00u8, 0x02u8, 0x65u8, 0x6eu8, 0x00u8, 0x00u8, 0x00u8, 0x15u8, 0x73u8, 0x65u8, 0x72u8, 0x76u8, 0x69u8, 0x63u8, 0x65u8, 0x3au8, 0x73u8, 0x65u8, 0x72u8, 0x76u8, 0x69u8, 0x63u8, 0x65u8, 0x2du8, 0x61u8, 0x67u8, 0x65u8, 0x6eu8, 0x74u8, 0x00u8, 0x07u8, 0x64u8, 0x65u8, 0x66u8, 0x61u8, 0x75u8, 0x6cu8, 0x74u8, 0x00u8, 0x00u8, 0x00u8, 0x00u8])
    } else if i == 10 {
        (520, "udp"@, "RIPv1"@, "Routing Information Protocol v1 - routers answering full routing table requests amplify traffic up to 30x"@, "ripv1"@, Seq::<u8>::empty())
    } else if i == 11 {
        (1900, "udp"@, "SSDP"@, "Simple Service Discovery Protocol - UPnP amplifies traffic up to 30x"@, "ssdp"@, Seq::<u8>::empty())
    } else if i == 12 {
        (3283, "udp"@, "ARMS"@, "Apple Remote Management Service - amplification via Apple Remote Desktop"@, "udp_payload"@, seq![0x00u8, 0x14u8, 0x00u8, 0x01u8, 0x03u8])
    } else if i == 13 {
        (3702, "udp"@, "WS-DISCOVERY"@, "Web Services Dynamic Discovery - SOAP/XML amplification up to 153x"@, "udp_payload"@, seq![0x3cu8, 0xaau8, 0x3eu8, 0x0au8])
    } else if i == 14 {
        (5353, "udp"@, "mDNS"@, "Multicast DNS - open mDNS resolvers amplify up to 4.7x"@, "mdns"@, Seq::<u8>::empty())
    } else if i == 15 {
        (5683, "udp"@, "CoAP"@, "Constrained Application Protocol - IoT devices amplify up to 34x"@, "udp_payload"@, seq![0x40u8, 0x01u8, 0x7du8, 0x70u8, 0xbbu8, 0x2eu8, 0x77u8, 0x65u8, 0x6cu8, 0x6cu8, 0x2du8, 0x6bu8, 0x6eu8, 0x6fu8, 0x77u8, 0x6eu8, 0x04u8, 0x63u8, 0x6fu8, 0x72u8, 0x65u8])
    } else if i == 16 {
        (10001, "udp"@, "UBNT"@, "Ubiquiti Discovery Protocol - exposed Ubiquiti devices on the network"@, "udp_payload"@, seq![0x01u8, 0x00u8, 0x00u8, 0x00u8])
    } else if i == 17 {
        (11211, "udp"@, "MEMCACHED"@, "Memcached - massive amplification up to 51000x, extremely dangerous"@, "memcached"@, Seq::<u8>::empty())
    } else if i == 18 {
        (37810, "udp"@, "DVR-DHCPDiscover"@, "DVR DHCP Discovery - exposed cameras and DVRs responding to discovery"@, "udp_payload"@, seq![0xffu8])
    } else if i == 19 {
        (4145, "tcp"@, "MT4145"@, "MikroTik open SOCKS proxy - may indicate a compromised MikroTik device"@, "tcp_connect"@, Seq::<u8>::empty())
    } else {
        (5678, "tcp"@, "MT5678"@, "MikroTik Meris botnet - indicates possible Meris botnet infection (DDoS)"@, "tcp_connect"@, Seq::<u8>::empty())
    }
}

/// `s` is the default port at position `i`.
pub open spec fn is_seed(s: PortSeed, i: int) -> bool {
    let e = seed_entry(i);
    &&& s.port == e.0
    &&& s.protocol@ == e.1
    &&& s.name@ == e.2
    &&& s.description@ == e.3
    &&& s.probe_type@ == e.4
    &&& if e.5.len() == 0 {
        s.payload is None
    } else {
        s.payload matches Some(p) && p@ =~= e.5
    }
}

fn seed(port: u16, protocol: &'static str, name: &'static str, description: &'static str, probe_type: &'static str, payload: Vec<u8>) -> (s: PortSeed)
    ensures
        s.port == port,
        s.protocol@ == protocol@,
        s.name@ == name@,
        s.description@ == description@,
        s.probe_type@ == probe_type@,
        payload@.len() == 0 ==> s.payload is None,
        payload@.len() > 0 ==> (s.payload matches Some(p) && p@ == payload@),
{
    let payload = if payload.len() == 0 { None } else { Some(payload) };
    PortSeed { port, protocol, name, description, probe_type, payload }
}

/// The twenty-one default amplification ports (nineteen UDP services and
/// two TCP ports of MikroTik devices), in the order they are inserted.
#[verifier::rlimit(50)]
pub fn default_ports() -> (seeds: Vec<PortSeed>)
    ensures
        seeds@.len() == 21,
        forall|i: int| 0 <= i < 21 ==> is_seed(#[trigger] seeds@[i], i),
{
    let mut seeds: Vec<PortSeed> = Vec::new();
    seeds.push(seed(17, "udp", "QOTD", "Quote of the Day - legacy service that responds to any packet, used for DDoS amplification", "udp_payload", Vec::new()));
    assert(is_seed(seeds@[0], 0));
    seeds.push(seed(19, "udp", "CHARGEN", "Character Generator - legacy service that generates a character stream, used for DDoS amplification", "udp_payload", Vec::new()));
    assert(is_seed(seeds@[1], 1));
    seeds.push(seed(53, "udp", "DNS", "Domain Name System - open resolvers can amplify traffic up to 54x", "dns", Vec::new()));
    assert(is_seed(seeds@[2], 2));
    seeds.push(seed(69, "udp", "TFTP", "Trivial File Transfer Protocol - exposed TFTP servers allow file extraction and amplification", "tftp", Vec::new()));
    assert(is_seed(seeds@[3], 3));
    seeds.push(seed(111, "udp", "RPC", "Remote Procedure Call Portmapper - exposure allows service enumeration and amplification", "rpc", Vec::new()));
    assert(is_seed(seeds@[4], 4));
    seeds.push(seed(123, "udp", "NTP", "Network Time Protocol - servers with monlist/readvar amplify traffic up to 556x", "ntp", Vec::new()));
    assert(is_seed(seeds@[5], 5));
    seeds.push(seed(137, "udp", "NETBIOS", "NetBIOS Name Service - exposure reveals network information and allows amplification", "netbios", Vec::new()));
    assert(is_seed(seeds@[6], 6));
    seeds.push(seed(161, "udp", "SNMP", "Simple Network Management Protocol - 'public' community exposes data and amplifies up to 6.3x", "snmp", Vec::new()));
    assert(is_seed(seeds@[7], 7));
    seeds.push(seed(389, "udp", "LDAP", "CLDAP - Connectionless LDAP used for massive amplification up to 70x", "ldap", Vec::new()));
    assert(is_seed(seeds@[8], 8));
    seeds.push(seed(427, "udp", "SLP", "Service Location Protocol - used for service amplification up to 2200x", "udp_payload", vec![0x02u8, 0x01u8, 0x00u8, 0x00u8, 0x36u8, 0x20u8, 0x00u8, 0x00u8, 0x00u8, 0x00u8, 0x00u8, 0x01u8, 0x00u8, 0x02u8, 0x65u8, 0x6eu8, 0x00u8, 0x00u8, 0x00u8, 0x15u8, 0x73u8, 0x65u8, 0x72u8, 0x76u8, 0x69u8, 0x63u8, 0x65u8, 0x3au8, 0x73u8, 0x65u8, 0x72u8, 0x76u8, 0x69u8, 0x63u8, 0x65u8, 0x2du8, 0x61u8, 0x67u8, 0x65u8, 0x6eu8, 0x74u8, 0x00u8, 0x07u8, 0x64u8, 0x65u8, 0x66u8, 0x61u8, 0x75u8, 0x6cu8, 0x74u8, 0x00u8, 0x00u8, 0x00u8, 0x00u8]));
    assert(is_seed(seeds@[9], 9));
    seeds.push(seed(520, "udp", "RIPv1", "Routing Information Protocol v1 - routers answering full routing table requests amplify traffic up to 30x", "ripv1", Vec::new()));
    assert(is_seed(seeds@[10], 10));
    seeds.push(seed(1900, "udp", "SSDP", "Simple Service Discovery Protocol - UPnP amplifies traffic up to 30x", "ssdp", Vec::new()));
    assert(is_seed(seeds@[11], 11));
    seeds.push(seed(3283, "udp", "ARMS", "Apple Remote Management Service - amplification via Apple Remote Desktop", "udp_payload", vec![0x00u8, 0x14u8, 0x00u8, 0x01u8, 0x03u8]));
    assert(is_seed(seeds@[12], 12));
    seeds.push(seed(3702, "udp", "WS-DISCOVERY", "Web Services Dynamic Discovery - SOAP/XML amplification up to 153x", "udp_payload", vec![0x3cu8, 0xaau8, 0x3eu8, 0x0au8]));
    assert(is_seed(seeds@[13], 13));
    seeds.push(seed(5353, "udp", "mDNS", "Multicast DNS - open mDNS resolvers amplify up to 4.7x", "mdns", Vec::new()));
    assert(is_seed(seeds@[14], 14));
    seeds.push(seed(5683, "udp", "CoAP", "Constrained Application Protocol - IoT devices amplify up to 34x", "udp_payload", vec![0x40u8, 0x01u8, 0x7du8, 0x70u8, 0xbbu8, 0x2eu8, 0x77u8, 0x65u8, 0x6cu8, 0x6cu8, 0x2du8, 0x6bu8, 0x6eu8, 0x6fu8, 0x77u8, 0x6eu8, 0x04u8, 0x63u8, 0x6fu8, 0x72u8, 0x65u8]));
    assert(is_seed(seeds@[15], 15));
    seeds.push(seed(10001, "udp", "UBNT", "Ubiquiti Discovery Protocol - exposed Ubiquiti devices on the network", "udp_payload", vec![0x01u8, 0x00u8, 0x00u8, 0x00u8]));
    assert(is_seed(seeds@[16], 16));
    seeds.push(seed(11211, "udp", "MEMCACHED", "Memcached - massive amplification up to 51000x, extremely dangerous", "memcached", Vec::new()));
    assert(is_seed(seeds@[17], 17));
    seeds.push(seed(37810, "udp", "DVR-DHCPDiscover", "DVR DHCP Discovery - exposed cameras and DVRs responding to discovery", "udp_payload", vec![0xffu8]));
    assert(is_seed(seeds@[18], 18));
    seeds.push(seed(4145, "tcp", "MT4145", "MikroTik open SOCKS proxy - may indicate a compromised MikroTik device", "tcp_connect", Vec::new()));
    assert(is_seed(seeds@[19], 19));
    seeds.push(seed(5678, "tcp", "MT5678", "MikroTik Meris botnet - indicates possible Meris botnet infection (DDoS)", "tcp_connect", Vec::new()));
    assert(is_seed(seeds@[20], 20));
    seeds
}

/// Whether the port table still has to be seeded: only an empty table is.
pub fn needs_seeding(port_count: i64) -> (seed: bool)
    ensures
        seed == (port_count <= 0),
{
    port_count <= 0
}

/// No two default ports share a port number, so none of them collides
/// with another under the table's uniqueness of (port, protocol); each uses
/// the protocol "udp" or "tcp".
pub proof fn lemma_seed_ports_distinct()
    ensures
        forall|i: int, j: int| 0 <= i < j < 21 ==> #[trigger] seed_entry(i).0 != #[trigger] seed_entry(j).0,
        forall|i: int| 0 <= i < 21 ==> #[trigger] seed_entry(i).1 == "udp"@ || seed_entry(i).1 == "tcp"@,
{
}


/// Every default UDP port names a probe type the scanner knows (none falls
/// back to sending its stored bytes blindly under an unknown type), and
/// every default TCP port is probed by connecting.
pub proof fn lemma_seed_probes_known()
    ensures
        forall|i: int|
            0 <= i < 21 ==> (#[trigger] seed_entry(i)).1 == "udp"@ ==> probe_kind_of(seed_entry(i).4)
                != ProbeKind::Other,
        forall|i: int| 0 <= i < 21 ==> (#[trigger] seed_entry(i)).1 == "tcp"@ ==> seed_entry(i).4 == "tcp_connect"@,
{
    assert("udp"@ != "tcp"@) by {
        reveal_strlit("udp");
        reveal_strlit("tcp");
        assert("udp"@[0] != "tcp"@[0]);
    }
}

/// The probe the scanner builds for the protocol registered (by IANA) on a
/// well-known UDP port: DNS 53, TFTP 69, the RPC portmapper 111, NTP 123,
/// the NetBIOS name service 137, SNMP 161, CLDAP 389, RIP 520, SSDP 1900,
/// mDNS 5353 and memcached 11211. On any other port the stored bytes are
/// sent.
pub open spec fn built_probe_for_udp_port(port: u16) -> ProbeKind {
    if port == 53 {
        ProbeKind::Dns
    } else if port == 69 {
        ProbeKind::Tftp
    } else if port == 111 {
        ProbeKind::Rpc
    } else if port == 123 {
        ProbeKind::Ntp
    } else if port == 137 {
        ProbeKind::Netbios
    } else if port == 161 {
        ProbeKind::Snmp
    } else if port == 389 {
        ProbeKind::Ldap
    } else if port == 520 {
        ProbeKind::Ripv1
    } else if port == 1900 {
        ProbeKind::Ssdp
    } else if port == 5353 {
        ProbeKind::Mdns
    } else if port == 11211 {
        ProbeKind::Memcached
    } else {
        ProbeKind::UdpPayload
    }
}

/// Each default UDP port is probed as the protocol that listens on it: a
/// port with a built probe (such as 123, probed with the NTP request) names
/// that probe's type, and every other UDP port sends stored bytes.
pub proof fn lemma_seed_probes_match_ports()
    ensures
        forall|i: int|
            0 <= i < 21 ==> (#[trigger] seed_entry(i)).1 == "udp"@ ==> probe_kind_of(seed_entry(i).4)
                == built_probe_for_udp_port(seed_entry(i).0),
{
    lemma_probe_type_names();
    assert("udp"@ != "tcp"@) by {
        reveal_strlit("udp");
        reveal_strlit("tcp");
        assert("udp"@[0] != "tcp"@[0]);
    }
    assert forall|i: int| 0 <= i < 21 && (#[trigger] seed_entry(i)).1 == "udp"@ implies probe_kind_of(
        seed_entry(i).4,
    ) == built_probe_for_udp_port(seed_entry(i).0) by {
        if i == 0 {
        } else if i == 1 {
        } else if i == 2 {
        } else if i == 3 {
        } else if i == 4 {
        } else if i == 5 {
        } else if i == 6 {
        } else if i == 7 {
        } else if i == 8 {
        } else if i == 9 {
        } else if i == 10 {
        } else if i == 11 {
        } else if i == 12 {
        } else if i == 13 {
        } else if i == 14 {
        } else if i == 15 {
        } else if i == 16 {
        } else if i == 17 {
        } else if i == 18 {
        } else if i == 19 {
        } else {
        }
    }
}

/// Every protocol the scanner builds a probe for is among the default
/// ports, on its well-known UDP port.
pub proof fn lemma_seed_covers_built_probes(port: u16)
    requires
        built_probe_for_udp_port(port) != ProbeKind::UdpPayload,
    ensures
        exists|i: int| 0 <= i < 21 && (#[trigger] seed_entry(i)).0 == port && seed_entry(i).1 == "udp"@,
{
    let i: int = if port == 53 {
        2
    } else if port == 69 {
        3
    } else if port == 111 {
        4
    } else if port == 123 {
        5
    } else if port == 137 {
        6
    } else if port == 161 {
        7
    } else if port == 389 {
        8
    } else if port == 520 {
        10
    } else if port == 1900 {
        11
    } else if port == 5353 {
        14
    } else {
        17
    };
    assert(seed_entry(i).0 == port && seed_entry(i).1 == "udp"@);
}

/// The probe kind each probe type of the default ports names.
proof fn lemma_probe_type_names()
    ensures
        probe_kind_of("dns"@) == ProbeKind::Dns,
        probe_kind_of("tftp"@) == ProbeKind::Tftp,
        probe_kind_of("rpc"@) == ProbeKind::Rpc,
        probe_kind_of("ntp"@) == ProbeKind::Ntp,
        probe_kind_of("netbios"@) == ProbeKind::Netbios,
        probe_kind_of("snmp"@) == ProbeKind::Snmp,
        probe_kind_of("ldap"@) == ProbeKind::Ldap,
        probe_kind_of("ripv1"@) == ProbeKind::Ripv1,
        probe_kind_of("ssdp"@) == ProbeKind::Ssdp,
        probe_kind_of("mdns"@) == ProbeKind::Mdns,
        probe_kind_of("memcached"@) == ProbeKind::Memcached,
        probe_kind_of("udp_payload"@) == ProbeKind::UdpPayload,
{
    reveal_strlit("dns");
    reveal_strlit("mdns");
    reveal_strlit("snmp");
    reveal_strlit("ntp");
    reveal_strlit("ssdp");
    reveal_strlit("tftp");
    reveal_strlit("netbios");
    reveal_strlit("rpc");
    reveal_strlit("ldap");
    reveal_strlit("memcached");
    reveal_strlit("ripv1");
    reveal_strlit("udp_payload");
    assert("dns"@.len() == 3 && "ntp"@.len() == 3 && "rpc"@.len() == 3);
    assert("mdns"@.len() == 4 && "snmp"@.len() == 4 && "ssdp"@.len() == 4 && "tftp"@.len() == 4 && "ldap"@.len()
        == 4);
    assert("netbios"@.len() == 7 && "ripv1"@.len() == 5 && "memcached"@.len() == 9 && "udp_payload"@.len() == 11);
    assert("ntp"@[0] != "dns"@[0]);
    assert("rpc"@[0] != "dns"@[0] && "rpc"@[0] != "ntp"@[0]);
    assert("snmp"@[0] != "mdns"@[0]);
    assert("ssdp"@[0] != "mdns"@[0] && "ssdp"@[1] != "snmp"@[1]);
    assert("tftp"@[0] != "mdns"@[0] && "tftp"@[0] != "snmp"@[0] && "tftp"@[0] != "ssdp"@[0]);
    assert("ldap"@[0] != "mdns"@[0] && "ldap"@[0] != "snmp"@[0] && "ldap"@[0] != "ssdp"@[0] && "ldap"@[0]
        != "tftp"@[0]);
}

} // verus!
