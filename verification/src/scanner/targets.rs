//! Network prefixes and scan targets: parsing, size limits and expansion
//! into the addresses to probe.

use crate::db::models::Prefix;
use crate::text::{contains_chars, contains_str, is_trim_of, trim};
use crate::scanner::result::{insert_sorted_unique, ip_well_formed, strictly_sorted, IpAddress};
use vstd::prelude::*;

verus! {

/// What `ipnet::IpNet::from_str` yields for a text: whether the network is
/// IPv6, its address as an integer, and its prefix length; `None` when the
/// text is not a CIDR prefix.
pub uninterp spec fn parsed_ipnet(s: Seq<char>) -> Option<(bool, u128, u8)>;

/// Parses CIDR notation with `ipnet::IpNet::from_str`. The result is named
/// by [`parsed_ipnet`]; beyond that, only the bounds that `Ipv4Net::new` and
/// `Ipv6Net::new` enforce are stated (prefix length at most 32 resp. 128, and
/// an IPv4 address is a 32-bit value).
#[verifier::external_body]
fn parse_ipnet(s: &str) -> (r: Option<(bool, u128, u8)>)
    ensures
        r == parsed_ipnet(s@),
        r matches Some((v6, bits, len)) ==> if v6 {
            len <= 128
        } else {
            len <= 32 && bits < 0x1_0000_0000
        },
{
    match s.parse::<ipnet::IpNet>() {
        Ok(ipnet::IpNet::V4(n)) => Some((false, u32::from(n.addr()) as u128, n.prefix_len())),
        Ok(ipnet::IpNet::V6(n)) => Some((true, u128::from(n.addr()), n.prefix_len())),
        Err(_) => None,
    }
}

/// Number of host bits of a network.
pub open spec fn host_bits(is_v6: bool, prefix_len: u8) -> u8 {
    if is_v6 {
        (128 - prefix_len) as u8
    } else {
        (32 - prefix_len) as u8
    }
}

/// The smallest prefix length that may be scanned: /16 for IPv4 and /112
/// for IPv6 (65536 addresses either way).
pub open spec fn min_scan_prefix_len(is_v6: bool) -> u8 {
    if is_v6 {
        112
    } else {
        16
    }
}

/// `x` lies in the network `(is_v6, bits, prefix_len)`: same family and the
/// same leading `prefix_len` bits.
pub open spec fn in_network(x: IpAddress, net: (bool, u128, u8)) -> bool {
    x.is_v6 == net.0 && (x.bits >> (host_bits(net.0, net.2) as u128)) == (net.1 >> (host_bits(
        net.0,
        net.2,
    ) as u128))
}

/// A parsed network small enough to scan.
pub open spec fn scannable(net: (bool, u128, u8)) -> bool {
    net.2 >= min_scan_prefix_len(net.0) && (if net.0 {
        net.2 <= 128
    } else {
        net.2 <= 32 && net.1 < 0x1_0000_0000
    })
}

proof fn lemma_block_member(b: u128, hb: u128, m: u128, i: u128)
    requires
        hb <= 16,
        m + 1 == (1u128 << hb),
        i <= m,
    ensures
        (((b & !m) | i) >> hb) == (b >> hb),
        (((b & !m) | i) & m) == i,
{
    assert((((b & !m) | i) >> hb) == (b >> hb)) by (bit_vector)
        requires
            hb <= 16,
            m + 1 == (1u128 << hb),
            i <= m,
    ;
    assert((((b & !m) | i) & m) == i) by (bit_vector)
        requires
            hb <= 16,
            m + 1 == (1u128 << hb),
            i <= m,
    ;
}

proof fn lemma_block_cover(b: u128, hb: u128, m: u128, y: u128)
    requires
        hb <= 16,
        m + 1 == (1u128 << hb),
        (y >> hb) == (b >> hb),
    ensures
        y == ((b & !m) | (y & m)),
        (y & m) <= m,
{
    assert(y == ((b & !m) | (y & m))) by (bit_vector)
        requires
            hb <= 16,
            m + 1 == (1u128 << hb),
            (y >> hb) == (b >> hb),
    ;
    assert((y & m) <= m) by (bit_vector);
}

proof fn lemma_v4_member_bound(b: u128, hb: u128, y: u128)
    requires
        hb <= 16,
        b < 0x1_0000_0000,
        (y >> hb) == (b >> hb),
    ensures
        y < 0x1_0000_0000,
{
    assert(y < 0x1_0000_0000) by (bit_vector)
        requires
            hb <= 16,
            b < 0x1_0000_0000,
            (y >> hb) == (b >> hb),
    ;
}

proof fn lemma_block_size(hb: u128)
    requires
        hb <= 16,
    ensures
        1 <= (1u128 << hb) <= 65536,
        hb >= 2 ==> (1u128 << hb) >= 4,
{
    assert(1 <= (1u128 << hb) && (1u128 << hb) <= 65536) by (bit_vector)
        requires
            hb <= 16,
    ;
    assert(hb >= 2 ==> (1u128 << hb) >= 4) by (bit_vector)
        requires
            hb <= 16,
    ;
}

/// Adds every address of a scannable network to a sorted, repeat-free list.
fn add_network(ips: &mut Vec<IpAddress>, net: (bool, u128, u8))
    requires
        scannable(net),
        strictly_sorted(old(ips)@),
        forall|k: int| 0 <= k < old(ips)@.len() ==> ip_well_formed(#[trigger] old(ips)@[k]),
    ensures
        strictly_sorted(final(ips)@),
        forall|k: int| 0 <= k < final(ips)@.len() ==> ip_well_formed(#[trigger] final(ips)@[k]),
        forall|x: IpAddress| final(ips)@.contains(x) <==> (old(ips)@.contains(x) || in_network(x, net)),
        final(ips)@.len() <= old(ips)@.len() + 65536,
{
    let (v6, bits, len) = net;
    let hb: u8 = if v6 { 128 - len } else { 32 - len };
    let shift: u128 = hb as u128;
    proof {
        lemma_block_size(shift);
    }
    let size: u128 = 1u128 << shift;
    let mask: u128 = size - 1;
    let network: u128 = bits & !mask;
    let ghost start = ips@;
    let mut i: u128 = 0;
    while i < size
        invariant
            scannable(net),
            net == (v6, bits, len),
            hb == host_bits(v6, len),
            shift == hb as u128,
            shift <= 16,
            size == (1u128 << shift),
            1 <= size <= 65536,
            mask == size - 1,
            network == bits & !mask,
            i <= size,
            strictly_sorted(ips@),
            forall|k: int| 0 <= k < ips@.len() ==> ip_well_formed(#[trigger] ips@[k]),
            forall|x: IpAddress| #[trigger] ips@.contains(x) <==> (start.contains(x) || (x.is_v6 == v6
                && (x.bits >> shift) == (bits >> shift) && (x.bits & mask) < i)),
            ips@.len() <= start.len() + i,
        decreases size - i,
    {
        let addr = IpAddress { is_v6: v6, bits: network | i };
        proof {
            lemma_block_member(bits, shift, mask, i);
            if !v6 {
                lemma_v4_member_bound(bits, shift, addr.bits);
            }
        }
        let ghost before = ips@;
        insert_sorted_unique(ips, addr);
        proof {
            assert forall|k: int| 0 <= k < ips@.len() implies ip_well_formed(#[trigger] ips@[k]) by {
                assert(ips@.contains(ips@[k]));
                if ips@[k] != addr {
                    assert(before.contains(ips@[k]));
                    let j = choose|j: int| 0 <= j < before.len() && before[j] == ips@[k];
                    assert(ip_well_formed(before[j]));
                }
            }
            assert forall|x: IpAddress| ips@.contains(x) <==> (start.contains(x) || (x.is_v6 == v6
                && (x.bits >> shift) == (bits >> shift) && (x.bits & mask) < i + 1)) by {
                assert(ips@.contains(x) <==> (before.contains(x) || x == addr));
                assert(before.contains(x) <==> (start.contains(x) || (x.is_v6 == v6
                    && (x.bits >> shift) == (bits >> shift) && (x.bits & mask) < i)));
                if x.is_v6 == v6 && (x.bits >> shift) == (bits >> shift) {
                    lemma_block_cover(bits, shift, mask, x.bits);
                    if (x.bits & mask) == i {
                        assert(x.bits == addr.bits);
                        assert(x == addr);
                    }
                }
                if x == addr {
                    assert((x.bits & mask) == i);
                }
            }
        }
        i = i + 1;
    }
    proof {
        assert forall|x: IpAddress| ips@.contains(x) <==> (start.contains(x) || in_network(x, net)) by {
            assert(ips@.contains(x) <==> (start.contains(x) || (x.is_v6 == v6
                && (x.bits >> shift) == (bits >> shift) && (x.bits & mask) < i)));
            if in_network(x, net) {
                lemma_block_cover(bits, shift, mask, x.bits);
            }
        }
    }
}

/// Parses CIDR notation: `(is_v6, address, prefix_len)`, or `None`.
pub fn parse_network(s: &str) -> (r: Option<(bool, u128, u8)>)
    ensures
        r == parsed_ipnet(s@),
        r matches Some((v6, bits, len)) ==> if v6 {
            len <= 128
        } else {
            len <= 32 && bits < 0x1_0000_0000
        },
{
    parse_ipnet(s)
}

/// Why a prefix or target cannot be scanned.
#[derive(Clone, Debug, PartialEq, Eq)]
pub enum ScanError {
    /// The text is not CIDR notation.
    InvalidPrefix(String),
    /// The network holds more than 65536 addresses.
    PrefixTooLarge { prefix: String, is_v6: bool, prefix_len: u8 },
    /// The text is neither an IP address nor CIDR notation.
    InvalidTarget(String),
    /// The scan was stopped because the process ran out of file
    /// descriptors; the probe's error message is kept.
    ResourceExhausted(String),
    /// The number of probes (addresses times ports) does not fit in a
    /// `usize`.
    TooManyProbes,
}

/// A prefix whose text parses and whose network may be scanned.
pub open spec fn prefix_scannable(p: Prefix) -> bool {
    parsed_ipnet(p.prefix@) matches Some(net) && net.2 >= min_scan_prefix_len(net.0)
}

/// `e` is the error reported for the unscannable prefix text `text`.
pub open spec fn describes_prefix_error(e: ScanError, text: Seq<char>) -> bool {
    match parsed_ipnet(text) {
        None => e matches ScanError::InvalidPrefix(s) && s@ == text,
        Some(net) => e matches ScanError::PrefixTooLarge { prefix, is_v6, prefix_len } && prefix@
            == text && is_v6 == net.0 && prefix_len == net.2,
    }
}

/// `x` lies in the network of one of the prefixes.
pub open spec fn in_some_prefix(x: IpAddress, ps: Seq<Prefix>) -> bool {
    exists|i: int| 0 <= i < ps.len() && in_network(x, parsed_ipnet(#[trigger] ps[i].prefix@)->0)
}

/// Every address that lies in the network of one of the prefixes.
pub open spec fn prefix_addresses(ps: Seq<Prefix>) -> Set<IpAddress> {
    Set::new(|x: IpAddress| in_some_prefix(x, ps))
}

/// Every prefix of the list may be scanned.
pub open spec fn all_scannable(ps: Seq<Prefix>) -> bool {
    forall|i: int| 0 <= i < ps.len() ==> prefix_scannable(#[trigger] ps[i])
}

/// `e` reports the first prefix of the list that may not be scanned.
pub open spec fn reports_first_bad_prefix(e: ScanError, ps: Seq<Prefix>) -> bool {
    exists|i: int|
        0 <= i < ps.len() && (forall|j: int| 0 <= j < i ==> prefix_scannable(#[trigger] ps[j]))
            && !prefix_scannable(ps[i]) && describes_prefix_error(e, ps[i].prefix@)
}

/// The addresses and totals of a scan over a list of prefixes.
pub struct ScanPlan {
    /// Every address of every prefix, once each, in increasing order.
    pub ips: Vec<IpAddress>,
    /// The prefix texts, in the order given.
    pub prefixes_scanned: Vec<String>,
    pub total_ips: usize,
    pub total_probes: usize,
}

fn prefix_error(text: &String, net: Option<(bool, u128, u8)>) -> (e: ScanError)
    requires
        net == parsed_ipnet(text@),
    ensures
        describes_prefix_error(e, text@),
{
    match net {
        None => ScanError::InvalidPrefix(text.clone()),
        Some((is_v6, _, prefix_len)) => ScanError::PrefixTooLarge { prefix: text.clone(), is_v6, prefix_len },
    }
}

/// Expands the prefixes into the addresses to probe. Every prefix must parse
/// as CIDR notation and hold at most 65536 addresses (at least /16 for IPv4,
/// /112 for IPv6); the first prefix that does not is reported. The
/// addresses of all prefixes are merged, once each, in increasing order; the
/// probe total is the address count times the number of ports, and a total
/// that does not fit in a `usize` is refused.
pub fn plan_scan(port_count: usize, prefixes: &Vec<Prefix>) -> (r: Result<ScanPlan, ScanError>)
    ensures
        r is Ok <==> all_scannable(prefixes@) && prefix_addresses(prefixes@).len() * port_count <= usize::MAX,
        !all_scannable(prefixes@) ==> (r matches Err(e) && reports_first_bad_prefix(e, prefixes@)),
        all_scannable(prefixes@) && prefix_addresses(prefixes@).len() * port_count > usize::MAX ==> (r matches Err(
            ScanError::TooManyProbes,
        )),
        r matches Ok(plan) ==> {
            &&& strictly_sorted(plan.ips@)
            &&& forall|k: int| 0 <= k < plan.ips@.len() ==> ip_well_formed(#[trigger] plan.ips@[k])
            &&& forall|x: IpAddress| plan.ips@.contains(x) <==> in_some_prefix(x, prefixes@)
            &&& plan.ips@.len() == prefix_addresses(prefixes@).len()
            &&& plan.total_ips == plan.ips@.len()
            &&& plan.ips@.len() <= 65536 * prefixes@.len()
            &&& plan.total_probes == plan.ips@.len() * port_count
            &&& plan.prefixes_scanned@.len() == prefixes@.len()
            &&& forall|i: int| 0 <= i < prefixes@.len() ==> #[trigger] plan.prefixes_scanned@[i]@
                == prefixes@[i].prefix@
        },
{
    let mut names: Vec<String> = Vec::new();
    let mut ips: Vec<IpAddress> = Vec::new();
    let mut i: usize = 0;
    while i < prefixes.len()
        invariant
            i <= prefixes@.len(),
            forall|j: int| 0 <= j < i ==> prefix_scannable(#[trigger] prefixes@[j]),
            strictly_sorted(ips@),
            forall|k: int| 0 <= k < ips@.len() ==> ip_well_formed(#[trigger] ips@[k]),
            forall|x: IpAddress| ips@.contains(x) <==> in_some_prefix(x, prefixes@.take(i as int)),
            ips@.len() <= 65536 * i,
            names@.len() == i,
            forall|j: int| 0 <= j < i ==> #[trigger] names@[j]@ == prefixes@[j].prefix@,
        decreases prefixes.len() - i,
    {
        let p = &prefixes[i];
        let net = parse_network(p.prefix.as_str());
        match net {
            Some((v6, bits, len)) => {
                let min: u8 = if v6 { 112 } else { 16 };
                if len < min {
                    return Err(prefix_error(&p.prefix, net));
                }
                let ghost before = ips@;
                add_network(&mut ips, (v6, bits, len));
                proof {
                    let t0 = prefixes@.take(i as int);
                    let t1 = prefixes@.take(i + 1);
                    assert forall|x: IpAddress| ips@.contains(x) <==> in_some_prefix(x, t1) by {
                        if in_some_prefix(x, t1) {
                            let j = choose|j: int| 0 <= j < t1.len() && in_network(x, parsed_ipnet(#[trigger] t1[j].prefix@)->0);
                            if j < i {
                                assert(t0[j] == t1[j]);
                                assert(in_some_prefix(x, t0));
                            } else {
                                assert(t1[j] == prefixes@[i as int]);
                            }
                        }
                        if in_some_prefix(x, t0) {
                            let j = choose|j: int| 0 <= j < t0.len() && in_network(x, parsed_ipnet(#[trigger] t0[j].prefix@)->0);
                            assert(t1[j] == t0[j]);
                        }
                        if in_network(x, (v6, bits, len)) {
                            assert(t1[i as int] == prefixes@[i as int]);
                        }
                    }
                }
            },
            None => {
                return Err(prefix_error(&p.prefix, net));
            },
        }
        names.push(p.prefix.clone());
        i = i + 1;
    }
    proof {
        assert(prefixes@.take(prefixes@.len() as int) =~= prefixes@);
        lemma_sorted_count(ips@, prefixes@);
    }
    let total_ips = ips.len();
    match total_ips.checked_mul(port_count) {
        None => Err(ScanError::TooManyProbes),
        Some(total_probes) => Ok(ScanPlan { ips, prefixes_scanned: names, total_ips, total_probes }),
    }
}

/// A strictly sorted list of exactly the addresses of the prefixes has as
/// many entries as there are such addresses.
proof fn lemma_sorted_count(ips: Seq<IpAddress>, ps: Seq<Prefix>)
    requires
        strictly_sorted(ips),
        forall|x: IpAddress| ips.contains(x) <==> in_some_prefix(x, ps),
    ensures
        ips.len() == prefix_addresses(ps).len(),
{
    assert(ips.no_duplicates()) by {
        assert forall|i: int, j: int| 0 <= i < ips.len() && 0 <= j < ips.len() && i != j implies ips[i] != ips[j] by {
            if i < j {
                assert(crate::scanner::result::ip_key(ips[i]) < crate::scanner::result::ip_key(ips[j]));
            } else {
                assert(crate::scanner::result::ip_key(ips[j]) < crate::scanner::result::ip_key(ips[i]));
            }
        }
    }
    ips.unique_seq_to_set();
    assert(ips.to_set() =~= prefix_addresses(ps));
}

/// A single-target scan: the prefix that stands for the target and the
/// number of addresses the target names.
pub struct TargetPlan {
    pub prefix: Prefix,
    pub host_count: usize,
}

/// Number of usable host addresses of a scannable network, as
/// `ipnet`'s `hosts()` yields them: an IPv4 network shorter than /31 leaves
/// out its network and broadcast addresses.
pub open spec fn host_count(net: (bool, u128, u8)) -> int {
    let size = (1u128 << (host_bits(net.0, net.2) as u128)) as int;
    if !net.0 && net.2 < 31 {
        size - 2
    } else {
        size
    }
}

/// Resolves a single target: the trimmed text is an IP address (as
/// `target_ip`, the caller's parse of that trimmed text, says) or CIDR
/// notation of at most 65536 addresses. The plan's prefix carries the
/// trimmed text (an address made into a one-address network, /32 or /128),
/// the description "Target Scan" and the IP version of the target.
pub fn resolve_target(target: &str, target_ip: Option<IpAddress>) -> (r: Result<TargetPlan, ScanError>)
    ensures
        forall|t: Seq<char>| is_trim_of(target@, t) ==> {
            &&& target_ip is Some ==> (r matches Ok(plan) && plan.prefix.prefix@ == t + (if target_ip->0.is_v6 {
                "/128"@
            } else {
                "/32"@
            }) && plan.host_count == 1 && plan.prefix.ip_version == (if target_ip->0.is_v6 { 6u8 } else { 4u8 }))
            &&& target_ip is None ==> match parsed_ipnet(t) {
                None => r matches Err(ScanError::InvalidTarget(s)) && s@ == t,
                Some(net) => if net.2 < min_scan_prefix_len(net.0) {
                    r matches Err(ScanError::PrefixTooLarge { prefix, is_v6, prefix_len }) && prefix@ == t
                        && is_v6 == net.0 && prefix_len == net.2
                } else {
                    r matches Ok(plan) && plan.prefix.prefix@ == t && plan.host_count == host_count(net)
                        && plan.prefix.ip_version == (if net.0 { 6u8 } else { 4u8 })
                },
            }
        },
        r matches Ok(plan) ==> plan.prefix.id == 0 && plan.prefix.description@ == "Target Scan"@
            && plan.prefix.enabled && plan.prefix.created_at@.len() == 0 && plan.prefix.updated_at@.len()
            == 0,
{
    let t = trim(target);
    proof {
        assert forall|t2: Seq<char>| is_trim_of(target@, t2) implies t2 == t@ by {
            lemma_trim_unique(target@, t2, t@);
        }
    }
    let (is_v6, hosts): (bool, usize) = match target_ip {
        Some(ip) => (ip.is_v6, 1),
        None => match parse_network(t.as_str()) {
            Some((v6, bits, len)) => {
                let min: u8 = if v6 { 112 } else { 16 };
                if len < min {
                    return Err(ScanError::PrefixTooLarge { prefix: t, is_v6: v6, prefix_len: len });
                }
                let hb: u8 = if v6 { 128 - len } else { 32 - len };
                let shift: u128 = hb as u128;
                proof {
                    lemma_block_size(shift);
                }
                let size: u128 = 1u128 << shift;
                let count: usize = if !v6 && len < 31 { (size - 2) as usize } else { size as usize };
                (v6, count)
            },
            None => {
                return Err(ScanError::InvalidTarget(t));
            },
        },
    };
    let mut text = t;
    if let Some(ip) = target_ip {
        text.append(if ip.is_v6 { "/128" } else { "/32" });
    }
    let prefix = Prefix {
        id: 0,
        prefix: text,
        description: String::from_str("Target Scan"),
        ip_version: if is_v6 { 6 } else { 4 },
        enabled: true,
        created_at: String::new(),
        updated_at: String::new(),
    };
    Ok(TargetPlan { prefix, host_count: hosts })
}

pub(crate) proof fn lemma_trim_unique(s: Seq<char>, t1: Seq<char>, t2: Seq<char>)
    requires
        is_trim_of(s, t1),
        is_trim_of(s, t2),
    ensures
        t1 == t2,
{
    let (a1, b1) = choose|a: int, b: int|
        0 <= a <= b <= s.len() && t1 == s.subrange(a, b) && (forall|k: int| 0 <= k < a ==> crate::text::is_space(
            #[trigger] s[k],
        )) && (forall|k: int| b <= k < s.len() ==> crate::text::is_space(#[trigger] s[k])) && (a < b ==> !crate::text::is_space(
            s[a],
        ) && !crate::text::is_space(s[b - 1]));
    let (a2, b2) = choose|a: int, b: int|
        0 <= a <= b <= s.len() && t2 == s.subrange(a, b) && (forall|k: int| 0 <= k < a ==> crate::text::is_space(
            #[trigger] s[k],
        )) && (forall|k: int| b <= k < s.len() ==> crate::text::is_space(#[trigger] s[k])) && (a < b ==> !crate::text::is_space(
            s[a],
        ) && !crate::text::is_space(s[b - 1]));
    if a1 < b1 && a2 < b2 {
        assert(a1 == a2);
        assert(b1 == b2);
    } else if a1 < b1 {
        assert(crate::text::is_space(s[a1]));
    } else if a2 < b2 {
        assert(crate::text::is_space(s[a2]));
    } else {
        assert(t1 =~= t2);
    }
}

/// Whether a target text (already trimmed) may be scanned: it is not empty
/// and it is an IP address (as `ip_parses`, the caller's parse of the text,
/// says) or CIDR notation.
pub fn target_is_valid(trimmed: &str, ip_parses: bool) -> (valid: bool)
    ensures
        valid == (trimmed@.len() > 0 && (ip_parses || parsed_ipnet(trimmed@) is Some)),
{
    trimmed.unicode_len() > 0 && (ip_parses || parse_network(trimmed).is_some())
}


/// `p` is the prefix made of the text `text` typed on the command line: no
/// id, described as "Manual prefix", IP version 6 when the text holds a
/// colon and 4 otherwise, enabled, with no timestamps.
pub open spec fn is_manual_prefix(p: Prefix, text: Seq<char>) -> bool {
    &&& p.id == 0
    &&& p.prefix@ == text
    &&& p.description@ == "Manual prefix"@
    &&& p.ip_version == (if contains_chars(text, ":"@) { 6u8 } else { 4u8 })
    &&& p.enabled
    &&& p.created_at@.len() == 0
    &&& p.updated_at@.len() == 0
}

/// A prefix typed on the command line in place of the stored ones (see
/// [`is_manual_prefix`]).
pub fn manual_prefix(text: &str) -> (p: Prefix)
    ensures
        is_manual_prefix(p, text@),
{
    Prefix {
        id: 0,
        prefix: text.to_owned(),
        description: String::from_str("Manual prefix"),
        ip_version: if contains_str(text, ":") { 6 } else { 4 },
        enabled: true,
        created_at: String::new(),
        updated_at: String::new(),
    }
}


/// Why a scan asked for on the command line cannot start.
#[derive(Clone, Copy, Debug, PartialEq, Eq, Structural)]
pub enum ScanSetupError {
    /// No port is enabled.
    NoEnabledPorts,
    /// No prefix was typed and none is enabled in the database.
    NoEnabledPrefixes,
}

/// How a setup error is reported.
pub open spec fn setup_error_text(e: ScanSetupError) -> Seq<char> {
    match e {
        ScanSetupError::NoEnabledPorts => "No enabled ports. Use 'ampscan port list' to view ports."@,
        ScanSetupError::NoEnabledPrefixes => "No enabled prefixes in the database. Register a prefix or use --prefix."@,
    }
}

impl ScanSetupError {
    /// The message that reports this error.
    pub fn message(&self) -> (m: String)
        ensures
            m@ == setup_error_text(*self),
    {
        match self {
            ScanSetupError::NoEnabledPorts => String::from_str("No enabled ports. Use 'ampscan port list' to view ports."),
            ScanSetupError::NoEnabledPrefixes => String::from_str(
                "No enabled prefixes in the database. Register a prefix or use --prefix.",
            ),
        }
    }
}

/// The prefixes a scan asked for on the command line covers: with no
/// enabled port there is nothing to scan; a prefix typed with `--prefix`
/// replaces the stored ones; otherwise the enabled prefixes of the database
/// (`stored`) are scanned, and there must be at least one.
pub fn command_scan_prefixes(port_count: usize, manual: Option<&str>, stored: Vec<Prefix>) -> (r: Result<
    Vec<Prefix>,
    ScanSetupError,
>)
    ensures
        port_count == 0 ==> r == Err::<Vec<Prefix>, ScanSetupError>(ScanSetupError::NoEnabledPorts),
        port_count > 0 && manual is Some ==> (r matches Ok(v) && v@.len() == 1 && is_manual_prefix(
            v@[0],
            manual->0@,
        )),
        port_count > 0 && manual is None && stored@.len() == 0 ==> r == Err::<Vec<Prefix>, ScanSetupError>(
            ScanSetupError::NoEnabledPrefixes,
        ),
        port_count > 0 && manual is None && stored@.len() > 0 ==> (r matches Ok(v) && v@ == stored@),
{
    if port_count == 0 {
        return Err(ScanSetupError::NoEnabledPorts);
    }
    match manual {
        Some(text) => Ok(vec![manual_prefix(text)]),
        None => {
            if stored.len() == 0 {
                Err(ScanSetupError::NoEnabledPrefixes)
            } else {
                Ok(stored)
            }
        },
    }
}

/// A PDF report is written after a command-line scan only when it was
/// asked for and the scan covered the stored prefixes, not a typed one.
pub fn wants_pdf_report(pdf_requested: bool, manual_prefix_given: bool) -> (b: bool)
    ensures
        b == (pdf_requested && !manual_prefix_given),
{
    pdf_requested && !manual_prefix_given
}

/// How a scan error is reported.
pub open spec fn scan_error_text(e: ScanError) -> Seq<char> {
    match e {
        ScanError::InvalidPrefix(p) => "Invalid prefix: "@ + p@,
        ScanError::PrefixTooLarge { prefix, is_v6, prefix_len } => (if is_v6 {
            "IPv6 prefix "@
        } else {
            "IPv4 prefix "@
        }) + prefix@ + " is too large to scan (prefix /"@ + crate::text::decimal_digits(prefix_len as nat)
            + "). The maximum allowed is "@ + (if is_v6 {
            "/112"@
        } else {
            "/16"@
        }) + " (65536 hosts)."@,
        ScanError::InvalidTarget(t) => "Invalid target IP or CIDR prefix: "@ + t@,
        ScanError::ResourceExhausted(_) => "Scan aborted: OS limit reached (Too many open files)."@,
        ScanError::TooManyProbes => "Scan too large: too many addresses and ports."@,
    }
}

impl ScanError {
    /// The message that reports this error.
    pub fn message(&self) -> (m: String)
        ensures
            m@ == scan_error_text(*self),
    {
        match self {
            ScanError::InvalidPrefix(p) => {
                let mut m = String::from_str("Invalid prefix: ");
                m.append(p.as_str());
                m
            },
            ScanError::PrefixTooLarge { prefix, is_v6, prefix_len } => {
                let mut m = String::from_str(if *is_v6 { "IPv6 prefix " } else { "IPv4 prefix " });
                m.append(prefix.as_str());
                m.append(" is too large to scan (prefix /");
                m.append(crate::text::decimal_string(*prefix_len as u64).as_str());
                m.append("). The maximum allowed is ");
                m.append(if *is_v6 { "/112" } else { "/16" });
                m.append(" (65536 hosts).");
                m
            },
            ScanError::InvalidTarget(t) => {
                let mut m = String::from_str("Invalid target IP or CIDR prefix: ");
                m.append(t.as_str());
                m
            },
            ScanError::ResourceExhausted(_) => String::from_str("Scan aborted: OS limit reached (Too many open files)."),
            ScanError::TooManyProbes => String::from_str("Scan too large: too many addresses and ports."),
        }
    }
}

} // verus!
