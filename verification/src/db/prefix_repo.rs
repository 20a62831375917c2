//! The rules the prefix repository applies to prefix texts.

use crate::scanner::targets::{parse_network, parsed_ipnet};
use crate::text::{decimal_digits, decimal_string};
use vstd::prelude::*;

verus! {

/// Why a prefix text is refused.
#[derive(Debug)]
pub enum PrefixError {
    /// The text is not CIDR notation.
    InvalidCidr(String),
    /// An IPv6 prefix shorter than /112: more than 65536 hosts.
    Ipv6TooLarge { prefix_len: u8 },
}

/// The IP version (4 or 6) of a network.
pub open spec fn version_of(net: (bool, u128, u8)) -> u8 {
    if net.0 {
        6
    } else {
        4
    }
}

/// The IP version of a prefix text, which must be CIDR notation; used when
/// a stored prefix is edited.
pub fn prefix_ip_version(prefix: &str) -> (r: Result<u8, PrefixError>)
    ensures
        parsed_ipnet(prefix@) is None ==> (r matches Err(PrefixError::InvalidCidr(s)) && s@ == prefix@),
        parsed_ipnet(prefix@) matches Some(net) ==> r matches Ok(v) && v == version_of(net),
{
    match parse_network(prefix) {
        None => Err(PrefixError::InvalidCidr(prefix.to_owned())),
        Some((v6, _, _)) => Ok(if v6 { 6 } else { 4 }),
    }
}

/// Checks a prefix text before it is stored: it must be CIDR notation, and
/// an IPv6 prefix must be /112 or longer. Gives the IP version.
pub fn validate_new_prefix(prefix: &str) -> (r: Result<u8, PrefixError>)
    ensures
        parsed_ipnet(prefix@) is None ==> (r matches Err(PrefixError::InvalidCidr(s)) && s@ == prefix@),
        parsed_ipnet(prefix@) matches Some(net) ==> if net.0 && net.2 < 112 {
            r matches Err(PrefixError::Ipv6TooLarge { prefix_len }) && prefix_len == net.2
        } else {
            r matches Ok(v) && v == version_of(net)
        },
{
    match parse_network(prefix) {
        None => Err(PrefixError::InvalidCidr(prefix.to_owned())),
        Some((v6, _, len)) => {
            if v6 && len < 112 {
                Err(PrefixError::Ipv6TooLarge { prefix_len: len })
            } else {
                Ok(if v6 { 6 } else { 4 })
            }
        },
    }
}

/// How a refused prefix is reported.
pub open spec fn prefix_error_text(e: PrefixError) -> Seq<char> {
    match e {
        PrefixError::InvalidCidr(p) => "Invalid CIDR prefix: '"@ + p@ + "'"@,
        PrefixError::Ipv6TooLarge { prefix_len } => "IPv6 prefix /"@ + decimal_digits(prefix_len as nat)
            + " is too large (would scan "@ + (if prefix_len < 64 {
            "billions of"@
        } else {
            "2^"@ + decimal_digits(if prefix_len <= 128 {
                (128 - prefix_len) as nat
            } else {
                0
            })
        }) + " hosts). Maximum allowed is /112 (65536 hosts). Use a more specific prefix."@,
    }
}

impl PrefixError {
    /// The message that reports this refusal.
    pub fn message(&self) -> (m: String)
        ensures
            m@ == prefix_error_text(*self),
    {
        match self {
            PrefixError::InvalidCidr(p) => {
                let mut m = String::from_str("Invalid CIDR prefix: '");
                m.append(p.as_str());
                m.append("'");
                m
            },
            PrefixError::Ipv6TooLarge { prefix_len } => {
                let len = *prefix_len;
                let mut m = String::from_str("IPv6 prefix /");
                m.append(decimal_string(len as u64).as_str());
                m.append(" is too large (would scan ");
                if len < 64 {
                    m.append("billions of");
                } else {
                    m.append("2^");
                    let rest: u64 = if len <= 128 { 128 - len as u64 } else { 0 };
                    m.append(decimal_string(rest).as_str());
                }
                m.append(" hosts). Maximum allowed is /112 (65536 hosts). Use a more specific prefix.");
                m
            },
        }
    }
}

} // verus!
