//! Reading addresses from text.

use vstd::prelude::*;
use core::str::FromStr;
use crate::model::{IpAddr, IpInet};

verus! {

/// The address with its prefix length that `cidr` reads from a text, or
/// nothing where it reads none.
pub uninterp spec fn inet_of_text(text: Seq<char>) -> Option<IpInet>;

/// Calls `cidr::IpInet::from_str` and hands back the address and the prefix
/// length as plain numbers. The parser is a function of the text alone, and
/// it refuses a prefix longer than the address.
#[verifier::external_body]
pub(crate) fn inet_from_str(text: &str) -> (r: Option<IpInet>)
    ensures
        r == inet_of_text(text@),
        r.is_some() ==> r.unwrap().wf(),
{
    match cidr::IpInet::from_str(text) {
        Ok(cidr::IpInet::V4(inet)) => Some(
            IpInet {
                address: IpAddr::V4(u32::from(inet.address())),
                prefix: inet.network_length(),
            },
        ),
        Ok(cidr::IpInet::V6(inet)) => Some(
            IpInet {
                address: IpAddr::V6(u128::from(inet.address())),
                prefix: inet.network_length(),
            },
        ),
        Err(_) => None,
    }
}

/// Whether `c` occurs in `text`.
pub fn contains_char(text: &str, c: char) -> (r: bool)
    ensures
        r == text@.contains(c),
{
    let n = text.unicode_len();
    let mut i: usize = 0;
    while i < n
        invariant
            i <= n,
            n == text@.len(),
            forall|j: int| 0 <= j < i ==> text@[j] != c,
        decreases n - i,
    {
        if text.get_char(i) == c {
            return true;
        }
        i += 1;
    }
    false
}

/// What a nameserver entry denotes: a bare address, never one with a prefix.
pub open spec fn nameserver_of_text(text: Seq<char>) -> Option<IpAddr> {
    if text.contains('/') {
        None
    } else {
        match inet_of_text(text) {
            Some(inet) => Some(inet.address),
            None => None,
        }
    }
}

/// Reads one nameserver entry.
pub fn parse_nameserver(text: &str) -> (r: Option<IpAddr>)
    ensures
        r == nameserver_of_text(text@),
{
    if contains_char(text, '/') {
        None
    } else {
        match inet_from_str(text) {
            Some(inet) => Some(inet.address),
            None => None,
        }
    }
}

} // verus!
