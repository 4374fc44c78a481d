//! Forwarding a port at the gateway: which port, for how long, under which
//! name.

use vstd::prelude::*;
use vstd::slice::slice_subrange;
use vstd::string::StringExecFns;
use crate::decimal::{parse_decimal, parse_u64};
use crate::enter::COLON;

verus! {

/// Seconds for which a forwarded port is leased.
pub const LEASE_SECONDS: u32 = 3600;

/// The address holds no port of 16 bits behind its last colon.
#[derive(Debug, Clone, Copy, PartialEq, Eq, Structural)]
pub struct BadPort;

/// A port to forward at the gateway.
#[derive(Debug, PartialEq, Eq)]
pub struct PortMapping {
    pub port: u16,
    pub lease_seconds: u32,
    pub description: String,
}

/// What follows the last `b` in `s`; all of `s` where it holds none.
pub open spec fn after_last(s: Seq<u8>, b: u8) -> Seq<u8>
    decreases s.len(),
{
    if s.len() == 0 {
        s
    } else if s.last() == b {
        Seq::empty()
    } else {
        after_last(s.drop_last(), b).push(s.last())
    }
}

/// The port that an address names behind its last colon.
pub open spec fn address_port(addr: Seq<u8>) -> Option<u16> {
    match parse_decimal(after_last(addr, COLON)) {
        Some(n) => if n <= 65535 {
            Some(n as u16)
        } else {
            None
        },
        None => None,
    }
}

proof fn lemma_after_last(s: Seq<u8>, b: u8, from: int)
    requires
        0 <= from <= s.len(),
        forall|j: int| from <= j < s.len() ==> #[trigger] s[j] != b,
        from > 0 ==> s[from - 1] == b,
    ensures
        after_last(s, b) == s.skip(from),
    decreases s.len() - from,
{
    if s.len() == 0 {
        assert(s.skip(0) =~= s);
    } else if from == s.len() {
        assert(s.skip(from) =~= Seq::<u8>::empty());
    } else {
        let front = s.drop_last();
        assert forall|j: int| from <= j < front.len() implies #[trigger] front[j] != b by {
            assert(front[j] == s[j]);
        }
        assert(s[s.len() - 1] != b);
        if from > 0 {
            assert(front[from - 1] == s[from - 1]);
        }
        lemma_after_last(front, b, from);
        assert(front.skip(from).push(s.last()) =~= s.skip(from));
    }
}

/// Reads the port that an address names behind its last colon.
pub fn port_of_address(addr: &[u8]) -> (r: Option<u16>)
    ensures
        r == address_port(addr@),
{
    let mut from: usize = addr.len();
    while from > 0 && addr[from - 1] != COLON
        invariant
            from <= addr@.len(),
            forall|j: int| from <= j < addr@.len() ==> #[trigger] addr@[j] != COLON,
        decreases from,
    {
        from -= 1;
    }
    proof {
        lemma_after_last(addr@, COLON, from as int);
    }
    let tail = slice_subrange(addr, from, addr.len());
    assert(tail@ =~= addr@.skip(from as int));
    match parse_u64(tail) {
        Some(n) => {
            if n <= 65535 {
                Some(n as u16)
            } else {
                None
            }
        },
        None => None,
    }
}

/// What to ask of the gateway so that the port of `addr` reaches this host:
/// that port, leased for an hour, under the application's name.
pub fn forward_port_igd(addr: &[u8]) -> (r: Result<PortMapping, BadPort>)
    ensures
        match r {
            Ok(mapping) => {
                &&& address_port(addr@) == Some(mapping.port)
                &&& mapping.lease_seconds == LEASE_SECONDS
                &&& mapping.description@ == "Zync"@
            },
            Err(_) => address_port(addr@) is None,
        },
{
    match port_of_address(addr) {
        Some(port) => Ok(
            PortMapping {
                port,
                lease_seconds: LEASE_SECONDS,
                description: String::from_str("Zync"),
            },
        ),
        None => Err(BadPort),
    }
}

} // verus!
