//! Decisions of the network layer: whether a message may go out, and to whom.

use vstd::prelude::*;
use crate::addr::SiteAddr;
use crate::message::NetworkMessageCode;

verus! {

/// What to do with a message about to be sent.
#[derive(Debug, Clone, Copy, PartialEq, Eq, Structural)]
pub enum SendCheck {
    /// A transaction without a command: refuse it with an error.
    MissingCommand,
    /// An address with no IP or no port: skip it without error.
    SkipInvalidAddress,
    /// Send it.
    Send,
}

/// Whether an address can be sent to: it has an IP address and a port.
pub open spec fn valid_destination(a: SiteAddr) -> bool {
    match a {
        SiteAddr::V4 { ip, port } => ip != 0 && port != 0,
        SiteAddr::V6 { ip, port, .. } => ip != 0 && port != 0,
    }
}

/// Checks a message before it is sent: a transaction must carry a command, and the
/// destination must have an IP address and a port.
pub fn check_send(code: NetworkMessageCode, has_command: bool, address: SiteAddr) -> (r: SendCheck)
    ensures
        code == NetworkMessageCode::Transaction && !has_command ==> r == SendCheck::MissingCommand,
        !(code == NetworkMessageCode::Transaction && !has_command) && !valid_destination(address)
            ==> r == SendCheck::SkipInvalidAddress,
        !(code == NetworkMessageCode::Transaction && !has_command) && valid_destination(address)
            ==> r == SendCheck::Send,
{
    if code == NetworkMessageCode::Transaction && !has_command {
        SendCheck::MissingCommand
    } else if address.ip_is_unspecified() || address.port() == 0 {
        SendCheck::SkipInvalidAddress
    } else {
        SendCheck::Send
    }
}

/// The peers that a diffused message goes to: all but the parent of the wave, in order.
pub fn diffusion_targets(peers: &Vec<SiteAddr>, parent: SiteAddr) -> (t: Vec<SiteAddr>)
    ensures
        t@ == peers@.filter(|a: SiteAddr| a != parent),
{
    let mut t: Vec<SiteAddr> = Vec::new();
    let mut i: usize = 0;
    while i < peers.len()
        invariant
            i <= peers.len(),
            t@ == peers@.take(i as int).filter(|a: SiteAddr| a != parent),
        decreases peers.len() - i,
    {
        proof {
            assert(peers@.take(i as int + 1).drop_last() =~= peers@.take(i as int));
            reveal_with_fuel(Seq::filter, 1);
        }
        if peers[i] != parent {
            t.push(peers[i]);
        }
        i += 1;
    }
    assert(peers@.take(peers.len() as int) =~= peers@);
    t
}

/// The ports to look for peers on, when no peer was given at launch: every port from
/// `start` to `end`, both included, but the node's own.
pub fn discovery_ports(start: u16, end: u16, selected: u16) -> (ports: Vec<u16>)
    ensures
        forall|p: u16| ports@.contains(p) <==> (start <= p <= end && p != selected),
        forall|i: int, j: int| 0 <= i < j < ports@.len() ==> ports@[i] < ports@[j],
{
    let mut ports: Vec<u16> = Vec::new();
    if start > end {
        return ports;
    }
    let mut p: u16 = start;
    loop
        invariant
            start <= p <= end,
            forall|q: u16| ports@.contains(q) <==> (start <= q < p && q != selected),
            forall|i: int, j: int| 0 <= i < j < ports@.len() ==> ports@[i] < ports@[j],
            forall|i: int| 0 <= i < ports@.len() ==> ports@[i] < p,
        decreases end - p,
    {
        if p != selected {
            let ghost before = ports@;
            ports.push(p);
            proof {
                assert forall|q: u16| ports@.contains(q) <==> (start <= q <= p && q != selected) by {
                    if q == p {
                        assert(ports@[before.len() as int] == p);
                    }
                    if ports@.contains(q) && q != p {
                        let k = ports@.index_of(q);
                        assert(before[k] == q);
                    }
                    if before.contains(q) {
                        let k = before.index_of(q);
                        assert(ports@[k] == q);
                    }
                }
            }
        }
        if p == end {
            return ports;
        }
        p += 1;
    }
}

} // verus!
