use vstd::prelude::*;

verus! {

/// An IP address: four bytes or sixteen, read as one big-endian number.
#[derive(Clone, Copy, Debug, PartialEq, Eq, Structural, Hash)]
pub enum IpAddress {
    V4(u32),
    V6(u128),
}

/// A process: the address and port of its listening socket.
#[derive(Clone, Copy, Debug, PartialEq, Eq, Structural, Hash)]
pub struct Pid {
    pub ip: IpAddress,
    pub port: u16,
}

/// The order of addresses: every IPv4 address before every IPv6 one.
pub open spec fn ip_less(a: IpAddress, b: IpAddress) -> bool {
    match (a, b) {
        (IpAddress::V4(x), IpAddress::V4(y)) => x < y,
        (IpAddress::V4(_), IpAddress::V6(_)) => true,
        (IpAddress::V6(_), IpAddress::V4(_)) => false,
        (IpAddress::V6(x), IpAddress::V6(y)) => x < y,
    }
}

/// The lexicographic order of pids: address first, then port.
pub open spec fn pid_less(a: Pid, b: Pid) -> bool {
    ip_less(a.ip, b.ip) || (a.ip == b.ip && a.port < b.port)
}

impl Pid {
    pub fn new(ip: IpAddress, port: u16) -> (r: Pid)
        ensures
            r.ip == ip,
            r.port == port,
    {
        Pid { ip, port }
    }

    /// Whether `self` comes before `other`.
    pub fn less_than(&self, other: &Pid) -> (r: bool)
        ensures
            r == pid_less(*self, *other),
    {
        let ip_lt = match (self.ip, other.ip) {
            (IpAddress::V4(x), IpAddress::V4(y)) => x < y,
            (IpAddress::V4(_), IpAddress::V6(_)) => true,
            (IpAddress::V6(_), IpAddress::V4(_)) => false,
            (IpAddress::V6(x), IpAddress::V6(y)) => x < y,
        };
        ip_lt || (self.ip == other.ip && self.port < other.port)
    }

    /// Whether this process, rather than `remote`, opens the connection
    /// between the two: the smaller pid does.
    pub fn initiates(&self, remote: &Pid) -> (r: bool)
        ensures
            r == pid_less(*self, *remote),
    {
        self.less_than(remote)
    }
}

/// Of two distinct pids exactly one opens their connection.
pub proof fn lemma_one_side_initiates(a: Pid, b: Pid)
    requires
        a != b,
    ensures
        pid_less(a, b) != pid_less(b, a),
{
}

} // verus!
