//! Socket addresses as plain numbers, as far as the relay's rules read them.

use vstd::prelude::*;

verus! {

/// An IP address, as the number that its bytes in network order make.
#[derive(Clone, Copy, Debug, PartialEq, Eq, Structural)]
pub enum IpAddr {
    V4(u32),
    V6(u128),
}

/// An IP address and a port, and for IPv6 the flow label and the scope.
#[derive(Clone, Copy, Debug, PartialEq, Eq, Structural)]
pub enum SocketAddr {
    V4 { ip: u32, port: u16 },
    V6 { ip: u128, port: u16, flowinfo: u32, scope_id: u32 },
}

/// `127.0.0.0/8` and `::1`.
pub open spec fn loopback(ip: IpAddr) -> bool {
    match ip {
        IpAddr::V4(bits) => 0x7f00_0000 <= bits <= 0x7fff_ffff,
        IpAddr::V6(bits) => bits == 1,
    }
}

/// `0.0.0.0` and `::`.
pub open spec fn unspecified(ip: IpAddr) -> bool {
    match ip {
        IpAddr::V4(bits) => bits == 0,
        IpAddr::V6(bits) => bits == 0,
    }
}

/// The address with an IPv4-mapped one, `::ffff:0:0/96`, taken as IPv4.
pub open spec fn canonical_ip(ip: IpAddr) -> IpAddr {
    match ip {
        IpAddr::V6(bits) => if 0xffff_0000_0000 <= bits <= 0xffff_ffff_ffff {
            IpAddr::V4((bits - 0xffff_0000_0000) as u32)
        } else {
            ip
        },
        IpAddr::V4(_) => ip,
    }
}

impl IpAddr {
    /// Whether this is a loopback address.
    pub fn is_loopback(&self) -> (yes: bool)
        ensures
            yes == loopback(*self),
    {
        match self {
            IpAddr::V4(bits) => 0x7f00_0000 <= *bits && *bits <= 0x7fff_ffff,
            IpAddr::V6(bits) => *bits == 1,
        }
    }

    /// Whether this is the wildcard address.
    pub fn is_unspecified(&self) -> (yes: bool)
        ensures
            yes == unspecified(*self),
    {
        match self {
            IpAddr::V4(bits) => *bits == 0,
            IpAddr::V6(bits) => *bits == 0,
        }
    }
}

impl SocketAddr {
    /// The IP address in a specification.
    pub open spec fn spec_ip(self) -> IpAddr {
        match self {
            SocketAddr::V4 { ip, .. } => IpAddr::V4(ip),
            SocketAddr::V6 { ip, .. } => IpAddr::V6(ip),
        }
    }

    /// The port in a specification.
    pub open spec fn spec_port(self) -> u16 {
        match self {
            SocketAddr::V4 { port, .. } => port,
            SocketAddr::V6 { port, .. } => port,
        }
    }

    /// The IP address.
    #[verifier::when_used_as_spec(spec_ip)]
    pub fn ip(self) -> (ip: IpAddr)
        ensures
            ip == self.spec_ip(),
    {
        match self {
            SocketAddr::V4 { ip, .. } => IpAddr::V4(ip),
            SocketAddr::V6 { ip, .. } => IpAddr::V6(ip),
        }
    }

    /// The port.
    #[verifier::when_used_as_spec(spec_port)]
    pub fn port(self) -> (port: u16)
        ensures
            port == self.spec_port(),
    {
        match self {
            SocketAddr::V4 { port, .. } => port,
            SocketAddr::V6 { port, .. } => port,
        }
    }
}

/// The address by which the connections of one source are counted.
pub fn canonical_source_ip(source: IpAddr) -> (ip: IpAddr)
    ensures
        ip == canonical_ip(source),
{
    match source {
        IpAddr::V6(bits) => {
            if 0xffff_0000_0000 <= bits && bits <= 0xffff_ffff_ffff {
                IpAddr::V4((bits - 0xffff_0000_0000) as u32)
            } else {
                source
            }
        },
        IpAddr::V4(_) => source,
    }
}

/// The canonical address is its own canonical address, and two sources of one
/// family are counted together only where they are the same.
pub proof fn law_canonical_ip(a: IpAddr, b: IpAddr)
    ensures
        canonical_ip(canonical_ip(a)) == canonical_ip(a),
        canonical_ip(a) == canonical_ip(b) && (a is V4 <==> b is V4) ==> a == b,
{
}

/// An IPv4 address is counted as itself, also where it comes mapped into IPv6;
/// every other IPv6 address is counted as itself.
pub proof fn law_mapped_addresses_are_ipv4(ip: u32, bits: u128)
    ensures
        canonical_ip(IpAddr::V4(ip)) == IpAddr::V4(ip),
        canonical_ip(IpAddr::V6((0xffff_0000_0000 + ip) as u128)) == IpAddr::V4(ip),
        bits / 0x1_0000_0000 != 0xffff ==> canonical_ip(IpAddr::V6(bits)) == IpAddr::V6(bits),
{
}

} // verus!
