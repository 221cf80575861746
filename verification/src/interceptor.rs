//! Address classification for the libc shim.
//!
//! The shim replaces `connect` and `bind` inside arbitrary application
//! processes and must never take one down: on any missing precondition
//! it delegates to libc unchanged. What it decides — whether an address
//! belongs to the virtual subnet, and what each call does about that —
//! is laid out here; the raw sockaddr handling and the libc calls stay
//! in the shim.

use vstd::prelude::*;

use crate::addr::SocketAddrV4Repr;

verus! {

/// The loopback address, as one 32-bit value.
pub const LOOPBACK_IP: u32 = 0x7F000001;

/// The local perforator's TCP ingress port.
pub const PERFORATOR_PORT: u16 = 5000;

/// The perforator's QUIC endpoint port.
pub const PERFORATOR_QUIC_PORT: u16 = 5001;

/// An IPv4 subnet: the network address and the prefix length.
#[derive(Clone, Copy, Debug, PartialEq, Eq, Structural)]
pub struct Ipv4Subnet {
    pub network: u32,
    pub prefix_len: u8,
}

/// Whether `ip` lies in the subnet: its upper `prefix_len` bits match
/// the network's.
pub open spec fn spec_subnet_contains(subnet: Ipv4Subnet, ip: u32) -> bool {
    if subnet.prefix_len == 0 {
        true
    } else if subnet.prefix_len >= 32 {
        ip == subnet.network
    } else {
        ip >> ((32 - subnet.prefix_len) as u32) == subnet.network >> ((32
            - subnet.prefix_len) as u32)
    }
}

/// Test subnet membership.
pub fn subnet_contains(subnet: &Ipv4Subnet, ip: u32) -> (r: bool)
    ensures
        r == spec_subnet_contains(*subnet, ip),
{
    if subnet.prefix_len == 0 {
        true
    } else if subnet.prefix_len >= 32 {
        ip == subnet.network
    } else {
        let shift: u32 = (32 - subnet.prefix_len) as u32;
        ip >> shift == subnet.network >> shift
    }
}

/// What the shim knows from its environment: this node's virtual IP and
/// the virtual subnet.
#[derive(Clone, Copy, Debug, PartialEq, Eq, Structural)]
pub struct VirtualConf {
    pub virtual_ip: u32,
    pub subnet: Ipv4Subnet,
}

/// How a destination or source address is classified.
#[derive(Clone, Copy, Debug, PartialEq, Eq, Structural)]
pub enum ParsedAddress {
    /// The address is this very node's virtual IP.
    LocalVirtual(SocketAddrV4Repr),
    /// The address lies in the virtual subnet but is another node.
    RemoteVirtual(SocketAddrV4Repr),
    /// An ordinary address: none of the shim's business.
    NotVirtual,
    /// The configuration is absent: delegate and decide nothing.
    Unknown,
}

/// Classify an address against the configuration.
///
/// `addr` is `None` when the raw address was not IPv4; `conf` is `None`
/// when virtual IP or subnet are not configured — then the class is
/// unknown and the shim delegates.
pub fn parse_virtual(addr: Option<SocketAddrV4Repr>, conf: &Option<VirtualConf>) -> (r:
    ParsedAddress)
    ensures
        ({
            match *conf {
                None => r == ParsedAddress::Unknown,
                Some(c) => match addr {
                    None => r == ParsedAddress::NotVirtual,
                    Some(a) => {
                        if a.ip == c.virtual_ip {
                            r == ParsedAddress::LocalVirtual(a)
                        } else if spec_subnet_contains(c.subnet, a.ip) {
                            r == ParsedAddress::RemoteVirtual(a)
                        } else {
                            r == ParsedAddress::NotVirtual
                        }
                    },
                },
            }
        }),
{
    match conf {
        None => ParsedAddress::Unknown,
        Some(c) => match addr {
            None => ParsedAddress::NotVirtual,
            Some(a) => {
                if a.ip == c.virtual_ip {
                    ParsedAddress::LocalVirtual(a)
                } else if subnet_contains(&c.subnet, a.ip) {
                    ParsedAddress::RemoteVirtual(a)
                } else {
                    ParsedAddress::NotVirtual
                }
            },
        },
    }
}

/// What an intercepted `connect` does.
#[derive(Clone, Copy, Debug, PartialEq, Eq, Structural)]
pub enum ConnectPlan {
    /// Bind the socket to an ephemeral port, register the connection
    /// with the local perforator, and only then connect to the
    /// perforator's ingress in place of the original target.
    PunchThenConnect { target: SocketAddrV4Repr },
    /// An intra-node target: rewrite the destination to loopback at the
    /// original port.
    LoopbackRewrite { port: u16 },
    /// Hand the call to libc unchanged.
    Delegate,
}

/// Decide what an intercepted `connect` does with a classified address.
pub fn connect_plan(parsed: &ParsedAddress) -> (p: ConnectPlan)
    ensures
        ({
            match *parsed {
                ParsedAddress::RemoteVirtual(a) => p == (ConnectPlan::PunchThenConnect {
                    target: a,
                }),
                ParsedAddress::LocalVirtual(a) => p == (ConnectPlan::LoopbackRewrite {
                    port: a.port,
                }),
                ParsedAddress::NotVirtual => p == ConnectPlan::Delegate,
                ParsedAddress::Unknown => p == ConnectPlan::Delegate,
            }
        }),
{
    match parsed {
        ParsedAddress::RemoteVirtual(a) => ConnectPlan::PunchThenConnect { target: *a },
        ParsedAddress::LocalVirtual(a) => ConnectPlan::LoopbackRewrite { port: a.port },
        ParsedAddress::NotVirtual => ConnectPlan::Delegate,
        ParsedAddress::Unknown => ConnectPlan::Delegate,
    }
}

/// What an intercepted `bind` does.
#[derive(Clone, Copy, Debug, PartialEq, Eq, Structural)]
pub enum BindPlan {
    /// Register this process as the server for its virtual IP and bind
    /// to loopback at the original port instead.
    RegisterServer { port: u16 },
    /// Binding to another node's virtual address is impossible: fail
    /// with "address not available".
    RejectAddrNotAvail,
    /// Hand the call to libc unchanged.
    Delegate,
}

/// Decide what an intercepted `bind` does with a classified address.
pub fn bind_plan(parsed: &ParsedAddress) -> (p: BindPlan)
    ensures
        ({
            match *parsed {
                ParsedAddress::LocalVirtual(a) => p == (BindPlan::RegisterServer { port: a.port }),
                ParsedAddress::RemoteVirtual(_) => p == BindPlan::RejectAddrNotAvail,
                ParsedAddress::NotVirtual => p == BindPlan::Delegate,
                ParsedAddress::Unknown => p == BindPlan::Delegate,
            }
        }),
{
    match parsed {
        ParsedAddress::LocalVirtual(a) => BindPlan::RegisterServer { port: a.port },
        ParsedAddress::RemoteVirtual(_) => BindPlan::RejectAddrNotAvail,
        ParsedAddress::NotVirtual => BindPlan::Delegate,
        ParsedAddress::Unknown => BindPlan::Delegate,
    }
}

/// How the shim finishes an intercepted `connect` after the punch
/// round trip.
#[derive(Clone, Copy, Debug, PartialEq, Eq, Structural)]
pub enum PunchVerdict {
    /// Registration succeeded: forward the connect to the perforator's
    /// loopback ingress.
    ConnectTo(SocketAddrV4Repr),
    /// Registration failed: the application's connect fails with
    /// "connection refused".
    FailConnRefused,
}

/// Turn the registration status byte into the shim's next move.
pub fn punch_verdict(status: u8) -> (v: PunchVerdict)
    ensures
        status == 0 ==> v == PunchVerdict::ConnectTo(
            SocketAddrV4Repr { ip: LOOPBACK_IP, port: PERFORATOR_PORT },
        ),
        status != 0 ==> v == PunchVerdict::FailConnRefused,
{
    if status == 0 {
        PunchVerdict::ConnectTo(SocketAddrV4Repr { ip: LOOPBACK_IP, port: PERFORATOR_PORT })
    } else {
        PunchVerdict::FailConnRefused
    }
}

} // verus!
