//! The per-node agent's bookkeeping.
//!
//! A client registration travels in two steps: the interceptor names an
//! ephemeral source port and a virtual target, and the seed then
//! resolves that target to a NAT endpoint and certificate. Both facts
//! land in awaitable maps — source port to virtual address, virtual
//! address to resolved target — and the forwarded TCP stream that
//! arrives moments later looks its peer up by its source port. Both
//! records are written before the interceptor releases the
//! application's `connect`, so by the time the stream arrives its
//! target is resolvable.

use vstd::prelude::*;

use crate::addr::SocketAddrV4Repr;
use crate::dup_bytes;
use crate::awaitable_map::{AwaitableMap, Dup, SlotKey, SlotState};

verus! {

/// A virtual target as the interceptor names it.
#[derive(Clone, Copy, Debug, PartialEq, Eq, Structural)]
pub struct TargetVirtualAddress {
    pub ip: u32,
    pub port: u16,
}

impl View for TargetVirtualAddress {
    type V = TargetVirtualAddress;

    open spec fn view(&self) -> TargetVirtualAddress {
        *self
    }
}

impl Dup for TargetVirtualAddress {
    fn dup(&self) -> (r: Self)
        ensures
            r@ == self@,
    {
        *self
    }
}

impl SlotKey for TargetVirtualAddress {
    fn key_eq(&self, other: &Self) -> (r: bool)
        ensures
            r == (self@ == other@),
    {
        self.ip == other.ip && self.port == other.port
    }
}

impl Dup for u16 {
    fn dup(&self) -> (r: Self)
        ensures
            r@ == self@,
    {
        *self
    }
}

impl SlotKey for u16 {
    fn key_eq(&self, other: &Self) -> (r: bool)
        ensures
            r == (self@ == other@),
    {
        *self == *other
    }
}

/// What the seed resolved a virtual target to, as contracts see it.
pub ghost struct TargetResolvedAddressView {
    pub natted_address: SocketAddrV4Repr,
    pub tgt_port: u16,
    pub certificate_der: Seq<u8>,
}

/// What the seed resolved a virtual target to: the peer's NAT endpoint,
/// the target port behind it, and the peer's tunnel certificate.
pub struct TargetResolvedAddress {
    pub natted_address: SocketAddrV4Repr,
    pub tgt_port: u16,
    pub certificate_der: Vec<u8>,
}

impl View for TargetResolvedAddress {
    type V = TargetResolvedAddressView;

    open spec fn view(&self) -> TargetResolvedAddressView {
        TargetResolvedAddressView {
            natted_address: self.natted_address,
            tgt_port: self.tgt_port,
            certificate_der: self.certificate_der@,
        }
    }
}

impl Dup for TargetResolvedAddress {
    fn dup(&self) -> (r: Self)
        ensures
            r@ == self@,
    {
        TargetResolvedAddress {
            natted_address: self.natted_address,
            tgt_port: self.tgt_port,
            certificate_der: dup_bytes(&self.certificate_der),
        }
    }
}

/// The perforator's resolution state: which virtual address each local
/// source port is bound for, and what each virtual address resolved to.
pub struct Perforator {
    port_mappings: AwaitableMap<u16, TargetVirtualAddress>,
    address_mappings: AwaitableMap<TargetVirtualAddress, TargetResolvedAddress>,
    tcp_port: u16,
}

impl Perforator {
    /// The port map, by source port.
    pub closed spec fn ports(&self) -> Map<u16, Option<TargetVirtualAddress>> {
        self.port_mappings@
    }

    /// The address map, by virtual target.
    pub closed spec fn addresses(&self) -> Map<
        TargetVirtualAddress,
        Option<TargetResolvedAddressView>,
    > {
        self.address_mappings@
    }

    /// The TCP ingress port this perforator listens on.
    pub closed spec fn spec_tcp_port(&self) -> u16 {
        self.tcp_port
    }

    /// Both maps are well formed.
    pub closed spec fn wf(&self) -> bool {
        self.port_mappings.wf() && self.address_mappings.wf()
    }

    /// A perforator with empty maps, listening on `tcp_port`.
    pub fn new(tcp_port: u16) -> (r: Self)
        ensures
            r.wf(),
            r.ports() == Map::<u16, Option<TargetVirtualAddress>>::empty(),
            r.addresses() == Map::<
                TargetVirtualAddress,
                Option<TargetResolvedAddressView>,
            >::empty(),
            r.spec_tcp_port() == tcp_port,
    {
        Perforator {
            port_mappings: AwaitableMap::new(),
            address_mappings: AwaitableMap::new(),
            tcp_port,
        }
    }

    /// First step of a client registration: remember which virtual
    /// address the application's source port is headed for, before
    /// anything else happens.
    pub fn record_port_mapping(&mut self, src_port: u16, tgt_virt: u32, tgt_port: u16)
        requires
            old(self).wf(),
        ensures
            final(self).wf(),
            final(self).ports() == old(self).ports().insert(
                src_port,
                Some(TargetVirtualAddress { ip: tgt_virt, port: tgt_port }),
            ),
            final(self).addresses() == old(self).addresses(),
            final(self).spec_tcp_port() == old(self).spec_tcp_port(),
    {
        let virtual_addr = TargetVirtualAddress { ip: tgt_virt, port: tgt_port };
        self.port_mappings.insert(src_port, virtual_addr);
    }

    /// Second step of a client registration: the seed's answer for a
    /// virtual target. Registering the same target again simply
    /// overwrites the slot with the fresh answer, so repeat
    /// registrations are idempotent.
    pub fn record_resolved_address(
        &mut self,
        tgt_virt: u32,
        tgt_port: u16,
        natted_address: SocketAddrV4Repr,
        certificate_der: Vec<u8>,
    )
        requires
            old(self).wf(),
        ensures
            final(self).wf(),
            final(self).addresses() == old(self).addresses().insert(
                TargetVirtualAddress { ip: tgt_virt, port: tgt_port },
                Some(TargetResolvedAddressView {
                    natted_address,
                    tgt_port,
                    certificate_der: certificate_der@,
                }),
            ),
            final(self).ports() == old(self).ports(),
            final(self).spec_tcp_port() == old(self).spec_tcp_port(),
    {
        let virtual_addr = TargetVirtualAddress { ip: tgt_virt, port: tgt_port };
        self.address_mappings.insert(
            virtual_addr,
            TargetResolvedAddress { natted_address, tgt_port, certificate_der },
        );
    }

    /// Look up which virtual address a forwarded stream's source port
    /// was registered for; an unregistered port leaves an empty slot to
    /// wait on.
    pub fn lookup_port(&mut self, src_port: u16) -> (out: SlotState<TargetVirtualAddress>)
        requires
            old(self).wf(),
        ensures
            final(self).wf(),
            final(self).addresses() == old(self).addresses(),
            final(self).spec_tcp_port() == old(self).spec_tcp_port(),
            ({
                let held = if old(self).ports().contains_key(src_port) {
                    old(self).ports()[src_port]
                } else {
                    None
                };
                match held {
                    Some(v0) => match out {
                        SlotState::Ready(v) => v@ == v0 && final(self).ports() == old(
                            self,
                        ).ports(),
                        SlotState::Waiting => false,
                    },
                    None => out is Waiting && final(self).ports() == old(self).ports().insert(
                        src_port,
                        None,
                    ),
                }
            }),
    {
        self.port_mappings.get_step(&src_port, false)
    }

    /// Look up what a virtual address resolved to; an unresolved target
    /// leaves an empty slot to wait on.
    pub fn lookup_address(&mut self, tgt: &TargetVirtualAddress) -> (out: SlotState<
        TargetResolvedAddress,
    >)
        requires
            old(self).wf(),
        ensures
            final(self).wf(),
            final(self).ports() == old(self).ports(),
            final(self).spec_tcp_port() == old(self).spec_tcp_port(),
            ({
                let held = if old(self).addresses().contains_key(*tgt) {
                    old(self).addresses()[*tgt]
                } else {
                    None
                };
                match held {
                    Some(v0) => match out {
                        SlotState::Ready(v) => v@ == v0 && final(self).addresses() == old(
                            self,
                        ).addresses(),
                        SlotState::Waiting => false,
                    },
                    None => out is Waiting && final(self).addresses() == old(
                        self,
                    ).addresses().insert(*tgt, None),
                }
            }),
    {
        self.address_mappings.get_step(tgt, false)
    }
}

/// A registration that ran to completion is immediately resolvable: the
/// port map knows the source port and the address map knows its target,
/// so a stream arriving after the interceptor's `connect` was released
/// never finds either slot empty.
pub proof fn lemma_registration_resolvable(
    ports: Map<u16, Option<TargetVirtualAddress>>,
    addresses: Map<TargetVirtualAddress, Option<TargetResolvedAddressView>>,
    src_port: u16,
    virt: TargetVirtualAddress,
    resolved: TargetResolvedAddressView,
)
    ensures
        ports.insert(src_port, Some(virt))[src_port] == Some(virt),
        addresses.insert(virt, Some(resolved))[virt] == Some(resolved),
{
}


/// Registering the same target twice with the same answer changes
/// nothing beyond the first registration: one registration per unique
/// target virtual address is sufficient, repeats are idempotent.
pub proof fn lemma_repeat_registration_idempotent(
    addresses: Map<TargetVirtualAddress, Option<TargetResolvedAddressView>>,
    virt: TargetVirtualAddress,
    resolved: TargetResolvedAddressView,
)
    ensures
        addresses.insert(virt, Some(resolved)).insert(virt, Some(resolved)) == addresses.insert(
            virt,
            Some(resolved),
        ),
{
    assert(addresses.insert(virt, Some(resolved)).insert(virt, Some(resolved)) =~= addresses.insert(
        virt,
        Some(resolved),
    ));
}

} // verus!
