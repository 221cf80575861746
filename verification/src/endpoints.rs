//! The seed's directory of bound servers.
//!
//! Every server that binds is recorded under its `(cluster, virtual ip)`
//! key with the NAT endpoint it was seen from, its tunnel certificate and
//! a sink into which punch requests for it are pushed. A later bind for
//! the same key always replaces the entry — the caller only learns whether
//! the sink it displaced was already closed (an expected refresh, logged
//! quietly) or still open (logged as an error, but applied all the same,
//! so that new callers resolve to the live replacement). Lookups share the
//! awaitable-map discipline: a reader that finds a dead entry clears it
//! and waits for the server to bind again.

use vstd::prelude::*;

use crate::addr::SocketAddrV4Repr;
use crate::dup_bytes;
use crate::awaitable_map::{AwaitableMap, Dup, SlotKey, SlotState};
use tokio::sync::mpsc::UnboundedSender;

verus! {

/// What the seed forwards to a bound server when a client wants to reach
/// it: where the client was seen from, and who the client claims to be.
pub struct ServerPunchRequest {
    pub client_nated_addr: SocketAddrV4Repr,
    pub client_virtual_ip: String,
}

/// Relies on tokio's `UnboundedSender` type: the send half of an
/// unbounded mpsc channel, carried through the directory as an opaque
/// value.
#[verifier::external_type_specification]
#[verifier::external_body]
#[verifier::reject_recursive_types(T)]
pub struct ExUnboundedSender<T>(UnboundedSender<T>);

/// Relies on tokio's `UnboundedSender::is_closed`: true exactly when the
/// receive half of the channel has been dropped or closed. The answer
/// depends on what the other side has done by now, so nothing is promised
/// of it.
#[verifier::external_body]
pub(crate) fn sink_is_closed(tx: &UnboundedSender<ServerPunchRequest>) -> bool {
    tx.is_closed()
}

/// Relies on tokio's `UnboundedSender::send`: an unbounded send needs no
/// waiting and succeeds exactly while the receive half is still open.
/// Whether that is the case depends on the other side, so nothing is
/// promised of the result.
#[verifier::external_body]
pub(crate) fn sink_send(tx: &UnboundedSender<ServerPunchRequest>, req: ServerPunchRequest) -> (ok:
    bool) {
    tx.send(req).is_ok()
}

/// Relies on tokio's `Clone` for `UnboundedSender`: another handle to the
/// same channel.
#[verifier::external_body]
pub(crate) fn sink_clone(tx: &UnboundedSender<ServerPunchRequest>) -> (r: UnboundedSender<
    ServerPunchRequest,
>) {
    tx.clone()
}

/// A directory key: which virtual IP, in which cluster.
pub struct VirtualTarget {
    pub cluster_id: String,
    pub ip: String,
}

impl View for VirtualTarget {
    type V = (Seq<char>, Seq<char>);

    open spec fn view(&self) -> (Seq<char>, Seq<char>) {
        (self.cluster_id@, self.ip@)
    }
}

impl Dup for VirtualTarget {
    fn dup(&self) -> (r: Self)
        ensures
            r@ == self@,
    {
        VirtualTarget { cluster_id: self.cluster_id.clone(), ip: self.ip.clone() }
    }
}

impl SlotKey for VirtualTarget {
    fn key_eq(&self, other: &Self) -> (r: bool)
        ensures
            r == (self@ == other@),
    {
        let same = self.cluster_id == other.cluster_id && self.ip == other.ip;
        proof {
            if same {
                assert(self@ == other@);
            }
        }
        same
    }
}

/// What a directory entry records about a bound server, as contracts see
/// it: the NAT endpoint and the certificate. The punch sink travels with
/// the entry but is opaque to specifications.
pub ghost struct ResolvedTargetView {
    pub natted_address: SocketAddrV4Repr,
    pub server_certificate: Seq<u8>,
}

/// A directory entry: where the server's perforator is reachable, how to
/// verify it, and the sink its punch requests go into.
pub struct ResolvedTarget {
    pub natted_address: SocketAddrV4Repr,
    pub punch_req_stream: UnboundedSender<ServerPunchRequest>,
    pub server_certificate: Vec<u8>,
}

impl View for ResolvedTarget {
    type V = ResolvedTargetView;

    open spec fn view(&self) -> ResolvedTargetView {
        ResolvedTargetView {
            natted_address: self.natted_address,
            server_certificate: self.server_certificate@,
        }
    }
}

impl Dup for ResolvedTarget {
    fn dup(&self) -> (r: Self)
        ensures
            r@ == self@,
    {
        ResolvedTarget {
            natted_address: self.natted_address,
            punch_req_stream: sink_clone(&self.punch_req_stream),
            server_certificate: dup_bytes(&self.server_certificate),
        }
    }
}

/// What a server binding displaced.
#[derive(Clone, Copy, Debug, PartialEq, Eq, Structural)]
pub enum ReplaceOutcome {
    /// No server was recorded under this key.
    Fresh,
    /// A prior entry was replaced and its sink was already closed: the
    /// expected refresh after a server went away.
    ReplacedClosed,
    /// A prior entry whose sink was still open was replaced: logged as an
    /// error, but the replacement is applied all the same.
    ReplacedOpen,
}

/// Map virtual addresses to the NAT endpoint, certificate and punch sink
/// of the server bound there.
pub struct RegisteredEndpoints(AwaitableMap<VirtualTarget, ResolvedTarget>);

impl View for RegisteredEndpoints {
    type V = Map<(Seq<char>, Seq<char>), Option<ResolvedTargetView>>;

    closed spec fn view(&self) -> Map<(Seq<char>, Seq<char>), Option<ResolvedTargetView>> {
        self.0@
    }
}

impl RegisteredEndpoints {
    /// The inner map is well formed.
    pub closed spec fn wf(&self) -> bool {
        self.0.wf()
    }

    /// An empty directory.
    pub fn new() -> (r: Self)
        ensures
            r.wf(),
            r@ == Map::<(Seq<char>, Seq<char>), Option<ResolvedTargetView>>::empty(),
    {
        RegisteredEndpoints(AwaitableMap::new())
    }

    /// Record a server binding and wake whoever waits for it.
    ///
    /// The entry is written unconditionally: a bind always takes effect.
    /// The outcome says what it displaced — in particular, a live entry
    /// is still replaced, so every resolution from now on sees the new
    /// endpoint, certificate and sink.
    pub fn insert(
        &mut self,
        server_nated_addr: SocketAddrV4Repr,
        req_tx: UnboundedSender<ServerPunchRequest>,
        server_certificate: Vec<u8>,
        registered_ip: String,
        cluster_id: String,
    ) -> (outcome: ReplaceOutcome)
        requires
            old(self).wf(),
        ensures
            final(self).wf(),
            final(self)@ == old(self)@.insert(
                (cluster_id@, registered_ip@),
                Some(ResolvedTargetView {
                    natted_address: server_nated_addr,
                    server_certificate: server_certificate@,
                }),
            ),
            (outcome is Fresh) <==> (!old(self)@.contains_key((cluster_id@, registered_ip@))
                || old(self)@[(cluster_id@, registered_ip@)] is None),
    {
        let key = VirtualTarget { cluster_id, ip: registered_ip };
        let target = ResolvedTarget {
            natted_address: server_nated_addr,
            punch_req_stream: req_tx,
            server_certificate,
        };
        let prev = self.0.insert(key, target);
        match prev {
            Some(prior) => {
                if sink_is_closed(&prior.punch_req_stream) {
                    ReplaceOutcome::ReplacedClosed
                } else {
                    ReplaceOutcome::ReplacedOpen
                }
            },
            None => ReplaceOutcome::Fresh,
        }
    }

    /// One step of a resolution: look the key up, clearing a dead entry
    /// first.
    ///
    /// An entry whose punch sink has closed belongs to a server that went
    /// away; it is reset, and the caller waits for the next bind — as it
    /// does when no value is there yet. Whether the sink was closed is the
    /// other side's doing, so the contract allows both: either the held
    /// value comes back unchanged, or the slot is cleared for waiting.
    pub fn get_step(&mut self, tgt_ip: &String, cluster_id: &String) -> (out: SlotState<
        ResolvedTarget,
    >)
        requires
            old(self).wf(),
        ensures
            final(self).wf(),
            final(self)@.contains_key((cluster_id@, tgt_ip@)),
            ({
                let k = (cluster_id@, tgt_ip@);
                let held = if old(self)@.contains_key(k) {
                    old(self)@[k]
                } else {
                    None
                };
                match held {
                    Some(v0) => match out {
                        SlotState::Ready(v) => v@ == v0 && final(self)@ == old(self)@,
                        SlotState::Waiting => final(self)@ == old(self)@.insert(k, None),
                    },
                    None => out is Waiting && final(self)@ == old(self)@.insert(k, None),
                }
            }),
    {
        let key = VirtualTarget { cluster_id: cluster_id.clone(), ip: tgt_ip.clone() };
        let reset = match self.0.peek(&key) {
            Some(current) => sink_is_closed(&current.punch_req_stream),
            None => false,
        };
        self.0.get_step(&key, reset)
    }
}

/// A bind always takes effect: after a server binds — whether or not it
/// displaced a live entry — every resolution of its key sees exactly the
/// new endpoint and certificate, so no new caller is served by the
/// displaced entry.
pub proof fn lemma_bind_serves_new_callers(
    m: Map<(Seq<char>, Seq<char>), Option<ResolvedTargetView>>,
    k: (Seq<char>, Seq<char>),
    next: ResolvedTargetView,
)
    ensures
        m.insert(k, Some(next)).contains_key(k),
        m.insert(k, Some(next))[k] == Some(next),
{
}

} // verus!
