//! Virtual-subnet tunnelling for mutually firewalled hosts.
//!
//! Unmodified TCP programs are given addresses on a virtual IPv4 subnet; a
//! per-node side-car (the perforator) terminates their rewritten connections,
//! resolves virtual targets through a cluster-wide rendezvous directory (the
//! seed), drives UDP hole punching and relays the byte streams over QUIC
//! tunnels. This crate holds the logic of those components — the wire
//! framings, the address bookkeeping, the rendezvous directory and the
//! decision rules of the relays — with machine-checked contracts; the
//! sockets, the QUIC endpoints and the async plumbing around them live in
//! the accompanying unverified binaries.

pub mod addr;
pub mod awaitable_map;
pub mod cluster;
pub mod conf;
pub mod control;
pub mod endpoints;
pub mod forwarder;
pub mod fwd_protocol;
pub mod interceptor;
pub mod metrics;
pub mod perforator;
pub mod relay;
pub mod retry;
pub mod seed_service;
pub mod shutdown;
pub mod timed_poll;

use vstd::prelude::*;

verus! {

/// The server name every tunnel certificate is issued for.
pub const SERVER_NAME: &'static str = "chappy";

/// A fictive server name used when dialling hole-punch connections; no
/// server ever holds a key for it, so such handshakes are meant to fail.
pub const PUNCH_SERVER_NAME: &'static str = "chappy-punch";

/// Copy `v` into a fresh vector.
pub(crate) fn dup_bytes(v: &Vec<u8>) -> (r: Vec<u8>)
    ensures
        r@ == v@,
{
    let mut r: Vec<u8> = Vec::new();
    let mut i: usize = 0;
    while i < v.len()
        invariant
            0 <= i <= v@.len(),
            r@ == v@.subrange(0, i as int),
        decreases v@.len() - i,
    {
        r.push(v[i]);
        proof {
            assert(r@ =~= v@.subrange(0, i + 1 as int));
        }
        i += 1;
    }
    proof {
        assert(r@ =~= v@);
    }
    r
}

} // verus!
