//! The seed's three operations, as far as they decide anything.
//!
//! The gRPC transport, the streams and the timeouts run outside the
//! library. What is fixed here: how the one-request node-binding stream
//! is policed, what a client binding answers, and that a resolution
//! which does not complete within its timeout fails with "not found".

use vstd::prelude::*;

use crate::addr::SocketAddrV4Repr;
use crate::dup_bytes;
use crate::endpoints::{sink_send, ResolvedTarget, ServerPunchRequest};

verus! {

/// The seed's error space, mirroring the status codes it answers with.
#[derive(Clone, Copy, Debug, PartialEq, Eq, Structural)]
pub enum SeedError {
    /// The target could not be resolved within the timeout.
    NotFound,
    /// The caller broke the protocol.
    InvalidArgument,
}

/// What a node announces on its long-lived binding stream.
pub struct NodeBindingRequest {
    pub cluster_id: String,
    pub source_virtual_ip: String,
    pub cluster_size: u32,
}

/// What one read of the node-binding stream produced.
pub enum NodeStreamItem {
    /// A well-formed request arrived.
    Request(NodeBindingRequest),
    /// The stream yielded an error.
    Faulty,
    /// The stream ended.
    End,
}

/// Police the first read of a node-binding stream: exactly one request
/// must arrive; a fault or an immediate end is a protocol violation.
pub fn node_binding_first(item: NodeStreamItem) -> (r: Result<NodeBindingRequest, SeedError>)
    ensures
        match item {
            NodeStreamItem::Request(req) => r == Ok::<NodeBindingRequest, SeedError>(req),
            NodeStreamItem::Faulty => r == Err::<NodeBindingRequest, SeedError>(
                SeedError::InvalidArgument,
            ),
            NodeStreamItem::End => r == Err::<NodeBindingRequest, SeedError>(
                SeedError::InvalidArgument,
            ),
        },
{
    match item {
        NodeStreamItem::Request(req) => Ok(req),
        NodeStreamItem::Faulty => Err(SeedError::InvalidArgument),
        NodeStreamItem::End => Err(SeedError::InvalidArgument),
    }
}

/// Police the rest of a node-binding stream: any second item is a
/// protocol violation; only the stream's end lets the binding complete.
pub fn node_binding_second(another_item_arrived: bool) -> (r: Result<(), SeedError>)
    ensures
        if another_item_arrived {
            r == Err::<(), SeedError>(SeedError::InvalidArgument)
        } else {
            r == Ok::<(), SeedError>(())
        },
{
    if another_item_arrived {
        Err(SeedError::InvalidArgument)
    } else {
        Ok(())
    }
}

/// A resolution that did not complete within its timeout: the caller is
/// told the target was not found.
pub fn resolution_timeout_error() -> (e: SeedError)
    ensures
        e == SeedError::NotFound,
{
    SeedError::NotFound
}

/// What `bind_client` answers: where the target's perforator is
/// reachable, the certificate to verify it with, and whether the punch
/// request could not be delivered.
pub struct ClientBindingResponse {
    pub target_nated_addr: SocketAddrV4Repr,
    pub server_certificate: Vec<u8>,
    pub failed_punch_request: bool,
}

/// Build the punch request that a client binding pushes towards the
/// resolved server: the caller's NAT-observed address, so the server can
/// fire its punch datagrams there, and the caller's virtual IP.
pub fn make_punch_request(client_nated_addr: SocketAddrV4Repr, client_virtual_ip: String) -> (r:
    ServerPunchRequest)
    ensures
        r.client_nated_addr == client_nated_addr,
        r.client_virtual_ip@ == client_virtual_ip@,
{
    ServerPunchRequest { client_nated_addr, client_virtual_ip }
}

/// Push one punch request into a resolved target's sink: exactly
/// [`make_punch_request`]`(client_nated_addr, client_virtual_ip)`, and
/// nothing else, is handed to the send.
///
/// The sink belongs to the server's long-lived stream; whether it is
/// still open is the server's side of the story, so the only promise is
/// the report: `true` means the push failed because the server
/// disconnected between lookup and send — not fatal, the response
/// carries the flag and the client discovers the failure at its probe.
pub fn push_punch_request(
    target: &ResolvedTarget,
    client_nated_addr: SocketAddrV4Repr,
    client_virtual_ip: String,
) -> (failed: bool) {
    let req = make_punch_request(client_nated_addr, client_virtual_ip);
    !sink_send(&target.punch_req_stream, req)
}

/// Assemble the answer to a client binding from the resolved target and
/// the fate of its punch request.
pub fn client_binding_response(target: &ResolvedTarget, failed_punch_request: bool) -> (resp:
    ClientBindingResponse)
    ensures
        resp.target_nated_addr == target.natted_address,
        resp.server_certificate@ == target.server_certificate@,
        resp.failed_punch_request == failed_punch_request,
{
    let cert = dup_bytes(&target.server_certificate);
    ClientBindingResponse {
        target_nated_addr: target.natted_address,
        server_certificate: cert,
        failed_punch_request,
    }
}

} // verus!
