//! Decision rules of the byte-stream forwarder.
//!
//! The forwarder relays TCP streams through QUIC tunnels. The QUIC
//! endpoint, its streams and the sockets live outside the library; what
//! is decided here is how each observed outcome is acted on: which
//! response the accepting side writes after trying the target, when a
//! stream is relayed and when the upstream connection is dropped with a
//! reset, and — the one place where a failed handshake is the success
//! path — how a hole-punch attempt is judged.

use vstd::prelude::*;

use crate::fwd_protocol::{InitQuery, InitResponse};

verus! {

/// The QUIC transport error space reserved for TLS alerts: a crypto
/// error's code is this base plus the alert byte.
pub const QUIC_CRYPTO_ERROR_BASE: u64 = 0x100;

/// The TLS alert a peer sends when it does not trust our issuer.
pub const UNKNOWN_CA_ALERT: u64 = 48;

/// How a QUIC connection attempt ended, as the caller observed it.
#[derive(Clone, Copy, Debug, PartialEq, Eq, Structural)]
pub enum HandshakeOutcome {
    /// The handshake completed and a connection exists.
    Established,
    /// The transport reported an error with this code.
    Transport { code: u64 },
    /// Any other failure (timeout, reset, local error).
    OtherFailure,
}

/// Judge a hole-punch attempt.
///
/// A punch connection is dialled against a fictional server name whose
/// certificate authority nobody holds a key for, so the handshake is
/// meant to fail with an unknown-CA alert: that failure proves our
/// datagrams reached the peer's NAT and is the success criterion. A
/// completed handshake, or any other error, is a failure of the punch.
pub fn punch_outcome(outcome: &HandshakeOutcome) -> (ok: bool)
    ensures
        ok <==> (outcome matches HandshakeOutcome::Transport { code }
            && code == QUIC_CRYPTO_ERROR_BASE + UNKNOWN_CA_ALERT),
{
    match outcome {
        HandshakeOutcome::Transport { code } => *code == QUIC_CRYPTO_ERROR_BASE + UNKNOWN_CA_ALERT,
        _ => false,
    }
}

/// What the two init frames of a freshly opened tunnel stream amount to.
#[derive(Clone, Copy, Debug, PartialEq, Eq, Structural)]
pub enum TunnelSetup {
    /// No QUIC connection, or no readable response: the peer could not
    /// be reached at all.
    Refused,
    /// The peer answered, but could not connect to the target port.
    TargetUnreachable { code: u8 },
    /// The peer reached the target: the stream is ready to carry bytes.
    Ready,
}

/// Weigh a connection attempt and the response that came back on it.
///
/// `connected` says whether a QUIC connection and stream were obtained;
/// `response` is the init response read from it, `None` when the read
/// itself failed.
pub fn evaluate_tunnel_setup(connected: bool, response: Option<InitResponse>) -> (r: TunnelSetup)
    ensures
        ({
            if !connected || response is None {
                r == TunnelSetup::Refused
            } else if response->0.code == 0 {
                r == TunnelSetup::Ready
            } else {
                r == (TunnelSetup::TargetUnreachable { code: response->0.code })
            }
        }),
{
    if !connected {
        return TunnelSetup::Refused;
    }
    match response {
        None => TunnelSetup::Refused,
        Some(resp) => {
            if resp.code == 0 {
                TunnelSetup::Ready
            } else {
                TunnelSetup::TargetUnreachable { code: resp.code }
            }
        },
    }
}

/// What the forwarding side does with the upstream TCP stream.
#[derive(Clone, Copy, Debug, PartialEq, Eq, Structural)]
pub enum ForwardAction {
    /// Relay bytes in both directions until both halves close.
    Relay,
    /// Drop the upstream stream with linger 0, so the application sees a
    /// reset: it already believes it is connected, so a connection
    /// establishment failure is turned into a lost connection.
    DropWithReset,
}

/// Decide the fate of a forwarded stream from its tunnel setup.
pub fn forward_action(setup: &TunnelSetup) -> (a: ForwardAction)
    ensures
        (a == ForwardAction::Relay) <==> (setup is Ready),
{
    match setup {
        TunnelSetup::Ready => ForwardAction::Relay,
        _ => ForwardAction::DropWithReset,
    }
}

/// Judge a connect-only probe: it succeeds exactly when the peer was
/// reached and reported the target port reachable.
pub fn try_target_outcome(setup: &TunnelSetup) -> (ok: bool)
    ensures
        ok <==> (setup is Ready),
{
    matches!(setup, TunnelSetup::Ready)
}

/// The response the accepting side writes after trying to connect to the
/// target port: 0 when the local TCP connection succeeded, 1 when it
/// failed.
pub fn srv_init_response(connect_ok: bool) -> (r: InitResponse)
    ensures
        (r.code == 0) <==> connect_ok,
        r.code == 0 || r.code == 1,
{
    InitResponse { code: if connect_ok { 0 } else { 1 } }
}

/// Whether the accepting side relays bytes after answering: only when the
/// target was reached and the query asked for more than a probe. A
/// connect-only stream is finished untouched, so a probe never consumes
/// application bytes.
pub fn srv_should_relay(query: &InitQuery, connect_ok: bool) -> (r: bool)
    ensures
        r == (connect_ok && !query.connect_only),
{
    connect_ok && !query.connect_only
}

} // verus!
