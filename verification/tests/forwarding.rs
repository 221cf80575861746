//! Forwarder decisions: tunnel setup, probes, hole punching, retries.

use chappy::forwarder::{
    evaluate_tunnel_setup, forward_action, punch_outcome, srv_init_response, srv_should_relay,
    try_target_outcome, ForwardAction, HandshakeOutcome, TunnelSetup, QUIC_CRYPTO_ERROR_BASE,
    UNKNOWN_CA_ALERT,
};
use chappy::fwd_protocol::{InitQuery, InitResponse};
use chappy::retry::{
    connect_retry_step, quic_retry_step, ConnectFailure, ConnectStep, QuicRetryStep,
};

#[test]
fn punch_succeeds_only_on_unknown_ca() {
    // the one place where a failed handshake is the success path
    let expected_code = QUIC_CRYPTO_ERROR_BASE + UNKNOWN_CA_ALERT;
    assert!(punch_outcome(&HandshakeOutcome::Transport { code: expected_code }));
    assert!(!punch_outcome(&HandshakeOutcome::Established));
    assert!(!punch_outcome(&HandshakeOutcome::Transport { code: expected_code + 1 }));
    assert!(!punch_outcome(&HandshakeOutcome::OtherFailure));
}

#[test]
fn tunnel_setup_cases() {
    assert_eq!(evaluate_tunnel_setup(false, None), TunnelSetup::Refused);
    assert_eq!(
        evaluate_tunnel_setup(false, Some(InitResponse { code: 0 })),
        TunnelSetup::Refused
    );
    assert_eq!(evaluate_tunnel_setup(true, None), TunnelSetup::Refused);
    assert_eq!(
        evaluate_tunnel_setup(true, Some(InitResponse { code: 0 })),
        TunnelSetup::Ready
    );
    assert_eq!(
        evaluate_tunnel_setup(true, Some(InitResponse { code: 1 })),
        TunnelSetup::TargetUnreachable { code: 1 }
    );
}

#[test]
fn only_a_ready_tunnel_relays() {
    assert_eq!(forward_action(&TunnelSetup::Ready), ForwardAction::Relay);
    assert_eq!(
        forward_action(&TunnelSetup::Refused),
        ForwardAction::DropWithReset
    );
    assert_eq!(
        forward_action(&TunnelSetup::TargetUnreachable { code: 1 }),
        ForwardAction::DropWithReset
    );
}

#[test]
fn try_target_against_missing_listener_fails() {
    // the peer answers, but nothing listens on the target port
    let setup = evaluate_tunnel_setup(true, Some(InitResponse { code: 1 }));
    assert!(!try_target_outcome(&setup));
}

#[test]
fn try_target_against_listener_succeeds() {
    let setup = evaluate_tunnel_setup(true, Some(InitResponse { code: 0 }));
    assert!(try_target_outcome(&setup));
}

#[test]
fn server_answers_zero_on_success_one_on_failure() {
    assert_eq!(srv_init_response(true), InitResponse { code: 0 });
    assert_eq!(srv_init_response(false), InitResponse { code: 1 });
}

#[test]
fn probe_never_consumes_application_bytes() {
    let probe = InitQuery { target_port: 8080, connect_only: true };
    // even a reachable target is only probed, never relayed
    assert!(!srv_should_relay(&probe, true));
    assert!(!srv_should_relay(&probe, false));
    let full = InitQuery { target_port: 8080, connect_only: false };
    assert!(srv_should_relay(&full, true));
    assert!(!srv_should_relay(&full, false));
}

#[test]
fn tcp_retry_backs_off_linearly() {
    let step = connect_retry_step(10, 500, 0, &ConnectFailure::Refused);
    assert_eq!(
        step,
        ConnectStep::RetryAfterMs { delay_ms: 20, next_backoff_ms: 5 }
    );
    let step = connect_retry_step(100, 500, 5, &ConnectFailure::Refused);
    assert_eq!(
        step,
        ConnectStep::RetryAfterMs { delay_ms: 25, next_backoff_ms: 10 }
    );
}

#[test]
fn tcp_retry_gives_up() {
    // budget spent
    assert_eq!(
        connect_retry_step(501, 500, 0, &ConnectFailure::Refused),
        ConnectStep::GiveUp
    );
    // an error that is not "refused" is never retried
    assert_eq!(
        connect_retry_step(0, 500, 0, &ConnectFailure::Other),
        ConnectStep::GiveUp
    );
}

#[test]
fn quic_retry_cases() {
    assert_eq!(quic_retry_step(100, 3000, true), QuicRetryStep::Connected);
    assert_eq!(quic_retry_step(100, 3000, false), QuicRetryStep::RetryAttempt);
    assert_eq!(quic_retry_step(3001, 3000, false), QuicRetryStep::GiveUp);
    // success is taken even past the deadline
    assert_eq!(quic_retry_step(9999, 3000, true), QuicRetryStep::Connected);
}
