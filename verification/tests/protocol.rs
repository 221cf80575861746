//! Wire-framing tests: the tunnel init frames and the control protocol.

use chappy::control::{
    client_magic, encode_client_registration, parse_control_frame, registration_response_byte,
    registration_succeeded, ControlFrame,
};
use chappy::fwd_protocol::{InitQuery, InitResponse};

#[test]
fn query_roundtrip() {
    let original = InitQuery { target_port: 80, connect_only: true };
    let mut buf = Vec::new();
    original.write(&mut buf);
    assert_eq!(buf, vec![0u8, 80, 1]);
    let result = InitQuery::read(buf.as_slice()).unwrap();
    assert_eq!(original, result);
}

#[test]
fn response_roundtrip() {
    let original = InitResponse { code: 1 };
    let mut buf = Vec::new();
    original.write(&mut buf);
    assert_eq!(buf, vec![1u8]);
    let result = InitResponse::read(buf.as_slice()).unwrap();
    assert_eq!(original, result);
}

#[test]
fn query_roundtrip_large_port() {
    let original = InitQuery { target_port: 54321, connect_only: false };
    let mut buf = Vec::new();
    original.write(&mut buf);
    let result = InitQuery::read(buf.as_slice()).unwrap();
    assert_eq!(original, result);
}

#[test]
fn query_read_rejects_bad_flag() {
    assert_eq!(InitQuery::read(&[0, 80, 2]), None);
    assert_eq!(InitQuery::read(&[0, 80, 255]), None);
}

#[test]
fn query_read_needs_three_bytes() {
    assert_eq!(InitQuery::read(&[]), None);
    assert_eq!(InitQuery::read(&[0, 80]), None);
}

#[test]
fn response_read_needs_one_byte() {
    assert_eq!(InitResponse::read(&[]), None);
}

#[test]
fn registration_frame_roundtrip() {
    let frame = encode_client_registration(45001, 0x0A000002, 8080);
    assert_eq!(frame.len(), 21);
    assert_eq!(&frame[..13], b"chappy_client");
    assert_eq!(&frame[13..], &[175, 201, 10, 0, 0, 2, 31, 144]);
    match parse_control_frame(frame.as_slice()) {
        Some(ControlFrame::ClientRegistration { source_port, target_virtual_ip, target_port }) => {
            assert_eq!(source_port, 45001);
            assert_eq!(target_virtual_ip, 0x0A000002);
            assert_eq!(target_port, 8080);
        }
        other => panic!("expected a client registration, got {:?}", other),
    }
}

#[test]
fn control_prefix_needs_more_bytes() {
    // fewer than 13 bytes: undecidable
    assert_eq!(parse_control_frame(b"chappy_cli"), None);
    // the magic alone: a registration whose fields are still missing
    let magic = client_magic();
    assert_eq!(parse_control_frame(magic.as_slice()), None);
}

#[test]
fn control_prefix_other_magic_is_raw() {
    assert_eq!(
        parse_control_frame(b"GET / HTTP/1.1\r\n"),
        Some(ControlFrame::Raw)
    );
    // same length as the magic, one byte off
    assert_eq!(parse_control_frame(b"chappy_clienX"), Some(ControlFrame::Raw));
}

#[test]
fn registration_status_bytes() {
    assert_eq!(registration_response_byte(true), 0);
    assert_eq!(registration_response_byte(false), 1);
    assert!(registration_succeeded(0));
    assert!(!registration_succeeded(1));
    assert!(!registration_succeeded(255));
}
