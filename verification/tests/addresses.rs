//! Dotted-quad parsing and wire-address conversion.

use chappy::addr::{parse_ipv4, Address, AddressConv, SocketAddrV4Repr};

#[test]
fn parse_ipv4_accepts_well_formed() {
    assert_eq!(parse_ipv4(b"10.0.0.2"), Some(0x0A000002));
    assert_eq!(parse_ipv4(b"192.168.0.1"), Some(0xC0A80001));
    assert_eq!(parse_ipv4(b"0.0.0.0"), Some(0));
    assert_eq!(parse_ipv4(b"255.255.255.255"), Some(0xFFFFFFFF));
    assert_eq!(parse_ipv4(b"127.0.0.1"), Some(0x7F000001));
}

#[test]
fn parse_ipv4_rejects_malformed() {
    assert_eq!(parse_ipv4(b""), None);
    assert_eq!(parse_ipv4(b"10.0.0"), None);
    assert_eq!(parse_ipv4(b"10.0.0."), None);
    assert_eq!(parse_ipv4(b"10.0.0.2.3"), None);
    assert_eq!(parse_ipv4(b"10.0.0.256"), None);
    assert_eq!(parse_ipv4(b"10.0.0.2 "), None);
    assert_eq!(parse_ipv4(b" 10.0.0.2"), None);
    assert_eq!(parse_ipv4(b"a.b.c.d"), None);
    assert_eq!(parse_ipv4(b"1234.0.0.1"), None);
    assert_eq!(parse_ipv4(b"10..0.2"), None);
}

#[test]
fn parse_ipv4_rejects_leading_zeros() {
    assert_eq!(parse_ipv4(b"01.0.0.1"), None);
    assert_eq!(parse_ipv4(b"1.2.3.04"), None);
    // a lone zero octet is fine
    assert_eq!(parse_ipv4(b"0.2.3.4"), Some(0x00020304));
}

#[test]
fn address_conv_accepts_wire_address() {
    let conv = AddressConv(Address { ip: String::from("10.0.0.2"), port: 8080 });
    assert_eq!(
        conv.to_socket_addr(),
        Some(SocketAddrV4Repr { ip: 0x0A000002, port: 8080 })
    );
}

#[test]
fn address_conv_rejects_bad_input() {
    let bad_ip = AddressConv(Address { ip: String::from("10.0.0"), port: 8080 });
    assert_eq!(bad_ip.to_socket_addr(), None);
    let big_port = AddressConv(Address { ip: String::from("10.0.0.2"), port: 70000 });
    assert_eq!(big_port.to_socket_addr(), None);
}
