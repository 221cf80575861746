//! The control protocol spoken between the interceptor and the perforator
//! over loopback TCP.
//!
//! A connection to the perforator's TCP ingress either starts with a
//! 13-byte magic announcing a client registration — followed by the source
//! port, the target virtual IPv4 address and the target port, all in network
//! order — or it is an application byte stream to be forwarded untouched.
//! The perforator answers a registration with a single status byte: 0 when
//! the target was reached, 1 when it was not.

use vstd::prelude::*;

verus! {

/// Length of the magic that opens a client registration.
pub const REGISTER_HEADER_LENGTH: usize = 13;

/// The magic bytes that open a client registration ("chappy_client").
pub open spec fn spec_client_magic() -> Seq<u8> {
    seq![
        99u8, 104u8, 97u8, 112u8, 112u8, 121u8, 95u8, 99u8, 108u8, 105u8, 101u8, 110u8, 116u8,
    ]
}

/// The magic bytes as an owned vector.
pub fn client_magic() -> (m: Vec<u8>)
    ensures
        m@ == spec_client_magic(),
{
    let m: Vec<u8> = vec![
        99u8, 104u8, 97u8, 112u8, 112u8, 121u8, 95u8, 99u8, 108u8, 105u8, 101u8, 110u8, 116u8,
    ];
    proof {
        assert(m@ =~= spec_client_magic());
    }
    m
}

/// What the first bytes of an ingress connection announce.
#[derive(Clone, Copy, Debug, PartialEq, Eq, Structural)]
pub enum ControlFrame {
    /// The peer registers an outgoing client connection: its ephemeral
    /// source port, and the virtual address it wants to reach.
    ClientRegistration { source_port: u16, target_virtual_ip: u32, target_port: u16 },
    /// The bytes do not start with the registration magic: the connection
    /// is an application stream to be forwarded as it is.
    Raw,
}

/// Big-endian bytes of a 16-bit value.
pub open spec fn spec_be16(v: u16) -> Seq<u8> {
    seq![(v / 256) as u8, (v % 256) as u8]
}

/// Big-endian bytes of a 32-bit value.
pub open spec fn spec_be32(v: u32) -> Seq<u8> {
    seq![
        (v / 0x1000000) as u8,
        ((v / 0x10000) % 256) as u8,
        ((v / 256) % 256) as u8,
        (v % 256) as u8,
    ]
}

/// The 16-bit value read back from two big-endian bytes.
pub open spec fn spec_read_be16(hi: u8, lo: u8) -> u16 {
    (hi * 256 + lo) as u16
}

/// The 32-bit value read back from four big-endian bytes.
pub open spec fn spec_read_be32(b0: u8, b1: u8, b2: u8, b3: u8) -> u32 {
    (b0 * 0x1000000 + b1 * 0x10000 + b2 * 256 + b3) as u32
}

/// The full 21-byte client registration frame.
pub open spec fn spec_registration_frame(
    source_port: u16,
    target_virtual_ip: u32,
    target_port: u16,
) -> Seq<u8> {
    spec_client_magic() + spec_be16(source_port) + spec_be32(target_virtual_ip)
        + spec_be16(target_port)
}

/// Reading two big-endian bytes undoes writing them.
pub proof fn lemma_be16_roundtrip(v: u16)
    ensures
        spec_read_be16(spec_be16(v)[0], spec_be16(v)[1]) == v,
{
    assert(((v / 256) as u8) * 256 + ((v % 256) as u8) == v) by (bit_vector);
}

/// Reading four big-endian bytes undoes writing them.
pub proof fn lemma_be32_roundtrip(v: u32)
    ensures
        spec_read_be32(spec_be32(v)[0], spec_be32(v)[1], spec_be32(v)[2], spec_be32(v)[3])
            == v,
{
    assert(((v / 0x1000000) as u8) * 0x1000000 + (((v / 0x10000) % 256) as u8) * 0x10000
        + (((v / 256) % 256) as u8) * 256 + ((v % 256) as u8) == v) by (bit_vector);
}

/// Append the big-endian bytes of `v` to `out`.
pub fn write_be16(v: u16, out: &mut Vec<u8>)
    ensures
        final(out)@ == old(out)@ + spec_be16(v),
{
    out.push((v / 256) as u8);
    out.push((v % 256) as u8);
    proof {
        assert(final(out)@ =~= old(out)@ + spec_be16(v));
    }
}

/// Append the big-endian bytes of `v` to `out`.
pub fn write_be32(v: u32, out: &mut Vec<u8>)
    ensures
        final(out)@ == old(out)@ + spec_be32(v),
{
    out.push((v / 0x1000000) as u8);
    out.push(((v / 0x10000) % 256) as u8);
    out.push(((v / 256) % 256) as u8);
    out.push((v % 256) as u8);
    proof {
        assert(final(out)@ =~= old(out)@ + spec_be32(v));
    }
}

/// Build the registration frame that the interceptor sends for an outgoing
/// client connection.
pub fn encode_client_registration(
    source_port: u16,
    target_virtual_ip: u32,
    target_port: u16,
) -> (frame: Vec<u8>)
    ensures
        frame@ == spec_registration_frame(source_port, target_virtual_ip, target_port),
{
    let mut frame = client_magic();
    write_be16(source_port, &mut frame);
    write_be32(target_virtual_ip, &mut frame);
    write_be16(target_port, &mut frame);
    frame
}

/// How the first bytes of an ingress connection are classified: `None` when
/// more bytes are needed to decide, otherwise the parsed frame.
pub open spec fn spec_parse_control_frame(bytes: Seq<u8>) -> Option<ControlFrame> {
    if bytes.len() < REGISTER_HEADER_LENGTH {
        None
    } else if bytes.subrange(0, REGISTER_HEADER_LENGTH as int) != spec_client_magic() {
        Some(ControlFrame::Raw)
    } else if bytes.len() < 21 {
        None
    } else {
        Some(ControlFrame::ClientRegistration {
            source_port: spec_read_be16(bytes[13], bytes[14]),
            target_virtual_ip: spec_read_be32(bytes[15], bytes[16], bytes[17], bytes[18]),
            target_port: spec_read_be16(bytes[19], bytes[20]),
        })
    }
}

/// Classify the first bytes of an ingress connection.
///
/// `None` asks the caller to read more bytes: either fewer than 13 arrived,
/// or they start a registration whose remaining fields are still missing.
pub fn parse_control_frame(bytes: &[u8]) -> (r: Option<ControlFrame>)
    ensures
        r == spec_parse_control_frame(bytes@),
{
    if bytes.len() < REGISTER_HEADER_LENGTH {
        return None;
    }
    let magic = client_magic();
    let mut i: usize = 0;
    while i < REGISTER_HEADER_LENGTH
        invariant
            0 <= i <= REGISTER_HEADER_LENGTH,
            bytes@.len() >= REGISTER_HEADER_LENGTH,
            magic@ == spec_client_magic(),
            forall|j: int| 0 <= j < i ==> bytes@[j] == spec_client_magic()[j],
        decreases REGISTER_HEADER_LENGTH - i,
    {
        if bytes[i] != magic[i] {
            proof {
                assert(bytes@.subrange(0, REGISTER_HEADER_LENGTH as int)[i as int]
                    != spec_client_magic()[i as int]);
            }
            return Some(ControlFrame::Raw);
        }
        i += 1;
    }
    proof {
        assert(bytes@.subrange(0, REGISTER_HEADER_LENGTH as int) =~= spec_client_magic());
    }
    if bytes.len() < 21 {
        return None;
    }
    let source_port: u16 = (bytes[13] as u16) * 256 + (bytes[14] as u16);
    let ip: u32 = (bytes[15] as u32) * 0x1000000 + (bytes[16] as u32) * 0x10000
        + (bytes[17] as u32) * 256 + (bytes[18] as u32);
    let target_port: u16 = (bytes[19] as u16) * 256 + (bytes[20] as u16);
    Some(ControlFrame::ClientRegistration {
        source_port,
        target_virtual_ip: ip,
        target_port,
    })
}

/// The status byte a registration is answered with: 0 for success, 1 for a
/// target that could not be reached.
pub fn registration_response_byte(success: bool) -> (b: u8)
    ensures
        b == 0 <==> success,
        b == 0 || b == 1,
{
    if success {
        0
    } else {
        1
    }
}

/// How the interceptor reads the status byte: anything nonzero means the
/// perforator could not reach the target.
pub fn registration_succeeded(status: u8) -> (ok: bool)
    ensures
        ok <==> status == 0,
{
    status == 0
}

/// A full registration frame parses back to the registration it was built
/// from.
pub proof fn lemma_registration_roundtrip(
    source_port: u16,
    target_virtual_ip: u32,
    target_port: u16,
)
    ensures
        spec_parse_control_frame(
            spec_registration_frame(source_port, target_virtual_ip, target_port),
        ) == Some(ControlFrame::ClientRegistration {
            source_port,
            target_virtual_ip,
            target_port,
        }),
{
    let frame = spec_registration_frame(source_port, target_virtual_ip, target_port);
    assert(frame.subrange(0, REGISTER_HEADER_LENGTH as int) =~= spec_client_magic());
    lemma_be16_roundtrip(source_port);
    lemma_be32_roundtrip(target_virtual_ip);
    lemma_be16_roundtrip(target_port);
    assert(frame[13] == spec_be16(source_port)[0]);
    assert(frame[14] == spec_be16(source_port)[1]);
    assert(frame[15] == spec_be32(target_virtual_ip)[0]);
    assert(frame[16] == spec_be32(target_virtual_ip)[1]);
    assert(frame[17] == spec_be32(target_virtual_ip)[2]);
    assert(frame[18] == spec_be32(target_virtual_ip)[3]);
    assert(frame[19] == spec_be16(target_port)[0]);
    assert(frame[20] == spec_be16(target_port)[1]);
}

} // verus!
