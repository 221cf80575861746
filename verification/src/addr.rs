//! Addresses as the directory passes them around.
//!
//! On the wire the seed speaks of a peer as a dotted-quad IPv4 string and
//! a port that the encoding stores in 32 bits; inside the library an
//! address is a pair of machine integers. [`AddressConv`] carries a
//! wire-shaped address and converts it, rejecting anything that is not a
//! well-formed IPv4 address with a 16-bit port.

use vstd::prelude::*;

verus! {

use vstd::utf8::encode_utf8;

/// An address as the seed's messages carry it: a dotted-quad IPv4 string
/// and a port that the wire format stores as 32 bits.
#[derive(Debug)]
pub struct Address {
    pub ip: String,
    pub port: u32,
}

/// A resolved socket address: the IPv4 address as one 32-bit value (most
/// significant octet first) and the 16-bit port.
#[derive(Clone, Copy, Debug, PartialEq, Eq, Structural)]
pub struct SocketAddrV4Repr {
    pub ip: u32,
    pub port: u16,
}

/// Address conversion newtype: wraps a wire-shaped [`Address`] so it can
/// be turned into a socket address.
pub struct AddressConv(pub Address);

/// Whether `d` is an ASCII decimal digit.
pub open spec fn spec_is_digit(d: u8) -> bool {
    48 <= d <= 57
}

/// How many consecutive digits stand at `at`.
pub open spec fn spec_digit_run(s: Seq<u8>, at: int) -> int
    decreases s.len() - at when 0 <= at <= s.len()
{
    if at < s.len() && spec_is_digit(s[at]) {
        1 + spec_digit_run(s, at + 1)
    } else {
        0
    }
}

/// The numeric value of a digit sequence read left to right.
pub open spec fn spec_digits_value(s: Seq<u8>) -> int
    decreases s.len(),
{
    if s.len() == 0 {
        0
    } else {
        spec_digits_value(s.drop_last()) * 10 + (s.last() - 48)
    }
}

/// One octet of a dotted quad, read at `at`: the full digit run there,
/// which must be one to three digits, without a leading zero, and at most
/// 255. Yields the octet value and the position just past it.
pub open spec fn spec_parse_octet(s: Seq<u8>, at: int) -> Option<(int, int)> {
    let l = spec_digit_run(s, at);
    if 1 <= l <= 3 && (l > 1 ==> s[at] != 48) && spec_digits_value(s.subrange(at, at + l)) <= 255 {
        Some((spec_digits_value(s.subrange(at, at + l)), at + l))
    } else {
        None
    }
}

/// A dotted-quad IPv4 address: four octets joined by dots, spanning the
/// whole input. Yields its 32-bit value, most significant octet first.
pub open spec fn spec_parse_ipv4(s: Seq<u8>) -> Option<int> {
    match spec_parse_octet(s, 0) {
        None => None,
        Some((a, p1)) => if p1 < s.len() && s[p1] == 46 {
            match spec_parse_octet(s, p1 + 1) {
                None => None,
                Some((b, p2)) => if p2 < s.len() && s[p2] == 46 {
                    match spec_parse_octet(s, p2 + 1) {
                        None => None,
                        Some((c, p3)) => if p3 < s.len() && s[p3] == 46 {
                            match spec_parse_octet(s, p3 + 1) {
                                None => None,
                                Some((d, p4)) => if p4 == s.len() {
                                    Some(a * 0x1000000 + b * 0x10000 + c * 256 + d)
                                } else {
                                    None
                                },
                            }
                        } else {
                            None
                        },
                    }
                } else {
                    None
                },
            }
        } else {
            None
        },
    }
}

/// A digit run is never negative.
proof fn lemma_digit_run_nonneg(s: Seq<u8>, at: int)
    requires
        0 <= at <= s.len(),
    ensures
        spec_digit_run(s, at) >= 0,
    decreases s.len() - at,
{
    if at < s.len() && spec_is_digit(s[at]) {
        lemma_digit_run_nonneg(s, at + 1);
    }
}

/// The value of at most three digits stays under 1000 (under 100 for two,
/// under 10 for one).
proof fn lemma_digits_value_bound(s: Seq<u8>)
    requires
        forall|i: int| 0 <= i < s.len() ==> spec_is_digit(#[trigger] s[i]),
    ensures
        0 <= spec_digits_value(s),
        s.len() <= 1 ==> spec_digits_value(s) < 10,
        s.len() <= 2 ==> spec_digits_value(s) < 100,
        s.len() <= 3 ==> spec_digits_value(s) < 1000,
    decreases s.len(),
{
    if s.len() > 0 {
        lemma_digits_value_bound(s.drop_last());
    }
}

/// A run of digits bounded by a non-digit (or the end) is the full digit
/// run at its start.
proof fn lemma_digit_run_exact(s: Seq<u8>, at: int, end: int)
    requires
        0 <= at <= end <= s.len(),
        forall|i: int| at <= i < end ==> spec_is_digit(#[trigger] s[i]),
        end == s.len() || !spec_is_digit(s[end]),
    ensures
        spec_digit_run(s, at) == end - at,
    decreases end - at,
{
    if at < end {
        lemma_digit_run_exact(s, at + 1, end);
    }
}

/// Parse one octet at `at`, as [`spec_parse_octet`] reads it.
fn parse_octet(bytes: &[u8], at: usize) -> (r: Option<(u8, usize)>)
    requires
        at <= bytes@.len(),
    ensures
        match r {
            Some((v, end)) => spec_parse_octet(bytes@, at as int) == Some(
                (v as int, end as int),
            ) && at < end <= bytes@.len(),
            None => spec_parse_octet(bytes@, at as int) is None,
        },
{
    let n = bytes.len();
    if at >= n || bytes[at] < 48 || bytes[at] > 57 {
        proof {
            assert(spec_digit_run(bytes@, at as int) == 0);
        }
        return None;
    }
    let mut end = at;
    let mut value: u32 = 0;
    while end < n && bytes[end] >= 48 && bytes[end] <= 57 && end - at < 3
        invariant
            at <= end <= bytes@.len(),
            n == bytes@.len(),
            end - at <= 3,
            forall|i: int| at <= i < end ==> spec_is_digit(#[trigger] bytes@[i]),
            value == spec_digits_value(bytes@.subrange(at as int, end as int)),
            value < 1000,
        decreases bytes@.len() - end,
    {
        proof {
            lemma_digits_value_bound(bytes@.subrange(at as int, end as int));
            assert(bytes@.subrange(at as int, end + 1 as int).drop_last() =~= bytes@.subrange(
                at as int,
                end as int,
            ));
        }
        value = value * 10 + (bytes[end] - 48) as u32;
        end += 1;
        proof {
            lemma_digits_value_bound(bytes@.subrange(at as int, end as int));
        }
    }
    let full_run = end == n || !(bytes[end] >= 48 && bytes[end] <= 57);
    if !full_run {
        // a fourth digit follows: the full run is longer than three
        proof {
            assert(spec_is_digit(bytes@[end as int]));
            lemma_digit_run_nonneg(bytes@, end + 1);
            assert(spec_digit_run(bytes@, end as int) >= 1);
            lemma_digit_run_split(bytes@, at as int, end as int);
        }
        return None;
    }
    proof {
        lemma_digit_run_exact(bytes@, at as int, end as int);
    }
    if value > 255 {
        return None;
    }
    if end - at > 1 && bytes[at] == 48 {
        return None;
    }
    Some((value as u8, end))
}

/// The digit run at `at` covers at least the digits up to `end` plus the
/// run that continues there.
proof fn lemma_digit_run_split(s: Seq<u8>, at: int, end: int)
    requires
        0 <= at <= end <= s.len(),
        forall|i: int| at <= i < end ==> spec_is_digit(#[trigger] s[i]),
    ensures
        spec_digit_run(s, at) == (end - at) + spec_digit_run(s, end),
    decreases end - at,
{
    if at < end {
        lemma_digit_run_split(s, at + 1, end);
    }
}

/// Parse a dotted-quad IPv4 address spanning all of `bytes`, as
/// [`spec_parse_ipv4`] reads it.
pub fn parse_ipv4(bytes: &[u8]) -> (r: Option<u32>)
    ensures
        match r {
            Some(ip) => spec_parse_ipv4(bytes@) == Some(ip as int),
            None => spec_parse_ipv4(bytes@) is None,
        },
{
    let n = bytes.len();
    let (v1, p1) = match parse_octet(bytes, 0) {
        Some(x) => x,
        None => {
            return None;
        },
    };
    if p1 >= n || bytes[p1] != 46 {
        return None;
    }
    let (v2, p2) = match parse_octet(bytes, p1 + 1) {
        Some(x) => x,
        None => {
            return None;
        },
    };
    if p2 >= n || bytes[p2] != 46 {
        return None;
    }
    let (v3, p3) = match parse_octet(bytes, p2 + 1) {
        Some(x) => x,
        None => {
            return None;
        },
    };
    if p3 >= n || bytes[p3] != 46 {
        return None;
    }
    let (v4, p4) = match parse_octet(bytes, p3 + 1) {
        Some(x) => x,
        None => {
            return None;
        },
    };
    if p4 != n {
        return None;
    }
    let ip: u32 = (v1 as u32) * 0x1000000 + (v2 as u32) * 0x10000 + (v3 as u32) * 256
        + (v4 as u32);
    Some(ip)
}

/// The conversion a wire-shaped address goes through: its IP string must
/// be a dotted quad and its port must fit 16 bits.
pub open spec fn spec_address_socket(addr: Address) -> Option<SocketAddrV4Repr> {
    match spec_parse_ipv4(encode_utf8(addr.ip@)) {
        Some(ip) => if addr.port <= 0xFFFF {
            Some(SocketAddrV4Repr { ip: ip as u32, port: addr.port as u16 })
        } else {
            None
        },
        None => None,
    }
}

impl AddressConv {
    /// Convert the wrapped wire address into a socket address, rejecting
    /// a malformed IP string or an oversized port.
    pub fn to_socket_addr(&self) -> (r: Option<SocketAddrV4Repr>)
        ensures
            r == spec_address_socket(self.0),
    {
        let bytes = self.0.ip.as_str().as_bytes();
        match parse_ipv4(bytes) {
            Some(ip) => {
                if self.0.port <= 0xFFFF {
                    Some(SocketAddrV4Repr { ip, port: self.0.port as u16 })
                } else {
                    None
                }
            },
            None => None,
        }
    }
}

} // verus!
