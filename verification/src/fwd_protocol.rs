//! Framing at the head of each peer-to-peer tunnel stream.
//!
//! Every forwarded connection is carried by exactly one bidirectional QUIC
//! stream. The initiating side first sends an [`InitQuery`] naming the target
//! port and whether it only probes the target; the accepting side answers
//! with an [`InitResponse`] whose code says whether the local TCP connection
//! to the target succeeded. After that exchange the stream carries raw
//! application bytes in both directions.

use vstd::prelude::*;

verus! {

use vstd::arithmetic::div_mod::lemma_fundamental_div_mod;
use vstd::arithmetic::div_mod::lemma_mod_bound;
use vstd::arithmetic::div_mod::lemma_div_pos_is_pos;

/// First frame on a tunnel stream: which local port the accepting side
/// should connect to, and whether the caller only wants to probe that the
/// target is reachable.
#[derive(Clone, Copy, Debug, PartialEq, Eq, Structural)]
pub struct InitQuery {
    pub target_port: u16,
    pub connect_only: bool,
}

/// Answer to an [`InitQuery`]: 0 when the accepting side reached the target,
/// nonzero when the connection to the target failed.
#[derive(Clone, Copy, Debug, PartialEq, Eq, Structural)]
pub struct InitResponse {
    pub code: u8,
}

/// The three bytes that carry an [`InitQuery`]: the target port in network
/// order, then one flag byte.
pub open spec fn spec_write_query(q: InitQuery) -> Seq<u8> {
    seq![
        (q.target_port / 256) as u8,
        (q.target_port % 256) as u8,
        if q.connect_only { 1u8 } else { 0u8 },
    ]
}

/// How a byte sequence starting a tunnel stream is read back as an
/// [`InitQuery`]: `None` when it is too short or the flag byte is neither 0
/// nor 1.
pub open spec fn spec_read_query(bytes: Seq<u8>) -> Option<InitQuery> {
    if bytes.len() < 3 {
        None
    } else if bytes[2] != 0 && bytes[2] != 1 {
        None
    } else {
        Some(InitQuery {
            target_port: (bytes[0] * 256 + bytes[1]) as u16,
            connect_only: bytes[2] == 1,
        })
    }
}

/// The single byte that carries an [`InitResponse`].
pub open spec fn spec_write_response(r: InitResponse) -> Seq<u8> {
    seq![r.code]
}

/// How a byte sequence is read back as an [`InitResponse`].
pub open spec fn spec_read_response(bytes: Seq<u8>) -> Option<InitResponse> {
    if bytes.len() < 1 {
        None
    } else {
        Some(InitResponse { code: bytes[0] })
    }
}

impl InitQuery {
    /// Append the three-byte encoding of this query to `out`.
    pub fn write(self, out: &mut Vec<u8>)
        ensures
            final(out)@ == old(out)@ + spec_write_query(self),
    {
        proof {
            lemma_fundamental_div_mod(self.target_port as int, 256);
            lemma_mod_bound(self.target_port as int, 256);
            lemma_div_pos_is_pos(self.target_port as int, 256);
        }
        out.push((self.target_port / 256) as u8);
        out.push((self.target_port % 256) as u8);
        out.push(if self.connect_only { 1u8 } else { 0u8 });
        proof {
            assert(final(out)@ =~= old(out)@ + spec_write_query(self));
        }
    }

    /// Read a query back from the first three bytes of `bytes`.
    pub fn read(bytes: &[u8]) -> (r: Option<InitQuery>)
        ensures
            r == spec_read_query(bytes@),
    {
        if bytes.len() < 3 {
            return None;
        }
        let flag = bytes[2];
        if flag != 0 && flag != 1 {
            return None;
        }
        let port: u16 = (bytes[0] as u16) * 256 + (bytes[1] as u16);
        Some(InitQuery { target_port: port, connect_only: flag == 1 })
    }
}

impl InitResponse {
    /// Append the one-byte encoding of this response to `out`.
    pub fn write(self, out: &mut Vec<u8>)
        ensures
            final(out)@ == old(out)@ + spec_write_response(self),
    {
        out.push(self.code);
        proof {
            assert(final(out)@ =~= old(out)@ + spec_write_response(self));
        }
    }

    /// Read a response back from the first byte of `bytes`.
    pub fn read(bytes: &[u8]) -> (r: Option<InitResponse>)
        ensures
            r == spec_read_response(bytes@),
    {
        if bytes.len() < 1 {
            return None;
        }
        Some(InitResponse { code: bytes[0] })
    }
}

/// Writing an [`InitQuery`] and reading it back yields the query unchanged.
pub proof fn lemma_query_roundtrip(q: InitQuery)
    ensures
        spec_read_query(spec_write_query(q)) == Some(q),
{
    lemma_fundamental_div_mod(q.target_port as int, 256);
    lemma_mod_bound(q.target_port as int, 256);
    lemma_div_pos_is_pos(q.target_port as int, 256);
}

/// Writing an [`InitResponse`] and reading it back yields the response
/// unchanged.
pub proof fn lemma_response_roundtrip(r: InitResponse)
    ensures
        spec_read_response(spec_write_response(r)) == Some(r),
{
}

} // verus!
