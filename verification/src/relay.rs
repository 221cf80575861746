//! The byte-relay discipline of a forwarded connection.
//!
//! Each live tunnel runs two copy directions (TCP to QUIC and back). A
//! direction repeatedly reads a chunk of at most [`READ_CHUNK`] bytes and
//! reacts to what the read produced: data is written whole and flushed at
//! once — low-volume streams must never sit in a buffer —, end of stream
//! half-closes the writer, a quiet disconnect ends the direction without
//! fuss, and any other error aborts it. The functions here decide those
//! reactions; the sockets that carry them out live outside the library.

use vstd::prelude::*;

use crate::dup_bytes;

verus! {

/// The size of the read buffer of a copy direction.
pub const READ_CHUNK: usize = 4096;

/// What one read on the source side of a copy direction produced.
pub enum ReadEvent {
    /// Some bytes arrived (an empty chunk means end of stream, as a read
    /// of 0 bytes does).
    Data(Vec<u8>),
    /// The source reported end of stream.
    Eof,
    /// The source reported that the peer is no longer connected: a quiet
    /// disconnect, logged but not treated as a failure.
    NotConnected,
    /// Any other read or write error.
    Failed,
}

/// What the copy direction must do with its sink.
pub enum RelayAction {
    /// Write these bytes, whole.
    Write(Vec<u8>),
    /// Flush the sink now, before the next read.
    Flush,
    /// Half-close the sink so the peer sees end of stream.
    FinishWriter,
}

/// Whether the copy direction goes on after the actions are carried out.
#[derive(Clone, Copy, Debug, PartialEq, Eq, Structural)]
pub enum RelayOutcome {
    /// Read again.
    Continue,
    /// The stream ended; the direction completed cleanly.
    DoneClean,
    /// The peer went away quietly; the direction ends without failure.
    DoneQuiet,
    /// The direction aborts on an error.
    DoneFailed,
}

/// One decision of the copy loop.
pub struct RelayStep {
    pub actions: Vec<RelayAction>,
    pub outcome: RelayOutcome,
}

/// The bytes that a list of actions writes to the sink, in order.
pub open spec fn spec_written(actions: Seq<RelayAction>) -> Seq<u8>
    decreases actions.len(),
{
    if actions.len() == 0 {
        Seq::empty()
    } else {
        (match actions[0] {
            RelayAction::Write(b) => b@,
            _ => Seq::empty(),
        }) + spec_written(actions.drop_first())
    }
}

/// Every write is followed at once by a flush: nothing may linger in a
/// buffer between two reads.
pub open spec fn spec_flush_follows_writes(actions: Seq<RelayAction>) -> bool {
    forall|i: int|
        0 <= i < actions.len() && (#[trigger] actions[i]) is Write ==> i + 1 < actions.len()
            && actions[i + 1] is Flush
}

/// Decide how a copy direction reacts to one read.
///
/// Data is written whole and flushed before the next read; an empty chunk
/// or an explicit end of stream half-closes the sink and ends the
/// direction cleanly; a quiet disconnect ends it without failure; any
/// other error aborts it.
pub fn relay_step(event: ReadEvent) -> (step: RelayStep)
    ensures
        spec_flush_follows_writes(step.actions@),
        match event {
            ReadEvent::Data(b) => {
                if b@.len() > 0 {
                    step.outcome == RelayOutcome::Continue && spec_written(step.actions@) == b@
                        && step.actions@.len() == 2 && step.actions@[0] == RelayAction::Write(b)
                        && step.actions@[1] == RelayAction::Flush
                } else {
                    step.outcome == RelayOutcome::DoneClean && step.actions@.len() == 1
                        && step.actions@[0] == RelayAction::FinishWriter
                }
            },
            ReadEvent::Eof => step.outcome == RelayOutcome::DoneClean && step.actions@.len() == 1
                && step.actions@[0] == RelayAction::FinishWriter,
            ReadEvent::NotConnected => step.outcome == RelayOutcome::DoneQuiet
                && step.actions@.len() == 0,
            ReadEvent::Failed => step.outcome == RelayOutcome::DoneFailed
                && step.actions@.len() == 0,
        },
{
    match event {
        ReadEvent::Data(b) => {
            if b.len() > 0 {
                let mut actions: Vec<RelayAction> = Vec::new();
                actions.push(RelayAction::Write(b));
                actions.push(RelayAction::Flush);
                proof {
                    let acts = actions@;
                    assert(acts.drop_first().drop_first() =~= Seq::<RelayAction>::empty());
                    assert(spec_written(acts.drop_first().drop_first()) == Seq::<u8>::empty());
                    assert(spec_written(acts.drop_first()) =~= Seq::<u8>::empty());
                    assert(spec_written(acts) =~= (match acts[0] {
                        RelayAction::Write(bb) => bb@,
                        _ => Seq::<u8>::empty(),
                    }));
                }
                RelayStep { actions, outcome: RelayOutcome::Continue }
            } else {
                let mut actions: Vec<RelayAction> = Vec::new();
                actions.push(RelayAction::FinishWriter);
                RelayStep { actions, outcome: RelayOutcome::DoneClean }
            }
        },
        ReadEvent::Eof => {
            let mut actions: Vec<RelayAction> = Vec::new();
            actions.push(RelayAction::FinishWriter);
            RelayStep { actions, outcome: RelayOutcome::DoneClean }
        },
        ReadEvent::NotConnected => RelayStep { actions: Vec::new(), outcome: RelayOutcome::DoneQuiet },
        ReadEvent::Failed => RelayStep { actions: Vec::new(), outcome: RelayOutcome::DoneFailed },
    }
}

/// How a source byte stream is cut into read chunks of at most `n` bytes:
/// the reader takes `n` bytes at a time until fewer than `n` remain.
pub open spec fn spec_chunks(s: Seq<u8>, n: int) -> Seq<Seq<u8>>
    decreases s.len(),
{
    if n <= 0 {
        Seq::empty()
    } else if s.len() == 0 {
        Seq::empty()
    } else if s.len() <= n {
        seq![s]
    } else {
        seq![s.subrange(0, n)] + spec_chunks(s.subrange(n, s.len() as int), n)
    }
}

/// The concatenation of a list of chunks.
pub open spec fn spec_concat(chunks: Seq<Seq<u8>>) -> Seq<u8>
    decreases chunks.len(),
{
    if chunks.len() == 0 {
        Seq::empty()
    } else {
        chunks[0] + spec_concat(chunks.drop_first())
    }
}

/// A byte stream of any length, cut into read chunks and written back in
/// order, reproduces exactly: the relay neither loses, reorders nor
/// invents bytes.
pub proof fn lemma_relay_preserves_stream(s: Seq<u8>, n: int)
    requires
        n > 0,
    ensures
        spec_concat(spec_chunks(s, n)) == s,
    decreases s.len(),
{
    if s.len() == 0 {
        assert(spec_concat(spec_chunks(s, n)) =~= s);
    } else if s.len() <= n {
        let c = spec_chunks(s, n);
        assert(c =~= seq![s]);
        assert(c.drop_first() =~= Seq::<Seq<u8>>::empty());
        assert(spec_concat(c.drop_first()) == Seq::<u8>::empty());
        assert(spec_concat(c) == c[0] + spec_concat(c.drop_first()));
        assert(c[0] + spec_concat(c.drop_first()) =~= s);
    } else {
        lemma_relay_preserves_stream(s.subrange(n, s.len() as int), n);
        assert(spec_chunks(s, n).drop_first() =~= spec_chunks(s.subrange(n, s.len() as int), n));
        assert(spec_concat(spec_chunks(s, n)) =~= s.subrange(0, n) + s.subrange(
            n,
            s.len() as int,
        ));
        assert(s.subrange(0, n) + s.subrange(n, s.len() as int) =~= s);
    }
}

/// An echoed stream comes back untouched: carrying bytes out through one
/// copy direction and back through the other — each direction chunking
/// its reads — reproduces the source exactly, whatever the chunk sizes
/// of the two directions.
pub proof fn lemma_echo_roundtrip(s: Seq<u8>, out_chunk: int, back_chunk: int)
    requires
        out_chunk > 0,
        back_chunk > 0,
    ensures
        spec_concat(spec_chunks(spec_concat(spec_chunks(s, out_chunk)), back_chunk)) == s,
{
    lemma_relay_preserves_stream(s, out_chunk);
    lemma_relay_preserves_stream(s, back_chunk);
}

/// Drive one whole copy direction over an already-read source.
///
/// Feeds every chunk through [`relay_step`] and collects the written
/// bytes: the sink receives exactly the source bytes, in order.
pub fn relay_source(chunks: Vec<Vec<u8>>) -> (out: Vec<u8>)
    requires
        forall|i: int| 0 <= i < chunks@.len() ==> #[trigger] chunks@[i]@.len() > 0,
    ensures
        out@ == spec_concat(chunks@.map_values(|c: Vec<u8>| c@)),
{
    let ghost spec_chunk_seq = chunks@.map_values(|c: Vec<u8>| c@);
    let mut out: Vec<u8> = Vec::new();
    let mut i: usize = 0;
    while i < chunks.len()
        invariant
            0 <= i <= chunks@.len(),
            spec_chunk_seq == chunks@.map_values(|c: Vec<u8>| c@),
            forall|j: int| 0 <= j < chunks@.len() ==> #[trigger] chunks@[j]@.len() > 0,
            out@ == spec_concat(spec_chunk_seq.subrange(0, i as int)),
        decreases chunks@.len() - i,
    {
        let chunk = dup_bytes(&chunks[i]);
        let step = relay_step(ReadEvent::Data(chunk));
        let mut k: usize = 0;
        let ghost out0 = out@;
        while k < step.actions.len()
            invariant
                0 <= k <= step.actions@.len(),
                out@ == out0 + spec_written(step.actions@.subrange(0, k as int)),
            decreases step.actions@.len() - k,
        {
            match &step.actions[k] {
                RelayAction::Write(b) => {
                    let mut fresh = dup_bytes(b);
                    out.append(&mut fresh);
                },
                RelayAction::Flush => {},
                RelayAction::FinishWriter => {},
            }
            proof {
                lemma_written_snoc(step.actions@, k as int);
            }
            k += 1;
        }
        proof {
            assert(step.actions@.subrange(0, step.actions@.len() as int) =~= step.actions@);
            assert(out@ == out0 + chunks@[i as int]@);
            lemma_concat_snoc(spec_chunk_seq, i as int);
        }
        i += 1;
    }
    proof {
        assert(spec_chunk_seq.subrange(0, spec_chunk_seq.len() as int) =~= spec_chunk_seq);
    }
    out
}

/// Taking one more action appends exactly what that action writes.
proof fn lemma_written_snoc(actions: Seq<RelayAction>, k: int)
    requires
        0 <= k < actions.len(),
    ensures
        spec_written(actions.subrange(0, k + 1)) == spec_written(actions.subrange(0, k))
            + (match actions[k] {
            RelayAction::Write(b) => b@,
            _ => Seq::<u8>::empty(),
        }),
    decreases k,
{
    if k == 0 {
        assert(actions.subrange(0, 1).drop_first() =~= Seq::<RelayAction>::empty());
        assert(actions.subrange(0, 0) =~= Seq::<RelayAction>::empty());
        assert(actions.subrange(0, 1)[0] == actions[0]);
        assert(spec_written(actions.subrange(0, 1).drop_first()) == Seq::<u8>::empty());
        assert(spec_written(actions.subrange(0, 1)) =~= (match actions[0] {
            RelayAction::Write(b) => b@,
            _ => Seq::<u8>::empty(),
        }) + Seq::<u8>::empty());
        assert((match actions[0] {
            RelayAction::Write(b) => b@,
            _ => Seq::<u8>::empty(),
        }) + Seq::<u8>::empty() =~= (match actions[0] {
            RelayAction::Write(b) => b@,
            _ => Seq::<u8>::empty(),
        }));
    } else {
        lemma_written_snoc(actions.drop_first(), k - 1);
        assert(actions.subrange(0, k + 1).drop_first() =~= actions.drop_first().subrange(0, k));
        assert(actions.subrange(0, k).drop_first() =~= actions.drop_first().subrange(0, k - 1));
        assert(actions.subrange(0, k + 1)[0] == actions[0]);
        assert(actions.subrange(0, k)[0] == actions[0]);
    }
}

/// Concatenating one more chunk appends exactly that chunk.
proof fn lemma_concat_snoc(chunks: Seq<Seq<u8>>, i: int)
    requires
        0 <= i < chunks.len(),
    ensures
        spec_concat(chunks.subrange(0, i + 1)) == spec_concat(chunks.subrange(0, i)) + chunks[i],
    decreases i,
{
    if i == 0 {
        assert(chunks.subrange(0, 1).drop_first() =~= Seq::<Seq<u8>>::empty());
        assert(chunks.subrange(0, 0) =~= Seq::<Seq<u8>>::empty());
        assert(chunks.subrange(0, 1)[0] == chunks[0]);
        assert(spec_concat(chunks.subrange(0, 1).drop_first()) == Seq::<u8>::empty());
        assert(spec_concat(chunks.subrange(0, 1)) == chunks[0] + Seq::<u8>::empty());
        assert(chunks[0] + Seq::<u8>::empty() =~= chunks[0]);
        assert(spec_concat(chunks.subrange(0, 0)) == Seq::<u8>::empty());
        assert(spec_concat(chunks.subrange(0, 0)) + chunks[0] =~= chunks[0]);
    } else {
        lemma_concat_snoc(chunks.drop_first(), i - 1);
        assert(chunks.subrange(0, i + 1).drop_first() =~= chunks.drop_first().subrange(0, i));
        assert(chunks.subrange(0, i).drop_first() =~= chunks.drop_first().subrange(0, i - 1));
        assert(chunks.subrange(0, i + 1)[0] == chunks[0]);
        assert(chunks.subrange(0, i)[0] == chunks[0]);
    }
}

/// Cut a source byte stream into read chunks of at most `chunk` bytes, as
/// the copy loop's reader does.
pub fn chunk_stream(data: &Vec<u8>, chunk: usize) -> (out: Vec<Vec<u8>>)
    requires
        chunk > 0,
    ensures
        out@.map_values(|c: Vec<u8>| c@) == spec_chunks(data@, chunk as int),
        forall|i: int| 0 <= i < out@.len() ==> #[trigger] out@[i]@.len() > 0,
{
    let mut out: Vec<Vec<u8>> = Vec::new();
    let mut start: usize = 0;
    proof {
        assert(data@.subrange(0, data@.len() as int) =~= data@);
        assert(out@.map_values(|c: Vec<u8>| c@) =~= Seq::<Seq<u8>>::empty());
        assert(Seq::<Seq<u8>>::empty() + spec_chunks(data@, chunk as int) =~= spec_chunks(
            data@,
            chunk as int,
        ));
    }
    while start < data.len()
        invariant
            0 <= start <= data@.len(),
            chunk > 0,
            out@.map_values(|c: Vec<u8>| c@) + spec_chunks(
                data@.subrange(start as int, data@.len() as int),
                chunk as int,
            ) =~= spec_chunks(data@, chunk as int),
            forall|i: int| 0 <= i < out@.len() ==> #[trigger] out@[i]@.len() > 0,
        decreases data@.len() - start,
    {
        let end = if data.len() - start > chunk { start + chunk } else { data.len() };
        let mut piece: Vec<u8> = Vec::new();
        let mut j: usize = start;
        while j < end
            invariant
                start <= j <= end <= data@.len(),
                piece@ == data@.subrange(start as int, j as int),
            decreases end - j,
        {
            piece.push(data[j]);
            proof {
                assert(piece@ =~= data@.subrange(start as int, j + 1 as int));
            }
            j += 1;
        }
        proof {
            let rest = data@.subrange(start as int, data@.len() as int);
            assert(piece@ =~= rest.subrange(0, end - start));
            if data@.len() - start > chunk {
                assert(rest.subrange(chunk as int, rest.len() as int) =~= data@.subrange(
                    end as int,
                    data@.len() as int,
                ));
                assert(spec_chunks(rest, chunk as int) =~= seq![piece@] + spec_chunks(
                    data@.subrange(end as int, data@.len() as int),
                    chunk as int,
                ));
            } else {
                assert(piece@ =~= rest);
                assert(spec_chunks(rest, chunk as int) =~= seq![piece@]);
            }
            let before = out@.map_values(|c: Vec<u8>| c@);
            assert(out@.push(piece).map_values(|c: Vec<u8>| c@) =~= before.push(piece@));
            lemma_concat_split(before, piece@, data@, end as int, chunk as int);
        }
        out.push(piece);
        start = end;
    }
    proof {
        assert(spec_chunks(data@.subrange(start as int, data@.len() as int), chunk as int)
            =~= Seq::<Seq<u8>>::empty());
        assert(out@.map_values(|c: Vec<u8>| c@) + Seq::<Seq<u8>>::empty() =~= out@.map_values(
            |c: Vec<u8>| c@,
        ));
    }
    out
}

/// Shifting one chunk from the tail of the split onto the collected prefix
/// keeps the whole split equal.
proof fn lemma_concat_split(before: Seq<Seq<u8>>, piece: Seq<u8>, data: Seq<u8>, end: int, chunk: int)
    requires
        chunk > 0,
        0 <= end <= data.len(),
    ensures
        (before.push(piece)) + spec_chunks(data.subrange(end, data.len() as int), chunk)
            =~= before + (seq![piece] + spec_chunks(data.subrange(end, data.len() as int), chunk)),
{
}

} // verus!
