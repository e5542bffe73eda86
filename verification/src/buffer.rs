//! The inbound buffer: an append-only byte accumulator that owns the bytes
//! read from the stream but not yet consumed as frames.
//!
//! Bytes are appended by [`InboundBuffer::feed`] and removed from the front
//! only when a complete frame is present, by [`InboundBuffer::try_decode`].
//! Bytes are never reordered or duplicated, so decoding depends only on the
//! concatenation of everything fed so far, however it was chunked.

use vstd::prelude::*;
use crate::frame::{
    spec_decode, u32_from_be_bytes_at, DecodeOutcome, Flag, Frame, HEADER_LEN,
};

verus! {

/// Partially received bytes, owned by the dispatch loop across reads.
pub struct InboundBuffer {
    data: Vec<u8>,
}

impl View for InboundBuffer {
    type V = Seq<u8>;

    closed spec fn view(&self) -> Seq<u8> {
        self.data@
    }
}

/// One step of the incremental decoder: wait for more bytes, give up on a
/// stream whose framing can no longer be trusted, or hand out the frame that
/// was removed from the front of the buffer.
pub enum DecodeStep {
    Pending,
    Corrupt,
    Ready(Frame),
}

impl InboundBuffer {
    /// An empty buffer.
    pub fn new() -> (r: InboundBuffer)
        ensures
            r@ == Seq::<u8>::empty(),
    {
        InboundBuffer { data: Vec::new() }
    }

    /// The number of buffered bytes.
    pub fn len(&self) -> (n: usize)
        ensures
            n == self@.len(),
    {
        self.data.len()
    }

    /// Append one chunk read from the stream; earlier bytes keep their order.
    pub fn feed(&mut self, chunk: &[u8])
        requires
            old(self)@.len() + chunk@.len() <= usize::MAX,
        ensures
            final(self)@ == old(self)@ + chunk@,
    {
        let ghost pre = self.data@;
        let n = chunk.len();
        let mut i: usize = 0;
        while i < n
            invariant
                i <= n,
                n == chunk@.len(),
                self.data@ == pre + chunk@.take(i as int),
            decreases n - i,
        {
            self.data.push(chunk[i]);
            proof {
                assert(self.data@ =~= pre + chunk@.take(i + 1));
            }
            i += 1;
        }
        proof {
            assert(pre + chunk@.take(n as int) =~= pre + chunk@);
        }
    }

    /// Decode and remove the frame at the front of the buffer, if one is
    /// completely present. An unknown flag byte leaves the buffer untouched:
    /// frame boundaries can no longer be trusted, so the connection is to be
    /// torn down rather than resynchronized.
    pub fn try_decode(&mut self) -> (step: DecodeStep)
        ensures
            match spec_decode(old(self)@) {
                DecodeOutcome::Incomplete => {
                    &&& step is Pending
                    &&& final(self)@ == old(self)@
                },
                DecodeOutcome::UnknownFlag => {
                    &&& step is Corrupt
                    &&& final(self)@ == old(self)@
                },
                DecodeOutcome::Decoded { frame, consumed } => {
                    &&& step matches DecodeStep::Ready(f) && f@ == frame
                    &&& final(self)@ == old(self)@.skip(consumed)
                },
            },
    {
        if self.data.len() < HEADER_LEN {
            return DecodeStep::Pending;
        }
        let size32 = u32_from_be_bytes_at(self.data.as_slice(), 0);
        let size = size32 as usize;
        if self.data.len() - HEADER_LEN < size {
            return DecodeStep::Pending;
        }
        let kind = self.data[4];
        let flag = match Flag::from_byte(self.data[5]) {
            None => {
                return DecodeStep::Corrupt;
            },
            Some(f) => f,
        };
        let id = u32_from_be_bytes_at(self.data.as_slice(), 6);
        let ghost whole = self.data@;
        let rest = self.data.split_off(HEADER_LEN + size);
        let body = self.data.split_off(HEADER_LEN);
        self.data = rest;
        proof {
            let c = HEADER_LEN + size as int;
            assert(body@ =~= whole.subrange(HEADER_LEN as int, c));
            assert(self.data@ =~= whole.skip(c));
        }
        DecodeStep::Ready(Frame { kind, flag, id, body })
    }
}

/// The buffer contents after feeding each chunk in turn, mirroring what
/// [`InboundBuffer::feed`] guarantees of each step.
pub open spec fn fed(pre: Seq<u8>, chunks: Seq<Seq<u8>>) -> Seq<u8>
    decreases chunks.len(),
{
    if chunks.len() == 0 {
        pre
    } else {
        fed(pre + chunks.first(), chunks.drop_first())
    }
}

/// Feeding a byte stream one chunk at a time leaves the buffer holding
/// exactly the bytes of the chunks in order, after whatever it already held.
pub proof fn lemma_fed_is_concat(pre: Seq<u8>, chunks: Seq<Seq<u8>>)
    ensures
        fed(pre, chunks) == pre + chunks.flatten(),
    decreases chunks.len(),
{
    if chunks.len() == 0 {
        assert(fed(pre, chunks) =~= pre + chunks.flatten());
    } else {
        lemma_fed_is_concat(pre + chunks.first(), chunks.drop_first());
        assert((pre + chunks.first()) + chunks.drop_first().flatten() =~= pre + chunks.flatten());
    }
}

/// Partial-read reassembly: however a byte sequence is split into chunks,
/// feeding the chunks one at a time presents the decoder with the same byte
/// window — and hence the same next frame — as feeding the sequence whole.
pub proof fn lemma_partial_read_reassembly(chunks: Seq<Seq<u8>>)
    ensures
        fed(Seq::<u8>::empty(), chunks) == chunks.flatten(),
        spec_decode(fed(Seq::<u8>::empty(), chunks)) == spec_decode(chunks.flatten()),
{
    lemma_fed_is_concat(Seq::<u8>::empty(), chunks);
    assert(Seq::<u8>::empty() + chunks.flatten() =~= chunks.flatten());
}

} // verus!
