//! The transport core: one state value composing the inbound buffer, the
//! call-id generator, the correlation table and the handler registry, with
//! the decisions of the dispatch loop as pure transitions.
//!
//! An asynchronous shell owns the socket and the tasks. It reads bytes and
//! hands them to [`TransportCore::feed`]; it asks [`TransportCore::next_event`]
//! what each decoded frame means and performs the resulting channel send or
//! slot completion; it issues requests through [`TransportCore::begin_call`]
//! and encodes handler results through [`reply_frame`], writing the returned
//! bytes to the stream in one piece.

use vstd::prelude::*;
use vstd::string::StringSliceAdditionalSpecFns;
use crate::buffer::{DecodeStep, InboundBuffer};
use crate::correlation::CorrelationTable;
use crate::frame::{spec_decode, spec_encode, DecodeOutcome, Flag, FrameModel};
use crate::ids::{wrap_next, CallIdGen};
use crate::registry::HandlerRegistry;

verus! {

/// The characters that a byte sequence decodes to when it is valid UTF-8,
/// and nothing when it is not; what `std::str::from_utf8` accepts and
/// returns depends on the bytes alone.
pub uninterp spec fn utf8_seq(bytes: Seq<u8>) -> Option<Seq<char>>;

/// Relies on std::str::from_utf8: turns a byte slice into the text it spells
/// exactly when the bytes are valid UTF-8.
#[verifier::external_body]
fn utf8_str(bytes: &[u8]) -> (r: Option<&str>)
    ensures
        r is Some <==> utf8_seq(bytes@) is Some,
        r matches Some(s) ==> s@ == utf8_seq(bytes@).unwrap(),
{
    std::str::from_utf8(bytes).ok()
}

/// The protocol state shared by one connection's caller side and handler
/// side. `S` is a caller's completion slot; `H` is the sending end of a
/// handler's inbound channel. Both are opaque to the core: it only stores
/// them and hands them back.
pub struct TransportCore<S, H> {
    buffer: InboundBuffer,
    ids: CallIdGen,
    calls: CorrelationTable<S>,
    handlers: HandlerRegistry<H>,
}

/// The mathematical image of a [`TransportCore`].
#[verifier::ext_equal]
pub struct TransportModel<S, H> {
    /// Bytes read from the stream but not yet consumed as frames.
    pub buffer: Seq<u8>,
    /// The id the next outgoing call will receive.
    pub next_id: u32,
    /// The completion slot of each in-flight call, by id.
    pub calls: Map<u32, S>,
    /// The delivery channel of each bound handler, by kind.
    pub handlers: Map<u8, H>,
}

impl<S, H> View for TransportCore<S, H> {
    type V = TransportModel<S, H>;

    closed spec fn view(&self) -> TransportModel<S, H> {
        TransportModel {
            buffer: self.buffer@,
            next_id: self.ids@,
            calls: self.calls@,
            handlers: self.handlers@,
        }
    }
}

/// What one decoded frame means, as decided by [`TransportCore::next_event`].
pub enum Event<S> {
    /// No complete frame is buffered; read more bytes.
    Pending,
    /// The frame at the front carries an unknown flag byte: frame boundaries
    /// can no longer be trusted, and the connection is to be torn down.
    Corrupt,
    /// A request to deliver to the handler bound to `kind`, if any; an
    /// unbound kind means the request is simply dropped.
    Request { kind: u8, id: u32, body: Vec<u8> },
    /// A reply or error for the in-flight call that held `slot`: hand
    /// `reply` to the waiting caller.
    Resolve { slot: S, reply: Result<Vec<u8>, String> },
    /// A reply or error whose id has no pending call; dropped without error.
    LateFrame { id: u32 },
    /// An error frame whose body is not valid UTF-8; that frame alone is
    /// dropped and the call stays pending.
    BadErrorText { id: u32 },
}

impl<S, H> TransportCore<S, H> {
    /// A fresh core: nothing buffered, nothing in flight, nothing bound, and
    /// the first call gets id zero.
    pub fn new() -> (r: TransportCore<S, H>)
        ensures
            r@.buffer == Seq::<u8>::empty(),
            r@.next_id == 0,
            r@.calls == Map::<u32, S>::empty(),
            r@.handlers == Map::<u8, H>::empty(),
    {
        TransportCore {
            buffer: InboundBuffer::new(),
            ids: CallIdGen::new(),
            calls: CorrelationTable::new(),
            handlers: HandlerRegistry::new(),
        }
    }

    /// Bind `chan` as the delivery channel for `kind`; last bind wins.
    pub fn bind(&mut self, kind: u8, chan: H)
        ensures
            final(self)@ == (TransportModel {
                handlers: old(self)@.handlers.insert(kind, chan),
                ..old(self)@
            }),
    {
        self.handlers.bind(kind, chan);
    }

    /// The delivery channel bound to `kind`, if any.
    pub fn handler(&self, kind: u8) -> (r: Option<&H>)
        ensures
            match r {
                Some(h) => self@.handlers.contains_key(kind) && *h == self@.handlers[kind],
                None => !self@.handlers.contains_key(kind),
            },
    {
        self.handlers.lookup(kind)
    }

    /// Whether a call with this id is in flight.
    pub fn is_pending(&self, id: u32) -> (b: bool)
        ensures
            b == self@.calls.contains_key(id),
    {
        self.calls.is_pending(id)
    }

    /// The number of in-flight calls.
    pub fn pending_count(&self) -> (n: usize)
        ensures
            n == self@.calls.dom().len(),
    {
        self.calls.pending_count()
    }

    /// The number of bytes read from the stream but not yet consumed.
    pub fn buffered_len(&self) -> (n: usize)
        ensures
            n == self@.buffer.len(),
    {
        self.buffer.len()
    }

    /// Append one chunk read from the stream to the inbound buffer.
    pub fn feed(&mut self, chunk: &[u8])
        requires
            old(self)@.buffer.len() + chunk@.len() <= usize::MAX,
        ensures
            final(self)@ == (TransportModel { buffer: old(self)@.buffer + chunk@, ..old(self)@ }),
    {
        self.buffer.feed(chunk);
    }

    /// Issue a request: take the next id, put `slot` in the correlation
    /// table under it, and encode the request frame to write to the stream.
    /// The id counter steps in every case; if — through id-space exhaustion —
    /// the id is still in flight, the slot is handed back, no entry is
    /// touched and nothing is to be written.
    pub fn begin_call(&mut self, kind: u8, body: &[u8], slot: S) -> (r: Result<(u32, Vec<u8>), S>)
        requires
            body@.len() <= u32::MAX,
        ensures
            final(self)@.next_id == wrap_next(old(self)@.next_id),
            final(self)@.buffer == old(self)@.buffer,
            final(self)@.handlers == old(self)@.handlers,
            old(self)@.calls.contains_key(old(self)@.next_id) ==> (r matches Err(s) && s == slot
                && final(self)@.calls == old(self)@.calls),
            !old(self)@.calls.contains_key(old(self)@.next_id) ==> (r matches Ok((id, wire))
                && id == old(self)@.next_id && final(self)@.calls == old(self)@.calls.insert(
                id,
                slot,
            ) && wire@ == spec_encode(
                FrameModel { kind, flag: Flag::Request, id, body: body@ },
            )),
    {
        let id = self.ids.next();
        match self.calls.register(id, slot) {
            Err(s) => Err(s),
            Ok(()) => {
                let wire = crate::frame::encode_frame(kind, Flag::Request, id, body);
                Ok((id, wire))
            },
        }
    }

    /// Decode the frame at the front of the buffer, if complete, and decide
    /// what it means: deliver a request, complete a pending call, or drop
    /// the frame. Exactly the frame's bytes leave the buffer; the registry
    /// and the id counter never change; the correlation table loses exactly
    /// the entry of a call that is completed, and nothing else.
    pub fn next_event(&mut self) -> (ev: Event<S>)
        ensures
            final(self)@ == step_model(old(self)@),
            final(self)@.next_id == old(self)@.next_id,
            final(self)@.handlers == old(self)@.handlers,
            match spec_decode(old(self)@.buffer) {
                DecodeOutcome::Incomplete => {
                    &&& ev is Pending
                    &&& final(self)@ == old(self)@
                },
                DecodeOutcome::UnknownFlag => {
                    &&& ev is Corrupt
                    &&& final(self)@ == old(self)@
                },
                DecodeOutcome::Decoded { frame, consumed } => {
                    &&& final(self)@.buffer == old(self)@.buffer.skip(consumed)
                    &&& match frame.flag {
                        Flag::Request => {
                            &&& ev matches Event::Request { kind, id, body } && kind == frame.kind
                                && id == frame.id && body@ == frame.body
                            &&& final(self)@.calls == old(self)@.calls
                        },
                        Flag::Reply => {
                            if old(self)@.calls.contains_key(frame.id) {
                                &&& ev matches Event::Resolve { slot, reply } && ({
                                    &&& slot == old(self)@.calls[frame.id]
                                    &&& reply matches Ok(b) && b@ == frame.body
                                })
                                &&& final(self)@.calls == old(self)@.calls.remove(frame.id)
                            } else {
                                &&& ev matches Event::LateFrame { id } && id == frame.id
                                &&& final(self)@.calls == old(self)@.calls
                            }
                        },
                        Flag::Error => {
                            if utf8_seq(frame.body) is None {
                                &&& ev matches Event::BadErrorText { id } && id == frame.id
                                &&& final(self)@.calls == old(self)@.calls
                            } else if old(self)@.calls.contains_key(frame.id) {
                                &&& ev matches Event::Resolve { slot, reply } && ({
                                    &&& slot == old(self)@.calls[frame.id]
                                    &&& reply matches Err(m) && m@ == utf8_seq(frame.body).unwrap()
                                })
                                &&& final(self)@.calls == old(self)@.calls.remove(frame.id)
                            } else {
                                &&& ev matches Event::LateFrame { id } && id == frame.id
                                &&& final(self)@.calls == old(self)@.calls
                            }
                        },
                    }
                },
            },
    {
        let step = self.buffer.try_decode();
        let ev = match step {
            DecodeStep::Pending => Event::Pending,
            DecodeStep::Corrupt => Event::Corrupt,
            DecodeStep::Ready(f) => match f.flag {
                Flag::Request => Event::Request { kind: f.kind, id: f.id, body: f.body },
                Flag::Reply => match self.calls.resolve(f.id) {
                    Some(slot) => Event::Resolve { slot, reply: Ok(f.body) },
                    None => Event::LateFrame { id: f.id },
                },
                Flag::Error => match utf8_str(f.body.as_slice()) {
                    None => Event::BadErrorText { id: f.id },
                    Some(text) => {
                        let message = text.to_owned();
                        match self.calls.resolve(f.id) {
                            Some(slot) => Event::Resolve { slot, reply: Err(message) },
                            None => Event::LateFrame { id: f.id },
                        }
                    },
                },
            },
        };
        proof {
            assert(self@ =~= step_model(old(self)@));
        }
        ev
    }
}

/// The core after one dispatch step, as a function of the core before it:
/// an incomplete or corrupt window changes nothing; a decoded frame leaves
/// the buffer, and a reply or well-spelt error for a pending call takes
/// that call's entry out of the correlation table.
pub open spec fn step_model<S, H>(m: TransportModel<S, H>) -> TransportModel<S, H> {
    match spec_decode(m.buffer) {
        DecodeOutcome::Incomplete => m,
        DecodeOutcome::UnknownFlag => m,
        DecodeOutcome::Decoded { frame, consumed } => TransportModel {
            buffer: m.buffer.skip(consumed),
            calls: match frame.flag {
                Flag::Request => m.calls,
                Flag::Reply => if m.calls.contains_key(frame.id) {
                    m.calls.remove(frame.id)
                } else {
                    m.calls
                },
                Flag::Error => if utf8_seq(frame.body) is Some && m.calls.contains_key(
                    frame.id,
                ) {
                    m.calls.remove(frame.id)
                } else {
                    m.calls
                },
            },
            ..m
        },
    }
}

/// Encode the frame that carries a handler's result back to the caller: a
/// reply frame with the serialized output when the handler succeeded, an
/// error frame spelling the failure text when it failed.
pub fn reply_frame(kind: u8, id: u32, result: Result<&[u8], &str>) -> (w: Vec<u8>)
    requires
        result matches Ok(b) ==> b@.len() <= u32::MAX,
        result matches Err(e) ==> e.spec_bytes().len() <= u32::MAX,
    ensures
        match result {
            Ok(b) => w@ == spec_encode(FrameModel { kind, flag: Flag::Reply, id, body: b@ }),
            Err(e) => w@ == spec_encode(
                FrameModel { kind, flag: Flag::Error, id, body: e.spec_bytes() },
            ),
        },
{
    match result {
        Ok(body) => crate::frame::encode_frame(kind, Flag::Reply, id, body),
        Err(message) => crate::frame::encode_frame(kind, Flag::Error, id, message.as_bytes()),
    }
}

/// Unknown-kind tolerance: a dispatch step does not depend on the handler
/// registry. Two cores that agree on everything but their bindings take the
/// same step — the same bytes leave the buffer, the same call resolves — so
/// a request for an unbound kind is dropped without affecting how any later
/// frame is processed.
pub proof fn lemma_unknown_kind_tolerance<S, H>(
    pre: TransportModel<S, H>,
    with_binding: TransportModel<S, H>,
)
    requires
        with_binding == (TransportModel { handlers: with_binding.handlers, ..pre }),
    ensures
        step_model(with_binding) == (TransportModel {
            handlers: with_binding.handlers,
            ..step_model(pre)
        }),
{
    assert(step_model(with_binding) =~= (TransportModel {
        handlers: with_binding.handlers,
        ..step_model(pre)
    }));
}

} // verus!
