//! Wire framing: a fixed ten-byte header followed by the body.
//!
//! A frame is laid out as `u32 body-length (big-endian) | u8 kind |
//! u8 flag | u32 id (big-endian) | body bytes`. Encoding and decoding are
//! pure and stateless; decoding either reports that more bytes are needed,
//! rejects an unknown flag byte, or returns the parsed frame together with
//! the exact number of bytes it occupied.

use vstd::prelude::*;

verus! {

/// The number of bytes in a frame header.
pub const HEADER_LEN: usize = 10;

/// Routing tag of a frame: a request to a handler, a successful reply to a
/// pending call, or an error reply carrying a textual message.
#[derive(Clone, Copy, PartialEq, Eq, Structural, Debug)]
pub enum Flag {
    Request,
    Reply,
    Error,
}

impl Flag {
    /// The byte that stands for this flag on the wire.
    pub open spec fn spec_byte(self) -> u8 {
        match self {
            Flag::Request => 0,
            Flag::Reply => 1,
            Flag::Error => 2,
        }
    }

    /// The flag a wire byte stands for, if any.
    pub open spec fn spec_from_byte(b: u8) -> Option<Flag> {
        if b == 0 {
            Some(Flag::Request)
        } else if b == 1 {
            Some(Flag::Reply)
        } else if b == 2 {
            Some(Flag::Error)
        } else {
            None
        }
    }

    /// Encode this flag as its wire byte.
    pub fn to_byte(self) -> (b: u8)
        ensures
            b == self.spec_byte(),
            Self::spec_from_byte(b) == Some(self),
    {
        match self {
            Flag::Request => 0,
            Flag::Reply => 1,
            Flag::Error => 2,
        }
    }

    /// Decode a wire byte into a flag; any byte above two is unknown.
    pub fn from_byte(b: u8) -> (r: Option<Flag>)
        ensures
            r == Self::spec_from_byte(b),
    {
        if b == 0 {
            Some(Flag::Request)
        } else if b == 1 {
            Some(Flag::Reply)
        } else if b == 2 {
            Some(Flag::Error)
        } else {
            None
        }
    }
}

/// One protocol message: kind byte, routing flag, correlation id and body.
pub struct Frame {
    pub kind: u8,
    pub flag: Flag,
    pub id: u32,
    pub body: Vec<u8>,
}

/// The mathematical image of a [`Frame`].
#[verifier::ext_equal]
pub struct FrameModel {
    pub kind: u8,
    pub flag: Flag,
    pub id: u32,
    pub body: Seq<u8>,
}

impl View for Frame {
    type V = FrameModel;

    open spec fn view(&self) -> FrameModel {
        FrameModel { kind: self.kind, flag: self.flag, id: self.id, body: self.body@ }
    }
}

impl FrameModel {
    /// A frame can only exist on the wire if its body length fits the
    /// four-byte length field.
    pub open spec fn wf(self) -> bool {
        self.body.len() <= u32::MAX
    }
}

/// The big-endian four-byte image of a 32-bit value.
pub open spec fn spec_u32_to_be_bytes(x: u32) -> Seq<u8> {
    seq![
        (x >> 24) as u8,
        ((x >> 16) & 0xff) as u8,
        ((x >> 8) & 0xff) as u8,
        (x & 0xff) as u8,
    ]
}

/// The 32-bit value that four big-endian bytes stand for.
pub open spec fn spec_u32_from_be_bytes(s: Seq<u8>) -> u32
    recommends
        s.len() == 4,
{
    (((s[0] as u32) << 24) | ((s[1] as u32) << 16) | ((s[2] as u32) << 8) | (s[3] as u32)) as u32
}

/// Reading back the big-endian image of a value yields the value.
pub proof fn lemma_u32_be_bytes_roundtrip(x: u32)
    ensures
        spec_u32_from_be_bytes(spec_u32_to_be_bytes(x)) == x,
{
    let s = spec_u32_to_be_bytes(x);
    assert(s[0] == (x >> 24) as u8);
    assert(s[1] == ((x >> 16) & 0xff) as u8);
    assert(s[2] == ((x >> 8) & 0xff) as u8);
    assert(s[3] == (x & 0xff) as u8);
    assert(((((x >> 24) as u8) as u32) << 24) | (((((x >> 16) & 0xff) as u8) as u32) << 16) | ((((
    (x >> 8) & 0xff) as u8) as u32) << 8) | (((x & 0xff) as u8) as u32) == x) by (bit_vector);
}

/// Write the big-endian image of `x`.
pub fn u32_to_be_bytes(x: u32) -> (s: Vec<u8>)
    ensures
        s@ == spec_u32_to_be_bytes(x),
        s@.len() == 4,
{
    let b0: u8 = (x >> 24) as u8;
    let b1: u8 = ((x >> 16) & 0xff) as u8;
    let b2: u8 = ((x >> 8) & 0xff) as u8;
    let b3: u8 = (x & 0xff) as u8;
    let mut s: Vec<u8> = Vec::new();
    s.push(b0);
    s.push(b1);
    s.push(b2);
    s.push(b3);
    proof {
        assert(s@ =~= spec_u32_to_be_bytes(x));
    }
    s
}

/// The exact byte image of a frame on the wire: length, kind, flag and id,
/// followed by the body.
pub open spec fn spec_encode(f: FrameModel) -> Seq<u8> {
    spec_u32_to_be_bytes(f.body.len() as u32) + seq![f.kind, f.flag.spec_byte()]
        + spec_u32_to_be_bytes(f.id) + f.body
}

/// What a decoder finds at the front of a byte window: too few bytes for a
/// whole frame, a header whose flag byte stands for no known flag, or one
/// complete frame together with the number of bytes it occupied.
#[verifier::ext_equal]
pub enum DecodeOutcome {
    Incomplete,
    UnknownFlag,
    Decoded { frame: FrameModel, consumed: int },
}

/// Decode the frame at the front of `w`, if one is completely present.
pub open spec fn spec_decode(w: Seq<u8>) -> DecodeOutcome {
    if w.len() < HEADER_LEN {
        DecodeOutcome::Incomplete
    } else {
        let size = spec_u32_from_be_bytes(w.subrange(0, 4)) as int;
        if w.len() < HEADER_LEN + size {
            DecodeOutcome::Incomplete
        } else {
            match Flag::spec_from_byte(w[5]) {
                None => DecodeOutcome::UnknownFlag,
                Some(flag) => DecodeOutcome::Decoded {
                    frame: FrameModel {
                        kind: w[4],
                        flag,
                        id: spec_u32_from_be_bytes(w.subrange(6, 10)),
                        body: w.subrange(HEADER_LEN as int, HEADER_LEN + size),
                    },
                    consumed: HEADER_LEN + size,
                },
            }
        }
    }
}

/// Decoding the encoding of any well-formed frame yields that frame back and
/// consumes exactly the header plus the body.
pub proof fn lemma_encode_decode(f: FrameModel)
    requires
        f.wf(),
    ensures
        spec_decode(spec_encode(f)) == (DecodeOutcome::Decoded {
            frame: f,
            consumed: HEADER_LEN + f.body.len(),
        }),
{
    let w = spec_encode(f);
    assert(w.len() == HEADER_LEN + f.body.len());
    assert(w.subrange(0, 4) =~= spec_u32_to_be_bytes(f.body.len() as u32));
    lemma_u32_be_bytes_roundtrip(f.body.len() as u32);
    assert(spec_u32_from_be_bytes(w.subrange(0, 4)) == f.body.len());
    assert(w[4] == f.kind);
    assert(w[5] == f.flag.spec_byte());
    assert(Flag::spec_from_byte(f.flag.spec_byte()) == Some(f.flag));
    assert(w.subrange(6, 10) =~= spec_u32_to_be_bytes(f.id));
    lemma_u32_be_bytes_roundtrip(f.id);
    assert(w.subrange(HEADER_LEN as int, HEADER_LEN + f.body.len()) =~= f.body);
}

/// Encode a frame given as its parts.
pub fn encode_frame(kind: u8, flag: Flag, id: u32, body: &[u8]) -> (w: Vec<u8>)
    requires
        body@.len() <= u32::MAX,
    ensures
        w@ == spec_encode(FrameModel { kind, flag, id, body: body@ }),
{
    let mut w = u32_to_be_bytes(body.len() as u32);
    w.push(kind);
    w.push(flag.to_byte());
    let mut id_bytes = u32_to_be_bytes(id);
    w.append(&mut id_bytes);
    let ghost head = w@;
    let n = body.len();
    let mut i: usize = 0;
    while i < n
        invariant
            i <= n,
            n == body@.len(),
            w@ == head + body@.take(i as int),
        decreases n - i,
    {
        w.push(body[i]);
        proof {
            assert(w@ =~= head + body@.take(i + 1));
        }
        i += 1;
    }
    proof {
        assert(body@.take(n as int) =~= body@);
        assert(w@ =~= spec_encode(FrameModel { kind, flag, id, body: body@ }));
    }
    w
}

impl Frame {
    /// Encode this frame into its wire bytes.
    pub fn encode(&self) -> (w: Vec<u8>)
        requires
            self@.wf(),
        ensures
            w@ == spec_encode(self@),
    {
        encode_frame(self.kind, self.flag, self.id, self.body.as_slice())
    }
}

/// Read the 32-bit value that the four bytes at `s[off .. off + 4]` stand for.
pub fn u32_from_be_bytes_at(s: &[u8], off: usize) -> (x: u32)
    requires
        off + 4 <= s@.len(),
    ensures
        x == spec_u32_from_be_bytes(s@.subrange(off as int, off + 4)),
{
    let b0 = s[off];
    let b1 = s[off + 1];
    let b2 = s[off + 2];
    let b3 = s[off + 3];
    proof {
        let w = s@.subrange(off as int, off + 4);
        assert(w[0] == b0 && w[1] == b1 && w[2] == b2 && w[3] == b3);
    }
    ((b0 as u32) << 24) | ((b1 as u32) << 16) | ((b2 as u32) << 8) | (b3 as u32)
}

} // verus!
