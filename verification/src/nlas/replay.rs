//! The `xfrm_replay_state` structure.

use vstd::prelude::*;
use crate::wire::{
    copy_prefix,
    lemma_u32_le_bytes_of,
    lemma_u32_le_field,
    push_u32_le,
    read_u32_le,
    u32_le_at,
    u32_le_bytes,
    ParseError,
};

verus! {

/// The replay state of a security association.
#[derive(Debug, Clone, Copy, Eq, PartialEq)]
pub struct Replay {
    pub oseq: u32,
    pub seq: u32,
    pub bitmap: u32,
}

pub const XFRM_REPLAY_LEN: usize = 12;

impl Replay {
    /// The first `XFRM_REPLAY_LEN` bytes of `b` with every padding byte set to zero.
    #[verifier::opaque]
    pub open spec fn canonical(b: Seq<u8>) -> Seq<u8> {
        b.subrange(0, 4)
            + b.subrange(4, 8)
            + b.subrange(8, 12)
    }

    /// The wire image: the fields in order, padding as zero bytes.
    #[verifier::opaque]
    pub open spec fn spec_bytes(&self) -> Seq<u8> {
        u32_le_bytes(self.oseq)
            + u32_le_bytes(self.seq)
            + u32_le_bytes(self.bitmap)
    }

    /// `self` is what the first `XFRM_REPLAY_LEN` bytes of `b` describe.
    #[verifier::opaque]
    pub open spec fn decodes(&self, b: Seq<u8>) -> bool {
        &&& self.oseq == u32_le_at(b, 0)
        &&& self.seq == u32_le_at(b, 4)
        &&& self.bitmap == u32_le_at(b, 8)
    }

    /// `self` holds the values that `default()` gives.
    pub open spec fn is_default(&self) -> bool {
        &&& self.oseq == 0
        &&& self.seq == 0
        &&& self.bitmap == 0
    }

    /// Decodes the first `XFRM_REPLAY_LEN` bytes of `s`.
    pub fn decode(s: &[u8]) -> (r: Replay)
        requires
            XFRM_REPLAY_LEN <= s.len(),
        ensures
            r.decodes(s@),
    {
        proof {
            reveal(Replay::decodes);
        }
        Replay {
            oseq: read_u32_le(s, 0),
            seq: read_u32_le(s, 4),
            bitmap: read_u32_le(s, 8),
        }
    }

    /// Decodes a `Replay` from the start of `payload`; the bytes after the
    /// structure are ignored.
    pub fn parse(payload: &[u8]) -> (r: Result<Replay, ParseError>)
        ensures
            payload.len() < XFRM_REPLAY_LEN ==> r == Err::<Replay, ParseError>(
                ParseError::BufferTooSmall { received: payload.len(), expected: XFRM_REPLAY_LEN },
            ),
            XFRM_REPLAY_LEN <= payload.len() ==> (r matches Ok(v) && v.decodes(payload@)),
    {
        if payload.len() < XFRM_REPLAY_LEN {
            Err(ParseError::BufferTooSmall { received: payload.len(), expected: XFRM_REPLAY_LEN })
        } else {
            Ok(Replay::decode(payload))
        }
    }

    /// Appends the wire image to `out`.
    pub fn write_to(&self, out: &mut Vec<u8>)
        ensures
            final(out)@ == old(out)@ + self.spec_bytes(),
    {
        proof {
            reveal(Replay::spec_bytes);
        }
        push_u32_le(out, self.oseq);
        push_u32_le(out, self.seq);
        push_u32_le(out, self.bitmap);
        assert(out@ =~= old(out)@ + self.spec_bytes());
    }

    /// The number of bytes `emit` writes.
    pub fn buffer_len(&self) -> (r: usize)
        ensures
            r == XFRM_REPLAY_LEN,
            r == self.spec_bytes().len(),
    {
        proof {
            Replay::lemma_roundtrip(*self);
        }
        XFRM_REPLAY_LEN
    }

    /// Writes the wire image over the first `XFRM_REPLAY_LEN` bytes of `buffer`.
    pub fn emit(&self, buffer: &mut [u8])
        requires
            XFRM_REPLAY_LEN <= old(buffer)@.len(),
        ensures
            final(buffer)@ == self.spec_bytes() + old(buffer)@.subrange(
                XFRM_REPLAY_LEN as int,
                old(buffer)@.len() as int,
            ),
    {
        let raw = ReplayBuffer::from(self);
        proof {
            Replay::lemma_roundtrip(*self);
        }
        copy_prefix(buffer, raw.as_bytes());
    }
}

impl Default for Replay {
    fn default() -> (r: Replay)
        ensures
            r.is_default(),
    {
        Replay {
            oseq: 0,
            seq: 0,
            bitmap: 0,
        }
    }
}

impl Replay {
    /// Decoding the wire image of a `Replay` gives back the same value,
    /// and the image is `XFRM_REPLAY_LEN` bytes long.
    pub proof fn lemma_roundtrip(x: Replay)
        ensures
            x.spec_bytes().len() == XFRM_REPLAY_LEN,
            x.decodes(x.spec_bytes()),
    {
        reveal(Replay::spec_bytes);
        reveal(Replay::decodes);
        let b = x.spec_bytes();
        assert(b.subrange(0, 4) =~= u32_le_bytes(x.oseq));
        lemma_u32_le_field(b, 0, x.oseq);
        assert(b.subrange(4, 8) =~= u32_le_bytes(x.seq));
        lemma_u32_le_field(b, 4, x.seq);
        assert(b.subrange(8, 12) =~= u32_le_bytes(x.bitmap));
        lemma_u32_le_field(b, 8, x.bitmap);
    }

    /// The layout of the wire image: each field sits at its fixed offset of
    /// the kernel's structure, padding bytes are zero.
    pub proof fn lemma_layout(x: Replay)
        ensures
            x.spec_bytes().len() == XFRM_REPLAY_LEN,
            u32_le_at(x.spec_bytes(), 0) == x.oseq,
            u32_le_at(x.spec_bytes(), 4) == x.seq,
            u32_le_at(x.spec_bytes(), 8) == x.bitmap,
    {
        reveal(Replay::spec_bytes);
        let b = x.spec_bytes();
        assert(b.subrange(0, 4) =~= u32_le_bytes(x.oseq));
        lemma_u32_le_field(b, 0, x.oseq);
        assert(b.subrange(4, 8) =~= u32_le_bytes(x.seq));
        lemma_u32_le_field(b, 4, x.seq);
        assert(b.subrange(8, 12) =~= u32_le_bytes(x.bitmap));
        lemma_u32_le_field(b, 8, x.bitmap);

    }

    /// What decoding reads: each field from its fixed offset of `b`.
    pub proof fn lemma_decode_layout(x: Replay, b: Seq<u8>)
        requires
            XFRM_REPLAY_LEN <= b.len(),
            x.decodes(b),
        ensures
            x.oseq == u32_le_at(b, 0),
            x.seq == u32_le_at(b, 4),
            x.bitmap == u32_le_at(b, 8),
    {
        reveal(Replay::decodes);
    }

    /// Encoding a value decoded from `b` gives back the first `XFRM_REPLAY_LEN`
    /// bytes of `b`, with the padding bytes set to zero.
    pub proof fn lemma_reencode(x: Replay, b: Seq<u8>)
        requires
            XFRM_REPLAY_LEN <= b.len(),
            x.decodes(b),
        ensures
            x.spec_bytes() == Replay::canonical(b),
    {
        reveal(Replay::spec_bytes);
        reveal(Replay::decodes);
        reveal(Replay::canonical);
        lemma_u32_le_bytes_of(b, 0);
        lemma_u32_le_bytes_of(b, 4);
        lemma_u32_le_bytes_of(b, 8);
    }

    /// Only the first `XFRM_REPLAY_LEN` bytes of `b` matter to what it decodes to.
    pub proof fn lemma_decodes_prefix(x: Replay, b: Seq<u8>)
        requires
            XFRM_REPLAY_LEN <= b.len(),
        ensures
            x.decodes(b) == x.decodes(b.subrange(0, XFRM_REPLAY_LEN as int)),
    {
        reveal(Replay::decodes);
        let p = b.subrange(0, XFRM_REPLAY_LEN as int);
        assert(forall|i: int| 0 <= i < XFRM_REPLAY_LEN ==> #[trigger] p[i] == b[i]);
    }

    /// At most one value decodes from given bytes.
    pub proof fn lemma_decodes_unique(x: Replay, y: Replay, b: Seq<u8>)
        requires
            XFRM_REPLAY_LEN <= b.len(),
            x.decodes(b),
            y.decodes(b),
        ensures
            x == y,
    {
        reveal(Replay::decodes);

    }
}

/// The wire image of a `Replay`, as laid out in the kernel's structure.
pub struct ReplayBuffer {
    bytes: Vec<u8>,
}

impl View for ReplayBuffer {
    type V = Seq<u8>;

    closed spec fn view(&self) -> Seq<u8> {
        self.bytes@
    }
}

impl ReplayBuffer {
    /// Lays out `value` in its wire image.
    pub fn from(value: &Replay) -> (r: ReplayBuffer)
        ensures
            r@ == value.spec_bytes(),
    {
        let mut bytes: Vec<u8> = Vec::new();
        value.write_to(&mut bytes);
        assert(bytes@ =~= value.spec_bytes());
        ReplayBuffer { bytes }
    }

    /// The bytes of the image.
    pub fn as_bytes(&self) -> (r: &[u8])
        ensures
            r@ == self@,
    {
        self.bytes.as_slice()
    }
}

} // verus!
