//! The `xfrm_stats` structure.

use vstd::prelude::*;
use crate::wire::{
    copy_prefix,
    lemma_u32_le_bytes_of,
    lemma_u32_le_field,
    push_u32_le,
    read_u32_le,
    u32_le_at,
    u32_le_bytes,
    ParseError,
};

verus! {

/// Replay and integrity counters of a state.
#[derive(Debug, Clone, Copy, Eq, PartialEq)]
pub struct Stats {
    pub replay_window: u32,
    pub replay: u32,
    pub integrity_failed: u32,
}

pub const XFRM_STATS_LEN: usize = 12;

impl Stats {
    /// The first `XFRM_STATS_LEN` bytes of `b` with every padding byte set to zero.
    #[verifier::opaque]
    pub open spec fn canonical(b: Seq<u8>) -> Seq<u8> {
        b.subrange(0, 4)
            + b.subrange(4, 8)
            + b.subrange(8, 12)
    }

    /// The wire image: the fields in order, padding as zero bytes.
    #[verifier::opaque]
    pub open spec fn spec_bytes(&self) -> Seq<u8> {
        u32_le_bytes(self.replay_window)
            + u32_le_bytes(self.replay)
            + u32_le_bytes(self.integrity_failed)
    }

    /// `self` is what the first `XFRM_STATS_LEN` bytes of `b` describe.
    #[verifier::opaque]
    pub open spec fn decodes(&self, b: Seq<u8>) -> bool {
        &&& self.replay_window == u32_le_at(b, 0)
        &&& self.replay == u32_le_at(b, 4)
        &&& self.integrity_failed == u32_le_at(b, 8)
    }

    /// `self` holds the values that `default()` gives.
    pub open spec fn is_default(&self) -> bool {
        &&& self.replay_window == 0
        &&& self.replay == 0
        &&& self.integrity_failed == 0
    }

    /// Decodes the first `XFRM_STATS_LEN` bytes of `s`.
    pub fn decode(s: &[u8]) -> (r: Stats)
        requires
            XFRM_STATS_LEN <= s.len(),
        ensures
            r.decodes(s@),
    {
        proof {
            reveal(Stats::decodes);
        }
        Stats {
            replay_window: read_u32_le(s, 0),
            replay: read_u32_le(s, 4),
            integrity_failed: read_u32_le(s, 8),
        }
    }

    /// Decodes a `Stats` from the start of `payload`; the bytes after the
    /// structure are ignored.
    pub fn parse(payload: &[u8]) -> (r: Result<Stats, ParseError>)
        ensures
            payload.len() < XFRM_STATS_LEN ==> r == Err::<Stats, ParseError>(
                ParseError::BufferTooSmall { received: payload.len(), expected: XFRM_STATS_LEN },
            ),
            XFRM_STATS_LEN <= payload.len() ==> (r matches Ok(v) && v.decodes(payload@)),
    {
        if payload.len() < XFRM_STATS_LEN {
            Err(ParseError::BufferTooSmall { received: payload.len(), expected: XFRM_STATS_LEN })
        } else {
            Ok(Stats::decode(payload))
        }
    }

    /// Appends the wire image to `out`.
    pub fn write_to(&self, out: &mut Vec<u8>)
        ensures
            final(out)@ == old(out)@ + self.spec_bytes(),
    {
        proof {
            reveal(Stats::spec_bytes);
        }
        push_u32_le(out, self.replay_window);
        push_u32_le(out, self.replay);
        push_u32_le(out, self.integrity_failed);
        assert(out@ =~= old(out)@ + self.spec_bytes());
    }

    /// The number of bytes `emit` writes.
    pub fn buffer_len(&self) -> (r: usize)
        ensures
            r == XFRM_STATS_LEN,
            r == self.spec_bytes().len(),
    {
        proof {
            Stats::lemma_roundtrip(*self);
        }
        XFRM_STATS_LEN
    }

    /// Writes the wire image over the first `XFRM_STATS_LEN` bytes of `buffer`.
    pub fn emit(&self, buffer: &mut [u8])
        requires
            XFRM_STATS_LEN <= old(buffer)@.len(),
        ensures
            final(buffer)@ == self.spec_bytes() + old(buffer)@.subrange(
                XFRM_STATS_LEN as int,
                old(buffer)@.len() as int,
            ),
    {
        let raw = StatsBuffer::from(self);
        proof {
            Stats::lemma_roundtrip(*self);
        }
        copy_prefix(buffer, raw.as_bytes());
    }
}

impl Default for Stats {
    fn default() -> (r: Stats)
        ensures
            r.is_default(),
    {
        Stats {
            replay_window: 0,
            replay: 0,
            integrity_failed: 0,
        }
    }
}

impl Stats {
    /// Decoding the wire image of a `Stats` gives back the same value,
    /// and the image is `XFRM_STATS_LEN` bytes long.
    pub proof fn lemma_roundtrip(x: Stats)
        ensures
            x.spec_bytes().len() == XFRM_STATS_LEN,
            x.decodes(x.spec_bytes()),
    {
        reveal(Stats::spec_bytes);
        reveal(Stats::decodes);
        let b = x.spec_bytes();
        assert(b.subrange(0, 4) =~= u32_le_bytes(x.replay_window));
        lemma_u32_le_field(b, 0, x.replay_window);
        assert(b.subrange(4, 8) =~= u32_le_bytes(x.replay));
        lemma_u32_le_field(b, 4, x.replay);
        assert(b.subrange(8, 12) =~= u32_le_bytes(x.integrity_failed));
        lemma_u32_le_field(b, 8, x.integrity_failed);
    }

    /// The layout of the wire image: each field sits at its fixed offset of
    /// the kernel's structure, padding bytes are zero.
    pub proof fn lemma_layout(x: Stats)
        ensures
            x.spec_bytes().len() == XFRM_STATS_LEN,
            u32_le_at(x.spec_bytes(), 0) == x.replay_window,
            u32_le_at(x.spec_bytes(), 4) == x.replay,
            u32_le_at(x.spec_bytes(), 8) == x.integrity_failed,
    {
        reveal(Stats::spec_bytes);
        let b = x.spec_bytes();
        assert(b.subrange(0, 4) =~= u32_le_bytes(x.replay_window));
        lemma_u32_le_field(b, 0, x.replay_window);
        assert(b.subrange(4, 8) =~= u32_le_bytes(x.replay));
        lemma_u32_le_field(b, 4, x.replay);
        assert(b.subrange(8, 12) =~= u32_le_bytes(x.integrity_failed));
        lemma_u32_le_field(b, 8, x.integrity_failed);

    }

    /// What decoding reads: each field from its fixed offset of `b`.
    pub proof fn lemma_decode_layout(x: Stats, b: Seq<u8>)
        requires
            XFRM_STATS_LEN <= b.len(),
            x.decodes(b),
        ensures
            x.replay_window == u32_le_at(b, 0),
            x.replay == u32_le_at(b, 4),
            x.integrity_failed == u32_le_at(b, 8),
    {
        reveal(Stats::decodes);
    }

    /// Encoding a value decoded from `b` gives back the first `XFRM_STATS_LEN`
    /// bytes of `b`, with the padding bytes set to zero.
    pub proof fn lemma_reencode(x: Stats, b: Seq<u8>)
        requires
            XFRM_STATS_LEN <= b.len(),
            x.decodes(b),
        ensures
            x.spec_bytes() == Stats::canonical(b),
    {
        reveal(Stats::spec_bytes);
        reveal(Stats::decodes);
        reveal(Stats::canonical);
        lemma_u32_le_bytes_of(b, 0);
        lemma_u32_le_bytes_of(b, 4);
        lemma_u32_le_bytes_of(b, 8);
    }

    /// Only the first `XFRM_STATS_LEN` bytes of `b` matter to what it decodes to.
    pub proof fn lemma_decodes_prefix(x: Stats, b: Seq<u8>)
        requires
            XFRM_STATS_LEN <= b.len(),
        ensures
            x.decodes(b) == x.decodes(b.subrange(0, XFRM_STATS_LEN as int)),
    {
        reveal(Stats::decodes);
        let p = b.subrange(0, XFRM_STATS_LEN as int);
        assert(forall|i: int| 0 <= i < XFRM_STATS_LEN ==> #[trigger] p[i] == b[i]);
    }

    /// At most one value decodes from given bytes.
    pub proof fn lemma_decodes_unique(x: Stats, y: Stats, b: Seq<u8>)
        requires
            XFRM_STATS_LEN <= b.len(),
            x.decodes(b),
            y.decodes(b),
        ensures
            x == y,
    {
        reveal(Stats::decodes);

    }
}

/// The wire image of a `Stats`, as laid out in the kernel's structure.
pub struct StatsBuffer {
    bytes: Vec<u8>,
}

impl View for StatsBuffer {
    type V = Seq<u8>;

    closed spec fn view(&self) -> Seq<u8> {
        self.bytes@
    }
}

impl StatsBuffer {
    /// Lays out `value` in its wire image.
    pub fn from(value: &Stats) -> (r: StatsBuffer)
        ensures
            r@ == value.spec_bytes(),
    {
        let mut bytes: Vec<u8> = Vec::new();
        value.write_to(&mut bytes);
        assert(bytes@ =~= value.spec_bytes());
        StatsBuffer { bytes }
    }

    /// The bytes of the image.
    pub fn as_bytes(&self) -> (r: &[u8])
        ensures
            r@ == self@,
    {
        self.bytes.as_slice()
    }
}

} // verus!
