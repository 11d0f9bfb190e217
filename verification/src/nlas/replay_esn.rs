//! The `xfrm_replay_state_esn` structure: an extended-sequence-number
//! replay header followed by the replay bitmap.

use vstd::prelude::*;
use vstd::slice::slice_subrange;
use crate::netlink_ints::emit_u32_le_at;
use crate::wire::{
    copy_prefix, lemma_overwrite, lemma_u32_le_bytes_of, lemma_u32_le_field, lemma_u32_words_le, push_u32_le, read_u32_le, u32_le_at,
    u32_le_bytes, u32_words_le, ParseError,
};

verus! {

pub const XFRM_REPLAY_ESN_LEN: usize = 24;

/// The replay state of a security association with extended sequence
/// numbers. `bmp_len` is carried as it is and not compared with the length
/// of `bmp`.
#[derive(Debug, Clone, Eq, PartialEq, Default)]
pub struct ReplayEsn {
    pub bmp_len: u32,
    pub oseq: u32,
    pub seq: u32,
    pub oseq_hi: u32,
    pub seq_hi: u32,
    pub replay_window: u32,
    pub bmp: Vec<u32>,
}

impl ReplayEsn {
    /// The wire image of the header alone.
    pub open spec fn spec_header_bytes(&self) -> Seq<u8> {
        u32_le_bytes(self.bmp_len) + u32_le_bytes(self.oseq) + u32_le_bytes(self.seq)
            + u32_le_bytes(self.oseq_hi) + u32_le_bytes(self.seq_hi) + u32_le_bytes(
            self.replay_window,
        )
    }

    /// The wire image: the header, then the bitmap words.
    pub open spec fn spec_bytes(&self) -> Seq<u8> {
        self.spec_header_bytes() + u32_words_le(self.bmp@)
    }

    /// `self` is what `b` describes: a header, and the bitmap in all the
    /// bytes that follow it, one word per four bytes.
    pub open spec fn decodes(&self, b: Seq<u8>) -> bool {
        &&& self.bmp_len == u32_le_at(b, 0)
        &&& self.oseq == u32_le_at(b, 4)
        &&& self.seq == u32_le_at(b, 8)
        &&& self.oseq_hi == u32_le_at(b, 12)
        &&& self.seq_hi == u32_le_at(b, 16)
        &&& self.replay_window == u32_le_at(b, 20)
        &&& XFRM_REPLAY_ESN_LEN + 4 * self.bmp@.len() == b.len()
        &&& forall|i: int|
            0 <= i < self.bmp@.len() ==> #[trigger] self.bmp@[i] == u32_le_at(
                b,
                XFRM_REPLAY_ESN_LEN + 4 * i,
            )
    }

    /// Decodes a `ReplayEsn` from `payload`: the header, then the bitmap,
    /// which takes all the bytes after the header and must be made of whole
    /// 32-bit words.
    pub fn parse(payload: &[u8]) -> (r: Result<ReplayEsn, ParseError>)
        ensures
            payload.len() < XFRM_REPLAY_ESN_LEN ==> r == Err::<ReplayEsn, ParseError>(
                ParseError::BufferTooSmall { received: payload.len(), expected: XFRM_REPLAY_ESN_LEN },
            ),
            XFRM_REPLAY_ESN_LEN <= payload.len() && (payload.len() - XFRM_REPLAY_ESN_LEN) % 4
                != 0 ==> r == Err::<ReplayEsn, ParseError>(ParseError::InvalidReplayBitmap),
            XFRM_REPLAY_ESN_LEN <= payload.len() && (payload.len() - XFRM_REPLAY_ESN_LEN) % 4
                == 0 ==> (r matches Ok(v) && v.decodes(payload@)),
    {
        if payload.len() < XFRM_REPLAY_ESN_LEN {
            return Err(
                ParseError::BufferTooSmall { received: payload.len(), expected: XFRM_REPLAY_ESN_LEN },
            );
        }
        if (payload.len() - XFRM_REPLAY_ESN_LEN) % 4 != 0 {
            return Err(ParseError::InvalidReplayBitmap);
        }
        let n = (payload.len() - XFRM_REPLAY_ESN_LEN) / 4;
        let mut bmp: Vec<u32> = Vec::new();
        let mut i: usize = 0;
        while i < n
            invariant
                i <= n,
                XFRM_REPLAY_ESN_LEN + 4 * n == payload.len(),
                bmp@.len() == i,
                forall|j: int|
                    0 <= j < i ==> #[trigger] bmp@[j] == u32_le_at(
                        payload@,
                        XFRM_REPLAY_ESN_LEN + 4 * j,
                    ),
            decreases n - i,
        {
            let off = XFRM_REPLAY_ESN_LEN + 4 * i;
            let word = match netlink_packet_core::parse_u32_le(slice_subrange(payload, off, off + 4)) {
                Ok(v) => v,
                Err(_) => 0,
            };
            bmp.push(word);
            i = i + 1;
        }
        Ok(
            ReplayEsn {
                bmp_len: read_u32_le(payload, 0),
                oseq: read_u32_le(payload, 4),
                seq: read_u32_le(payload, 8),
                oseq_hi: read_u32_le(payload, 12),
                seq_hi: read_u32_le(payload, 16),
                replay_window: read_u32_le(payload, 20),
                bmp,
            },
        )
    }

    /// The number of bytes `emit` writes: the header and four bytes per
    /// bitmap word.
    pub fn buffer_len(&self) -> (r: usize)
        requires
            XFRM_REPLAY_ESN_LEN + 4 * self.bmp@.len() <= usize::MAX,
        ensures
            r == XFRM_REPLAY_ESN_LEN + 4 * self.bmp@.len(),
            r == self.spec_bytes().len(),
    {
        proof {
            ReplayEsn::lemma_roundtrip(*self);
        }
        XFRM_REPLAY_ESN_LEN + self.bmp.len() * 4
    }

    /// Writes the header and the bitmap over the start of `buffer`.
    pub fn emit(&self, buffer: &mut [u8])
        requires
            XFRM_REPLAY_ESN_LEN + 4 * self.bmp@.len() <= old(buffer)@.len(),
        ensures
            final(buffer)@ == self.spec_bytes() + old(buffer)@.subrange(
                XFRM_REPLAY_ESN_LEN + 4 * self.bmp@.len(),
                old(buffer)@.len() as int,
            ),
    {
        let raw = ReplayEsnBuffer::from(self);
        copy_prefix(buffer, raw.as_bytes());
        let ghost hdr = self.spec_header_bytes();
        let ghost len = old(buffer)@.len();
        assert(self.bmp@.subrange(0, 0) =~= Seq::<u32>::empty());
        assert(buffer@ =~= hdr + u32_words_le(self.bmp@.subrange(0, 0)) + old(buffer)@.subrange(
            XFRM_REPLAY_ESN_LEN as int,
            len as int,
        ));
        let mut i: usize = 0;
        while i < self.bmp.len()
            invariant
                i <= self.bmp@.len(),
                XFRM_REPLAY_ESN_LEN + 4 * self.bmp@.len() <= len,
                len == old(buffer)@.len(),
                hdr == self.spec_header_bytes(),
                hdr.len() == XFRM_REPLAY_ESN_LEN,
                buffer@.len() == len,
                buffer.len() == len,
                buffer@ == hdr + u32_words_le(self.bmp@.subrange(0, i as int))
                    + old(buffer)@.subrange(XFRM_REPLAY_ESN_LEN + 4 * i, len as int),
            decreases self.bmp@.len() - i,
        {
            let ghost before = buffer@;
            let off = XFRM_REPLAY_ESN_LEN + i * 4;
            let r = emit_u32_le_at(buffer, off, self.bmp[i]);
            proof {
                lemma_bitmap_step(hdr, self.bmp@, i as int, old(buffer)@, before, buffer@);
            }
            i = i + 1;
        }
        assert(self.bmp@.subrange(0, self.bmp@.len() as int) =~= self.bmp@);
        assert(buffer@ =~= self.spec_bytes() + old(buffer)@.subrange(
            XFRM_REPLAY_ESN_LEN + 4 * self.bmp@.len(),
            len as int,
        ));
    }
}

/// Writing bitmap word `i` after the first `i` words extends the written
/// image by that word.
proof fn lemma_bitmap_step(
    hdr: Seq<u8>,
    bmp: Seq<u32>,
    i: int,
    old_buf: Seq<u8>,
    before: Seq<u8>,
    after: Seq<u8>,
)
    requires
        hdr.len() == XFRM_REPLAY_ESN_LEN,
        0 <= i < bmp.len(),
        XFRM_REPLAY_ESN_LEN + 4 * bmp.len() <= old_buf.len(),
        before == hdr + u32_words_le(bmp.subrange(0, i)) + old_buf.subrange(
            XFRM_REPLAY_ESN_LEN + 4 * i,
            old_buf.len() as int,
        ),
        after == before.subrange(0, XFRM_REPLAY_ESN_LEN + 4 * i) + u32_le_bytes(bmp[i])
            + before.subrange(XFRM_REPLAY_ESN_LEN + 4 * i + 4, before.len() as int),
    ensures
        after == hdr + u32_words_le(bmp.subrange(0, i + 1)) + old_buf.subrange(
            XFRM_REPLAY_ESN_LEN + 4 * (i + 1),
            old_buf.len() as int,
        ),
{
    let done = bmp.subrange(0, i);
    let next = bmp.subrange(0, i + 1);
    let rest = old_buf.subrange(XFRM_REPLAY_ESN_LEN + 4 * i, old_buf.len() as int);
    let w = u32_le_bytes(bmp[i]);
    lemma_u32_words_le(done);
    assert(next.drop_last() =~= done);
    assert(u32_words_le(next) == u32_words_le(done) + w);
    lemma_overwrite(hdr + u32_words_le(done), rest, w);
    assert(rest.subrange(4, rest.len() as int) =~= old_buf.subrange(
        XFRM_REPLAY_ESN_LEN + 4 * (i + 1),
        old_buf.len() as int,
    ));
    assert(after =~= hdr + u32_words_le(next) + old_buf.subrange(
        XFRM_REPLAY_ESN_LEN + 4 * (i + 1),
        old_buf.len() as int,
    ));
}

impl ReplayEsn {
    /// Decoding the wire image of a `ReplayEsn` gives back the same replay
    /// state, and the image is the header and four bytes per bitmap word.
    pub proof fn lemma_roundtrip(x: ReplayEsn)
        ensures
            x.spec_bytes().len() == XFRM_REPLAY_ESN_LEN + 4 * x.bmp@.len(),
            x.decodes(x.spec_bytes()),
    {
        let b = x.spec_bytes();
        let h = x.spec_header_bytes();
        let w = u32_words_le(x.bmp@);
        lemma_u32_words_le(x.bmp@);
        assert(b.subrange(0, 4) =~= u32_le_bytes(x.bmp_len));
        lemma_u32_le_field(b, 0, x.bmp_len);
        assert(b.subrange(4, 8) =~= u32_le_bytes(x.oseq));
        lemma_u32_le_field(b, 4, x.oseq);
        assert(b.subrange(8, 12) =~= u32_le_bytes(x.seq));
        lemma_u32_le_field(b, 8, x.seq);
        assert(b.subrange(12, 16) =~= u32_le_bytes(x.oseq_hi));
        lemma_u32_le_field(b, 12, x.oseq_hi);
        assert(b.subrange(16, 20) =~= u32_le_bytes(x.seq_hi));
        lemma_u32_le_field(b, 16, x.seq_hi);
        assert(b.subrange(20, 24) =~= u32_le_bytes(x.replay_window));
        lemma_u32_le_field(b, 20, x.replay_window);
        assert forall|i: int| 0 <= i < x.bmp@.len() implies #[trigger] x.bmp@[i] == u32_le_at(
            b,
            XFRM_REPLAY_ESN_LEN + 4 * i,
        ) by {
            assert(w.subrange(4 * i, 4 * i + 4) == u32_le_bytes(x.bmp@[i]));
            assert(b.subrange(24 + 4 * i, 24 + 4 * i + 4) =~= w.subrange(4 * i, 4 * i + 4));
            lemma_u32_le_field(b, 24 + 4 * i, x.bmp@[i]);
        }
    }
}

impl ReplayEsn {
    /// Encoding a value decoded from `b` gives back `b`.
    pub proof fn lemma_reencode(x: ReplayEsn, b: Seq<u8>)
        requires
            x.decodes(b),
        ensures
            x.spec_bytes() == b,
    {
        let w = u32_words_le(x.bmp@);
        let t = b.subrange(XFRM_REPLAY_ESN_LEN as int, b.len() as int);
        lemma_u32_words_le(x.bmp@);
        assert forall|j: int| 0 <= j < w.len() implies #[trigger] w[j] == t[j] by {
            let i = j / 4;
            assert(0 <= i < x.bmp@.len());
            assert(x.bmp@[i] == u32_le_at(b, XFRM_REPLAY_ESN_LEN + 4 * i));
            lemma_u32_le_bytes_of(b, XFRM_REPLAY_ESN_LEN + 4 * i);
            assert(w.subrange(4 * i, 4 * i + 4) == u32_le_bytes(x.bmp@[i]));
            assert(w[j] == w.subrange(4 * i, 4 * i + 4)[j - 4 * i]);
            assert(b.subrange(XFRM_REPLAY_ESN_LEN + 4 * i, XFRM_REPLAY_ESN_LEN + 4 * i + 4)[j - 4
                * i] == b[XFRM_REPLAY_ESN_LEN + j]);
        }
        assert(w =~= t);
        lemma_u32_le_bytes_of(b, 0);
        lemma_u32_le_bytes_of(b, 4);
        lemma_u32_le_bytes_of(b, 8);
        lemma_u32_le_bytes_of(b, 12);
        lemma_u32_le_bytes_of(b, 16);
        lemma_u32_le_bytes_of(b, 20);
        assert(b =~= b.subrange(0, 4) + b.subrange(4, 8) + b.subrange(8, 12) + b.subrange(12, 16)
            + b.subrange(16, 20) + b.subrange(20, 24) + t);
    }
}

impl ReplayEsn {
    /// The wire image of a `ReplayEsn` is six little-endian words, `bmp_len`,
    /// `oseq`, `seq`, `oseq_hi`, `seq_hi` and `replay_window` at offsets 0, 4,
    /// 8, 12, 16 and 20, then bitmap word `i` at offset `24 + 4 * i`.
    pub proof fn lemma_layout(x: ReplayEsn)
        ensures
            x.spec_bytes().len() == XFRM_REPLAY_ESN_LEN + 4 * x.bmp@.len(),
            u32_le_at(x.spec_bytes(), 0) == x.bmp_len,
            u32_le_at(x.spec_bytes(), 4) == x.oseq,
            u32_le_at(x.spec_bytes(), 8) == x.seq,
            u32_le_at(x.spec_bytes(), 12) == x.oseq_hi,
            u32_le_at(x.spec_bytes(), 16) == x.seq_hi,
            u32_le_at(x.spec_bytes(), 20) == x.replay_window,
            forall|i: int|
                0 <= i < x.bmp@.len() ==> #[trigger] u32_le_at(x.spec_bytes(), 24 + 4 * i)
                    == x.bmp@[i],
    {
        ReplayEsn::lemma_roundtrip(x);
    }

    /// A `ReplayEsn` decoded from `b` holds the words read at those same
    /// offsets, and `b` is exactly the header and the bitmap.
    pub proof fn lemma_decode_layout(x: ReplayEsn, b: Seq<u8>)
        requires
            x.decodes(b),
        ensures
            b.len() == 24 + 4 * x.bmp@.len(),
            x.bmp_len == u32_le_at(b, 0),
            x.oseq == u32_le_at(b, 4),
            x.seq == u32_le_at(b, 8),
            x.oseq_hi == u32_le_at(b, 12),
            x.seq_hi == u32_le_at(b, 16),
            x.replay_window == u32_le_at(b, 20),
            forall|i: int| 0 <= i < x.bmp@.len() ==> #[trigger] x.bmp@[i] == u32_le_at(b, 24 + 4 * i),
    {
    }
}

/// The wire image of the header of a `ReplayEsn`.
pub struct ReplayEsnBuffer {
    bytes: Vec<u8>,
}

impl View for ReplayEsnBuffer {
    type V = Seq<u8>;

    closed spec fn view(&self) -> Seq<u8> {
        self.bytes@
    }
}

impl ReplayEsnBuffer {
    /// Lays out the header of `value`.
    pub fn from(value: &ReplayEsn) -> (r: ReplayEsnBuffer)
        ensures
            r@ == value.spec_header_bytes(),
            r@.len() == XFRM_REPLAY_ESN_LEN,
    {
        let mut bytes: Vec<u8> = Vec::new();
        push_u32_le(&mut bytes, value.bmp_len);
        push_u32_le(&mut bytes, value.oseq);
        push_u32_le(&mut bytes, value.seq);
        push_u32_le(&mut bytes, value.oseq_hi);
        push_u32_le(&mut bytes, value.seq_hi);
        push_u32_le(&mut bytes, value.replay_window);
        assert(bytes@ =~= value.spec_header_bytes());
        ReplayEsnBuffer { bytes }
    }

    /// The bytes of the image.
    pub fn as_bytes(&self) -> (r: &[u8])
        ensures
            r@ == self@,
    {
        self.bytes.as_slice()
    }
}

} // verus!
