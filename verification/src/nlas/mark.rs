//! The `xfrm_mark` structure.

use vstd::prelude::*;
use crate::wire::{
    copy_prefix,
    lemma_u32_le_bytes_of,
    lemma_u32_le_field,
    push_u32_le,
    read_u32_le,
    u32_le_at,
    u32_le_bytes,
    ParseError,
};

verus! {

/// A firewall mark: the value and the mask it is compared under.
#[derive(Debug, Clone, Copy, Eq, PartialEq)]
pub struct Mark {
    pub value: u32,
    pub mask: u32,
}

pub const XFRM_MARK_LEN: usize = 8;

impl Mark {
    /// The first `XFRM_MARK_LEN` bytes of `b` with every padding byte set to zero.
    #[verifier::opaque]
    pub open spec fn canonical(b: Seq<u8>) -> Seq<u8> {
        b.subrange(0, 4)
            + b.subrange(4, 8)
    }

    /// The wire image: the fields in order, padding as zero bytes.
    #[verifier::opaque]
    pub open spec fn spec_bytes(&self) -> Seq<u8> {
        u32_le_bytes(self.value)
            + u32_le_bytes(self.mask)
    }

    /// `self` is what the first `XFRM_MARK_LEN` bytes of `b` describe.
    #[verifier::opaque]
    pub open spec fn decodes(&self, b: Seq<u8>) -> bool {
        &&& self.value == u32_le_at(b, 0)
        &&& self.mask == u32_le_at(b, 4)
    }

    /// `self` holds the values that `default()` gives.
    pub open spec fn is_default(&self) -> bool {
        &&& self.value == 0
        &&& self.mask == 0
    }

    /// Decodes the first `XFRM_MARK_LEN` bytes of `s`.
    pub fn decode(s: &[u8]) -> (r: Mark)
        requires
            XFRM_MARK_LEN <= s.len(),
        ensures
            r.decodes(s@),
    {
        proof {
            reveal(Mark::decodes);
        }
        Mark {
            value: read_u32_le(s, 0),
            mask: read_u32_le(s, 4),
        }
    }

    /// Decodes a `Mark` from the start of `payload`; the bytes after the
    /// structure are ignored.
    pub fn parse(payload: &[u8]) -> (r: Result<Mark, ParseError>)
        ensures
            payload.len() < XFRM_MARK_LEN ==> r == Err::<Mark, ParseError>(
                ParseError::BufferTooSmall { received: payload.len(), expected: XFRM_MARK_LEN },
            ),
            XFRM_MARK_LEN <= payload.len() ==> (r matches Ok(v) && v.decodes(payload@)),
    {
        if payload.len() < XFRM_MARK_LEN {
            Err(ParseError::BufferTooSmall { received: payload.len(), expected: XFRM_MARK_LEN })
        } else {
            Ok(Mark::decode(payload))
        }
    }

    /// Appends the wire image to `out`.
    pub fn write_to(&self, out: &mut Vec<u8>)
        ensures
            final(out)@ == old(out)@ + self.spec_bytes(),
    {
        proof {
            reveal(Mark::spec_bytes);
        }
        push_u32_le(out, self.value);
        push_u32_le(out, self.mask);
        assert(out@ =~= old(out)@ + self.spec_bytes());
    }

    /// The number of bytes `emit` writes.
    pub fn buffer_len(&self) -> (r: usize)
        ensures
            r == XFRM_MARK_LEN,
            r == self.spec_bytes().len(),
    {
        proof {
            Mark::lemma_roundtrip(*self);
        }
        XFRM_MARK_LEN
    }

    /// Writes the wire image over the first `XFRM_MARK_LEN` bytes of `buffer`.
    pub fn emit(&self, buffer: &mut [u8])
        requires
            XFRM_MARK_LEN <= old(buffer)@.len(),
        ensures
            final(buffer)@ == self.spec_bytes() + old(buffer)@.subrange(
                XFRM_MARK_LEN as int,
                old(buffer)@.len() as int,
            ),
    {
        let raw = MarkBuffer::from(self);
        proof {
            Mark::lemma_roundtrip(*self);
        }
        copy_prefix(buffer, raw.as_bytes());
    }
}

impl Default for Mark {
    fn default() -> (r: Mark)
        ensures
            r.is_default(),
    {
        Mark {
            value: 0,
            mask: 0,
        }
    }
}

impl Mark {
    /// Decoding the wire image of a `Mark` gives back the same value,
    /// and the image is `XFRM_MARK_LEN` bytes long.
    pub proof fn lemma_roundtrip(x: Mark)
        ensures
            x.spec_bytes().len() == XFRM_MARK_LEN,
            x.decodes(x.spec_bytes()),
    {
        reveal(Mark::spec_bytes);
        reveal(Mark::decodes);
        let b = x.spec_bytes();
        assert(b.subrange(0, 4) =~= u32_le_bytes(x.value));
        lemma_u32_le_field(b, 0, x.value);
        assert(b.subrange(4, 8) =~= u32_le_bytes(x.mask));
        lemma_u32_le_field(b, 4, x.mask);
    }

    /// The layout of the wire image: each field sits at its fixed offset of
    /// the kernel's structure, padding bytes are zero.
    pub proof fn lemma_layout(x: Mark)
        ensures
            x.spec_bytes().len() == XFRM_MARK_LEN,
            u32_le_at(x.spec_bytes(), 0) == x.value,
            u32_le_at(x.spec_bytes(), 4) == x.mask,
    {
        reveal(Mark::spec_bytes);
        let b = x.spec_bytes();
        assert(b.subrange(0, 4) =~= u32_le_bytes(x.value));
        lemma_u32_le_field(b, 0, x.value);
        assert(b.subrange(4, 8) =~= u32_le_bytes(x.mask));
        lemma_u32_le_field(b, 4, x.mask);

    }

    /// What decoding reads: each field from its fixed offset of `b`.
    pub proof fn lemma_decode_layout(x: Mark, b: Seq<u8>)
        requires
            XFRM_MARK_LEN <= b.len(),
            x.decodes(b),
        ensures
            x.value == u32_le_at(b, 0),
            x.mask == u32_le_at(b, 4),
    {
        reveal(Mark::decodes);
    }

    /// Encoding a value decoded from `b` gives back the first `XFRM_MARK_LEN`
    /// bytes of `b`, with the padding bytes set to zero.
    pub proof fn lemma_reencode(x: Mark, b: Seq<u8>)
        requires
            XFRM_MARK_LEN <= b.len(),
            x.decodes(b),
        ensures
            x.spec_bytes() == Mark::canonical(b),
    {
        reveal(Mark::spec_bytes);
        reveal(Mark::decodes);
        reveal(Mark::canonical);
        lemma_u32_le_bytes_of(b, 0);
        lemma_u32_le_bytes_of(b, 4);
    }

    /// Only the first `XFRM_MARK_LEN` bytes of `b` matter to what it decodes to.
    pub proof fn lemma_decodes_prefix(x: Mark, b: Seq<u8>)
        requires
            XFRM_MARK_LEN <= b.len(),
        ensures
            x.decodes(b) == x.decodes(b.subrange(0, XFRM_MARK_LEN as int)),
    {
        reveal(Mark::decodes);
        let p = b.subrange(0, XFRM_MARK_LEN as int);
        assert(forall|i: int| 0 <= i < XFRM_MARK_LEN ==> #[trigger] p[i] == b[i]);
    }

    /// At most one value decodes from given bytes.
    pub proof fn lemma_decodes_unique(x: Mark, y: Mark, b: Seq<u8>)
        requires
            XFRM_MARK_LEN <= b.len(),
            x.decodes(b),
            y.decodes(b),
        ensures
            x == y,
    {
        reveal(Mark::decodes);

    }
}

/// The wire image of a `Mark`, as laid out in the kernel's structure.
pub struct MarkBuffer {
    bytes: Vec<u8>,
}

impl View for MarkBuffer {
    type V = Seq<u8>;

    closed spec fn view(&self) -> Seq<u8> {
        self.bytes@
    }
}

impl MarkBuffer {
    /// Lays out `value` in its wire image.
    pub fn from(value: &Mark) -> (r: MarkBuffer)
        ensures
            r@ == value.spec_bytes(),
    {
        let mut bytes: Vec<u8> = Vec::new();
        value.write_to(&mut bytes);
        assert(bytes@ =~= value.spec_bytes());
        MarkBuffer { bytes }
    }

    /// The bytes of the image.
    pub fn as_bytes(&self) -> (r: &[u8])
        ensures
            r@ == self@,
    {
        self.bytes.as_slice()
    }
}

} // verus!
