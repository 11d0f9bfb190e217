//! The `xfrmu_sadhinfo` structure.

use vstd::prelude::*;
use crate::wire::{
    copy_prefix,
    lemma_u32_le_bytes_of,
    lemma_u32_le_field,
    push_u32_le,
    read_u32_le,
    u32_le_at,
    u32_le_bytes,
    ParseError,
};

verus! {

/// The hash table of the security association database.
#[derive(Debug, Clone, Copy, Eq, PartialEq)]
pub struct SadHInfo {
    pub sadhcnt: u32,
    pub sadhmcnt: u32,
}

pub const XFRM_SAD_HINFO_LEN: usize = 8;

impl SadHInfo {
    /// The first `XFRM_SAD_HINFO_LEN` bytes of `b` with every padding byte set to zero.
    #[verifier::opaque]
    pub open spec fn canonical(b: Seq<u8>) -> Seq<u8> {
        b.subrange(0, 4)
            + b.subrange(4, 8)
    }

    /// The wire image: the fields in order, padding as zero bytes.
    #[verifier::opaque]
    pub open spec fn spec_bytes(&self) -> Seq<u8> {
        u32_le_bytes(self.sadhcnt)
            + u32_le_bytes(self.sadhmcnt)
    }

    /// `self` is what the first `XFRM_SAD_HINFO_LEN` bytes of `b` describe.
    #[verifier::opaque]
    pub open spec fn decodes(&self, b: Seq<u8>) -> bool {
        &&& self.sadhcnt == u32_le_at(b, 0)
        &&& self.sadhmcnt == u32_le_at(b, 4)
    }

    /// `self` holds the values that `default()` gives.
    pub open spec fn is_default(&self) -> bool {
        &&& self.sadhcnt == 0
        &&& self.sadhmcnt == 0
    }

    /// Decodes the first `XFRM_SAD_HINFO_LEN` bytes of `s`.
    pub fn decode(s: &[u8]) -> (r: SadHInfo)
        requires
            XFRM_SAD_HINFO_LEN <= s.len(),
        ensures
            r.decodes(s@),
    {
        proof {
            reveal(SadHInfo::decodes);
        }
        SadHInfo {
            sadhcnt: read_u32_le(s, 0),
            sadhmcnt: read_u32_le(s, 4),
        }
    }

    /// Decodes a `SadHInfo` from the start of `payload`; the bytes after the
    /// structure are ignored.
    pub fn parse(payload: &[u8]) -> (r: Result<SadHInfo, ParseError>)
        ensures
            payload.len() < XFRM_SAD_HINFO_LEN ==> r == Err::<SadHInfo, ParseError>(
                ParseError::BufferTooSmall { received: payload.len(), expected: XFRM_SAD_HINFO_LEN },
            ),
            XFRM_SAD_HINFO_LEN <= payload.len() ==> (r matches Ok(v) && v.decodes(payload@)),
    {
        if payload.len() < XFRM_SAD_HINFO_LEN {
            Err(ParseError::BufferTooSmall { received: payload.len(), expected: XFRM_SAD_HINFO_LEN })
        } else {
            Ok(SadHInfo::decode(payload))
        }
    }

    /// Appends the wire image to `out`.
    pub fn write_to(&self, out: &mut Vec<u8>)
        ensures
            final(out)@ == old(out)@ + self.spec_bytes(),
    {
        proof {
            reveal(SadHInfo::spec_bytes);
        }
        push_u32_le(out, self.sadhcnt);
        push_u32_le(out, self.sadhmcnt);
        assert(out@ =~= old(out)@ + self.spec_bytes());
    }

    /// The number of bytes `emit` writes.
    pub fn buffer_len(&self) -> (r: usize)
        ensures
            r == XFRM_SAD_HINFO_LEN,
            r == self.spec_bytes().len(),
    {
        proof {
            SadHInfo::lemma_roundtrip(*self);
        }
        XFRM_SAD_HINFO_LEN
    }

    /// Writes the wire image over the first `XFRM_SAD_HINFO_LEN` bytes of `buffer`.
    pub fn emit(&self, buffer: &mut [u8])
        requires
            XFRM_SAD_HINFO_LEN <= old(buffer)@.len(),
        ensures
            final(buffer)@ == self.spec_bytes() + old(buffer)@.subrange(
                XFRM_SAD_HINFO_LEN as int,
                old(buffer)@.len() as int,
            ),
    {
        let raw = SadHInfoBuffer::from(self);
        proof {
            SadHInfo::lemma_roundtrip(*self);
        }
        copy_prefix(buffer, raw.as_bytes());
    }
}

impl Default for SadHInfo {
    fn default() -> (r: SadHInfo)
        ensures
            r.is_default(),
    {
        SadHInfo {
            sadhcnt: 0,
            sadhmcnt: 0,
        }
    }
}

impl SadHInfo {
    /// Decoding the wire image of a `SadHInfo` gives back the same value,
    /// and the image is `XFRM_SAD_HINFO_LEN` bytes long.
    pub proof fn lemma_roundtrip(x: SadHInfo)
        ensures
            x.spec_bytes().len() == XFRM_SAD_HINFO_LEN,
            x.decodes(x.spec_bytes()),
    {
        reveal(SadHInfo::spec_bytes);
        reveal(SadHInfo::decodes);
        let b = x.spec_bytes();
        assert(b.subrange(0, 4) =~= u32_le_bytes(x.sadhcnt));
        lemma_u32_le_field(b, 0, x.sadhcnt);
        assert(b.subrange(4, 8) =~= u32_le_bytes(x.sadhmcnt));
        lemma_u32_le_field(b, 4, x.sadhmcnt);
    }

    /// The layout of the wire image: each field sits at its fixed offset of
    /// the kernel's structure, padding bytes are zero.
    pub proof fn lemma_layout(x: SadHInfo)
        ensures
            x.spec_bytes().len() == XFRM_SAD_HINFO_LEN,
            u32_le_at(x.spec_bytes(), 0) == x.sadhcnt,
            u32_le_at(x.spec_bytes(), 4) == x.sadhmcnt,
    {
        reveal(SadHInfo::spec_bytes);
        let b = x.spec_bytes();
        assert(b.subrange(0, 4) =~= u32_le_bytes(x.sadhcnt));
        lemma_u32_le_field(b, 0, x.sadhcnt);
        assert(b.subrange(4, 8) =~= u32_le_bytes(x.sadhmcnt));
        lemma_u32_le_field(b, 4, x.sadhmcnt);

    }

    /// What decoding reads: each field from its fixed offset of `b`.
    pub proof fn lemma_decode_layout(x: SadHInfo, b: Seq<u8>)
        requires
            XFRM_SAD_HINFO_LEN <= b.len(),
            x.decodes(b),
        ensures
            x.sadhcnt == u32_le_at(b, 0),
            x.sadhmcnt == u32_le_at(b, 4),
    {
        reveal(SadHInfo::decodes);
    }

    /// Encoding a value decoded from `b` gives back the first `XFRM_SAD_HINFO_LEN`
    /// bytes of `b`, with the padding bytes set to zero.
    pub proof fn lemma_reencode(x: SadHInfo, b: Seq<u8>)
        requires
            XFRM_SAD_HINFO_LEN <= b.len(),
            x.decodes(b),
        ensures
            x.spec_bytes() == SadHInfo::canonical(b),
    {
        reveal(SadHInfo::spec_bytes);
        reveal(SadHInfo::decodes);
        reveal(SadHInfo::canonical);
        lemma_u32_le_bytes_of(b, 0);
        lemma_u32_le_bytes_of(b, 4);
    }

    /// Only the first `XFRM_SAD_HINFO_LEN` bytes of `b` matter to what it decodes to.
    pub proof fn lemma_decodes_prefix(x: SadHInfo, b: Seq<u8>)
        requires
            XFRM_SAD_HINFO_LEN <= b.len(),
        ensures
            x.decodes(b) == x.decodes(b.subrange(0, XFRM_SAD_HINFO_LEN as int)),
    {
        reveal(SadHInfo::decodes);
        let p = b.subrange(0, XFRM_SAD_HINFO_LEN as int);
        assert(forall|i: int| 0 <= i < XFRM_SAD_HINFO_LEN ==> #[trigger] p[i] == b[i]);
    }

    /// At most one value decodes from given bytes.
    pub proof fn lemma_decodes_unique(x: SadHInfo, y: SadHInfo, b: Seq<u8>)
        requires
            XFRM_SAD_HINFO_LEN <= b.len(),
            x.decodes(b),
            y.decodes(b),
        ensures
            x == y,
    {
        reveal(SadHInfo::decodes);

    }
}

/// The wire image of a `SadHInfo`, as laid out in the kernel's structure.
pub struct SadHInfoBuffer {
    bytes: Vec<u8>,
}

impl View for SadHInfoBuffer {
    type V = Seq<u8>;

    closed spec fn view(&self) -> Seq<u8> {
        self.bytes@
    }
}

impl SadHInfoBuffer {
    /// Lays out `value` in its wire image.
    pub fn from(value: &SadHInfo) -> (r: SadHInfoBuffer)
        ensures
            r@ == value.spec_bytes(),
    {
        let mut bytes: Vec<u8> = Vec::new();
        value.write_to(&mut bytes);
        assert(bytes@ =~= value.spec_bytes());
        SadHInfoBuffer { bytes }
    }

    /// The bytes of the image.
    pub fn as_bytes(&self) -> (r: &[u8])
        ensures
            r@ == self@,
    {
        self.bytes.as_slice()
    }
}

} // verus!
