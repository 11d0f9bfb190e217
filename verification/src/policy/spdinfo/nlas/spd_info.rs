//! The `xfrmu_spdinfo`, `xfrmu_spdhinfo` and `xfrmu_spdhthresh` structures.

use vstd::prelude::*;
use crate::wire::{
    copy_prefix,
    lemma_u32_le_bytes_of,
    lemma_u32_le_field,
    lemma_u8_bytes_of,
    lemma_u8_field,
    push_u32_le,
    read_u32_le,
    u32_le_at,
    u32_le_bytes,
    ParseError,
};

verus! {

/// The policy counts of the security policy database.
#[derive(Debug, Clone, Copy, Eq, PartialEq)]
pub struct SpdInfo {
    pub incnt: u32,
    pub outcnt: u32,
    pub fwdcnt: u32,
    pub inscnt: u32,
    pub outscnt: u32,
    pub fwdscnt: u32,
}

pub const XFRM_SPD_INFO_LEN: usize = 24;

impl SpdInfo {
    /// The first `XFRM_SPD_INFO_LEN` bytes of `b` with every padding byte set to zero.
    #[verifier::opaque]
    pub open spec fn canonical(b: Seq<u8>) -> Seq<u8> {
        b.subrange(0, 4)
            + b.subrange(4, 8)
            + b.subrange(8, 12)
            + b.subrange(12, 16)
            + b.subrange(16, 20)
            + b.subrange(20, 24)
    }

    /// The wire image: the fields in order, padding as zero bytes.
    #[verifier::opaque]
    pub open spec fn spec_bytes(&self) -> Seq<u8> {
        u32_le_bytes(self.incnt)
            + u32_le_bytes(self.outcnt)
            + u32_le_bytes(self.fwdcnt)
            + u32_le_bytes(self.inscnt)
            + u32_le_bytes(self.outscnt)
            + u32_le_bytes(self.fwdscnt)
    }

    /// `self` is what the first `XFRM_SPD_INFO_LEN` bytes of `b` describe.
    #[verifier::opaque]
    pub open spec fn decodes(&self, b: Seq<u8>) -> bool {
        &&& self.incnt == u32_le_at(b, 0)
        &&& self.outcnt == u32_le_at(b, 4)
        &&& self.fwdcnt == u32_le_at(b, 8)
        &&& self.inscnt == u32_le_at(b, 12)
        &&& self.outscnt == u32_le_at(b, 16)
        &&& self.fwdscnt == u32_le_at(b, 20)
    }

    /// `self` holds the values that `default()` gives.
    pub open spec fn is_default(&self) -> bool {
        &&& self.incnt == 0
        &&& self.outcnt == 0
        &&& self.fwdcnt == 0
        &&& self.inscnt == 0
        &&& self.outscnt == 0
        &&& self.fwdscnt == 0
    }

    /// Decodes the first `XFRM_SPD_INFO_LEN` bytes of `s`.
    pub fn decode(s: &[u8]) -> (r: SpdInfo)
        requires
            XFRM_SPD_INFO_LEN <= s.len(),
        ensures
            r.decodes(s@),
    {
        proof {
            reveal(SpdInfo::decodes);
        }
        SpdInfo {
            incnt: read_u32_le(s, 0),
            outcnt: read_u32_le(s, 4),
            fwdcnt: read_u32_le(s, 8),
            inscnt: read_u32_le(s, 12),
            outscnt: read_u32_le(s, 16),
            fwdscnt: read_u32_le(s, 20),
        }
    }

    /// Decodes a `SpdInfo` from the start of `payload`; the bytes after the
    /// structure are ignored.
    pub fn parse(payload: &[u8]) -> (r: Result<SpdInfo, ParseError>)
        ensures
            payload.len() < XFRM_SPD_INFO_LEN ==> r == Err::<SpdInfo, ParseError>(
                ParseError::BufferTooSmall { received: payload.len(), expected: XFRM_SPD_INFO_LEN },
            ),
            XFRM_SPD_INFO_LEN <= payload.len() ==> (r matches Ok(v) && v.decodes(payload@)),
    {
        if payload.len() < XFRM_SPD_INFO_LEN {
            Err(ParseError::BufferTooSmall { received: payload.len(), expected: XFRM_SPD_INFO_LEN })
        } else {
            Ok(SpdInfo::decode(payload))
        }
    }

    /// Appends the wire image to `out`.
    pub fn write_to(&self, out: &mut Vec<u8>)
        ensures
            final(out)@ == old(out)@ + self.spec_bytes(),
    {
        proof {
            reveal(SpdInfo::spec_bytes);
        }
        push_u32_le(out, self.incnt);
        push_u32_le(out, self.outcnt);
        push_u32_le(out, self.fwdcnt);
        push_u32_le(out, self.inscnt);
        push_u32_le(out, self.outscnt);
        push_u32_le(out, self.fwdscnt);
        assert(out@ =~= old(out)@ + self.spec_bytes());
    }

    /// The number of bytes `emit` writes.
    pub fn buffer_len(&self) -> (r: usize)
        ensures
            r == XFRM_SPD_INFO_LEN,
            r == self.spec_bytes().len(),
    {
        proof {
            SpdInfo::lemma_roundtrip(*self);
        }
        XFRM_SPD_INFO_LEN
    }

    /// Writes the wire image over the first `XFRM_SPD_INFO_LEN` bytes of `buffer`.
    pub fn emit(&self, buffer: &mut [u8])
        requires
            XFRM_SPD_INFO_LEN <= old(buffer)@.len(),
        ensures
            final(buffer)@ == self.spec_bytes() + old(buffer)@.subrange(
                XFRM_SPD_INFO_LEN as int,
                old(buffer)@.len() as int,
            ),
    {
        let raw = SpdInfoBuffer::from(self);
        proof {
            SpdInfo::lemma_roundtrip(*self);
        }
        copy_prefix(buffer, raw.as_bytes());
    }
}

impl Default for SpdInfo {
    fn default() -> (r: SpdInfo)
        ensures
            r.is_default(),
    {
        SpdInfo {
            incnt: 0,
            outcnt: 0,
            fwdcnt: 0,
            inscnt: 0,
            outscnt: 0,
            fwdscnt: 0,
        }
    }
}

impl SpdInfo {
    /// Decoding the wire image of a `SpdInfo` gives back the same value,
    /// and the image is `XFRM_SPD_INFO_LEN` bytes long.
    pub proof fn lemma_roundtrip(x: SpdInfo)
        ensures
            x.spec_bytes().len() == XFRM_SPD_INFO_LEN,
            x.decodes(x.spec_bytes()),
    {
        reveal(SpdInfo::spec_bytes);
        reveal(SpdInfo::decodes);
        let b = x.spec_bytes();
        assert(b.subrange(0, 4) =~= u32_le_bytes(x.incnt));
        lemma_u32_le_field(b, 0, x.incnt);
        assert(b.subrange(4, 8) =~= u32_le_bytes(x.outcnt));
        lemma_u32_le_field(b, 4, x.outcnt);
        assert(b.subrange(8, 12) =~= u32_le_bytes(x.fwdcnt));
        lemma_u32_le_field(b, 8, x.fwdcnt);
        assert(b.subrange(12, 16) =~= u32_le_bytes(x.inscnt));
        lemma_u32_le_field(b, 12, x.inscnt);
        assert(b.subrange(16, 20) =~= u32_le_bytes(x.outscnt));
        lemma_u32_le_field(b, 16, x.outscnt);
        assert(b.subrange(20, 24) =~= u32_le_bytes(x.fwdscnt));
        lemma_u32_le_field(b, 20, x.fwdscnt);
    }

    /// The layout of the wire image: each field sits at its fixed offset of
    /// the kernel's structure, padding bytes are zero.
    pub proof fn lemma_layout(x: SpdInfo)
        ensures
            x.spec_bytes().len() == XFRM_SPD_INFO_LEN,
            u32_le_at(x.spec_bytes(), 0) == x.incnt,
            u32_le_at(x.spec_bytes(), 4) == x.outcnt,
            u32_le_at(x.spec_bytes(), 8) == x.fwdcnt,
            u32_le_at(x.spec_bytes(), 12) == x.inscnt,
            u32_le_at(x.spec_bytes(), 16) == x.outscnt,
            u32_le_at(x.spec_bytes(), 20) == x.fwdscnt,
    {
        reveal(SpdInfo::spec_bytes);
        let b = x.spec_bytes();
        assert(b.subrange(0, 4) =~= u32_le_bytes(x.incnt));
        lemma_u32_le_field(b, 0, x.incnt);
        assert(b.subrange(4, 8) =~= u32_le_bytes(x.outcnt));
        lemma_u32_le_field(b, 4, x.outcnt);
        assert(b.subrange(8, 12) =~= u32_le_bytes(x.fwdcnt));
        lemma_u32_le_field(b, 8, x.fwdcnt);
        assert(b.subrange(12, 16) =~= u32_le_bytes(x.inscnt));
        lemma_u32_le_field(b, 12, x.inscnt);
        assert(b.subrange(16, 20) =~= u32_le_bytes(x.outscnt));
        lemma_u32_le_field(b, 16, x.outscnt);
        assert(b.subrange(20, 24) =~= u32_le_bytes(x.fwdscnt));
        lemma_u32_le_field(b, 20, x.fwdscnt);

    }

    /// What decoding reads: each field from its fixed offset of `b`.
    pub proof fn lemma_decode_layout(x: SpdInfo, b: Seq<u8>)
        requires
            XFRM_SPD_INFO_LEN <= b.len(),
            x.decodes(b),
        ensures
            x.incnt == u32_le_at(b, 0),
            x.outcnt == u32_le_at(b, 4),
            x.fwdcnt == u32_le_at(b, 8),
            x.inscnt == u32_le_at(b, 12),
            x.outscnt == u32_le_at(b, 16),
            x.fwdscnt == u32_le_at(b, 20),
    {
        reveal(SpdInfo::decodes);
    }

    /// Encoding a value decoded from `b` gives back the first `XFRM_SPD_INFO_LEN`
    /// bytes of `b`, with the padding bytes set to zero.
    pub proof fn lemma_reencode(x: SpdInfo, b: Seq<u8>)
        requires
            XFRM_SPD_INFO_LEN <= b.len(),
            x.decodes(b),
        ensures
            x.spec_bytes() == SpdInfo::canonical(b),
    {
        reveal(SpdInfo::spec_bytes);
        reveal(SpdInfo::decodes);
        reveal(SpdInfo::canonical);
        lemma_u32_le_bytes_of(b, 0);
        lemma_u32_le_bytes_of(b, 4);
        lemma_u32_le_bytes_of(b, 8);
        lemma_u32_le_bytes_of(b, 12);
        lemma_u32_le_bytes_of(b, 16);
        lemma_u32_le_bytes_of(b, 20);
    }

    /// Only the first `XFRM_SPD_INFO_LEN` bytes of `b` matter to what it decodes to.
    pub proof fn lemma_decodes_prefix(x: SpdInfo, b: Seq<u8>)
        requires
            XFRM_SPD_INFO_LEN <= b.len(),
        ensures
            x.decodes(b) == x.decodes(b.subrange(0, XFRM_SPD_INFO_LEN as int)),
    {
        reveal(SpdInfo::decodes);
        let p = b.subrange(0, XFRM_SPD_INFO_LEN as int);
        assert(forall|i: int| 0 <= i < XFRM_SPD_INFO_LEN ==> #[trigger] p[i] == b[i]);
    }

    /// At most one value decodes from given bytes.
    pub proof fn lemma_decodes_unique(x: SpdInfo, y: SpdInfo, b: Seq<u8>)
        requires
            XFRM_SPD_INFO_LEN <= b.len(),
            x.decodes(b),
            y.decodes(b),
        ensures
            x == y,
    {
        reveal(SpdInfo::decodes);

    }
}

/// The wire image of a `SpdInfo`, as laid out in the kernel's structure.
pub struct SpdInfoBuffer {
    bytes: Vec<u8>,
}

impl View for SpdInfoBuffer {
    type V = Seq<u8>;

    closed spec fn view(&self) -> Seq<u8> {
        self.bytes@
    }
}

impl SpdInfoBuffer {
    /// Lays out `value` in its wire image.
    pub fn from(value: &SpdInfo) -> (r: SpdInfoBuffer)
        ensures
            r@ == value.spec_bytes(),
    {
        let mut bytes: Vec<u8> = Vec::new();
        value.write_to(&mut bytes);
        assert(bytes@ =~= value.spec_bytes());
        SpdInfoBuffer { bytes }
    }

    /// The bytes of the image.
    pub fn as_bytes(&self) -> (r: &[u8])
        ensures
            r@ == self@,
    {
        self.bytes.as_slice()
    }
}

/// The hash table of the security policy database.
#[derive(Debug, Clone, Copy, Eq, PartialEq)]
pub struct SpdHInfo {
    pub spdhcnt: u32,
    pub spdhmcnt: u32,
}

pub const XFRM_SPD_HINFO_LEN: usize = 8;

impl SpdHInfo {
    /// The first `XFRM_SPD_HINFO_LEN` bytes of `b` with every padding byte set to zero.
    #[verifier::opaque]
    pub open spec fn canonical(b: Seq<u8>) -> Seq<u8> {
        b.subrange(0, 4)
            + b.subrange(4, 8)
    }

    /// The wire image: the fields in order, padding as zero bytes.
    #[verifier::opaque]
    pub open spec fn spec_bytes(&self) -> Seq<u8> {
        u32_le_bytes(self.spdhcnt)
            + u32_le_bytes(self.spdhmcnt)
    }

    /// `self` is what the first `XFRM_SPD_HINFO_LEN` bytes of `b` describe.
    #[verifier::opaque]
    pub open spec fn decodes(&self, b: Seq<u8>) -> bool {
        &&& self.spdhcnt == u32_le_at(b, 0)
        &&& self.spdhmcnt == u32_le_at(b, 4)
    }

    /// `self` holds the values that `default()` gives.
    pub open spec fn is_default(&self) -> bool {
        &&& self.spdhcnt == 0
        &&& self.spdhmcnt == 0
    }

    /// Decodes the first `XFRM_SPD_HINFO_LEN` bytes of `s`.
    pub fn decode(s: &[u8]) -> (r: SpdHInfo)
        requires
            XFRM_SPD_HINFO_LEN <= s.len(),
        ensures
            r.decodes(s@),
    {
        proof {
            reveal(SpdHInfo::decodes);
        }
        SpdHInfo {
            spdhcnt: read_u32_le(s, 0),
            spdhmcnt: read_u32_le(s, 4),
        }
    }

    /// Decodes a `SpdHInfo` from the start of `payload`; the bytes after the
    /// structure are ignored.
    pub fn parse(payload: &[u8]) -> (r: Result<SpdHInfo, ParseError>)
        ensures
            payload.len() < XFRM_SPD_HINFO_LEN ==> r == Err::<SpdHInfo, ParseError>(
                ParseError::BufferTooSmall { received: payload.len(), expected: XFRM_SPD_HINFO_LEN },
            ),
            XFRM_SPD_HINFO_LEN <= payload.len() ==> (r matches Ok(v) && v.decodes(payload@)),
    {
        if payload.len() < XFRM_SPD_HINFO_LEN {
            Err(ParseError::BufferTooSmall { received: payload.len(), expected: XFRM_SPD_HINFO_LEN })
        } else {
            Ok(SpdHInfo::decode(payload))
        }
    }

    /// Appends the wire image to `out`.
    pub fn write_to(&self, out: &mut Vec<u8>)
        ensures
            final(out)@ == old(out)@ + self.spec_bytes(),
    {
        proof {
            reveal(SpdHInfo::spec_bytes);
        }
        push_u32_le(out, self.spdhcnt);
        push_u32_le(out, self.spdhmcnt);
        assert(out@ =~= old(out)@ + self.spec_bytes());
    }

    /// The number of bytes `emit` writes.
    pub fn buffer_len(&self) -> (r: usize)
        ensures
            r == XFRM_SPD_HINFO_LEN,
            r == self.spec_bytes().len(),
    {
        proof {
            SpdHInfo::lemma_roundtrip(*self);
        }
        XFRM_SPD_HINFO_LEN
    }

    /// Writes the wire image over the first `XFRM_SPD_HINFO_LEN` bytes of `buffer`.
    pub fn emit(&self, buffer: &mut [u8])
        requires
            XFRM_SPD_HINFO_LEN <= old(buffer)@.len(),
        ensures
            final(buffer)@ == self.spec_bytes() + old(buffer)@.subrange(
                XFRM_SPD_HINFO_LEN as int,
                old(buffer)@.len() as int,
            ),
    {
        let raw = SpdHInfoBuffer::from(self);
        proof {
            SpdHInfo::lemma_roundtrip(*self);
        }
        copy_prefix(buffer, raw.as_bytes());
    }
}

impl Default for SpdHInfo {
    fn default() -> (r: SpdHInfo)
        ensures
            r.is_default(),
    {
        SpdHInfo {
            spdhcnt: 0,
            spdhmcnt: 0,
        }
    }
}

impl SpdHInfo {
    /// Decoding the wire image of a `SpdHInfo` gives back the same value,
    /// and the image is `XFRM_SPD_HINFO_LEN` bytes long.
    pub proof fn lemma_roundtrip(x: SpdHInfo)
        ensures
            x.spec_bytes().len() == XFRM_SPD_HINFO_LEN,
            x.decodes(x.spec_bytes()),
    {
        reveal(SpdHInfo::spec_bytes);
        reveal(SpdHInfo::decodes);
        let b = x.spec_bytes();
        assert(b.subrange(0, 4) =~= u32_le_bytes(x.spdhcnt));
        lemma_u32_le_field(b, 0, x.spdhcnt);
        assert(b.subrange(4, 8) =~= u32_le_bytes(x.spdhmcnt));
        lemma_u32_le_field(b, 4, x.spdhmcnt);
    }

    /// The layout of the wire image: each field sits at its fixed offset of
    /// the kernel's structure, padding bytes are zero.
    pub proof fn lemma_layout(x: SpdHInfo)
        ensures
            x.spec_bytes().len() == XFRM_SPD_HINFO_LEN,
            u32_le_at(x.spec_bytes(), 0) == x.spdhcnt,
            u32_le_at(x.spec_bytes(), 4) == x.spdhmcnt,
    {
        reveal(SpdHInfo::spec_bytes);
        let b = x.spec_bytes();
        assert(b.subrange(0, 4) =~= u32_le_bytes(x.spdhcnt));
        lemma_u32_le_field(b, 0, x.spdhcnt);
        assert(b.subrange(4, 8) =~= u32_le_bytes(x.spdhmcnt));
        lemma_u32_le_field(b, 4, x.spdhmcnt);

    }

    /// What decoding reads: each field from its fixed offset of `b`.
    pub proof fn lemma_decode_layout(x: SpdHInfo, b: Seq<u8>)
        requires
            XFRM_SPD_HINFO_LEN <= b.len(),
            x.decodes(b),
        ensures
            x.spdhcnt == u32_le_at(b, 0),
            x.spdhmcnt == u32_le_at(b, 4),
    {
        reveal(SpdHInfo::decodes);
    }

    /// Encoding a value decoded from `b` gives back the first `XFRM_SPD_HINFO_LEN`
    /// bytes of `b`, with the padding bytes set to zero.
    pub proof fn lemma_reencode(x: SpdHInfo, b: Seq<u8>)
        requires
            XFRM_SPD_HINFO_LEN <= b.len(),
            x.decodes(b),
        ensures
            x.spec_bytes() == SpdHInfo::canonical(b),
    {
        reveal(SpdHInfo::spec_bytes);
        reveal(SpdHInfo::decodes);
        reveal(SpdHInfo::canonical);
        lemma_u32_le_bytes_of(b, 0);
        lemma_u32_le_bytes_of(b, 4);
    }

    /// Only the first `XFRM_SPD_HINFO_LEN` bytes of `b` matter to what it decodes to.
    pub proof fn lemma_decodes_prefix(x: SpdHInfo, b: Seq<u8>)
        requires
            XFRM_SPD_HINFO_LEN <= b.len(),
        ensures
            x.decodes(b) == x.decodes(b.subrange(0, XFRM_SPD_HINFO_LEN as int)),
    {
        reveal(SpdHInfo::decodes);
        let p = b.subrange(0, XFRM_SPD_HINFO_LEN as int);
        assert(forall|i: int| 0 <= i < XFRM_SPD_HINFO_LEN ==> #[trigger] p[i] == b[i]);
    }

    /// At most one value decodes from given bytes.
    pub proof fn lemma_decodes_unique(x: SpdHInfo, y: SpdHInfo, b: Seq<u8>)
        requires
            XFRM_SPD_HINFO_LEN <= b.len(),
            x.decodes(b),
            y.decodes(b),
        ensures
            x == y,
    {
        reveal(SpdHInfo::decodes);

    }
}

/// The wire image of a `SpdHInfo`, as laid out in the kernel's structure.
pub struct SpdHInfoBuffer {
    bytes: Vec<u8>,
}

impl View for SpdHInfoBuffer {
    type V = Seq<u8>;

    closed spec fn view(&self) -> Seq<u8> {
        self.bytes@
    }
}

impl SpdHInfoBuffer {
    /// Lays out `value` in its wire image.
    pub fn from(value: &SpdHInfo) -> (r: SpdHInfoBuffer)
        ensures
            r@ == value.spec_bytes(),
    {
        let mut bytes: Vec<u8> = Vec::new();
        value.write_to(&mut bytes);
        assert(bytes@ =~= value.spec_bytes());
        SpdHInfoBuffer { bytes }
    }

    /// The bytes of the image.
    pub fn as_bytes(&self) -> (r: &[u8])
        ensures
            r@ == self@,
    {
        self.bytes.as_slice()
    }
}

/// The prefix lengths from which policies are hashed.
#[derive(Debug, Clone, Copy, Eq, PartialEq)]
pub struct SpdHThresh {
    pub lbits: u8,
    pub rbits: u8,
}

pub const XFRM_SPD_HTHRESH_LEN: usize = 2;

impl SpdHThresh {
    /// The first `XFRM_SPD_HTHRESH_LEN` bytes of `b` with every padding byte set to zero.
    #[verifier::opaque]
    pub open spec fn canonical(b: Seq<u8>) -> Seq<u8> {
        b.subrange(0, 1)
            + b.subrange(1, 2)
    }

    /// The wire image: the fields in order, padding as zero bytes.
    #[verifier::opaque]
    pub open spec fn spec_bytes(&self) -> Seq<u8> {
        seq![self.lbits]
            + seq![self.rbits]
    }

    /// `self` is what the first `XFRM_SPD_HTHRESH_LEN` bytes of `b` describe.
    #[verifier::opaque]
    pub open spec fn decodes(&self, b: Seq<u8>) -> bool {
        &&& self.lbits == b[0]
        &&& self.rbits == b[1]
    }

    /// `self` holds the values that `default()` gives.
    pub open spec fn is_default(&self) -> bool {
        &&& self.lbits == 0
        &&& self.rbits == 0
    }

    /// Decodes the first `XFRM_SPD_HTHRESH_LEN` bytes of `s`.
    pub fn decode(s: &[u8]) -> (r: SpdHThresh)
        requires
            XFRM_SPD_HTHRESH_LEN <= s.len(),
        ensures
            r.decodes(s@),
    {
        proof {
            reveal(SpdHThresh::decodes);
        }
        SpdHThresh {
            lbits: s[0],
            rbits: s[1],
        }
    }

    /// Decodes a `SpdHThresh` from the start of `payload`; the bytes after the
    /// structure are ignored.
    pub fn parse(payload: &[u8]) -> (r: Result<SpdHThresh, ParseError>)
        ensures
            payload.len() < XFRM_SPD_HTHRESH_LEN ==> r == Err::<SpdHThresh, ParseError>(
                ParseError::BufferTooSmall { received: payload.len(), expected: XFRM_SPD_HTHRESH_LEN },
            ),
            XFRM_SPD_HTHRESH_LEN <= payload.len() ==> (r matches Ok(v) && v.decodes(payload@)),
    {
        if payload.len() < XFRM_SPD_HTHRESH_LEN {
            Err(ParseError::BufferTooSmall { received: payload.len(), expected: XFRM_SPD_HTHRESH_LEN })
        } else {
            Ok(SpdHThresh::decode(payload))
        }
    }

    /// Appends the wire image to `out`.
    pub fn write_to(&self, out: &mut Vec<u8>)
        ensures
            final(out)@ == old(out)@ + self.spec_bytes(),
    {
        proof {
            reveal(SpdHThresh::spec_bytes);
        }
        out.push(self.lbits);
        out.push(self.rbits);
        assert(out@ =~= old(out)@ + self.spec_bytes());
    }

    /// The number of bytes `emit` writes.
    pub fn buffer_len(&self) -> (r: usize)
        ensures
            r == XFRM_SPD_HTHRESH_LEN,
            r == self.spec_bytes().len(),
    {
        proof {
            SpdHThresh::lemma_roundtrip(*self);
        }
        XFRM_SPD_HTHRESH_LEN
    }

    /// Writes the wire image over the first `XFRM_SPD_HTHRESH_LEN` bytes of `buffer`.
    pub fn emit(&self, buffer: &mut [u8])
        requires
            XFRM_SPD_HTHRESH_LEN <= old(buffer)@.len(),
        ensures
            final(buffer)@ == self.spec_bytes() + old(buffer)@.subrange(
                XFRM_SPD_HTHRESH_LEN as int,
                old(buffer)@.len() as int,
            ),
    {
        let raw = SpdHThreshBuffer::from(self);
        proof {
            SpdHThresh::lemma_roundtrip(*self);
        }
        copy_prefix(buffer, raw.as_bytes());
    }
}

impl Default for SpdHThresh {
    fn default() -> (r: SpdHThresh)
        ensures
            r.is_default(),
    {
        SpdHThresh {
            lbits: 0,
            rbits: 0,
        }
    }
}

impl SpdHThresh {
    /// Decoding the wire image of a `SpdHThresh` gives back the same value,
    /// and the image is `XFRM_SPD_HTHRESH_LEN` bytes long.
    pub proof fn lemma_roundtrip(x: SpdHThresh)
        ensures
            x.spec_bytes().len() == XFRM_SPD_HTHRESH_LEN,
            x.decodes(x.spec_bytes()),
    {
        reveal(SpdHThresh::spec_bytes);
        reveal(SpdHThresh::decodes);
        let b = x.spec_bytes();
        assert(b.subrange(0, 1) =~= seq![x.lbits]);
        lemma_u8_field(b, 0, x.lbits);
        assert(b.subrange(1, 2) =~= seq![x.rbits]);
        lemma_u8_field(b, 1, x.rbits);
    }

    /// The layout of the wire image: each field sits at its fixed offset of
    /// the kernel's structure, padding bytes are zero.
    pub proof fn lemma_layout(x: SpdHThresh)
        ensures
            x.spec_bytes().len() == XFRM_SPD_HTHRESH_LEN,
            x.spec_bytes()[0] == x.lbits,
            x.spec_bytes()[1] == x.rbits,
    {
        reveal(SpdHThresh::spec_bytes);
        let b = x.spec_bytes();
        assert(b.subrange(0, 1) =~= seq![x.lbits]);
        lemma_u8_field(b, 0, x.lbits);
        assert(b.subrange(1, 2) =~= seq![x.rbits]);
        lemma_u8_field(b, 1, x.rbits);

    }

    /// What decoding reads: each field from its fixed offset of `b`.
    pub proof fn lemma_decode_layout(x: SpdHThresh, b: Seq<u8>)
        requires
            XFRM_SPD_HTHRESH_LEN <= b.len(),
            x.decodes(b),
        ensures
            x.lbits == b[0],
            x.rbits == b[1],
    {
        reveal(SpdHThresh::decodes);
    }

    /// Encoding a value decoded from `b` gives back the first `XFRM_SPD_HTHRESH_LEN`
    /// bytes of `b`, with the padding bytes set to zero.
    pub proof fn lemma_reencode(x: SpdHThresh, b: Seq<u8>)
        requires
            XFRM_SPD_HTHRESH_LEN <= b.len(),
            x.decodes(b),
        ensures
            x.spec_bytes() == SpdHThresh::canonical(b),
    {
        reveal(SpdHThresh::spec_bytes);
        reveal(SpdHThresh::decodes);
        reveal(SpdHThresh::canonical);
        lemma_u8_bytes_of(b, 0);
        lemma_u8_bytes_of(b, 1);
    }

    /// Only the first `XFRM_SPD_HTHRESH_LEN` bytes of `b` matter to what it decodes to.
    pub proof fn lemma_decodes_prefix(x: SpdHThresh, b: Seq<u8>)
        requires
            XFRM_SPD_HTHRESH_LEN <= b.len(),
        ensures
            x.decodes(b) == x.decodes(b.subrange(0, XFRM_SPD_HTHRESH_LEN as int)),
    {
        reveal(SpdHThresh::decodes);
        let p = b.subrange(0, XFRM_SPD_HTHRESH_LEN as int);
        assert(forall|i: int| 0 <= i < XFRM_SPD_HTHRESH_LEN ==> #[trigger] p[i] == b[i]);
    }

    /// At most one value decodes from given bytes.
    pub proof fn lemma_decodes_unique(x: SpdHThresh, y: SpdHThresh, b: Seq<u8>)
        requires
            XFRM_SPD_HTHRESH_LEN <= b.len(),
            x.decodes(b),
            y.decodes(b),
        ensures
            x == y,
    {
        reveal(SpdHThresh::decodes);

    }
}

/// The wire image of a `SpdHThresh`, as laid out in the kernel's structure.
pub struct SpdHThreshBuffer {
    bytes: Vec<u8>,
}

impl View for SpdHThreshBuffer {
    type V = Seq<u8>;

    closed spec fn view(&self) -> Seq<u8> {
        self.bytes@
    }
}

impl SpdHThreshBuffer {
    /// Lays out `value` in its wire image.
    pub fn from(value: &SpdHThresh) -> (r: SpdHThreshBuffer)
        ensures
            r@ == value.spec_bytes(),
    {
        let mut bytes: Vec<u8> = Vec::new();
        value.write_to(&mut bytes);
        assert(bytes@ =~= value.spec_bytes());
        SpdHThreshBuffer { bytes }
    }

    /// The bytes of the image.
    pub fn as_bytes(&self) -> (r: &[u8])
        ensures
            r@ == self@,
    {
        self.bytes.as_slice()
    }
}

} // verus!
