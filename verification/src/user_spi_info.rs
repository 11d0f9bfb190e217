//! The `xfrm_userspi_info` structure.

use vstd::prelude::*;
use vstd::slice::slice_subrange;
use crate::wire::{
    copy_prefix,
    lemma_u32_le_bytes_of,
    lemma_u32_le_field,
    push_u32_le,
    read_u32_le,
    u32_le_at,
    u32_le_bytes,
    ParseError,
};
use crate::user_sa_info::{UserSaInfo};
use crate::constants::IPPROTO_COMP;
use crate::id::Id;

verus! {

/// A request for an SPI from a range.
#[derive(Debug, Clone, Copy, Eq, PartialEq)]
pub struct UserSpiInfo {
    pub info: UserSaInfo,
    pub min: u32,
    pub max: u32,
}

pub const XFRM_USER_SPI_INFO_LEN: usize = 232;

impl UserSpiInfo {
    /// The first `XFRM_USER_SPI_INFO_LEN` bytes of `b` with every padding byte set to zero.
    #[verifier::opaque]
    pub open spec fn canonical(b: Seq<u8>) -> Seq<u8> {
        UserSaInfo::canonical(b.subrange(0, 224))
            + b.subrange(224, 228)
            + b.subrange(228, 232)
    }

    /// The wire image: the fields in order, padding as zero bytes.
    #[verifier::opaque]
    pub open spec fn spec_bytes(&self) -> Seq<u8> {
        self.info.spec_bytes()
            + u32_le_bytes(self.min)
            + u32_le_bytes(self.max)
    }

    /// `self` is what the first `XFRM_USER_SPI_INFO_LEN` bytes of `b` describe.
    #[verifier::opaque]
    pub open spec fn decodes(&self, b: Seq<u8>) -> bool {
        &&& self.info.decodes(b.subrange(0, 224))
        &&& self.min == u32_le_at(b, 224)
        &&& self.max == u32_le_at(b, 228)
    }

    /// `self` holds the values that `default()` gives.
    pub open spec fn is_default(&self) -> bool {
        &&& self.info.is_default()
        &&& self.min == 0x100
        &&& self.max == 0x0fffffff
    }

    /// Decodes the first `XFRM_USER_SPI_INFO_LEN` bytes of `s`.
    pub fn decode(s: &[u8]) -> (r: UserSpiInfo)
        requires
            XFRM_USER_SPI_INFO_LEN <= s.len(),
        ensures
            r.decodes(s@),
    {
        proof {
            reveal(UserSpiInfo::decodes);
        }
        UserSpiInfo {
            info: UserSaInfo::decode(slice_subrange(s, 0, 224)),
            min: read_u32_le(s, 224),
            max: read_u32_le(s, 228),
        }
    }

    /// Decodes a `UserSpiInfo` from the start of `payload`; the bytes after the
    /// structure are ignored.
    pub fn parse(payload: &[u8]) -> (r: Result<UserSpiInfo, ParseError>)
        ensures
            payload.len() < XFRM_USER_SPI_INFO_LEN ==> r == Err::<UserSpiInfo, ParseError>(
                ParseError::BufferTooSmall { received: payload.len(), expected: XFRM_USER_SPI_INFO_LEN },
            ),
            XFRM_USER_SPI_INFO_LEN <= payload.len() ==> (r matches Ok(v) && v.decodes(payload@)),
    {
        if payload.len() < XFRM_USER_SPI_INFO_LEN {
            Err(ParseError::BufferTooSmall { received: payload.len(), expected: XFRM_USER_SPI_INFO_LEN })
        } else {
            Ok(UserSpiInfo::decode(payload))
        }
    }

    /// Appends the wire image to `out`.
    pub fn write_to(&self, out: &mut Vec<u8>)
        ensures
            final(out)@ == old(out)@ + self.spec_bytes(),
    {
        proof {
            reveal(UserSpiInfo::spec_bytes);
        }
        self.info.write_to(out);
        push_u32_le(out, self.min);
        push_u32_le(out, self.max);
        assert(out@ =~= old(out)@ + self.spec_bytes());
    }

    /// The number of bytes `emit` writes.
    pub fn buffer_len(&self) -> (r: usize)
        ensures
            r == XFRM_USER_SPI_INFO_LEN,
            r == self.spec_bytes().len(),
    {
        proof {
            UserSpiInfo::lemma_roundtrip(*self);
        }
        XFRM_USER_SPI_INFO_LEN
    }

    /// Writes the wire image over the first `XFRM_USER_SPI_INFO_LEN` bytes of `buffer`.
    pub fn emit(&self, buffer: &mut [u8])
        requires
            XFRM_USER_SPI_INFO_LEN <= old(buffer)@.len(),
        ensures
            final(buffer)@ == self.spec_bytes() + old(buffer)@.subrange(
                XFRM_USER_SPI_INFO_LEN as int,
                old(buffer)@.len() as int,
            ),
    {
        let raw = UserSpiInfoBuffer::from(self);
        proof {
            UserSpiInfo::lemma_roundtrip(*self);
        }
        copy_prefix(buffer, raw.as_bytes());
    }
}

impl Default for UserSpiInfo {
    fn default() -> (r: UserSpiInfo)
        ensures
            r.is_default(),
    {
        UserSpiInfo {
            info: UserSaInfo::default(),
            min: 0x100,
            max: 0x0fffffff,
        }
    }
}

impl UserSpiInfo {
    /// Decoding the wire image of a `UserSpiInfo` gives back the same value,
    /// and the image is `XFRM_USER_SPI_INFO_LEN` bytes long.
    pub proof fn lemma_roundtrip(x: UserSpiInfo)
        ensures
            x.spec_bytes().len() == XFRM_USER_SPI_INFO_LEN,
            x.decodes(x.spec_bytes()),
    {
        reveal(UserSpiInfo::spec_bytes);
        reveal(UserSpiInfo::decodes);
        let b = x.spec_bytes();
        UserSaInfo::lemma_roundtrip(x.info);
        assert(b.subrange(0, 224) =~= x.info.spec_bytes());
        assert(b.subrange(224, 228) =~= u32_le_bytes(x.min));
        lemma_u32_le_field(b, 224, x.min);
        assert(b.subrange(228, 232) =~= u32_le_bytes(x.max));
        lemma_u32_le_field(b, 228, x.max);
    }

    /// The layout of the wire image: each field sits at its fixed offset of
    /// the kernel's structure, padding bytes are zero.
    pub proof fn lemma_layout(x: UserSpiInfo)
        ensures
            x.spec_bytes().len() == XFRM_USER_SPI_INFO_LEN,
            x.spec_bytes().subrange(0, 224) == x.info.spec_bytes(),
            u32_le_at(x.spec_bytes(), 224) == x.min,
            u32_le_at(x.spec_bytes(), 228) == x.max,
    {
        reveal(UserSpiInfo::spec_bytes);
        let b = x.spec_bytes();
        UserSaInfo::lemma_roundtrip(x.info);
        assert(b.subrange(0, 224) =~= x.info.spec_bytes());
        assert(b.subrange(224, 228) =~= u32_le_bytes(x.min));
        lemma_u32_le_field(b, 224, x.min);
        assert(b.subrange(228, 232) =~= u32_le_bytes(x.max));
        lemma_u32_le_field(b, 228, x.max);

    }

    /// What decoding reads: each field from its fixed offset of `b`.
    pub proof fn lemma_decode_layout(x: UserSpiInfo, b: Seq<u8>)
        requires
            XFRM_USER_SPI_INFO_LEN <= b.len(),
            x.decodes(b),
        ensures
            x.info.decodes(b.subrange(0, 224)),
            x.min == u32_le_at(b, 224),
            x.max == u32_le_at(b, 228),
    {
        reveal(UserSpiInfo::decodes);
    }

    /// Encoding a value decoded from `b` gives back the first `XFRM_USER_SPI_INFO_LEN`
    /// bytes of `b`, with the padding bytes set to zero.
    pub proof fn lemma_reencode(x: UserSpiInfo, b: Seq<u8>)
        requires
            XFRM_USER_SPI_INFO_LEN <= b.len(),
            x.decodes(b),
        ensures
            x.spec_bytes() == UserSpiInfo::canonical(b),
    {
        reveal(UserSpiInfo::spec_bytes);
        reveal(UserSpiInfo::decodes);
        reveal(UserSpiInfo::canonical);
        UserSaInfo::lemma_reencode(x.info, b.subrange(0, 224));
        lemma_u32_le_bytes_of(b, 224);
        lemma_u32_le_bytes_of(b, 228);
    }

    /// Only the first `XFRM_USER_SPI_INFO_LEN` bytes of `b` matter to what it decodes to.
    pub proof fn lemma_decodes_prefix(x: UserSpiInfo, b: Seq<u8>)
        requires
            XFRM_USER_SPI_INFO_LEN <= b.len(),
        ensures
            x.decodes(b) == x.decodes(b.subrange(0, XFRM_USER_SPI_INFO_LEN as int)),
    {
        reveal(UserSpiInfo::decodes);
        let p = b.subrange(0, XFRM_USER_SPI_INFO_LEN as int);
        assert(forall|i: int| 0 <= i < XFRM_USER_SPI_INFO_LEN ==> #[trigger] p[i] == b[i]);
        assert(p.subrange(0, 224) =~= b.subrange(0, 224));
    }

    /// At most one value decodes from given bytes.
    pub proof fn lemma_decodes_unique(x: UserSpiInfo, y: UserSpiInfo, b: Seq<u8>)
        requires
            XFRM_USER_SPI_INFO_LEN <= b.len(),
            x.decodes(b),
            y.decodes(b),
        ensures
            x == y,
    {
        reveal(UserSpiInfo::decodes);
        UserSaInfo::lemma_decodes_unique(x.info, y.info, b.subrange(0, 224));
    }
}

/// The wire image of a `UserSpiInfo`, as laid out in the kernel's structure.
pub struct UserSpiInfoBuffer {
    bytes: Vec<u8>,
}

impl View for UserSpiInfoBuffer {
    type V = Seq<u8>;

    closed spec fn view(&self) -> Seq<u8> {
        self.bytes@
    }
}

impl UserSpiInfoBuffer {
    /// Lays out `value` in its wire image.
    pub fn from(value: &UserSpiInfo) -> (r: UserSpiInfoBuffer)
        ensures
            r@ == value.spec_bytes(),
    {
        let mut bytes: Vec<u8> = Vec::new();
        value.write_to(&mut bytes);
        assert(bytes@ =~= value.spec_bytes());
        UserSpiInfoBuffer { bytes }
    }

    /// The bytes of the image.
    pub fn as_bytes(&self) -> (r: &[u8])
        ensures
            r@ == self@,
    {
        self.bytes.as_slice()
    }
}

impl UserSpiInfo {
    /// Sets the protocol of the requested state. An IPComp SPI is 16 bits
    /// wide, so for `IPPROTO_COMP` the upper end of the range is capped at
    /// `0xffff`.
    pub fn protocol(&mut self, protocol: u8)
        ensures
            *final(self) == (UserSpiInfo {
                info: UserSaInfo {
                    id: Id { proto: protocol, ..old(self).info.id },
                    ..old(self).info
                },
                max: if protocol == IPPROTO_COMP && old(self).max > 0xffff {
                    0xffffu32
                } else {
                    old(self).max
                },
                ..*old(self)
            }),
    {
        self.info.id.proto = protocol;
        // IPPROTO_COMP spi is 16-bit
        if (protocol == IPPROTO_COMP) && (self.max > 0xffff) {
            self.max = 0xffff;
        }
    }

    /// Sets the range the SPI is taken from; for `IPPROTO_COMP` the upper
    /// end is capped at `0xffff`.
    pub fn spi_range(&mut self, spi_min: u32, spi_max: u32)
        ensures
            *final(self) == (UserSpiInfo {
                min: spi_min,
                max: if old(self).info.id.proto == IPPROTO_COMP && spi_max > 0xffff {
                    0xffffu32
                } else {
                    spi_max
                },
                ..*old(self)
            }),
    {
        self.min = spi_min;
        if (self.info.id.proto == IPPROTO_COMP) && (spi_max > 0xffff) {
            self.max = 0xffff;
        } else {
            self.max = spi_max;
        }
    }
}

} // verus!
