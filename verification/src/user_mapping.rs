//! The `xfrm_user_mapping` structure.

use vstd::prelude::*;
use vstd::slice::slice_subrange;
use crate::wire::{
    copy_prefix,
    lemma_u16_be_bytes_of,
    lemma_u16_be_field,
    lemma_u32_le_bytes_of,
    lemma_u32_le_field,
    push_u16_be,
    push_u32_le,
    read_u16_be,
    read_u32_le,
    u16_be_at,
    u16_be_bytes,
    u32_le_at,
    u32_le_bytes,
    ParseError,
};
use crate::address::{Address};
use crate::user_sa_id::{UserSaId};

verus! {

/// A change of the NAT mapping of a security association.
#[derive(Debug, Clone, Copy, Eq, PartialEq)]
pub struct UserMapping {
    pub id: UserSaId,
    pub reqid: u32,
    pub old_saddr: Address,
    pub new_saddr: Address,
    pub old_sport: u16, // big-endian on the wire
    pub new_sport: u16, // big-endian on the wire
}

pub const XFRM_USER_MAPPING_LEN: usize = 64;

impl UserMapping {
    /// The first `XFRM_USER_MAPPING_LEN` bytes of `b` with every padding byte set to zero.
    #[verifier::opaque]
    pub open spec fn canonical(b: Seq<u8>) -> Seq<u8> {
        UserSaId::canonical(b.subrange(0, 24))
            + b.subrange(24, 28)
            + Address::canonical(b.subrange(28, 44))
            + Address::canonical(b.subrange(44, 60))
            + b.subrange(60, 62)
            + b.subrange(62, 64)
    }

    /// The wire image: the fields in order, padding as zero bytes.
    #[verifier::opaque]
    pub open spec fn spec_bytes(&self) -> Seq<u8> {
        self.id.spec_bytes()
            + u32_le_bytes(self.reqid)
            + self.old_saddr.spec_bytes()
            + self.new_saddr.spec_bytes()
            + u16_be_bytes(self.old_sport)
            + u16_be_bytes(self.new_sport)
    }

    /// `self` is what the first `XFRM_USER_MAPPING_LEN` bytes of `b` describe.
    #[verifier::opaque]
    pub open spec fn decodes(&self, b: Seq<u8>) -> bool {
        &&& self.id.decodes(b.subrange(0, 24))
        &&& self.reqid == u32_le_at(b, 24)
        &&& self.old_saddr.decodes(b.subrange(28, 44))
        &&& self.new_saddr.decodes(b.subrange(44, 60))
        &&& self.old_sport == u16_be_at(b, 60)
        &&& self.new_sport == u16_be_at(b, 62)
    }

    /// `self` holds the values that `default()` gives.
    pub open spec fn is_default(&self) -> bool {
        &&& self.id.is_default()
        &&& self.reqid == 0
        &&& self.old_saddr.is_default()
        &&& self.new_saddr.is_default()
        &&& self.old_sport == 0
        &&& self.new_sport == 0
    }

    /// Decodes the first `XFRM_USER_MAPPING_LEN` bytes of `s`.
    pub fn decode(s: &[u8]) -> (r: UserMapping)
        requires
            XFRM_USER_MAPPING_LEN <= s.len(),
        ensures
            r.decodes(s@),
    {
        proof {
            reveal(UserMapping::decodes);
        }
        UserMapping {
            id: UserSaId::decode(slice_subrange(s, 0, 24)),
            reqid: read_u32_le(s, 24),
            old_saddr: Address::decode(slice_subrange(s, 28, 44)),
            new_saddr: Address::decode(slice_subrange(s, 44, 60)),
            old_sport: read_u16_be(s, 60),
            new_sport: read_u16_be(s, 62),
        }
    }

    /// Decodes a `UserMapping` from the start of `payload`; the bytes after the
    /// structure are ignored.
    pub fn parse(payload: &[u8]) -> (r: Result<UserMapping, ParseError>)
        ensures
            payload.len() < XFRM_USER_MAPPING_LEN ==> r == Err::<UserMapping, ParseError>(
                ParseError::BufferTooSmall { received: payload.len(), expected: XFRM_USER_MAPPING_LEN },
            ),
            XFRM_USER_MAPPING_LEN <= payload.len() ==> (r matches Ok(v) && v.decodes(payload@)),
    {
        if payload.len() < XFRM_USER_MAPPING_LEN {
            Err(ParseError::BufferTooSmall { received: payload.len(), expected: XFRM_USER_MAPPING_LEN })
        } else {
            Ok(UserMapping::decode(payload))
        }
    }

    /// Appends the wire image to `out`.
    pub fn write_to(&self, out: &mut Vec<u8>)
        ensures
            final(out)@ == old(out)@ + self.spec_bytes(),
    {
        proof {
            reveal(UserMapping::spec_bytes);
        }
        self.id.write_to(out);
        push_u32_le(out, self.reqid);
        self.old_saddr.write_to(out);
        self.new_saddr.write_to(out);
        push_u16_be(out, self.old_sport);
        push_u16_be(out, self.new_sport);
        assert(out@ =~= old(out)@ + self.spec_bytes());
    }

    /// The number of bytes `emit` writes.
    pub fn buffer_len(&self) -> (r: usize)
        ensures
            r == XFRM_USER_MAPPING_LEN,
            r == self.spec_bytes().len(),
    {
        proof {
            UserMapping::lemma_roundtrip(*self);
        }
        XFRM_USER_MAPPING_LEN
    }

    /// Writes the wire image over the first `XFRM_USER_MAPPING_LEN` bytes of `buffer`.
    pub fn emit(&self, buffer: &mut [u8])
        requires
            XFRM_USER_MAPPING_LEN <= old(buffer)@.len(),
        ensures
            final(buffer)@ == self.spec_bytes() + old(buffer)@.subrange(
                XFRM_USER_MAPPING_LEN as int,
                old(buffer)@.len() as int,
            ),
    {
        let raw = UserMappingBuffer::from(self);
        proof {
            UserMapping::lemma_roundtrip(*self);
        }
        copy_prefix(buffer, raw.as_bytes());
    }
}

impl Default for UserMapping {
    fn default() -> (r: UserMapping)
        ensures
            r.is_default(),
    {
        UserMapping {
            id: UserSaId::default(),
            reqid: 0,
            old_saddr: Address::default(),
            new_saddr: Address::default(),
            old_sport: 0,
            new_sport: 0,
        }
    }
}

impl UserMapping {
    /// Decoding the wire image of a `UserMapping` gives back the same value,
    /// and the image is `XFRM_USER_MAPPING_LEN` bytes long.
    pub proof fn lemma_roundtrip(x: UserMapping)
        ensures
            x.spec_bytes().len() == XFRM_USER_MAPPING_LEN,
            x.decodes(x.spec_bytes()),
    {
        reveal(UserMapping::spec_bytes);
        reveal(UserMapping::decodes);
        let b = x.spec_bytes();
        UserSaId::lemma_roundtrip(x.id);
        assert(b.subrange(0, 24) =~= x.id.spec_bytes());
        assert(b.subrange(24, 28) =~= u32_le_bytes(x.reqid));
        lemma_u32_le_field(b, 24, x.reqid);
        Address::lemma_roundtrip(x.old_saddr);
        assert(b.subrange(28, 44) =~= x.old_saddr.spec_bytes());
        Address::lemma_roundtrip(x.new_saddr);
        assert(b.subrange(44, 60) =~= x.new_saddr.spec_bytes());
        assert(b.subrange(60, 62) =~= u16_be_bytes(x.old_sport));
        lemma_u16_be_field(b, 60, x.old_sport);
        assert(b.subrange(62, 64) =~= u16_be_bytes(x.new_sport));
        lemma_u16_be_field(b, 62, x.new_sport);
    }

    /// The layout of the wire image: each field sits at its fixed offset of
    /// the kernel's structure, padding bytes are zero.
    pub proof fn lemma_layout(x: UserMapping)
        ensures
            x.spec_bytes().len() == XFRM_USER_MAPPING_LEN,
            x.spec_bytes().subrange(0, 24) == x.id.spec_bytes(),
            u32_le_at(x.spec_bytes(), 24) == x.reqid,
            x.spec_bytes().subrange(28, 44) == x.old_saddr.addr@,
            x.spec_bytes().subrange(44, 60) == x.new_saddr.addr@,
            u16_be_at(x.spec_bytes(), 60) == x.old_sport,
            u16_be_at(x.spec_bytes(), 62) == x.new_sport,
    {
        reveal(UserMapping::spec_bytes);
        let b = x.spec_bytes();
        UserSaId::lemma_roundtrip(x.id);
        assert(b.subrange(0, 24) =~= x.id.spec_bytes());
        assert(b.subrange(24, 28) =~= u32_le_bytes(x.reqid));
        lemma_u32_le_field(b, 24, x.reqid);
        Address::lemma_roundtrip(x.old_saddr);
        assert(b.subrange(28, 44) =~= x.old_saddr.spec_bytes());
        Address::lemma_roundtrip(x.new_saddr);
        assert(b.subrange(44, 60) =~= x.new_saddr.spec_bytes());
        assert(b.subrange(60, 62) =~= u16_be_bytes(x.old_sport));
        lemma_u16_be_field(b, 60, x.old_sport);
        assert(b.subrange(62, 64) =~= u16_be_bytes(x.new_sport));
        lemma_u16_be_field(b, 62, x.new_sport);

    }

    /// What decoding reads: each field from its fixed offset of `b`.
    pub proof fn lemma_decode_layout(x: UserMapping, b: Seq<u8>)
        requires
            XFRM_USER_MAPPING_LEN <= b.len(),
            x.decodes(b),
        ensures
            x.id.decodes(b.subrange(0, 24)),
            x.reqid == u32_le_at(b, 24),
            x.old_saddr.addr@ == b.subrange(28, 44),
            x.new_saddr.addr@ == b.subrange(44, 60),
            x.old_sport == u16_be_at(b, 60),
            x.new_sport == u16_be_at(b, 62),
    {
        reveal(UserMapping::decodes);
    }

    /// Encoding a value decoded from `b` gives back the first `XFRM_USER_MAPPING_LEN`
    /// bytes of `b`, with the padding bytes set to zero.
    pub proof fn lemma_reencode(x: UserMapping, b: Seq<u8>)
        requires
            XFRM_USER_MAPPING_LEN <= b.len(),
            x.decodes(b),
        ensures
            x.spec_bytes() == UserMapping::canonical(b),
    {
        reveal(UserMapping::spec_bytes);
        reveal(UserMapping::decodes);
        reveal(UserMapping::canonical);
        UserSaId::lemma_reencode(x.id, b.subrange(0, 24));
        lemma_u32_le_bytes_of(b, 24);
        Address::lemma_reencode(x.old_saddr, b.subrange(28, 44));
        Address::lemma_reencode(x.new_saddr, b.subrange(44, 60));
        lemma_u16_be_bytes_of(b, 60);
        lemma_u16_be_bytes_of(b, 62);
    }

    /// Only the first `XFRM_USER_MAPPING_LEN` bytes of `b` matter to what it decodes to.
    pub proof fn lemma_decodes_prefix(x: UserMapping, b: Seq<u8>)
        requires
            XFRM_USER_MAPPING_LEN <= b.len(),
        ensures
            x.decodes(b) == x.decodes(b.subrange(0, XFRM_USER_MAPPING_LEN as int)),
    {
        reveal(UserMapping::decodes);
        let p = b.subrange(0, XFRM_USER_MAPPING_LEN as int);
        assert(forall|i: int| 0 <= i < XFRM_USER_MAPPING_LEN ==> #[trigger] p[i] == b[i]);
        assert(p.subrange(0, 24) =~= b.subrange(0, 24));
        assert(p.subrange(28, 44) =~= b.subrange(28, 44));
        assert(p.subrange(44, 60) =~= b.subrange(44, 60));
    }

    /// At most one value decodes from given bytes.
    pub proof fn lemma_decodes_unique(x: UserMapping, y: UserMapping, b: Seq<u8>)
        requires
            XFRM_USER_MAPPING_LEN <= b.len(),
            x.decodes(b),
            y.decodes(b),
        ensures
            x == y,
    {
        reveal(UserMapping::decodes);
        UserSaId::lemma_decodes_unique(x.id, y.id, b.subrange(0, 24));
        Address::lemma_decodes_unique(x.old_saddr, y.old_saddr, b.subrange(28, 44));
        Address::lemma_decodes_unique(x.new_saddr, y.new_saddr, b.subrange(44, 60));
    }
}

/// The wire image of a `UserMapping`, as laid out in the kernel's structure.
pub struct UserMappingBuffer {
    bytes: Vec<u8>,
}

impl View for UserMappingBuffer {
    type V = Seq<u8>;

    closed spec fn view(&self) -> Seq<u8> {
        self.bytes@
    }
}

impl UserMappingBuffer {
    /// Lays out `value` in its wire image.
    pub fn from(value: &UserMapping) -> (r: UserMappingBuffer)
        ensures
            r@ == value.spec_bytes(),
    {
        let mut bytes: Vec<u8> = Vec::new();
        value.write_to(&mut bytes);
        assert(bytes@ =~= value.spec_bytes());
        UserMappingBuffer { bytes }
    }

    /// The bytes of the image.
    pub fn as_bytes(&self) -> (r: &[u8])
        ensures
            r@ == self@,
    {
        self.bytes.as_slice()
    }
}

} // verus!
