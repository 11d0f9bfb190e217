//! The `xfrm_usersa_id` structure.

use vstd::prelude::*;
use vstd::slice::slice_subrange;
use crate::wire::{
    copy_prefix,
    lemma_u16_le_bytes_of,
    lemma_u16_le_field,
    lemma_u32_be_bytes_of,
    lemma_u32_be_field,
    lemma_u8_bytes_of,
    lemma_u8_field,
    push_u16_le,
    push_u32_be,
    push_zeros,
    read_u16_le,
    read_u32_be,
    u16_le_at,
    u16_le_bytes,
    u32_be_at,
    u32_be_bytes,
    zeros,
    ParseError,
};
use crate::address::{family_of, Address, IpAddress};
use crate::constants::{AF_INET, AF_INET6};

verus! {

/// What names a security association in a get or delete request.
#[derive(Debug, Clone, Copy, Eq, PartialEq)]
pub struct UserSaId {
    pub daddr: Address,
    pub spi: u32, // big-endian on the wire
    pub family: u16,
    pub proto: u8,
}

pub const XFRM_USER_SA_ID_LEN: usize = 24;

impl UserSaId {
    /// The first `XFRM_USER_SA_ID_LEN` bytes of `b` with every padding byte set to zero.
    #[verifier::opaque]
    pub open spec fn canonical(b: Seq<u8>) -> Seq<u8> {
        Address::canonical(b.subrange(0, 16))
            + b.subrange(16, 20)
            + b.subrange(20, 22)
            + b.subrange(22, 23)
            + zeros(1)
    }

    /// The wire image: the fields in order, padding as zero bytes.
    #[verifier::opaque]
    pub open spec fn spec_bytes(&self) -> Seq<u8> {
        self.daddr.spec_bytes()
            + u32_be_bytes(self.spi)
            + u16_le_bytes(self.family)
            + seq![self.proto]
            + zeros(1)
    }

    /// `self` is what the first `XFRM_USER_SA_ID_LEN` bytes of `b` describe.
    #[verifier::opaque]
    pub open spec fn decodes(&self, b: Seq<u8>) -> bool {
        &&& self.daddr.decodes(b.subrange(0, 16))
        &&& self.spi == u32_be_at(b, 16)
        &&& self.family == u16_le_at(b, 20)
        &&& self.proto == b[22]
    }

    /// `self` holds the values that `default()` gives.
    pub open spec fn is_default(&self) -> bool {
        &&& self.daddr.is_default()
        &&& self.spi == 0
        &&& self.family == 0
        &&& self.proto == 0
    }

    /// Decodes the first `XFRM_USER_SA_ID_LEN` bytes of `s`.
    pub fn decode(s: &[u8]) -> (r: UserSaId)
        requires
            XFRM_USER_SA_ID_LEN <= s.len(),
        ensures
            r.decodes(s@),
    {
        proof {
            reveal(UserSaId::decodes);
        }
        UserSaId {
            daddr: Address::decode(slice_subrange(s, 0, 16)),
            spi: read_u32_be(s, 16),
            family: read_u16_le(s, 20),
            proto: s[22],
        }
    }

    /// Decodes a `UserSaId` from the start of `payload`; the bytes after the
    /// structure are ignored.
    pub fn parse(payload: &[u8]) -> (r: Result<UserSaId, ParseError>)
        ensures
            payload.len() < XFRM_USER_SA_ID_LEN ==> r == Err::<UserSaId, ParseError>(
                ParseError::BufferTooSmall { received: payload.len(), expected: XFRM_USER_SA_ID_LEN },
            ),
            XFRM_USER_SA_ID_LEN <= payload.len() ==> (r matches Ok(v) && v.decodes(payload@)),
    {
        if payload.len() < XFRM_USER_SA_ID_LEN {
            Err(ParseError::BufferTooSmall { received: payload.len(), expected: XFRM_USER_SA_ID_LEN })
        } else {
            Ok(UserSaId::decode(payload))
        }
    }

    /// Appends the wire image to `out`.
    pub fn write_to(&self, out: &mut Vec<u8>)
        ensures
            final(out)@ == old(out)@ + self.spec_bytes(),
    {
        proof {
            reveal(UserSaId::spec_bytes);
        }
        self.daddr.write_to(out);
        push_u32_be(out, self.spi);
        push_u16_le(out, self.family);
        out.push(self.proto);
        push_zeros(out, 1);
        assert(out@ =~= old(out)@ + self.spec_bytes());
    }

    /// The number of bytes `emit` writes.
    pub fn buffer_len(&self) -> (r: usize)
        ensures
            r == XFRM_USER_SA_ID_LEN,
            r == self.spec_bytes().len(),
    {
        proof {
            UserSaId::lemma_roundtrip(*self);
        }
        XFRM_USER_SA_ID_LEN
    }

    /// Writes the wire image over the first `XFRM_USER_SA_ID_LEN` bytes of `buffer`.
    pub fn emit(&self, buffer: &mut [u8])
        requires
            XFRM_USER_SA_ID_LEN <= old(buffer)@.len(),
        ensures
            final(buffer)@ == self.spec_bytes() + old(buffer)@.subrange(
                XFRM_USER_SA_ID_LEN as int,
                old(buffer)@.len() as int,
            ),
    {
        let raw = UserSaIdBuffer::from(self);
        proof {
            UserSaId::lemma_roundtrip(*self);
        }
        copy_prefix(buffer, raw.as_bytes());
    }
}

impl Default for UserSaId {
    fn default() -> (r: UserSaId)
        ensures
            r.is_default(),
    {
        UserSaId {
            daddr: Address::default(),
            spi: 0,
            family: 0,
            proto: 0,
        }
    }
}

impl UserSaId {
    /// Decoding the wire image of a `UserSaId` gives back the same value,
    /// and the image is `XFRM_USER_SA_ID_LEN` bytes long.
    pub proof fn lemma_roundtrip(x: UserSaId)
        ensures
            x.spec_bytes().len() == XFRM_USER_SA_ID_LEN,
            x.decodes(x.spec_bytes()),
    {
        reveal(UserSaId::spec_bytes);
        reveal(UserSaId::decodes);
        let b = x.spec_bytes();
        Address::lemma_roundtrip(x.daddr);
        assert(b.subrange(0, 16) =~= x.daddr.spec_bytes());
        assert(b.subrange(16, 20) =~= u32_be_bytes(x.spi));
        lemma_u32_be_field(b, 16, x.spi);
        assert(b.subrange(20, 22) =~= u16_le_bytes(x.family));
        lemma_u16_le_field(b, 20, x.family);
        assert(b.subrange(22, 23) =~= seq![x.proto]);
        lemma_u8_field(b, 22, x.proto);
    }

    /// The layout of the wire image: each field sits at its fixed offset of
    /// the kernel's structure, padding bytes are zero.
    pub proof fn lemma_layout(x: UserSaId)
        ensures
            x.spec_bytes().len() == XFRM_USER_SA_ID_LEN,
            x.spec_bytes().subrange(0, 16) == x.daddr.addr@,
            u32_be_at(x.spec_bytes(), 16) == x.spi,
            u16_le_at(x.spec_bytes(), 20) == x.family,
            x.spec_bytes()[22] == x.proto,
            x.spec_bytes().subrange(23, 24) == zeros(1),
    {
        reveal(UserSaId::spec_bytes);
        let b = x.spec_bytes();
        Address::lemma_roundtrip(x.daddr);
        assert(b.subrange(0, 16) =~= x.daddr.spec_bytes());
        assert(b.subrange(16, 20) =~= u32_be_bytes(x.spi));
        lemma_u32_be_field(b, 16, x.spi);
        assert(b.subrange(20, 22) =~= u16_le_bytes(x.family));
        lemma_u16_le_field(b, 20, x.family);
        assert(b.subrange(22, 23) =~= seq![x.proto]);
        lemma_u8_field(b, 22, x.proto);
        assert(x.spec_bytes().subrange(23, 24) =~= zeros(1));
    }

    /// What decoding reads: each field from its fixed offset of `b`.
    pub proof fn lemma_decode_layout(x: UserSaId, b: Seq<u8>)
        requires
            XFRM_USER_SA_ID_LEN <= b.len(),
            x.decodes(b),
        ensures
            x.daddr.addr@ == b.subrange(0, 16),
            x.spi == u32_be_at(b, 16),
            x.family == u16_le_at(b, 20),
            x.proto == b[22],
    {
        reveal(UserSaId::decodes);
    }

    /// Encoding a value decoded from `b` gives back the first `XFRM_USER_SA_ID_LEN`
    /// bytes of `b`, with the padding bytes set to zero.
    pub proof fn lemma_reencode(x: UserSaId, b: Seq<u8>)
        requires
            XFRM_USER_SA_ID_LEN <= b.len(),
            x.decodes(b),
        ensures
            x.spec_bytes() == UserSaId::canonical(b),
    {
        reveal(UserSaId::spec_bytes);
        reveal(UserSaId::decodes);
        reveal(UserSaId::canonical);
        Address::lemma_reencode(x.daddr, b.subrange(0, 16));
        lemma_u32_be_bytes_of(b, 16);
        lemma_u16_le_bytes_of(b, 20);
        lemma_u8_bytes_of(b, 22);
    }

    /// Only the first `XFRM_USER_SA_ID_LEN` bytes of `b` matter to what it decodes to.
    pub proof fn lemma_decodes_prefix(x: UserSaId, b: Seq<u8>)
        requires
            XFRM_USER_SA_ID_LEN <= b.len(),
        ensures
            x.decodes(b) == x.decodes(b.subrange(0, XFRM_USER_SA_ID_LEN as int)),
    {
        reveal(UserSaId::decodes);
        let p = b.subrange(0, XFRM_USER_SA_ID_LEN as int);
        assert(forall|i: int| 0 <= i < XFRM_USER_SA_ID_LEN ==> #[trigger] p[i] == b[i]);
        assert(p.subrange(0, 16) =~= b.subrange(0, 16));
    }

    /// At most one value decodes from given bytes.
    pub proof fn lemma_decodes_unique(x: UserSaId, y: UserSaId, b: Seq<u8>)
        requires
            XFRM_USER_SA_ID_LEN <= b.len(),
            x.decodes(b),
            y.decodes(b),
        ensures
            x == y,
    {
        reveal(UserSaId::decodes);
        Address::lemma_decodes_unique(x.daddr, y.daddr, b.subrange(0, 16));
    }
}

/// The wire image of a `UserSaId`, as laid out in the kernel's structure.
pub struct UserSaIdBuffer {
    bytes: Vec<u8>,
}

impl View for UserSaIdBuffer {
    type V = Seq<u8>;

    closed spec fn view(&self) -> Seq<u8> {
        self.bytes@
    }
}

impl UserSaIdBuffer {
    /// Lays out `value` in its wire image.
    pub fn from(value: &UserSaId) -> (r: UserSaIdBuffer)
        ensures
            r@ == value.spec_bytes(),
    {
        let mut bytes: Vec<u8> = Vec::new();
        value.write_to(&mut bytes);
        assert(bytes@ =~= value.spec_bytes());
        UserSaIdBuffer { bytes }
    }

    /// The bytes of the image.
    pub fn as_bytes(&self) -> (r: &[u8])
        ensures
            r@ == self@,
    {
        self.bytes.as_slice()
    }
}

impl UserSaId {
    fn family(&mut self, addr: &IpAddress)
        ensures
            *final(self) == (UserSaId { family: family_of(*addr), ..*old(self) }),
    {
        if addr.is_ipv4() {
            self.family = AF_INET;
        } else if addr.is_ipv6() {
            self.family = AF_INET6;
        }
    }

    /// Sets the destination address, and the family to match it.
    pub fn destination(&mut self, addr: &IpAddress)
        ensures
            final(self).daddr.spec_from_ip(*addr),
            *final(self) == (UserSaId {
                daddr: final(self).daddr,
                family: family_of(*addr),
                ..*old(self)
            }),
    {
        self.daddr = Address::from_ip(addr);
        self.family(addr);
    }
}

} // verus!
