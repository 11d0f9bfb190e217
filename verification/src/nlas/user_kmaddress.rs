//! The `xfrm_user_kmaddress` structure.

use vstd::prelude::*;
use vstd::slice::slice_subrange;
use crate::wire::{
    copy_prefix,
    lemma_u16_le_bytes_of,
    lemma_u16_le_field,
    lemma_u32_le_bytes_of,
    lemma_u32_le_field,
    push_u16_le,
    push_u32_le,
    push_zeros,
    read_u16_le,
    read_u32_le,
    u16_le_at,
    u16_le_bytes,
    u32_le_at,
    u32_le_bytes,
    zeros,
    ParseError,
};
use crate::address::{Address};

verus! {

/// The key manager endpoints of a migration.
#[derive(Debug, Clone, Copy, Eq, PartialEq)]
pub struct UserKmAddress {
    pub local: Address,
    pub remote: Address,
    pub reserved: u32,
    pub family: u16,
}

pub const XFRM_USER_KMADDRESS_LEN: usize = 40;

impl UserKmAddress {
    /// The first `XFRM_USER_KMADDRESS_LEN` bytes of `b` with every padding byte set to zero.
    #[verifier::opaque]
    pub open spec fn canonical(b: Seq<u8>) -> Seq<u8> {
        Address::canonical(b.subrange(0, 16))
            + Address::canonical(b.subrange(16, 32))
            + b.subrange(32, 36)
            + b.subrange(36, 38)
            + zeros(2)
    }

    /// The wire image: the fields in order, padding as zero bytes.
    #[verifier::opaque]
    pub open spec fn spec_bytes(&self) -> Seq<u8> {
        self.local.spec_bytes()
            + self.remote.spec_bytes()
            + u32_le_bytes(self.reserved)
            + u16_le_bytes(self.family)
            + zeros(2)
    }

    /// `self` is what the first `XFRM_USER_KMADDRESS_LEN` bytes of `b` describe.
    #[verifier::opaque]
    pub open spec fn decodes(&self, b: Seq<u8>) -> bool {
        &&& self.local.decodes(b.subrange(0, 16))
        &&& self.remote.decodes(b.subrange(16, 32))
        &&& self.reserved == u32_le_at(b, 32)
        &&& self.family == u16_le_at(b, 36)
    }

    /// `self` holds the values that `default()` gives.
    pub open spec fn is_default(&self) -> bool {
        &&& self.local.is_default()
        &&& self.remote.is_default()
        &&& self.reserved == 0
        &&& self.family == 0
    }

    /// Decodes the first `XFRM_USER_KMADDRESS_LEN` bytes of `s`.
    pub fn decode(s: &[u8]) -> (r: UserKmAddress)
        requires
            XFRM_USER_KMADDRESS_LEN <= s.len(),
        ensures
            r.decodes(s@),
    {
        proof {
            reveal(UserKmAddress::decodes);
        }
        UserKmAddress {
            local: Address::decode(slice_subrange(s, 0, 16)),
            remote: Address::decode(slice_subrange(s, 16, 32)),
            reserved: read_u32_le(s, 32),
            family: read_u16_le(s, 36),
        }
    }

    /// Decodes a `UserKmAddress` from the start of `payload`; the bytes after the
    /// structure are ignored.
    pub fn parse(payload: &[u8]) -> (r: Result<UserKmAddress, ParseError>)
        ensures
            payload.len() < XFRM_USER_KMADDRESS_LEN ==> r == Err::<UserKmAddress, ParseError>(
                ParseError::BufferTooSmall { received: payload.len(), expected: XFRM_USER_KMADDRESS_LEN },
            ),
            XFRM_USER_KMADDRESS_LEN <= payload.len() ==> (r matches Ok(v) && v.decodes(payload@)),
    {
        if payload.len() < XFRM_USER_KMADDRESS_LEN {
            Err(ParseError::BufferTooSmall { received: payload.len(), expected: XFRM_USER_KMADDRESS_LEN })
        } else {
            Ok(UserKmAddress::decode(payload))
        }
    }

    /// Appends the wire image to `out`.
    pub fn write_to(&self, out: &mut Vec<u8>)
        ensures
            final(out)@ == old(out)@ + self.spec_bytes(),
    {
        proof {
            reveal(UserKmAddress::spec_bytes);
        }
        self.local.write_to(out);
        self.remote.write_to(out);
        push_u32_le(out, self.reserved);
        push_u16_le(out, self.family);
        push_zeros(out, 2);
        assert(out@ =~= old(out)@ + self.spec_bytes());
    }

    /// The number of bytes `emit` writes.
    pub fn buffer_len(&self) -> (r: usize)
        ensures
            r == XFRM_USER_KMADDRESS_LEN,
            r == self.spec_bytes().len(),
    {
        proof {
            UserKmAddress::lemma_roundtrip(*self);
        }
        XFRM_USER_KMADDRESS_LEN
    }

    /// Writes the wire image over the first `XFRM_USER_KMADDRESS_LEN` bytes of `buffer`.
    pub fn emit(&self, buffer: &mut [u8])
        requires
            XFRM_USER_KMADDRESS_LEN <= old(buffer)@.len(),
        ensures
            final(buffer)@ == self.spec_bytes() + old(buffer)@.subrange(
                XFRM_USER_KMADDRESS_LEN as int,
                old(buffer)@.len() as int,
            ),
    {
        let raw = UserKmAddressBuffer::from(self);
        proof {
            UserKmAddress::lemma_roundtrip(*self);
        }
        copy_prefix(buffer, raw.as_bytes());
    }
}

impl Default for UserKmAddress {
    fn default() -> (r: UserKmAddress)
        ensures
            r.is_default(),
    {
        UserKmAddress {
            local: Address::default(),
            remote: Address::default(),
            reserved: 0,
            family: 0,
        }
    }
}

impl UserKmAddress {
    /// Decoding the wire image of a `UserKmAddress` gives back the same value,
    /// and the image is `XFRM_USER_KMADDRESS_LEN` bytes long.
    pub proof fn lemma_roundtrip(x: UserKmAddress)
        ensures
            x.spec_bytes().len() == XFRM_USER_KMADDRESS_LEN,
            x.decodes(x.spec_bytes()),
    {
        reveal(UserKmAddress::spec_bytes);
        reveal(UserKmAddress::decodes);
        let b = x.spec_bytes();
        Address::lemma_roundtrip(x.local);
        assert(b.subrange(0, 16) =~= x.local.spec_bytes());
        Address::lemma_roundtrip(x.remote);
        assert(b.subrange(16, 32) =~= x.remote.spec_bytes());
        assert(b.subrange(32, 36) =~= u32_le_bytes(x.reserved));
        lemma_u32_le_field(b, 32, x.reserved);
        assert(b.subrange(36, 38) =~= u16_le_bytes(x.family));
        lemma_u16_le_field(b, 36, x.family);
    }

    /// The layout of the wire image: each field sits at its fixed offset of
    /// the kernel's structure, padding bytes are zero.
    pub proof fn lemma_layout(x: UserKmAddress)
        ensures
            x.spec_bytes().len() == XFRM_USER_KMADDRESS_LEN,
            x.spec_bytes().subrange(0, 16) == x.local.addr@,
            x.spec_bytes().subrange(16, 32) == x.remote.addr@,
            u32_le_at(x.spec_bytes(), 32) == x.reserved,
            u16_le_at(x.spec_bytes(), 36) == x.family,
            x.spec_bytes().subrange(38, 40) == zeros(2),
    {
        reveal(UserKmAddress::spec_bytes);
        let b = x.spec_bytes();
        Address::lemma_roundtrip(x.local);
        assert(b.subrange(0, 16) =~= x.local.spec_bytes());
        Address::lemma_roundtrip(x.remote);
        assert(b.subrange(16, 32) =~= x.remote.spec_bytes());
        assert(b.subrange(32, 36) =~= u32_le_bytes(x.reserved));
        lemma_u32_le_field(b, 32, x.reserved);
        assert(b.subrange(36, 38) =~= u16_le_bytes(x.family));
        lemma_u16_le_field(b, 36, x.family);
        assert(x.spec_bytes().subrange(38, 40) =~= zeros(2));
    }

    /// What decoding reads: each field from its fixed offset of `b`.
    pub proof fn lemma_decode_layout(x: UserKmAddress, b: Seq<u8>)
        requires
            XFRM_USER_KMADDRESS_LEN <= b.len(),
            x.decodes(b),
        ensures
            x.local.addr@ == b.subrange(0, 16),
            x.remote.addr@ == b.subrange(16, 32),
            x.reserved == u32_le_at(b, 32),
            x.family == u16_le_at(b, 36),
    {
        reveal(UserKmAddress::decodes);
    }

    /// Encoding a value decoded from `b` gives back the first `XFRM_USER_KMADDRESS_LEN`
    /// bytes of `b`, with the padding bytes set to zero.
    pub proof fn lemma_reencode(x: UserKmAddress, b: Seq<u8>)
        requires
            XFRM_USER_KMADDRESS_LEN <= b.len(),
            x.decodes(b),
        ensures
            x.spec_bytes() == UserKmAddress::canonical(b),
    {
        reveal(UserKmAddress::spec_bytes);
        reveal(UserKmAddress::decodes);
        reveal(UserKmAddress::canonical);
        Address::lemma_reencode(x.local, b.subrange(0, 16));
        Address::lemma_reencode(x.remote, b.subrange(16, 32));
        lemma_u32_le_bytes_of(b, 32);
        lemma_u16_le_bytes_of(b, 36);
    }

    /// Only the first `XFRM_USER_KMADDRESS_LEN` bytes of `b` matter to what it decodes to.
    pub proof fn lemma_decodes_prefix(x: UserKmAddress, b: Seq<u8>)
        requires
            XFRM_USER_KMADDRESS_LEN <= b.len(),
        ensures
            x.decodes(b) == x.decodes(b.subrange(0, XFRM_USER_KMADDRESS_LEN as int)),
    {
        reveal(UserKmAddress::decodes);
        let p = b.subrange(0, XFRM_USER_KMADDRESS_LEN as int);
        assert(forall|i: int| 0 <= i < XFRM_USER_KMADDRESS_LEN ==> #[trigger] p[i] == b[i]);
        assert(p.subrange(0, 16) =~= b.subrange(0, 16));
        assert(p.subrange(16, 32) =~= b.subrange(16, 32));
    }

    /// At most one value decodes from given bytes.
    pub proof fn lemma_decodes_unique(x: UserKmAddress, y: UserKmAddress, b: Seq<u8>)
        requires
            XFRM_USER_KMADDRESS_LEN <= b.len(),
            x.decodes(b),
            y.decodes(b),
        ensures
            x == y,
    {
        reveal(UserKmAddress::decodes);
        Address::lemma_decodes_unique(x.local, y.local, b.subrange(0, 16));
        Address::lemma_decodes_unique(x.remote, y.remote, b.subrange(16, 32));
    }
}

/// The wire image of a `UserKmAddress`, as laid out in the kernel's structure.
pub struct UserKmAddressBuffer {
    bytes: Vec<u8>,
}

impl View for UserKmAddressBuffer {
    type V = Seq<u8>;

    closed spec fn view(&self) -> Seq<u8> {
        self.bytes@
    }
}

impl UserKmAddressBuffer {
    /// Lays out `value` in its wire image.
    pub fn from(value: &UserKmAddress) -> (r: UserKmAddressBuffer)
        ensures
            r@ == value.spec_bytes(),
    {
        let mut bytes: Vec<u8> = Vec::new();
        value.write_to(&mut bytes);
        assert(bytes@ =~= value.spec_bytes());
        UserKmAddressBuffer { bytes }
    }

    /// The bytes of the image.
    pub fn as_bytes(&self) -> (r: &[u8])
        ensures
            r@ == self@,
    {
        self.bytes.as_slice()
    }
}

} // verus!
