//! The `xfrm_address_filter` structure.

use vstd::prelude::*;
use vstd::slice::slice_subrange;
use crate::wire::{
    copy_prefix,
    lemma_u16_le_bytes_of,
    lemma_u16_le_field,
    lemma_u8_bytes_of,
    lemma_u8_field,
    push_u16_le,
    read_u16_le,
    u16_le_at,
    u16_le_bytes,
    ParseError,
};
use crate::address::{family_of, Address, IpAddress};
use crate::constants::{AF_INET, AF_INET6};

verus! {

/// A filter on source and destination prefixes.
#[derive(Debug, Clone, Copy, Eq, PartialEq)]
pub struct AddressFilter {
    pub saddr: Address,
    pub daddr: Address,
    pub family: u16,
    pub splen: u8,
    pub dplen: u8,
}

pub const XFRM_ADDRESS_FILTER_LEN: usize = 36;

impl AddressFilter {
    /// The first `XFRM_ADDRESS_FILTER_LEN` bytes of `b` with every padding byte set to zero.
    #[verifier::opaque]
    pub open spec fn canonical(b: Seq<u8>) -> Seq<u8> {
        Address::canonical(b.subrange(0, 16))
            + Address::canonical(b.subrange(16, 32))
            + b.subrange(32, 34)
            + b.subrange(34, 35)
            + b.subrange(35, 36)
    }

    /// The wire image: the fields in order, padding as zero bytes.
    #[verifier::opaque]
    pub open spec fn spec_bytes(&self) -> Seq<u8> {
        self.saddr.spec_bytes()
            + self.daddr.spec_bytes()
            + u16_le_bytes(self.family)
            + seq![self.splen]
            + seq![self.dplen]
    }

    /// `self` is what the first `XFRM_ADDRESS_FILTER_LEN` bytes of `b` describe.
    #[verifier::opaque]
    pub open spec fn decodes(&self, b: Seq<u8>) -> bool {
        &&& self.saddr.decodes(b.subrange(0, 16))
        &&& self.daddr.decodes(b.subrange(16, 32))
        &&& self.family == u16_le_at(b, 32)
        &&& self.splen == b[34]
        &&& self.dplen == b[35]
    }

    /// `self` holds the values that `default()` gives.
    pub open spec fn is_default(&self) -> bool {
        &&& self.saddr.is_default()
        &&& self.daddr.is_default()
        &&& self.family == 0
        &&& self.splen == 0
        &&& self.dplen == 0
    }

    /// Decodes the first `XFRM_ADDRESS_FILTER_LEN` bytes of `s`.
    pub fn decode(s: &[u8]) -> (r: AddressFilter)
        requires
            XFRM_ADDRESS_FILTER_LEN <= s.len(),
        ensures
            r.decodes(s@),
    {
        proof {
            reveal(AddressFilter::decodes);
        }
        AddressFilter {
            saddr: Address::decode(slice_subrange(s, 0, 16)),
            daddr: Address::decode(slice_subrange(s, 16, 32)),
            family: read_u16_le(s, 32),
            splen: s[34],
            dplen: s[35],
        }
    }

    /// Decodes an `AddressFilter` from the start of `payload`; the bytes after the
    /// structure are ignored.
    pub fn parse(payload: &[u8]) -> (r: Result<AddressFilter, ParseError>)
        ensures
            payload.len() < XFRM_ADDRESS_FILTER_LEN ==> r == Err::<AddressFilter, ParseError>(
                ParseError::BufferTooSmall { received: payload.len(), expected: XFRM_ADDRESS_FILTER_LEN },
            ),
            XFRM_ADDRESS_FILTER_LEN <= payload.len() ==> (r matches Ok(v) && v.decodes(payload@)),
    {
        if payload.len() < XFRM_ADDRESS_FILTER_LEN {
            Err(ParseError::BufferTooSmall { received: payload.len(), expected: XFRM_ADDRESS_FILTER_LEN })
        } else {
            Ok(AddressFilter::decode(payload))
        }
    }

    /// Appends the wire image to `out`.
    pub fn write_to(&self, out: &mut Vec<u8>)
        ensures
            final(out)@ == old(out)@ + self.spec_bytes(),
    {
        proof {
            reveal(AddressFilter::spec_bytes);
        }
        self.saddr.write_to(out);
        self.daddr.write_to(out);
        push_u16_le(out, self.family);
        out.push(self.splen);
        out.push(self.dplen);
        assert(out@ =~= old(out)@ + self.spec_bytes());
    }

    /// The number of bytes `emit` writes.
    pub fn buffer_len(&self) -> (r: usize)
        ensures
            r == XFRM_ADDRESS_FILTER_LEN,
            r == self.spec_bytes().len(),
    {
        proof {
            AddressFilter::lemma_roundtrip(*self);
        }
        XFRM_ADDRESS_FILTER_LEN
    }

    /// Writes the wire image over the first `XFRM_ADDRESS_FILTER_LEN` bytes of `buffer`.
    pub fn emit(&self, buffer: &mut [u8])
        requires
            XFRM_ADDRESS_FILTER_LEN <= old(buffer)@.len(),
        ensures
            final(buffer)@ == self.spec_bytes() + old(buffer)@.subrange(
                XFRM_ADDRESS_FILTER_LEN as int,
                old(buffer)@.len() as int,
            ),
    {
        let raw = AddressFilterBuffer::from(self);
        proof {
            AddressFilter::lemma_roundtrip(*self);
        }
        copy_prefix(buffer, raw.as_bytes());
    }
}

impl Default for AddressFilter {
    fn default() -> (r: AddressFilter)
        ensures
            r.is_default(),
    {
        AddressFilter {
            saddr: Address::default(),
            daddr: Address::default(),
            family: 0,
            splen: 0,
            dplen: 0,
        }
    }
}

impl AddressFilter {
    /// Decoding the wire image of an `AddressFilter` gives back the same value,
    /// and the image is `XFRM_ADDRESS_FILTER_LEN` bytes long.
    pub proof fn lemma_roundtrip(x: AddressFilter)
        ensures
            x.spec_bytes().len() == XFRM_ADDRESS_FILTER_LEN,
            x.decodes(x.spec_bytes()),
    {
        reveal(AddressFilter::spec_bytes);
        reveal(AddressFilter::decodes);
        let b = x.spec_bytes();
        Address::lemma_roundtrip(x.saddr);
        assert(b.subrange(0, 16) =~= x.saddr.spec_bytes());
        Address::lemma_roundtrip(x.daddr);
        assert(b.subrange(16, 32) =~= x.daddr.spec_bytes());
        assert(b.subrange(32, 34) =~= u16_le_bytes(x.family));
        lemma_u16_le_field(b, 32, x.family);
        assert(b.subrange(34, 35) =~= seq![x.splen]);
        lemma_u8_field(b, 34, x.splen);
        assert(b.subrange(35, 36) =~= seq![x.dplen]);
        lemma_u8_field(b, 35, x.dplen);
    }

    /// The layout of the wire image: each field sits at its fixed offset of
    /// the kernel's structure, padding bytes are zero.
    pub proof fn lemma_layout(x: AddressFilter)
        ensures
            x.spec_bytes().len() == XFRM_ADDRESS_FILTER_LEN,
            x.spec_bytes().subrange(0, 16) == x.saddr.addr@,
            x.spec_bytes().subrange(16, 32) == x.daddr.addr@,
            u16_le_at(x.spec_bytes(), 32) == x.family,
            x.spec_bytes()[34] == x.splen,
            x.spec_bytes()[35] == x.dplen,
    {
        reveal(AddressFilter::spec_bytes);
        let b = x.spec_bytes();
        Address::lemma_roundtrip(x.saddr);
        assert(b.subrange(0, 16) =~= x.saddr.spec_bytes());
        Address::lemma_roundtrip(x.daddr);
        assert(b.subrange(16, 32) =~= x.daddr.spec_bytes());
        assert(b.subrange(32, 34) =~= u16_le_bytes(x.family));
        lemma_u16_le_field(b, 32, x.family);
        assert(b.subrange(34, 35) =~= seq![x.splen]);
        lemma_u8_field(b, 34, x.splen);
        assert(b.subrange(35, 36) =~= seq![x.dplen]);
        lemma_u8_field(b, 35, x.dplen);

    }

    /// What decoding reads: each field from its fixed offset of `b`.
    pub proof fn lemma_decode_layout(x: AddressFilter, b: Seq<u8>)
        requires
            XFRM_ADDRESS_FILTER_LEN <= b.len(),
            x.decodes(b),
        ensures
            x.saddr.addr@ == b.subrange(0, 16),
            x.daddr.addr@ == b.subrange(16, 32),
            x.family == u16_le_at(b, 32),
            x.splen == b[34],
            x.dplen == b[35],
    {
        reveal(AddressFilter::decodes);
    }

    /// Encoding a value decoded from `b` gives back the first `XFRM_ADDRESS_FILTER_LEN`
    /// bytes of `b`, with the padding bytes set to zero.
    pub proof fn lemma_reencode(x: AddressFilter, b: Seq<u8>)
        requires
            XFRM_ADDRESS_FILTER_LEN <= b.len(),
            x.decodes(b),
        ensures
            x.spec_bytes() == AddressFilter::canonical(b),
    {
        reveal(AddressFilter::spec_bytes);
        reveal(AddressFilter::decodes);
        reveal(AddressFilter::canonical);
        Address::lemma_reencode(x.saddr, b.subrange(0, 16));
        Address::lemma_reencode(x.daddr, b.subrange(16, 32));
        lemma_u16_le_bytes_of(b, 32);
        lemma_u8_bytes_of(b, 34);
        lemma_u8_bytes_of(b, 35);
    }

    /// Only the first `XFRM_ADDRESS_FILTER_LEN` bytes of `b` matter to what it decodes to.
    pub proof fn lemma_decodes_prefix(x: AddressFilter, b: Seq<u8>)
        requires
            XFRM_ADDRESS_FILTER_LEN <= b.len(),
        ensures
            x.decodes(b) == x.decodes(b.subrange(0, XFRM_ADDRESS_FILTER_LEN as int)),
    {
        reveal(AddressFilter::decodes);
        let p = b.subrange(0, XFRM_ADDRESS_FILTER_LEN as int);
        assert(forall|i: int| 0 <= i < XFRM_ADDRESS_FILTER_LEN ==> #[trigger] p[i] == b[i]);
        assert(p.subrange(0, 16) =~= b.subrange(0, 16));
        assert(p.subrange(16, 32) =~= b.subrange(16, 32));
    }

    /// At most one value decodes from given bytes.
    pub proof fn lemma_decodes_unique(x: AddressFilter, y: AddressFilter, b: Seq<u8>)
        requires
            XFRM_ADDRESS_FILTER_LEN <= b.len(),
            x.decodes(b),
            y.decodes(b),
        ensures
            x == y,
    {
        reveal(AddressFilter::decodes);
        Address::lemma_decodes_unique(x.saddr, y.saddr, b.subrange(0, 16));
        Address::lemma_decodes_unique(x.daddr, y.daddr, b.subrange(16, 32));
    }
}

/// The wire image of an `AddressFilter`, as laid out in the kernel's structure.
pub struct AddressFilterBuffer {
    bytes: Vec<u8>,
}

impl View for AddressFilterBuffer {
    type V = Seq<u8>;

    closed spec fn view(&self) -> Seq<u8> {
        self.bytes@
    }
}

impl AddressFilterBuffer {
    /// Lays out `value` in its wire image.
    pub fn from(value: &AddressFilter) -> (r: AddressFilterBuffer)
        ensures
            r@ == value.spec_bytes(),
    {
        let mut bytes: Vec<u8> = Vec::new();
        value.write_to(&mut bytes);
        assert(bytes@ =~= value.spec_bytes());
        AddressFilterBuffer { bytes }
    }

    /// The bytes of the image.
    pub fn as_bytes(&self) -> (r: &[u8])
        ensures
            r@ == self@,
    {
        self.bytes.as_slice()
    }
}

impl AddressFilter {
    fn family(&mut self, addr: &IpAddress)
        ensures
            *final(self) == (AddressFilter { family: family_of(*addr), ..*old(self) }),
    {
        if addr.is_ipv4() {
            self.family = AF_INET;
        } else if addr.is_ipv6() {
            self.family = AF_INET6;
        }
    }

    /// Sets the source address and prefix length, and the family to match
    /// the address. The unspecified address always gets prefix length 0.
    pub fn source_prefix(&mut self, addr: &IpAddress, prefixlen: u8)
        ensures
            final(self).saddr.spec_from_ip(*addr),
            *final(self) == (AddressFilter {
                saddr: final(self).saddr,
                splen: if addr.spec_is_unspecified() { 0u8 } else { prefixlen },
                family: family_of(*addr),
                ..*old(self)
            }),
    {
        self.saddr = Address::from_ip(addr);

        if addr.is_unspecified() {
            self.splen = 0;
        } else {
            self.splen = prefixlen;
        }
        self.family(addr);
    }

    /// Sets the destination address and prefix length, and the family to
    /// match the address. The unspecified address always gets prefix
    /// length 0.
    pub fn destination_prefix(&mut self, addr: &IpAddress, prefixlen: u8)
        ensures
            final(self).daddr.spec_from_ip(*addr),
            *final(self) == (AddressFilter {
                daddr: final(self).daddr,
                dplen: if addr.spec_is_unspecified() { 0u8 } else { prefixlen },
                family: family_of(*addr),
                ..*old(self)
            }),
    {
        self.daddr = Address::from_ip(addr);

        if addr.is_unspecified() {
            self.dplen = 0;
        } else {
            self.dplen = prefixlen;
        }
        self.family(addr);
    }
}

} // verus!
