//! The `xfrm_selector` structure.

use vstd::prelude::*;
use vstd::slice::slice_subrange;
use crate::wire::{
    copy_prefix,
    i32_le_at,
    i32_le_bytes,
    lemma_i32_le_bytes_of,
    lemma_i32_le_field,
    lemma_u16_be_bytes_of,
    lemma_u16_be_field,
    lemma_u16_le_bytes_of,
    lemma_u16_le_field,
    lemma_u32_le_bytes_of,
    lemma_u32_le_field,
    lemma_u8_bytes_of,
    lemma_u8_field,
    push_i32_le,
    push_u16_be,
    push_u16_le,
    push_u32_le,
    push_zeros,
    read_i32_le,
    read_u16_be,
    read_u16_le,
    read_u32_le,
    u16_be_at,
    u16_be_bytes,
    u16_le_at,
    u16_le_bytes,
    u32_le_at,
    u32_le_bytes,
    zeros,
    ParseError,
};
use crate::address::{family_of, Address, IpAddress};
use crate::constants::{AF_INET, AF_INET6};

verus! {

/// The traffic a policy or state applies to.
#[derive(Debug, Clone, Copy, Eq, PartialEq)]
pub struct Selector {
    pub daddr: Address,
    pub saddr: Address,
    pub dport: u16, // big-endian on the wire
    pub dport_mask: u16, // big-endian on the wire
    pub sport: u16, // big-endian on the wire
    pub sport_mask: u16, // big-endian on the wire
    pub family: u16,
    pub prefixlen_d: u8,
    pub prefixlen_s: u8,
    pub proto: u8,
    pub ifindex: i32, // "int" in iproute2
    pub user: u32, // "__kernel_uid32_t" in iproute2
}

pub const XFRM_SELECTOR_LEN: usize = 56;

impl Selector {
    /// The first `XFRM_SELECTOR_LEN` bytes of `b` with every padding byte set to zero.
    #[verifier::opaque]
    pub open spec fn canonical(b: Seq<u8>) -> Seq<u8> {
        Address::canonical(b.subrange(0, 16))
            + Address::canonical(b.subrange(16, 32))
            + b.subrange(32, 34)
            + b.subrange(34, 36)
            + b.subrange(36, 38)
            + b.subrange(38, 40)
            + b.subrange(40, 42)
            + b.subrange(42, 43)
            + b.subrange(43, 44)
            + b.subrange(44, 45)
            + zeros(3)
            + b.subrange(48, 52)
            + b.subrange(52, 56)
    }

    /// The wire image: the fields in order, padding as zero bytes.
    #[verifier::opaque]
    pub open spec fn spec_bytes(&self) -> Seq<u8> {
        self.daddr.spec_bytes()
            + self.saddr.spec_bytes()
            + u16_be_bytes(self.dport)
            + u16_be_bytes(self.dport_mask)
            + u16_be_bytes(self.sport)
            + u16_be_bytes(self.sport_mask)
            + u16_le_bytes(self.family)
            + seq![self.prefixlen_d]
            + seq![self.prefixlen_s]
            + seq![self.proto]
            + zeros(3)
            + i32_le_bytes(self.ifindex)
            + u32_le_bytes(self.user)
    }

    /// `self` is what the first `XFRM_SELECTOR_LEN` bytes of `b` describe.
    #[verifier::opaque]
    pub open spec fn decodes(&self, b: Seq<u8>) -> bool {
        &&& self.daddr.decodes(b.subrange(0, 16))
        &&& self.saddr.decodes(b.subrange(16, 32))
        &&& self.dport == u16_be_at(b, 32)
        &&& self.dport_mask == u16_be_at(b, 34)
        &&& self.sport == u16_be_at(b, 36)
        &&& self.sport_mask == u16_be_at(b, 38)
        &&& self.family == u16_le_at(b, 40)
        &&& self.prefixlen_d == b[42]
        &&& self.prefixlen_s == b[43]
        &&& self.proto == b[44]
        &&& self.ifindex == i32_le_at(b, 48)
        &&& self.user == u32_le_at(b, 52)
    }

    /// `self` holds the values that `default()` gives.
    pub open spec fn is_default(&self) -> bool {
        &&& self.daddr.is_default()
        &&& self.saddr.is_default()
        &&& self.dport == 0
        &&& self.dport_mask == 0
        &&& self.sport == 0
        &&& self.sport_mask == 0
        &&& self.family == 0
        &&& self.prefixlen_d == 0
        &&& self.prefixlen_s == 0
        &&& self.proto == 0
        &&& self.ifindex == 0
        &&& self.user == 0
    }

    /// Decodes the first `XFRM_SELECTOR_LEN` bytes of `s`.
    pub fn decode(s: &[u8]) -> (r: Selector)
        requires
            XFRM_SELECTOR_LEN <= s.len(),
        ensures
            r.decodes(s@),
    {
        proof {
            reveal(Selector::decodes);
        }
        Selector {
            daddr: Address::decode(slice_subrange(s, 0, 16)),
            saddr: Address::decode(slice_subrange(s, 16, 32)),
            dport: read_u16_be(s, 32),
            dport_mask: read_u16_be(s, 34),
            sport: read_u16_be(s, 36),
            sport_mask: read_u16_be(s, 38),
            family: read_u16_le(s, 40),
            prefixlen_d: s[42],
            prefixlen_s: s[43],
            proto: s[44],
            ifindex: read_i32_le(s, 48),
            user: read_u32_le(s, 52),
        }
    }

    /// Decodes a `Selector` from the start of `payload`; the bytes after the
    /// structure are ignored.
    pub fn parse(payload: &[u8]) -> (r: Result<Selector, ParseError>)
        ensures
            payload.len() < XFRM_SELECTOR_LEN ==> r == Err::<Selector, ParseError>(
                ParseError::BufferTooSmall { received: payload.len(), expected: XFRM_SELECTOR_LEN },
            ),
            XFRM_SELECTOR_LEN <= payload.len() ==> (r matches Ok(v) && v.decodes(payload@)),
    {
        if payload.len() < XFRM_SELECTOR_LEN {
            Err(ParseError::BufferTooSmall { received: payload.len(), expected: XFRM_SELECTOR_LEN })
        } else {
            Ok(Selector::decode(payload))
        }
    }

    /// Appends the wire image to `out`.
    pub fn write_to(&self, out: &mut Vec<u8>)
        ensures
            final(out)@ == old(out)@ + self.spec_bytes(),
    {
        proof {
            reveal(Selector::spec_bytes);
        }
        self.daddr.write_to(out);
        self.saddr.write_to(out);
        push_u16_be(out, self.dport);
        push_u16_be(out, self.dport_mask);
        push_u16_be(out, self.sport);
        push_u16_be(out, self.sport_mask);
        push_u16_le(out, self.family);
        out.push(self.prefixlen_d);
        out.push(self.prefixlen_s);
        out.push(self.proto);
        push_zeros(out, 3);
        push_i32_le(out, self.ifindex);
        push_u32_le(out, self.user);
        assert(out@ =~= old(out)@ + self.spec_bytes());
    }

    /// The number of bytes `emit` writes.
    pub fn buffer_len(&self) -> (r: usize)
        ensures
            r == XFRM_SELECTOR_LEN,
            r == self.spec_bytes().len(),
    {
        proof {
            Selector::lemma_roundtrip(*self);
        }
        XFRM_SELECTOR_LEN
    }

    /// Writes the wire image over the first `XFRM_SELECTOR_LEN` bytes of `buffer`.
    pub fn emit(&self, buffer: &mut [u8])
        requires
            XFRM_SELECTOR_LEN <= old(buffer)@.len(),
        ensures
            final(buffer)@ == self.spec_bytes() + old(buffer)@.subrange(
                XFRM_SELECTOR_LEN as int,
                old(buffer)@.len() as int,
            ),
    {
        let raw = SelectorBuffer::from(self);
        proof {
            Selector::lemma_roundtrip(*self);
        }
        copy_prefix(buffer, raw.as_bytes());
    }
}

impl Default for Selector {
    fn default() -> (r: Selector)
        ensures
            r.is_default(),
    {
        Selector {
            daddr: Address::default(),
            saddr: Address::default(),
            dport: 0,
            dport_mask: 0,
            sport: 0,
            sport_mask: 0,
            family: 0,
            prefixlen_d: 0,
            prefixlen_s: 0,
            proto: 0,
            ifindex: 0,
            user: 0,
        }
    }
}

impl Selector {
    /// Decoding the wire image of a `Selector` gives back the same value,
    /// and the image is `XFRM_SELECTOR_LEN` bytes long.
    pub proof fn lemma_roundtrip(x: Selector)
        ensures
            x.spec_bytes().len() == XFRM_SELECTOR_LEN,
            x.decodes(x.spec_bytes()),
    {
        reveal(Selector::spec_bytes);
        reveal(Selector::decodes);
        let b = x.spec_bytes();
        Address::lemma_roundtrip(x.daddr);
        assert(b.subrange(0, 16) =~= x.daddr.spec_bytes());
        Address::lemma_roundtrip(x.saddr);
        assert(b.subrange(16, 32) =~= x.saddr.spec_bytes());
        assert(b.subrange(32, 34) =~= u16_be_bytes(x.dport));
        lemma_u16_be_field(b, 32, x.dport);
        assert(b.subrange(34, 36) =~= u16_be_bytes(x.dport_mask));
        lemma_u16_be_field(b, 34, x.dport_mask);
        assert(b.subrange(36, 38) =~= u16_be_bytes(x.sport));
        lemma_u16_be_field(b, 36, x.sport);
        assert(b.subrange(38, 40) =~= u16_be_bytes(x.sport_mask));
        lemma_u16_be_field(b, 38, x.sport_mask);
        assert(b.subrange(40, 42) =~= u16_le_bytes(x.family));
        lemma_u16_le_field(b, 40, x.family);
        assert(b.subrange(42, 43) =~= seq![x.prefixlen_d]);
        lemma_u8_field(b, 42, x.prefixlen_d);
        assert(b.subrange(43, 44) =~= seq![x.prefixlen_s]);
        lemma_u8_field(b, 43, x.prefixlen_s);
        assert(b.subrange(44, 45) =~= seq![x.proto]);
        lemma_u8_field(b, 44, x.proto);
        assert(b.subrange(48, 52) =~= i32_le_bytes(x.ifindex));
        lemma_i32_le_field(b, 48, x.ifindex);
        assert(b.subrange(52, 56) =~= u32_le_bytes(x.user));
        lemma_u32_le_field(b, 52, x.user);
    }

    /// The layout of the wire image: each field sits at its fixed offset of
    /// the kernel's structure, padding bytes are zero.
    pub proof fn lemma_layout(x: Selector)
        ensures
            x.spec_bytes().len() == XFRM_SELECTOR_LEN,
            x.spec_bytes().subrange(0, 16) == x.daddr.addr@,
            x.spec_bytes().subrange(16, 32) == x.saddr.addr@,
            u16_be_at(x.spec_bytes(), 32) == x.dport,
            u16_be_at(x.spec_bytes(), 34) == x.dport_mask,
            u16_be_at(x.spec_bytes(), 36) == x.sport,
            u16_be_at(x.spec_bytes(), 38) == x.sport_mask,
            u16_le_at(x.spec_bytes(), 40) == x.family,
            x.spec_bytes()[42] == x.prefixlen_d,
            x.spec_bytes()[43] == x.prefixlen_s,
            x.spec_bytes()[44] == x.proto,
            x.spec_bytes().subrange(45, 48) == zeros(3),
            i32_le_at(x.spec_bytes(), 48) == x.ifindex,
            u32_le_at(x.spec_bytes(), 52) == x.user,
    {
        reveal(Selector::spec_bytes);
        let b = x.spec_bytes();
        Address::lemma_roundtrip(x.daddr);
        assert(b.subrange(0, 16) =~= x.daddr.spec_bytes());
        Address::lemma_roundtrip(x.saddr);
        assert(b.subrange(16, 32) =~= x.saddr.spec_bytes());
        assert(b.subrange(32, 34) =~= u16_be_bytes(x.dport));
        lemma_u16_be_field(b, 32, x.dport);
        assert(b.subrange(34, 36) =~= u16_be_bytes(x.dport_mask));
        lemma_u16_be_field(b, 34, x.dport_mask);
        assert(b.subrange(36, 38) =~= u16_be_bytes(x.sport));
        lemma_u16_be_field(b, 36, x.sport);
        assert(b.subrange(38, 40) =~= u16_be_bytes(x.sport_mask));
        lemma_u16_be_field(b, 38, x.sport_mask);
        assert(b.subrange(40, 42) =~= u16_le_bytes(x.family));
        lemma_u16_le_field(b, 40, x.family);
        assert(b.subrange(42, 43) =~= seq![x.prefixlen_d]);
        lemma_u8_field(b, 42, x.prefixlen_d);
        assert(b.subrange(43, 44) =~= seq![x.prefixlen_s]);
        lemma_u8_field(b, 43, x.prefixlen_s);
        assert(b.subrange(44, 45) =~= seq![x.proto]);
        lemma_u8_field(b, 44, x.proto);
        assert(b.subrange(48, 52) =~= i32_le_bytes(x.ifindex));
        lemma_i32_le_field(b, 48, x.ifindex);
        assert(b.subrange(52, 56) =~= u32_le_bytes(x.user));
        lemma_u32_le_field(b, 52, x.user);
        assert(x.spec_bytes().subrange(45, 48) =~= zeros(3));
    }

    /// What decoding reads: each field from its fixed offset of `b`.
    pub proof fn lemma_decode_layout(x: Selector, b: Seq<u8>)
        requires
            XFRM_SELECTOR_LEN <= b.len(),
            x.decodes(b),
        ensures
            x.daddr.addr@ == b.subrange(0, 16),
            x.saddr.addr@ == b.subrange(16, 32),
            x.dport == u16_be_at(b, 32),
            x.dport_mask == u16_be_at(b, 34),
            x.sport == u16_be_at(b, 36),
            x.sport_mask == u16_be_at(b, 38),
            x.family == u16_le_at(b, 40),
            x.prefixlen_d == b[42],
            x.prefixlen_s == b[43],
            x.proto == b[44],
            x.ifindex == i32_le_at(b, 48),
            x.user == u32_le_at(b, 52),
    {
        reveal(Selector::decodes);
    }

    /// Encoding a value decoded from `b` gives back the first `XFRM_SELECTOR_LEN`
    /// bytes of `b`, with the padding bytes set to zero.
    pub proof fn lemma_reencode(x: Selector, b: Seq<u8>)
        requires
            XFRM_SELECTOR_LEN <= b.len(),
            x.decodes(b),
        ensures
            x.spec_bytes() == Selector::canonical(b),
    {
        reveal(Selector::spec_bytes);
        reveal(Selector::decodes);
        reveal(Selector::canonical);
        Address::lemma_reencode(x.daddr, b.subrange(0, 16));
        Address::lemma_reencode(x.saddr, b.subrange(16, 32));
        lemma_u16_be_bytes_of(b, 32);
        lemma_u16_be_bytes_of(b, 34);
        lemma_u16_be_bytes_of(b, 36);
        lemma_u16_be_bytes_of(b, 38);
        lemma_u16_le_bytes_of(b, 40);
        lemma_u8_bytes_of(b, 42);
        lemma_u8_bytes_of(b, 43);
        lemma_u8_bytes_of(b, 44);
        lemma_i32_le_bytes_of(b, 48);
        lemma_u32_le_bytes_of(b, 52);
    }

    /// Only the first `XFRM_SELECTOR_LEN` bytes of `b` matter to what it decodes to.
    pub proof fn lemma_decodes_prefix(x: Selector, b: Seq<u8>)
        requires
            XFRM_SELECTOR_LEN <= b.len(),
        ensures
            x.decodes(b) == x.decodes(b.subrange(0, XFRM_SELECTOR_LEN as int)),
    {
        reveal(Selector::decodes);
        let p = b.subrange(0, XFRM_SELECTOR_LEN as int);
        assert(forall|i: int| 0 <= i < XFRM_SELECTOR_LEN ==> #[trigger] p[i] == b[i]);
        assert(p.subrange(0, 16) =~= b.subrange(0, 16));
        assert(p.subrange(16, 32) =~= b.subrange(16, 32));
    }

    /// At most one value decodes from given bytes.
    pub proof fn lemma_decodes_unique(x: Selector, y: Selector, b: Seq<u8>)
        requires
            XFRM_SELECTOR_LEN <= b.len(),
            x.decodes(b),
            y.decodes(b),
        ensures
            x == y,
    {
        reveal(Selector::decodes);
        Address::lemma_decodes_unique(x.daddr, y.daddr, b.subrange(0, 16));
        Address::lemma_decodes_unique(x.saddr, y.saddr, b.subrange(16, 32));
    }
}

/// The wire image of a `Selector`, as laid out in the kernel's structure.
pub struct SelectorBuffer {
    bytes: Vec<u8>,
}

impl View for SelectorBuffer {
    type V = Seq<u8>;

    closed spec fn view(&self) -> Seq<u8> {
        self.bytes@
    }
}

impl SelectorBuffer {
    /// Lays out `value` in its wire image.
    pub fn from(value: &Selector) -> (r: SelectorBuffer)
        ensures
            r@ == value.spec_bytes(),
    {
        let mut bytes: Vec<u8> = Vec::new();
        value.write_to(&mut bytes);
        assert(bytes@ =~= value.spec_bytes());
        SelectorBuffer { bytes }
    }

    /// The bytes of the image.
    pub fn as_bytes(&self) -> (r: &[u8])
        ensures
            r@ == self@,
    {
        self.bytes.as_slice()
    }
}

impl Selector {
    fn family(&mut self, addr: &IpAddress)
        ensures
            *final(self) == (Selector { family: family_of(*addr), ..*old(self) }),
    {
        if addr.is_ipv4() {
            self.family = AF_INET;
        } else if addr.is_ipv6() {
            self.family = AF_INET6;
        }
    }

    /// Sets the source address and prefix length, and the family to match
    /// the address. The unspecified address always gets prefix length 0.
    pub fn source_prefix(&mut self, addr: &IpAddress, prefixlen: u8)
        ensures
            final(self).saddr.spec_from_ip(*addr),
            *final(self) == (Selector {
                saddr: final(self).saddr,
                prefixlen_s: if addr.spec_is_unspecified() { 0u8 } else { prefixlen },
                family: family_of(*addr),
                ..*old(self)
            }),
    {
        self.saddr = Address::from_ip(addr);

        if addr.is_unspecified() {
            self.prefixlen_s = 0;
        } else {
            self.prefixlen_s = prefixlen;
        }
        self.family(addr);
    }

    /// Sets the destination address and prefix length, and the family to
    /// match the address. The unspecified address always gets prefix
    /// length 0.
    pub fn destination_prefix(&mut self, addr: &IpAddress, prefixlen: u8)
        ensures
            final(self).daddr.spec_from_ip(*addr),
            *final(self) == (Selector {
                daddr: final(self).daddr,
                prefixlen_d: if addr.spec_is_unspecified() { 0u8 } else { prefixlen },
                family: family_of(*addr),
                ..*old(self)
            }),
    {
        self.daddr = Address::from_ip(addr);

        if addr.is_unspecified() {
            self.prefixlen_d = 0;
        } else {
            self.prefixlen_d = prefixlen;
        }
        self.family(addr);
    }
}

} // verus!
