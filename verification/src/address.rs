//! The 16-byte address field that the XFRM interface uses for IPv4 and
//! IPv6 addresses alike, and the plain IP address values it is built from.

use vstd::prelude::*;
use crate::constants::{AF_INET, AF_INET6};
use crate::wire::{array_from_prefix, copy_prefix, push_slice, zeros, ParseError};

verus! {

pub const XFRM_ADDRESS_LEN: usize = 16;

/// An address as the XFRM interface carries it: 16 bytes, an IPv4 address
/// taking the first four and leaving the others zero.
#[derive(Debug, Clone, Copy, Eq, PartialEq)]
pub struct Address {
    pub addr: [u8; XFRM_ADDRESS_LEN],
}

/// An IP address given by its octets, in network order.
#[derive(Debug, Clone, Copy, Eq, PartialEq)]
pub enum IpAddress {
    V4([u8; 4]),
    V6([u8; 16]),
}

/// The address family of `ip`: `AF_INET` or `AF_INET6`.
pub open spec fn family_of(ip: IpAddress) -> u16 {
    match ip {
        IpAddress::V4(_) => AF_INET,
        IpAddress::V6(_) => AF_INET6,
    }
}

impl IpAddress {
    /// The address is all zeros (`0.0.0.0` or `::`).
    pub open spec fn spec_is_unspecified(&self) -> bool {
        match self {
            IpAddress::V4(o) => o@ == zeros(4),
            IpAddress::V6(o) => o@ == zeros(16),
        }
    }

    pub fn is_ipv4(&self) -> (r: bool)
        ensures
            r == (self is V4),
    {
        match self {
            IpAddress::V4(_) => true,
            IpAddress::V6(_) => false,
        }
    }

    pub fn is_ipv6(&self) -> (r: bool)
        ensures
            r == (self is V6),
    {
        match self {
            IpAddress::V4(_) => false,
            IpAddress::V6(_) => true,
        }
    }

    pub fn is_unspecified(&self) -> (r: bool)
        ensures
            r == self.spec_is_unspecified(),
    {
        match self {
            IpAddress::V4(o) => {
                let r = all_zero(o.as_slice());
                assert(o@ == zeros(4) <==> (forall|i: int| 0 <= i < 4 ==> o@[i] == 0)) by {
                    if forall|i: int| 0 <= i < 4 ==> o@[i] == 0 {
                        assert(o@ =~= zeros(4));
                    }
                }
                r
            },
            IpAddress::V6(o) => {
                let r = all_zero(o.as_slice());
                assert(o@ == zeros(16) <==> (forall|i: int| 0 <= i < 16 ==> o@[i] == 0)) by {
                    if forall|i: int| 0 <= i < 16 ==> o@[i] == 0 {
                        assert(o@ =~= zeros(16));
                    }
                }
                r
            },
        }
    }
}

fn all_zero(s: &[u8]) -> (r: bool)
    ensures
        r == (forall|i: int| 0 <= i < s@.len() ==> s@[i] == 0),
{
    let mut i: usize = 0;
    while i < s.len()
        invariant
            i <= s@.len(),
            forall|j: int| 0 <= j < i ==> s@[j] == 0,
        decreases s@.len() - i,
    {
        if s[i] != 0 {
            return false;
        }
        i = i + 1;
    }
    true
}

impl Address {
    /// The wire image: the 16 bytes as they are.
    pub open spec fn spec_bytes(&self) -> Seq<u8> {
        self.addr@
    }

    /// `self` is what the first `XFRM_ADDRESS_LEN` bytes of `b` describe.
    pub open spec fn decodes(&self, b: Seq<u8>) -> bool {
        self.addr@ == b.subrange(0, XFRM_ADDRESS_LEN as int)
    }

    /// `self` holds the values that `default()` gives.
    pub open spec fn is_default(&self) -> bool {
        self.addr@ == zeros(XFRM_ADDRESS_LEN as nat)
    }

    /// The address that `ip` is stored as: an IPv4 address fills the first
    /// four bytes, an IPv6 address all sixteen.
    pub open spec fn spec_from_ip(&self, ip: IpAddress) -> bool {
        match ip {
            IpAddress::V4(o) => self.addr@ == o@ + zeros(12),
            IpAddress::V6(o) => self.addr@ == o@,
        }
    }

    /// Decodes the first `XFRM_ADDRESS_LEN` bytes of `s`.
    pub fn decode(s: &[u8]) -> (r: Address)
        requires
            XFRM_ADDRESS_LEN <= s.len(),
        ensures
            r.decodes(s@),
    {
        Address { addr: array_from_prefix(s) }
    }

    /// Decodes an `Address` from the start of `payload`; the bytes after it
    /// are ignored.
    pub fn parse(payload: &[u8]) -> (r: Result<Address, ParseError>)
        ensures
            payload.len() < XFRM_ADDRESS_LEN ==> r == Err::<Address, ParseError>(
                ParseError::BufferTooSmall { received: payload.len(), expected: XFRM_ADDRESS_LEN },
            ),
            XFRM_ADDRESS_LEN <= payload.len() ==> (r matches Ok(v) && v.decodes(payload@)),
    {
        if payload.len() < XFRM_ADDRESS_LEN {
            Err(ParseError::BufferTooSmall { received: payload.len(), expected: XFRM_ADDRESS_LEN })
        } else {
            Ok(Address::decode(payload))
        }
    }

    /// Appends the wire image to `out`.
    pub fn write_to(&self, out: &mut Vec<u8>)
        ensures
            final(out)@ == old(out)@ + self.spec_bytes(),
    {
        push_slice(out, self.addr.as_slice());
    }

    /// The number of bytes `emit` writes.
    pub fn buffer_len(&self) -> (r: usize)
        ensures
            r == XFRM_ADDRESS_LEN,
            r == self.spec_bytes().len(),
    {
        XFRM_ADDRESS_LEN
    }

    /// Writes the 16 bytes over the start of `buffer`.
    pub fn emit(&self, buffer: &mut [u8])
        requires
            XFRM_ADDRESS_LEN <= old(buffer)@.len(),
        ensures
            final(buffer)@ == self.spec_bytes() + old(buffer)@.subrange(
                XFRM_ADDRESS_LEN as int,
                old(buffer)@.len() as int,
            ),
    {
        let raw = AddressBuffer::from(self);
        copy_prefix(buffer, raw.as_bytes());
    }

    /// The first four bytes, as an IPv4 address.
    pub fn to_ipv4(&self) -> (r: [u8; 4])
        ensures
            r@ == self.addr@.subrange(0, 4),
    {
        let r = [self.addr[0], self.addr[1], self.addr[2], self.addr[3]];
        assert(r@ =~= self.addr@.subrange(0, 4));
        r
    }

    /// The sixteen bytes, as an IPv6 address.
    pub fn to_ipv6(&self) -> (r: [u8; 16])
        ensures
            r@ == self.addr@,
    {
        self.addr
    }

    /// The address that holds `ip` in its first four bytes, zeros after.
    pub fn from_ipv4(ip: &[u8; 4]) -> (r: Address)
        ensures
            r.addr@ == ip@ + zeros(12),
    {
        let mut addr_bytes: [u8; XFRM_ADDRESS_LEN] = [0; XFRM_ADDRESS_LEN];
        addr_bytes[0] = ip[0];
        addr_bytes[1] = ip[1];
        addr_bytes[2] = ip[2];
        addr_bytes[3] = ip[3];
        assert(addr_bytes@ =~= ip@ + zeros(12));
        Address { addr: addr_bytes }
    }

    /// The address that holds `ip`.
    pub fn from_ipv6(ip: &[u8; 16]) -> (r: Address)
        ensures
            r.addr@ == ip@,
    {
        Address { addr: *ip }
    }

    /// The address that holds `ip`, whichever family it has.
    pub fn from_ip(ip: &IpAddress) -> (r: Address)
        ensures
            r.spec_from_ip(*ip),
    {
        match ip {
            IpAddress::V4(v4) => Self::from_ipv4(v4),
            IpAddress::V6(v6) => Self::from_ipv6(v6),
        }
    }
}

impl Default for Address {
    fn default() -> (r: Address)
        ensures
            r.is_default(),
    {
        let r = Address { addr: [0u8; XFRM_ADDRESS_LEN] };
        assert(r.addr@ =~= zeros(XFRM_ADDRESS_LEN as nat));
        r
    }
}

impl Address {
    /// Decoding the wire image of an `Address` gives back the same address, and
    /// the image is `XFRM_ADDRESS_LEN` bytes long.
    pub proof fn lemma_roundtrip(x: Address)
        ensures
            x.spec_bytes().len() == XFRM_ADDRESS_LEN,
            x.decodes(x.spec_bytes()),
    {
        assert(x.addr@.subrange(0, XFRM_ADDRESS_LEN as int) =~= x.addr@);
    }

    /// The first `XFRM_ADDRESS_LEN` bytes of `b`.
    pub open spec fn canonical(b: Seq<u8>) -> Seq<u8> {
        b.subrange(0, XFRM_ADDRESS_LEN as int)
    }

    /// Encoding an address decoded from `b` gives back the first
    /// `XFRM_ADDRESS_LEN` bytes of `b`.
    pub proof fn lemma_reencode(x: Address, b: Seq<u8>)
        requires
            XFRM_ADDRESS_LEN <= b.len(),
            x.decodes(b),
        ensures
            x.spec_bytes() == Address::canonical(b),
    {
    }

    /// Only the first `XFRM_ADDRESS_LEN` bytes of `b` matter to what it
    /// decodes to.
    pub proof fn lemma_decodes_prefix(x: Address, b: Seq<u8>)
        requires
            XFRM_ADDRESS_LEN <= b.len(),
        ensures
            x.decodes(b) == x.decodes(b.subrange(0, XFRM_ADDRESS_LEN as int)),
    {
        assert(b.subrange(0, XFRM_ADDRESS_LEN as int).subrange(0, XFRM_ADDRESS_LEN as int)
            =~= b.subrange(0, XFRM_ADDRESS_LEN as int));
    }

    /// At most one address decodes from given bytes.
    pub proof fn lemma_decodes_unique(x: Address, y: Address, b: Seq<u8>)
        requires
            XFRM_ADDRESS_LEN <= b.len(),
            x.decodes(b),
            y.decodes(b),
        ensures
            x == y,
    {
        assert(x.addr =~= y.addr);
    }
}

/// The wire image of an `Address`.
pub struct AddressBuffer {
    bytes: Vec<u8>,
}

impl View for AddressBuffer {
    type V = Seq<u8>;

    closed spec fn view(&self) -> Seq<u8> {
        self.bytes@
    }
}

impl AddressBuffer {
    /// Lays out `value` in its wire image.
    pub fn from(value: &Address) -> (r: AddressBuffer)
        ensures
            r@ == value.spec_bytes(),
    {
        let mut bytes: Vec<u8> = Vec::new();
        value.write_to(&mut bytes);
        assert(bytes@ =~= value.spec_bytes());
        AddressBuffer { bytes }
    }

    /// The bytes of the image.
    pub fn as_bytes(&self) -> (r: &[u8])
        ensures
            r@ == self@,
    {
        self.bytes.as_slice()
    }
}

} // verus!
