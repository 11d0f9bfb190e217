//! The `xfrm_user_tmpl` structure.

use vstd::prelude::*;
use vstd::slice::slice_subrange;
use crate::wire::{
    copy_prefix,
    lemma_u16_le_bytes_of,
    lemma_u16_le_field,
    lemma_u32_le_bytes_of,
    lemma_u32_le_field,
    lemma_u8_bytes_of,
    lemma_u8_field,
    push_u16_le,
    push_u32_le,
    push_zeros,
    read_u16_le,
    read_u32_le,
    u16_le_at,
    u16_le_bytes,
    u32_le_at,
    u32_le_bytes,
    zeros,
    ParseError,
};
use crate::address::{family_of, Address, IpAddress};
use crate::id::{Id};
use crate::constants::{AF_INET, AF_INET6};

verus! {

/// A template of the states a policy requires.
#[derive(Debug, Clone, Copy, Eq, PartialEq)]
pub struct UserTemplate {
    pub id: Id,
    pub family: u16,
    pub saddr: Address,
    pub reqid: u32,
    pub mode: u8,
    pub share: u8,
    pub optional: u8,
    pub aalgos: u32,
    pub ealgos: u32,
    pub calgos: u32,
}

pub const XFRM_USER_TEMPLATE_LEN: usize = 64;

impl UserTemplate {
    /// The first `XFRM_USER_TEMPLATE_LEN` bytes of `b` with every padding byte set to zero.
    #[verifier::opaque]
    pub open spec fn canonical(b: Seq<u8>) -> Seq<u8> {
        Id::canonical(b.subrange(0, 24))
            + b.subrange(24, 26)
            + zeros(2)
            + Address::canonical(b.subrange(28, 44))
            + b.subrange(44, 48)
            + b.subrange(48, 49)
            + b.subrange(49, 50)
            + b.subrange(50, 51)
            + zeros(1)
            + b.subrange(52, 56)
            + b.subrange(56, 60)
            + b.subrange(60, 64)
    }

    /// The wire image: the fields in order, padding as zero bytes.
    #[verifier::opaque]
    pub open spec fn spec_bytes(&self) -> Seq<u8> {
        self.id.spec_bytes()
            + u16_le_bytes(self.family)
            + zeros(2)
            + self.saddr.spec_bytes()
            + u32_le_bytes(self.reqid)
            + seq![self.mode]
            + seq![self.share]
            + seq![self.optional]
            + zeros(1)
            + u32_le_bytes(self.aalgos)
            + u32_le_bytes(self.ealgos)
            + u32_le_bytes(self.calgos)
    }

    /// `self` is what the first `XFRM_USER_TEMPLATE_LEN` bytes of `b` describe.
    #[verifier::opaque]
    pub open spec fn decodes(&self, b: Seq<u8>) -> bool {
        &&& self.id.decodes(b.subrange(0, 24))
        &&& self.family == u16_le_at(b, 24)
        &&& self.saddr.decodes(b.subrange(28, 44))
        &&& self.reqid == u32_le_at(b, 44)
        &&& self.mode == b[48]
        &&& self.share == b[49]
        &&& self.optional == b[50]
        &&& self.aalgos == u32_le_at(b, 52)
        &&& self.ealgos == u32_le_at(b, 56)
        &&& self.calgos == u32_le_at(b, 60)
    }

    /// `self` holds the values that `default()` gives.
    pub open spec fn is_default(&self) -> bool {
        &&& self.id.is_default()
        &&& self.family == 0
        &&& self.saddr.is_default()
        &&& self.reqid == 0
        &&& self.mode == 0
        &&& self.share == 0
        &&& self.optional == 0
        &&& self.aalgos == u32::MAX
        &&& self.ealgos == u32::MAX
        &&& self.calgos == u32::MAX
    }

    /// Decodes the first `XFRM_USER_TEMPLATE_LEN` bytes of `s`.
    pub fn decode(s: &[u8]) -> (r: UserTemplate)
        requires
            XFRM_USER_TEMPLATE_LEN <= s.len(),
        ensures
            r.decodes(s@),
    {
        proof {
            reveal(UserTemplate::decodes);
        }
        UserTemplate {
            id: Id::decode(slice_subrange(s, 0, 24)),
            family: read_u16_le(s, 24),
            saddr: Address::decode(slice_subrange(s, 28, 44)),
            reqid: read_u32_le(s, 44),
            mode: s[48],
            share: s[49],
            optional: s[50],
            aalgos: read_u32_le(s, 52),
            ealgos: read_u32_le(s, 56),
            calgos: read_u32_le(s, 60),
        }
    }

    /// Decodes a `UserTemplate` from the start of `payload`; the bytes after the
    /// structure are ignored.
    pub fn parse(payload: &[u8]) -> (r: Result<UserTemplate, ParseError>)
        ensures
            payload.len() < XFRM_USER_TEMPLATE_LEN ==> r == Err::<UserTemplate, ParseError>(
                ParseError::BufferTooSmall { received: payload.len(), expected: XFRM_USER_TEMPLATE_LEN },
            ),
            XFRM_USER_TEMPLATE_LEN <= payload.len() ==> (r matches Ok(v) && v.decodes(payload@)),
    {
        if payload.len() < XFRM_USER_TEMPLATE_LEN {
            Err(ParseError::BufferTooSmall { received: payload.len(), expected: XFRM_USER_TEMPLATE_LEN })
        } else {
            Ok(UserTemplate::decode(payload))
        }
    }

    /// Appends the wire image to `out`.
    pub fn write_to(&self, out: &mut Vec<u8>)
        ensures
            final(out)@ == old(out)@ + self.spec_bytes(),
    {
        proof {
            reveal(UserTemplate::spec_bytes);
        }
        self.id.write_to(out);
        push_u16_le(out, self.family);
        push_zeros(out, 2);
        self.saddr.write_to(out);
        push_u32_le(out, self.reqid);
        out.push(self.mode);
        out.push(self.share);
        out.push(self.optional);
        push_zeros(out, 1);
        push_u32_le(out, self.aalgos);
        push_u32_le(out, self.ealgos);
        push_u32_le(out, self.calgos);
        assert(out@ =~= old(out)@ + self.spec_bytes());
    }

    /// The number of bytes `emit` writes.
    pub fn buffer_len(&self) -> (r: usize)
        ensures
            r == XFRM_USER_TEMPLATE_LEN,
            r == self.spec_bytes().len(),
    {
        proof {
            UserTemplate::lemma_roundtrip(*self);
        }
        XFRM_USER_TEMPLATE_LEN
    }

    /// Writes the wire image over the first `XFRM_USER_TEMPLATE_LEN` bytes of `buffer`.
    pub fn emit(&self, buffer: &mut [u8])
        requires
            XFRM_USER_TEMPLATE_LEN <= old(buffer)@.len(),
        ensures
            final(buffer)@ == self.spec_bytes() + old(buffer)@.subrange(
                XFRM_USER_TEMPLATE_LEN as int,
                old(buffer)@.len() as int,
            ),
    {
        let raw = UserTemplateBuffer::from(self);
        proof {
            UserTemplate::lemma_roundtrip(*self);
        }
        copy_prefix(buffer, raw.as_bytes());
    }
}

impl Default for UserTemplate {
    fn default() -> (r: UserTemplate)
        ensures
            r.is_default(),
    {
        UserTemplate {
            id: Id::default(),
            family: 0,
            saddr: Address::default(),
            reqid: 0,
            mode: 0,
            share: 0,
            optional: 0,
            aalgos: u32::MAX,
            ealgos: u32::MAX,
            calgos: u32::MAX,
        }
    }
}

impl UserTemplate {
    /// Decoding the wire image of a `UserTemplate` gives back the same value,
    /// and the image is `XFRM_USER_TEMPLATE_LEN` bytes long.
    pub proof fn lemma_roundtrip(x: UserTemplate)
        ensures
            x.spec_bytes().len() == XFRM_USER_TEMPLATE_LEN,
            x.decodes(x.spec_bytes()),
    {
        reveal(UserTemplate::spec_bytes);
        reveal(UserTemplate::decodes);
        let b = x.spec_bytes();
        Id::lemma_roundtrip(x.id);
        assert(b.subrange(0, 24) =~= x.id.spec_bytes());
        assert(b.subrange(24, 26) =~= u16_le_bytes(x.family));
        lemma_u16_le_field(b, 24, x.family);
        Address::lemma_roundtrip(x.saddr);
        assert(b.subrange(28, 44) =~= x.saddr.spec_bytes());
        assert(b.subrange(44, 48) =~= u32_le_bytes(x.reqid));
        lemma_u32_le_field(b, 44, x.reqid);
        assert(b.subrange(48, 49) =~= seq![x.mode]);
        lemma_u8_field(b, 48, x.mode);
        assert(b.subrange(49, 50) =~= seq![x.share]);
        lemma_u8_field(b, 49, x.share);
        assert(b.subrange(50, 51) =~= seq![x.optional]);
        lemma_u8_field(b, 50, x.optional);
        assert(b.subrange(52, 56) =~= u32_le_bytes(x.aalgos));
        lemma_u32_le_field(b, 52, x.aalgos);
        assert(b.subrange(56, 60) =~= u32_le_bytes(x.ealgos));
        lemma_u32_le_field(b, 56, x.ealgos);
        assert(b.subrange(60, 64) =~= u32_le_bytes(x.calgos));
        lemma_u32_le_field(b, 60, x.calgos);
    }

    /// The layout of the wire image: each field sits at its fixed offset of
    /// the kernel's structure, padding bytes are zero.
    pub proof fn lemma_layout(x: UserTemplate)
        ensures
            x.spec_bytes().len() == XFRM_USER_TEMPLATE_LEN,
            x.spec_bytes().subrange(0, 24) == x.id.spec_bytes(),
            u16_le_at(x.spec_bytes(), 24) == x.family,
            x.spec_bytes().subrange(26, 28) == zeros(2),
            x.spec_bytes().subrange(28, 44) == x.saddr.addr@,
            u32_le_at(x.spec_bytes(), 44) == x.reqid,
            x.spec_bytes()[48] == x.mode,
            x.spec_bytes()[49] == x.share,
            x.spec_bytes()[50] == x.optional,
            x.spec_bytes().subrange(51, 52) == zeros(1),
            u32_le_at(x.spec_bytes(), 52) == x.aalgos,
            u32_le_at(x.spec_bytes(), 56) == x.ealgos,
            u32_le_at(x.spec_bytes(), 60) == x.calgos,
    {
        reveal(UserTemplate::spec_bytes);
        let b = x.spec_bytes();
        Id::lemma_roundtrip(x.id);
        assert(b.subrange(0, 24) =~= x.id.spec_bytes());
        assert(b.subrange(24, 26) =~= u16_le_bytes(x.family));
        lemma_u16_le_field(b, 24, x.family);
        Address::lemma_roundtrip(x.saddr);
        assert(b.subrange(28, 44) =~= x.saddr.spec_bytes());
        assert(b.subrange(44, 48) =~= u32_le_bytes(x.reqid));
        lemma_u32_le_field(b, 44, x.reqid);
        assert(b.subrange(48, 49) =~= seq![x.mode]);
        lemma_u8_field(b, 48, x.mode);
        assert(b.subrange(49, 50) =~= seq![x.share]);
        lemma_u8_field(b, 49, x.share);
        assert(b.subrange(50, 51) =~= seq![x.optional]);
        lemma_u8_field(b, 50, x.optional);
        assert(b.subrange(52, 56) =~= u32_le_bytes(x.aalgos));
        lemma_u32_le_field(b, 52, x.aalgos);
        assert(b.subrange(56, 60) =~= u32_le_bytes(x.ealgos));
        lemma_u32_le_field(b, 56, x.ealgos);
        assert(b.subrange(60, 64) =~= u32_le_bytes(x.calgos));
        lemma_u32_le_field(b, 60, x.calgos);
        assert(x.spec_bytes().subrange(26, 28) =~= zeros(2));
        assert(x.spec_bytes().subrange(51, 52) =~= zeros(1));
    }

    /// What decoding reads: each field from its fixed offset of `b`.
    pub proof fn lemma_decode_layout(x: UserTemplate, b: Seq<u8>)
        requires
            XFRM_USER_TEMPLATE_LEN <= b.len(),
            x.decodes(b),
        ensures
            x.id.decodes(b.subrange(0, 24)),
            x.family == u16_le_at(b, 24),
            x.saddr.addr@ == b.subrange(28, 44),
            x.reqid == u32_le_at(b, 44),
            x.mode == b[48],
            x.share == b[49],
            x.optional == b[50],
            x.aalgos == u32_le_at(b, 52),
            x.ealgos == u32_le_at(b, 56),
            x.calgos == u32_le_at(b, 60),
    {
        reveal(UserTemplate::decodes);
    }

    /// Encoding a value decoded from `b` gives back the first `XFRM_USER_TEMPLATE_LEN`
    /// bytes of `b`, with the padding bytes set to zero.
    pub proof fn lemma_reencode(x: UserTemplate, b: Seq<u8>)
        requires
            XFRM_USER_TEMPLATE_LEN <= b.len(),
            x.decodes(b),
        ensures
            x.spec_bytes() == UserTemplate::canonical(b),
    {
        reveal(UserTemplate::spec_bytes);
        reveal(UserTemplate::decodes);
        reveal(UserTemplate::canonical);
        Id::lemma_reencode(x.id, b.subrange(0, 24));
        lemma_u16_le_bytes_of(b, 24);
        Address::lemma_reencode(x.saddr, b.subrange(28, 44));
        lemma_u32_le_bytes_of(b, 44);
        lemma_u8_bytes_of(b, 48);
        lemma_u8_bytes_of(b, 49);
        lemma_u8_bytes_of(b, 50);
        lemma_u32_le_bytes_of(b, 52);
        lemma_u32_le_bytes_of(b, 56);
        lemma_u32_le_bytes_of(b, 60);
    }

    /// Only the first `XFRM_USER_TEMPLATE_LEN` bytes of `b` matter to what it decodes to.
    pub proof fn lemma_decodes_prefix(x: UserTemplate, b: Seq<u8>)
        requires
            XFRM_USER_TEMPLATE_LEN <= b.len(),
        ensures
            x.decodes(b) == x.decodes(b.subrange(0, XFRM_USER_TEMPLATE_LEN as int)),
    {
        reveal(UserTemplate::decodes);
        let p = b.subrange(0, XFRM_USER_TEMPLATE_LEN as int);
        assert(forall|i: int| 0 <= i < XFRM_USER_TEMPLATE_LEN ==> #[trigger] p[i] == b[i]);
        assert(p.subrange(0, 24) =~= b.subrange(0, 24));
        assert(p.subrange(28, 44) =~= b.subrange(28, 44));
    }

    /// At most one value decodes from given bytes.
    pub proof fn lemma_decodes_unique(x: UserTemplate, y: UserTemplate, b: Seq<u8>)
        requires
            XFRM_USER_TEMPLATE_LEN <= b.len(),
            x.decodes(b),
            y.decodes(b),
        ensures
            x == y,
    {
        reveal(UserTemplate::decodes);
        Id::lemma_decodes_unique(x.id, y.id, b.subrange(0, 24));
        Address::lemma_decodes_unique(x.saddr, y.saddr, b.subrange(28, 44));
    }
}

/// The wire image of a `UserTemplate`, as laid out in the kernel's structure.
pub struct UserTemplateBuffer {
    bytes: Vec<u8>,
}

impl View for UserTemplateBuffer {
    type V = Seq<u8>;

    closed spec fn view(&self) -> Seq<u8> {
        self.bytes@
    }
}

impl UserTemplateBuffer {
    /// Lays out `value` in its wire image.
    pub fn from(value: &UserTemplate) -> (r: UserTemplateBuffer)
        ensures
            r@ == value.spec_bytes(),
    {
        let mut bytes: Vec<u8> = Vec::new();
        value.write_to(&mut bytes);
        assert(bytes@ =~= value.spec_bytes());
        UserTemplateBuffer { bytes }
    }

    /// The bytes of the image.
    pub fn as_bytes(&self) -> (r: &[u8])
        ensures
            r@ == self@,
    {
        self.bytes.as_slice()
    }
}

impl UserTemplate {
    fn family(&mut self, addr: &IpAddress)
        ensures
            *final(self) == (UserTemplate { family: family_of(*addr), ..*old(self) }),
    {
        if addr.is_ipv4() {
            self.family = AF_INET;
        } else if addr.is_ipv6() {
            self.family = AF_INET6;
        }
    }

    /// Sets the source address. Automatically sets the
    /// family to AF_INET or AF_INET6 depending on the type of
    /// the address. The source and destination addresses
    /// should be the same type.
    pub fn source(&mut self, addr: &IpAddress)
        ensures
            final(self).saddr.spec_from_ip(*addr),
            *final(self) == (UserTemplate {
                saddr: final(self).saddr,
                family: family_of(*addr),
                ..*old(self)
            }),
    {
        self.saddr = Address::from_ip(addr);
        self.family(addr);
    }

    /// Sets the destination address. Automatically sets the
    /// family to AF_INET or AF_INET6 depending on the type of
    /// the address. The source and destination addresses
    /// should be the same type.
    pub fn destination(&mut self, addr: &IpAddress)
        ensures
            final(self).id.daddr.spec_from_ip(*addr),
            *final(self) == (UserTemplate {
                id: Id { daddr: final(self).id.daddr, ..old(self).id },
                family: family_of(*addr),
                ..*old(self)
            }),
    {
        self.id.daddr = Address::from_ip(addr);
        self.family(addr);
    }

    /// Sets the transform protocol. Should be one of:
    ///   IPPROTO_ESP (50)
    ///   IPPROTO_AH (51)
    ///   PPROTO_COMP (108)
    ///   IPPROTO_ROUTING (43)
    ///   IPPROTO_DSTOPTS (60)
    ///   IPSEC_PROTO_ANY (255)
    pub fn protocol(&mut self, proto: u8)
        ensures
            *final(self) == (UserTemplate { id: Id { proto: proto, ..old(self).id }, ..*old(self) }),
    {
        self.id.proto = proto;
    }

    /// Sets the transform mode. Should be one of:
    ///   XFRM_MODE_TRANSPORT (0)
    ///   XFRM_MODE_TUNNEL (1)
    ///   XFRM_MODE_ROUTEOPTIMIZATION (2)
    ///   XFRM_MODE_IN_TRIGGER (3)
    ///   XFRM_MODE_BEET (4)
    pub fn mode(&mut self, mode: u8)
        ensures
            *final(self) == (UserTemplate { mode: mode, ..*old(self) }),
    {
        self.mode = mode;
    }

    /// Sets the SPI.
    pub fn spi(&mut self, spi: u32)
        ensures
            *final(self) == (UserTemplate { id: Id { spi: spi, ..old(self).id }, ..*old(self) }),
    {
        self.id.spi = spi;
    }

    /// Set true to make the use of this template optional.
    /// The default is false (required).
    pub fn optional(&mut self, optional: bool)
        ensures
            *final(self) == (UserTemplate {
                optional: if optional { 1u8 } else { 0u8 },
                ..*old(self)
            }),
    {
        self.optional = if optional { 1 } else { 0 };
    }

    /// Sets the request id that ties the template to its states.
    pub fn reqid(&mut self, reqid: u32)
        ensures
            *final(self) == (UserTemplate { reqid: reqid, ..*old(self) }),
    {
        self.reqid = reqid;
    }
}

} // verus!
