//! The `xfrm_usersa_info` structure.

use vstd::prelude::*;
use vstd::slice::slice_subrange;
use crate::wire::{
    copy_prefix,
    lemma_u16_le_bytes_of,
    lemma_u16_le_field,
    lemma_u32_le_bytes_of,
    lemma_u32_le_field,
    lemma_u8_bytes_of,
    lemma_u8_field,
    push_u16_le,
    push_u32_le,
    push_zeros,
    read_u16_le,
    read_u32_le,
    u16_le_at,
    u16_le_bytes,
    u32_le_at,
    u32_le_bytes,
    zeros,
    ParseError,
};
use crate::address::{family_of, Address, IpAddress};
use crate::id::{Id};
use crate::lifetime::{Lifetime, LifetimeConfig};
use crate::selector::{Selector};
use crate::stats::{Stats};
use crate::constants::{AF_INET, AF_INET6};

verus! {

/// A security association as it is added, updated or reported.
#[derive(Debug, Clone, Copy, Eq, PartialEq)]
pub struct UserSaInfo {
    pub selector: Selector,
    pub id: Id,
    pub saddr: Address,
    pub lifetime_cfg: LifetimeConfig,
    pub lifetime_cur: Lifetime,
    pub stats: Stats,
    pub seq: u32,
    pub reqid: u32,
    pub family: u16,
    pub mode: u8,
    pub replay_window: u8,
    pub flags: u8,
}

pub const XFRM_USER_SA_INFO_LEN: usize = 224;

impl UserSaInfo {
    /// The first `XFRM_USER_SA_INFO_LEN` bytes of `b` with every padding byte set to zero.
    #[verifier::opaque]
    pub open spec fn canonical(b: Seq<u8>) -> Seq<u8> {
        Selector::canonical(b.subrange(0, 56))
            + Id::canonical(b.subrange(56, 80))
            + Address::canonical(b.subrange(80, 96))
            + LifetimeConfig::canonical(b.subrange(96, 160))
            + Lifetime::canonical(b.subrange(160, 192))
            + Stats::canonical(b.subrange(192, 204))
            + b.subrange(204, 208)
            + b.subrange(208, 212)
            + b.subrange(212, 214)
            + b.subrange(214, 215)
            + b.subrange(215, 216)
            + b.subrange(216, 217)
            + zeros(7)
    }

    /// The wire image: the fields in order, padding as zero bytes.
    #[verifier::opaque]
    pub open spec fn spec_bytes(&self) -> Seq<u8> {
        self.selector.spec_bytes()
            + self.id.spec_bytes()
            + self.saddr.spec_bytes()
            + self.lifetime_cfg.spec_bytes()
            + self.lifetime_cur.spec_bytes()
            + self.stats.spec_bytes()
            + u32_le_bytes(self.seq)
            + u32_le_bytes(self.reqid)
            + u16_le_bytes(self.family)
            + seq![self.mode]
            + seq![self.replay_window]
            + seq![self.flags]
            + zeros(7)
    }

    /// `self` is what the first `XFRM_USER_SA_INFO_LEN` bytes of `b` describe.
    #[verifier::opaque]
    pub open spec fn decodes(&self, b: Seq<u8>) -> bool {
        &&& self.selector.decodes(b.subrange(0, 56))
        &&& self.id.decodes(b.subrange(56, 80))
        &&& self.saddr.decodes(b.subrange(80, 96))
        &&& self.lifetime_cfg.decodes(b.subrange(96, 160))
        &&& self.lifetime_cur.decodes(b.subrange(160, 192))
        &&& self.stats.decodes(b.subrange(192, 204))
        &&& self.seq == u32_le_at(b, 204)
        &&& self.reqid == u32_le_at(b, 208)
        &&& self.family == u16_le_at(b, 212)
        &&& self.mode == b[214]
        &&& self.replay_window == b[215]
        &&& self.flags == b[216]
    }

    /// `self` holds the values that `default()` gives.
    pub open spec fn is_default(&self) -> bool {
        &&& self.selector.is_default()
        &&& self.id.is_default()
        &&& self.saddr.is_default()
        &&& self.lifetime_cfg.is_default()
        &&& self.lifetime_cur.is_default()
        &&& self.stats.is_default()
        &&& self.seq == 0
        &&& self.reqid == 0
        &&& self.family == 0
        &&& self.mode == 0
        &&& self.replay_window == 0
        &&& self.flags == 0
    }

    /// Decodes the first `XFRM_USER_SA_INFO_LEN` bytes of `s`.
    pub fn decode(s: &[u8]) -> (r: UserSaInfo)
        requires
            XFRM_USER_SA_INFO_LEN <= s.len(),
        ensures
            r.decodes(s@),
    {
        proof {
            reveal(UserSaInfo::decodes);
        }
        UserSaInfo {
            selector: Selector::decode(slice_subrange(s, 0, 56)),
            id: Id::decode(slice_subrange(s, 56, 80)),
            saddr: Address::decode(slice_subrange(s, 80, 96)),
            lifetime_cfg: LifetimeConfig::decode(slice_subrange(s, 96, 160)),
            lifetime_cur: Lifetime::decode(slice_subrange(s, 160, 192)),
            stats: Stats::decode(slice_subrange(s, 192, 204)),
            seq: read_u32_le(s, 204),
            reqid: read_u32_le(s, 208),
            family: read_u16_le(s, 212),
            mode: s[214],
            replay_window: s[215],
            flags: s[216],
        }
    }

    /// Decodes a `UserSaInfo` from the start of `payload`; the bytes after the
    /// structure are ignored.
    pub fn parse(payload: &[u8]) -> (r: Result<UserSaInfo, ParseError>)
        ensures
            payload.len() < XFRM_USER_SA_INFO_LEN ==> r == Err::<UserSaInfo, ParseError>(
                ParseError::BufferTooSmall { received: payload.len(), expected: XFRM_USER_SA_INFO_LEN },
            ),
            XFRM_USER_SA_INFO_LEN <= payload.len() ==> (r matches Ok(v) && v.decodes(payload@)),
    {
        if payload.len() < XFRM_USER_SA_INFO_LEN {
            Err(ParseError::BufferTooSmall { received: payload.len(), expected: XFRM_USER_SA_INFO_LEN })
        } else {
            Ok(UserSaInfo::decode(payload))
        }
    }

    /// Appends the wire image to `out`.
    pub fn write_to(&self, out: &mut Vec<u8>)
        ensures
            final(out)@ == old(out)@ + self.spec_bytes(),
    {
        proof {
            reveal(UserSaInfo::spec_bytes);
        }
        self.selector.write_to(out);
        self.id.write_to(out);
        self.saddr.write_to(out);
        self.lifetime_cfg.write_to(out);
        self.lifetime_cur.write_to(out);
        self.stats.write_to(out);
        push_u32_le(out, self.seq);
        push_u32_le(out, self.reqid);
        push_u16_le(out, self.family);
        out.push(self.mode);
        out.push(self.replay_window);
        out.push(self.flags);
        push_zeros(out, 7);
        assert(out@ =~= old(out)@ + self.spec_bytes());
    }

    /// The number of bytes `emit` writes.
    pub fn buffer_len(&self) -> (r: usize)
        ensures
            r == XFRM_USER_SA_INFO_LEN,
            r == self.spec_bytes().len(),
    {
        proof {
            UserSaInfo::lemma_roundtrip(*self);
        }
        XFRM_USER_SA_INFO_LEN
    }

    /// Writes the wire image over the first `XFRM_USER_SA_INFO_LEN` bytes of `buffer`.
    pub fn emit(&self, buffer: &mut [u8])
        requires
            XFRM_USER_SA_INFO_LEN <= old(buffer)@.len(),
        ensures
            final(buffer)@ == self.spec_bytes() + old(buffer)@.subrange(
                XFRM_USER_SA_INFO_LEN as int,
                old(buffer)@.len() as int,
            ),
    {
        let raw = UserSaInfoBuffer::from(self);
        proof {
            UserSaInfo::lemma_roundtrip(*self);
        }
        copy_prefix(buffer, raw.as_bytes());
    }
}

impl Default for UserSaInfo {
    fn default() -> (r: UserSaInfo)
        ensures
            r.is_default(),
    {
        UserSaInfo {
            selector: Selector::default(),
            id: Id::default(),
            saddr: Address::default(),
            lifetime_cfg: LifetimeConfig::default(),
            lifetime_cur: Lifetime::default(),
            stats: Stats::default(),
            seq: 0,
            reqid: 0,
            family: 0,
            mode: 0,
            replay_window: 0,
            flags: 0,
        }
    }
}

impl UserSaInfo {
    /// Decoding the wire image of a `UserSaInfo` gives back the same value,
    /// and the image is `XFRM_USER_SA_INFO_LEN` bytes long.
    pub proof fn lemma_roundtrip(x: UserSaInfo)
        ensures
            x.spec_bytes().len() == XFRM_USER_SA_INFO_LEN,
            x.decodes(x.spec_bytes()),
    {
        reveal(UserSaInfo::spec_bytes);
        reveal(UserSaInfo::decodes);
        let b = x.spec_bytes();
        Selector::lemma_roundtrip(x.selector);
        assert(b.subrange(0, 56) =~= x.selector.spec_bytes());
        Id::lemma_roundtrip(x.id);
        assert(b.subrange(56, 80) =~= x.id.spec_bytes());
        Address::lemma_roundtrip(x.saddr);
        assert(b.subrange(80, 96) =~= x.saddr.spec_bytes());
        LifetimeConfig::lemma_roundtrip(x.lifetime_cfg);
        assert(b.subrange(96, 160) =~= x.lifetime_cfg.spec_bytes());
        Lifetime::lemma_roundtrip(x.lifetime_cur);
        assert(b.subrange(160, 192) =~= x.lifetime_cur.spec_bytes());
        Stats::lemma_roundtrip(x.stats);
        assert(b.subrange(192, 204) =~= x.stats.spec_bytes());
        assert(b.subrange(204, 208) =~= u32_le_bytes(x.seq));
        lemma_u32_le_field(b, 204, x.seq);
        assert(b.subrange(208, 212) =~= u32_le_bytes(x.reqid));
        lemma_u32_le_field(b, 208, x.reqid);
        assert(b.subrange(212, 214) =~= u16_le_bytes(x.family));
        lemma_u16_le_field(b, 212, x.family);
        assert(b.subrange(214, 215) =~= seq![x.mode]);
        lemma_u8_field(b, 214, x.mode);
        assert(b.subrange(215, 216) =~= seq![x.replay_window]);
        lemma_u8_field(b, 215, x.replay_window);
        assert(b.subrange(216, 217) =~= seq![x.flags]);
        lemma_u8_field(b, 216, x.flags);
    }

    /// The layout of the wire image: each field sits at its fixed offset of
    /// the kernel's structure, padding bytes are zero.
    pub proof fn lemma_layout(x: UserSaInfo)
        ensures
            x.spec_bytes().len() == XFRM_USER_SA_INFO_LEN,
            x.spec_bytes().subrange(0, 56) == x.selector.spec_bytes(),
            x.spec_bytes().subrange(56, 80) == x.id.spec_bytes(),
            x.spec_bytes().subrange(80, 96) == x.saddr.addr@,
            x.spec_bytes().subrange(96, 160) == x.lifetime_cfg.spec_bytes(),
            x.spec_bytes().subrange(160, 192) == x.lifetime_cur.spec_bytes(),
            x.spec_bytes().subrange(192, 204) == x.stats.spec_bytes(),
            u32_le_at(x.spec_bytes(), 204) == x.seq,
            u32_le_at(x.spec_bytes(), 208) == x.reqid,
            u16_le_at(x.spec_bytes(), 212) == x.family,
            x.spec_bytes()[214] == x.mode,
            x.spec_bytes()[215] == x.replay_window,
            x.spec_bytes()[216] == x.flags,
            x.spec_bytes().subrange(217, 224) == zeros(7),
    {
        reveal(UserSaInfo::spec_bytes);
        let b = x.spec_bytes();
        Selector::lemma_roundtrip(x.selector);
        assert(b.subrange(0, 56) =~= x.selector.spec_bytes());
        Id::lemma_roundtrip(x.id);
        assert(b.subrange(56, 80) =~= x.id.spec_bytes());
        Address::lemma_roundtrip(x.saddr);
        assert(b.subrange(80, 96) =~= x.saddr.spec_bytes());
        LifetimeConfig::lemma_roundtrip(x.lifetime_cfg);
        assert(b.subrange(96, 160) =~= x.lifetime_cfg.spec_bytes());
        Lifetime::lemma_roundtrip(x.lifetime_cur);
        assert(b.subrange(160, 192) =~= x.lifetime_cur.spec_bytes());
        Stats::lemma_roundtrip(x.stats);
        assert(b.subrange(192, 204) =~= x.stats.spec_bytes());
        assert(b.subrange(204, 208) =~= u32_le_bytes(x.seq));
        lemma_u32_le_field(b, 204, x.seq);
        assert(b.subrange(208, 212) =~= u32_le_bytes(x.reqid));
        lemma_u32_le_field(b, 208, x.reqid);
        assert(b.subrange(212, 214) =~= u16_le_bytes(x.family));
        lemma_u16_le_field(b, 212, x.family);
        assert(b.subrange(214, 215) =~= seq![x.mode]);
        lemma_u8_field(b, 214, x.mode);
        assert(b.subrange(215, 216) =~= seq![x.replay_window]);
        lemma_u8_field(b, 215, x.replay_window);
        assert(b.subrange(216, 217) =~= seq![x.flags]);
        lemma_u8_field(b, 216, x.flags);
        assert(x.spec_bytes().subrange(217, 224) =~= zeros(7));
    }

    /// What decoding reads: each field from its fixed offset of `b`.
    pub proof fn lemma_decode_layout(x: UserSaInfo, b: Seq<u8>)
        requires
            XFRM_USER_SA_INFO_LEN <= b.len(),
            x.decodes(b),
        ensures
            x.selector.decodes(b.subrange(0, 56)),
            x.id.decodes(b.subrange(56, 80)),
            x.saddr.addr@ == b.subrange(80, 96),
            x.lifetime_cfg.decodes(b.subrange(96, 160)),
            x.lifetime_cur.decodes(b.subrange(160, 192)),
            x.stats.decodes(b.subrange(192, 204)),
            x.seq == u32_le_at(b, 204),
            x.reqid == u32_le_at(b, 208),
            x.family == u16_le_at(b, 212),
            x.mode == b[214],
            x.replay_window == b[215],
            x.flags == b[216],
    {
        reveal(UserSaInfo::decodes);
    }

    /// Encoding a value decoded from `b` gives back the first `XFRM_USER_SA_INFO_LEN`
    /// bytes of `b`, with the padding bytes set to zero.
    pub proof fn lemma_reencode(x: UserSaInfo, b: Seq<u8>)
        requires
            XFRM_USER_SA_INFO_LEN <= b.len(),
            x.decodes(b),
        ensures
            x.spec_bytes() == UserSaInfo::canonical(b),
    {
        reveal(UserSaInfo::spec_bytes);
        reveal(UserSaInfo::decodes);
        reveal(UserSaInfo::canonical);
        Selector::lemma_reencode(x.selector, b.subrange(0, 56));
        Id::lemma_reencode(x.id, b.subrange(56, 80));
        Address::lemma_reencode(x.saddr, b.subrange(80, 96));
        LifetimeConfig::lemma_reencode(x.lifetime_cfg, b.subrange(96, 160));
        Lifetime::lemma_reencode(x.lifetime_cur, b.subrange(160, 192));
        Stats::lemma_reencode(x.stats, b.subrange(192, 204));
        lemma_u32_le_bytes_of(b, 204);
        lemma_u32_le_bytes_of(b, 208);
        lemma_u16_le_bytes_of(b, 212);
        lemma_u8_bytes_of(b, 214);
        lemma_u8_bytes_of(b, 215);
        lemma_u8_bytes_of(b, 216);
    }

    /// Only the first `XFRM_USER_SA_INFO_LEN` bytes of `b` matter to what it decodes to.
    pub proof fn lemma_decodes_prefix(x: UserSaInfo, b: Seq<u8>)
        requires
            XFRM_USER_SA_INFO_LEN <= b.len(),
        ensures
            x.decodes(b) == x.decodes(b.subrange(0, XFRM_USER_SA_INFO_LEN as int)),
    {
        reveal(UserSaInfo::decodes);
        let p = b.subrange(0, XFRM_USER_SA_INFO_LEN as int);
        assert(forall|i: int| 0 <= i < XFRM_USER_SA_INFO_LEN ==> #[trigger] p[i] == b[i]);
        assert(p.subrange(0, 56) =~= b.subrange(0, 56));
        assert(p.subrange(56, 80) =~= b.subrange(56, 80));
        assert(p.subrange(80, 96) =~= b.subrange(80, 96));
        assert(p.subrange(96, 160) =~= b.subrange(96, 160));
        assert(p.subrange(160, 192) =~= b.subrange(160, 192));
        assert(p.subrange(192, 204) =~= b.subrange(192, 204));
    }

    /// At most one value decodes from given bytes.
    pub proof fn lemma_decodes_unique(x: UserSaInfo, y: UserSaInfo, b: Seq<u8>)
        requires
            XFRM_USER_SA_INFO_LEN <= b.len(),
            x.decodes(b),
            y.decodes(b),
        ensures
            x == y,
    {
        reveal(UserSaInfo::decodes);
        Selector::lemma_decodes_unique(x.selector, y.selector, b.subrange(0, 56));
        Id::lemma_decodes_unique(x.id, y.id, b.subrange(56, 80));
        Address::lemma_decodes_unique(x.saddr, y.saddr, b.subrange(80, 96));
        LifetimeConfig::lemma_decodes_unique(x.lifetime_cfg, y.lifetime_cfg, b.subrange(96, 160));
        Lifetime::lemma_decodes_unique(x.lifetime_cur, y.lifetime_cur, b.subrange(160, 192));
        Stats::lemma_decodes_unique(x.stats, y.stats, b.subrange(192, 204));
    }
}

/// The wire image of a `UserSaInfo`, as laid out in the kernel's structure.
pub struct UserSaInfoBuffer {
    bytes: Vec<u8>,
}

impl View for UserSaInfoBuffer {
    type V = Seq<u8>;

    closed spec fn view(&self) -> Seq<u8> {
        self.bytes@
    }
}

impl UserSaInfoBuffer {
    /// Lays out `value` in its wire image.
    pub fn from(value: &UserSaInfo) -> (r: UserSaInfoBuffer)
        ensures
            r@ == value.spec_bytes(),
    {
        let mut bytes: Vec<u8> = Vec::new();
        value.write_to(&mut bytes);
        assert(bytes@ =~= value.spec_bytes());
        UserSaInfoBuffer { bytes }
    }

    /// The bytes of the image.
    pub fn as_bytes(&self) -> (r: &[u8])
        ensures
            r@ == self@,
    {
        self.bytes.as_slice()
    }
}

impl UserSaInfo {
    fn family(&mut self, addr: &IpAddress)
        ensures
            *final(self) == (UserSaInfo { family: family_of(*addr), ..*old(self) }),
    {
        if addr.is_ipv4() {
            self.family = AF_INET;
        } else if addr.is_ipv6() {
            self.family = AF_INET6;
        }
    }

    /// Sets the source address, and the family to match it.
    pub fn source(&mut self, addr: &IpAddress)
        ensures
            final(self).saddr.spec_from_ip(*addr),
            *final(self) == (UserSaInfo {
                saddr: final(self).saddr,
                family: family_of(*addr),
                ..*old(self)
            }),
    {
        self.saddr = Address::from_ip(addr);
        self.family(addr);
    }

    /// Sets the destination address, and the family to match it.
    pub fn destination(&mut self, addr: &IpAddress)
        ensures
            final(self).id.daddr.spec_from_ip(*addr),
            *final(self) == (UserSaInfo {
                id: Id { daddr: final(self).id.daddr, ..old(self).id },
                family: family_of(*addr),
                ..*old(self)
            }),
    {
        self.id.daddr = Address::from_ip(addr);
        self.family(addr);
    }
}

} // verus!
