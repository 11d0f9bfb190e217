//! The `xfrm_userpolicy_info` structure.

use vstd::prelude::*;
use vstd::slice::slice_subrange;
use crate::wire::{
    copy_prefix,
    lemma_u32_le_bytes_of,
    lemma_u32_le_field,
    lemma_u8_bytes_of,
    lemma_u8_field,
    push_u32_le,
    push_zeros,
    read_u32_le,
    u32_le_at,
    u32_le_bytes,
    zeros,
    ParseError,
};
use crate::lifetime::{Lifetime, LifetimeConfig};
use crate::selector::{Selector};

verus! {

/// A policy as it is added, updated or reported.
#[derive(Debug, Clone, Copy, Eq, PartialEq)]
pub struct UserPolicyInfo {
    pub selector: Selector,
    pub lifetime_cfg: LifetimeConfig,
    pub lifetime_cur: Lifetime,
    pub priority: u32,
    pub index: u32,
    pub direction: u8,
    pub action: u8,
    pub flags: u8,
    pub share: u8,
}

pub const XFRM_USER_POLICY_INFO_LEN: usize = 168;

impl UserPolicyInfo {
    /// The first `XFRM_USER_POLICY_INFO_LEN` bytes of `b` with every padding byte set to zero.
    #[verifier::opaque]
    pub open spec fn canonical(b: Seq<u8>) -> Seq<u8> {
        Selector::canonical(b.subrange(0, 56))
            + LifetimeConfig::canonical(b.subrange(56, 120))
            + Lifetime::canonical(b.subrange(120, 152))
            + b.subrange(152, 156)
            + b.subrange(156, 160)
            + b.subrange(160, 161)
            + b.subrange(161, 162)
            + b.subrange(162, 163)
            + b.subrange(163, 164)
            + zeros(4)
    }

    /// The wire image: the fields in order, padding as zero bytes.
    #[verifier::opaque]
    pub open spec fn spec_bytes(&self) -> Seq<u8> {
        self.selector.spec_bytes()
            + self.lifetime_cfg.spec_bytes()
            + self.lifetime_cur.spec_bytes()
            + u32_le_bytes(self.priority)
            + u32_le_bytes(self.index)
            + seq![self.direction]
            + seq![self.action]
            + seq![self.flags]
            + seq![self.share]
            + zeros(4)
    }

    /// `self` is what the first `XFRM_USER_POLICY_INFO_LEN` bytes of `b` describe.
    #[verifier::opaque]
    pub open spec fn decodes(&self, b: Seq<u8>) -> bool {
        &&& self.selector.decodes(b.subrange(0, 56))
        &&& self.lifetime_cfg.decodes(b.subrange(56, 120))
        &&& self.lifetime_cur.decodes(b.subrange(120, 152))
        &&& self.priority == u32_le_at(b, 152)
        &&& self.index == u32_le_at(b, 156)
        &&& self.direction == b[160]
        &&& self.action == b[161]
        &&& self.flags == b[162]
        &&& self.share == b[163]
    }

    /// `self` holds the values that `default()` gives.
    pub open spec fn is_default(&self) -> bool {
        &&& self.selector.is_default()
        &&& self.lifetime_cfg.is_default()
        &&& self.lifetime_cur.is_default()
        &&& self.priority == 0
        &&& self.index == 0
        &&& self.direction == 0
        &&& self.action == 0
        &&& self.flags == 0
        &&& self.share == 0
    }

    /// Decodes the first `XFRM_USER_POLICY_INFO_LEN` bytes of `s`.
    pub fn decode(s: &[u8]) -> (r: UserPolicyInfo)
        requires
            XFRM_USER_POLICY_INFO_LEN <= s.len(),
        ensures
            r.decodes(s@),
    {
        proof {
            reveal(UserPolicyInfo::decodes);
        }
        UserPolicyInfo {
            selector: Selector::decode(slice_subrange(s, 0, 56)),
            lifetime_cfg: LifetimeConfig::decode(slice_subrange(s, 56, 120)),
            lifetime_cur: Lifetime::decode(slice_subrange(s, 120, 152)),
            priority: read_u32_le(s, 152),
            index: read_u32_le(s, 156),
            direction: s[160],
            action: s[161],
            flags: s[162],
            share: s[163],
        }
    }

    /// Decodes a `UserPolicyInfo` from the start of `payload`; the bytes after the
    /// structure are ignored.
    pub fn parse(payload: &[u8]) -> (r: Result<UserPolicyInfo, ParseError>)
        ensures
            payload.len() < XFRM_USER_POLICY_INFO_LEN ==> r == Err::<UserPolicyInfo, ParseError>(
                ParseError::BufferTooSmall { received: payload.len(), expected: XFRM_USER_POLICY_INFO_LEN },
            ),
            XFRM_USER_POLICY_INFO_LEN <= payload.len() ==> (r matches Ok(v) && v.decodes(payload@)),
    {
        if payload.len() < XFRM_USER_POLICY_INFO_LEN {
            Err(ParseError::BufferTooSmall { received: payload.len(), expected: XFRM_USER_POLICY_INFO_LEN })
        } else {
            Ok(UserPolicyInfo::decode(payload))
        }
    }

    /// Appends the wire image to `out`.
    pub fn write_to(&self, out: &mut Vec<u8>)
        ensures
            final(out)@ == old(out)@ + self.spec_bytes(),
    {
        proof {
            reveal(UserPolicyInfo::spec_bytes);
        }
        self.selector.write_to(out);
        self.lifetime_cfg.write_to(out);
        self.lifetime_cur.write_to(out);
        push_u32_le(out, self.priority);
        push_u32_le(out, self.index);
        out.push(self.direction);
        out.push(self.action);
        out.push(self.flags);
        out.push(self.share);
        push_zeros(out, 4);
        assert(out@ =~= old(out)@ + self.spec_bytes());
    }

    /// The number of bytes `emit` writes.
    pub fn buffer_len(&self) -> (r: usize)
        ensures
            r == XFRM_USER_POLICY_INFO_LEN,
            r == self.spec_bytes().len(),
    {
        proof {
            UserPolicyInfo::lemma_roundtrip(*self);
        }
        XFRM_USER_POLICY_INFO_LEN
    }

    /// Writes the wire image over the first `XFRM_USER_POLICY_INFO_LEN` bytes of `buffer`.
    pub fn emit(&self, buffer: &mut [u8])
        requires
            XFRM_USER_POLICY_INFO_LEN <= old(buffer)@.len(),
        ensures
            final(buffer)@ == self.spec_bytes() + old(buffer)@.subrange(
                XFRM_USER_POLICY_INFO_LEN as int,
                old(buffer)@.len() as int,
            ),
    {
        let raw = UserPolicyInfoBuffer::from(self);
        proof {
            UserPolicyInfo::lemma_roundtrip(*self);
        }
        copy_prefix(buffer, raw.as_bytes());
    }
}

impl Default for UserPolicyInfo {
    fn default() -> (r: UserPolicyInfo)
        ensures
            r.is_default(),
    {
        UserPolicyInfo {
            selector: Selector::default(),
            lifetime_cfg: LifetimeConfig::default(),
            lifetime_cur: Lifetime::default(),
            priority: 0,
            index: 0,
            direction: 0,
            action: 0,
            flags: 0,
            share: 0,
        }
    }
}

impl UserPolicyInfo {
    /// Decoding the wire image of a `UserPolicyInfo` gives back the same value,
    /// and the image is `XFRM_USER_POLICY_INFO_LEN` bytes long.
    pub proof fn lemma_roundtrip(x: UserPolicyInfo)
        ensures
            x.spec_bytes().len() == XFRM_USER_POLICY_INFO_LEN,
            x.decodes(x.spec_bytes()),
    {
        reveal(UserPolicyInfo::spec_bytes);
        reveal(UserPolicyInfo::decodes);
        let b = x.spec_bytes();
        Selector::lemma_roundtrip(x.selector);
        assert(b.subrange(0, 56) =~= x.selector.spec_bytes());
        LifetimeConfig::lemma_roundtrip(x.lifetime_cfg);
        assert(b.subrange(56, 120) =~= x.lifetime_cfg.spec_bytes());
        Lifetime::lemma_roundtrip(x.lifetime_cur);
        assert(b.subrange(120, 152) =~= x.lifetime_cur.spec_bytes());
        assert(b.subrange(152, 156) =~= u32_le_bytes(x.priority));
        lemma_u32_le_field(b, 152, x.priority);
        assert(b.subrange(156, 160) =~= u32_le_bytes(x.index));
        lemma_u32_le_field(b, 156, x.index);
        assert(b.subrange(160, 161) =~= seq![x.direction]);
        lemma_u8_field(b, 160, x.direction);
        assert(b.subrange(161, 162) =~= seq![x.action]);
        lemma_u8_field(b, 161, x.action);
        assert(b.subrange(162, 163) =~= seq![x.flags]);
        lemma_u8_field(b, 162, x.flags);
        assert(b.subrange(163, 164) =~= seq![x.share]);
        lemma_u8_field(b, 163, x.share);
    }

    /// The layout of the wire image: each field sits at its fixed offset of
    /// the kernel's structure, padding bytes are zero.
    pub proof fn lemma_layout(x: UserPolicyInfo)
        ensures
            x.spec_bytes().len() == XFRM_USER_POLICY_INFO_LEN,
            x.spec_bytes().subrange(0, 56) == x.selector.spec_bytes(),
            x.spec_bytes().subrange(56, 120) == x.lifetime_cfg.spec_bytes(),
            x.spec_bytes().subrange(120, 152) == x.lifetime_cur.spec_bytes(),
            u32_le_at(x.spec_bytes(), 152) == x.priority,
            u32_le_at(x.spec_bytes(), 156) == x.index,
            x.spec_bytes()[160] == x.direction,
            x.spec_bytes()[161] == x.action,
            x.spec_bytes()[162] == x.flags,
            x.spec_bytes()[163] == x.share,
            x.spec_bytes().subrange(164, 168) == zeros(4),
    {
        reveal(UserPolicyInfo::spec_bytes);
        let b = x.spec_bytes();
        Selector::lemma_roundtrip(x.selector);
        assert(b.subrange(0, 56) =~= x.selector.spec_bytes());
        LifetimeConfig::lemma_roundtrip(x.lifetime_cfg);
        assert(b.subrange(56, 120) =~= x.lifetime_cfg.spec_bytes());
        Lifetime::lemma_roundtrip(x.lifetime_cur);
        assert(b.subrange(120, 152) =~= x.lifetime_cur.spec_bytes());
        assert(b.subrange(152, 156) =~= u32_le_bytes(x.priority));
        lemma_u32_le_field(b, 152, x.priority);
        assert(b.subrange(156, 160) =~= u32_le_bytes(x.index));
        lemma_u32_le_field(b, 156, x.index);
        assert(b.subrange(160, 161) =~= seq![x.direction]);
        lemma_u8_field(b, 160, x.direction);
        assert(b.subrange(161, 162) =~= seq![x.action]);
        lemma_u8_field(b, 161, x.action);
        assert(b.subrange(162, 163) =~= seq![x.flags]);
        lemma_u8_field(b, 162, x.flags);
        assert(b.subrange(163, 164) =~= seq![x.share]);
        lemma_u8_field(b, 163, x.share);
        assert(x.spec_bytes().subrange(164, 168) =~= zeros(4));
    }

    /// What decoding reads: each field from its fixed offset of `b`.
    pub proof fn lemma_decode_layout(x: UserPolicyInfo, b: Seq<u8>)
        requires
            XFRM_USER_POLICY_INFO_LEN <= b.len(),
            x.decodes(b),
        ensures
            x.selector.decodes(b.subrange(0, 56)),
            x.lifetime_cfg.decodes(b.subrange(56, 120)),
            x.lifetime_cur.decodes(b.subrange(120, 152)),
            x.priority == u32_le_at(b, 152),
            x.index == u32_le_at(b, 156),
            x.direction == b[160],
            x.action == b[161],
            x.flags == b[162],
            x.share == b[163],
    {
        reveal(UserPolicyInfo::decodes);
    }

    /// Encoding a value decoded from `b` gives back the first `XFRM_USER_POLICY_INFO_LEN`
    /// bytes of `b`, with the padding bytes set to zero.
    pub proof fn lemma_reencode(x: UserPolicyInfo, b: Seq<u8>)
        requires
            XFRM_USER_POLICY_INFO_LEN <= b.len(),
            x.decodes(b),
        ensures
            x.spec_bytes() == UserPolicyInfo::canonical(b),
    {
        reveal(UserPolicyInfo::spec_bytes);
        reveal(UserPolicyInfo::decodes);
        reveal(UserPolicyInfo::canonical);
        Selector::lemma_reencode(x.selector, b.subrange(0, 56));
        LifetimeConfig::lemma_reencode(x.lifetime_cfg, b.subrange(56, 120));
        Lifetime::lemma_reencode(x.lifetime_cur, b.subrange(120, 152));
        lemma_u32_le_bytes_of(b, 152);
        lemma_u32_le_bytes_of(b, 156);
        lemma_u8_bytes_of(b, 160);
        lemma_u8_bytes_of(b, 161);
        lemma_u8_bytes_of(b, 162);
        lemma_u8_bytes_of(b, 163);
    }

    /// Only the first `XFRM_USER_POLICY_INFO_LEN` bytes of `b` matter to what it decodes to.
    pub proof fn lemma_decodes_prefix(x: UserPolicyInfo, b: Seq<u8>)
        requires
            XFRM_USER_POLICY_INFO_LEN <= b.len(),
        ensures
            x.decodes(b) == x.decodes(b.subrange(0, XFRM_USER_POLICY_INFO_LEN as int)),
    {
        reveal(UserPolicyInfo::decodes);
        let p = b.subrange(0, XFRM_USER_POLICY_INFO_LEN as int);
        assert(forall|i: int| 0 <= i < XFRM_USER_POLICY_INFO_LEN ==> #[trigger] p[i] == b[i]);
        assert(p.subrange(0, 56) =~= b.subrange(0, 56));
        assert(p.subrange(56, 120) =~= b.subrange(56, 120));
        assert(p.subrange(120, 152) =~= b.subrange(120, 152));
    }

    /// At most one value decodes from given bytes.
    pub proof fn lemma_decodes_unique(x: UserPolicyInfo, y: UserPolicyInfo, b: Seq<u8>)
        requires
            XFRM_USER_POLICY_INFO_LEN <= b.len(),
            x.decodes(b),
            y.decodes(b),
        ensures
            x == y,
    {
        reveal(UserPolicyInfo::decodes);
        Selector::lemma_decodes_unique(x.selector, y.selector, b.subrange(0, 56));
        LifetimeConfig::lemma_decodes_unique(x.lifetime_cfg, y.lifetime_cfg, b.subrange(56, 120));
        Lifetime::lemma_decodes_unique(x.lifetime_cur, y.lifetime_cur, b.subrange(120, 152));
    }
}

/// The wire image of a `UserPolicyInfo`, as laid out in the kernel's structure.
pub struct UserPolicyInfoBuffer {
    bytes: Vec<u8>,
}

impl View for UserPolicyInfoBuffer {
    type V = Seq<u8>;

    closed spec fn view(&self) -> Seq<u8> {
        self.bytes@
    }
}

impl UserPolicyInfoBuffer {
    /// Lays out `value` in its wire image.
    pub fn from(value: &UserPolicyInfo) -> (r: UserPolicyInfoBuffer)
        ensures
            r@ == value.spec_bytes(),
    {
        let mut bytes: Vec<u8> = Vec::new();
        value.write_to(&mut bytes);
        assert(bytes@ =~= value.spec_bytes());
        UserPolicyInfoBuffer { bytes }
    }

    /// The bytes of the image.
    pub fn as_bytes(&self) -> (r: &[u8])
        ensures
            r@ == self@,
    {
        self.bytes.as_slice()
    }
}

} // verus!
