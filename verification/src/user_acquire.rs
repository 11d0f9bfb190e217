//! The `xfrm_user_acquire` structure.

use vstd::prelude::*;
use vstd::slice::slice_subrange;
use crate::wire::{
    copy_prefix,
    lemma_u32_le_bytes_of,
    lemma_u32_le_field,
    push_u32_le,
    read_u32_le,
    u32_le_at,
    u32_le_bytes,
    ParseError,
};
use crate::address::{Address};
use crate::id::{Id};
use crate::selector::{Selector};
use crate::user_policy_info::{UserPolicyInfo};

verus! {

/// The kernel asking a key manager for a security association.
#[derive(Debug, Clone, Copy, Eq, PartialEq)]
pub struct UserAcquire {
    pub id: Id,
    pub saddr: Address,
    pub selector: Selector,
    pub policy: UserPolicyInfo,
    pub aalgos: u32,
    pub ealgos: u32,
    pub calgos: u32,
    pub seq: u32,
}

pub const XFRM_USER_ACQUIRE_LEN: usize = 280;

impl UserAcquire {
    /// The first `XFRM_USER_ACQUIRE_LEN` bytes of `b` with every padding byte set to zero.
    #[verifier::opaque]
    pub open spec fn canonical(b: Seq<u8>) -> Seq<u8> {
        Id::canonical(b.subrange(0, 24))
            + Address::canonical(b.subrange(24, 40))
            + Selector::canonical(b.subrange(40, 96))
            + UserPolicyInfo::canonical(b.subrange(96, 264))
            + b.subrange(264, 268)
            + b.subrange(268, 272)
            + b.subrange(272, 276)
            + b.subrange(276, 280)
    }

    /// The wire image: the fields in order, padding as zero bytes.
    #[verifier::opaque]
    pub open spec fn spec_bytes(&self) -> Seq<u8> {
        self.id.spec_bytes()
            + self.saddr.spec_bytes()
            + self.selector.spec_bytes()
            + self.policy.spec_bytes()
            + u32_le_bytes(self.aalgos)
            + u32_le_bytes(self.ealgos)
            + u32_le_bytes(self.calgos)
            + u32_le_bytes(self.seq)
    }

    /// `self` is what the first `XFRM_USER_ACQUIRE_LEN` bytes of `b` describe.
    #[verifier::opaque]
    pub open spec fn decodes(&self, b: Seq<u8>) -> bool {
        &&& self.id.decodes(b.subrange(0, 24))
        &&& self.saddr.decodes(b.subrange(24, 40))
        &&& self.selector.decodes(b.subrange(40, 96))
        &&& self.policy.decodes(b.subrange(96, 264))
        &&& self.aalgos == u32_le_at(b, 264)
        &&& self.ealgos == u32_le_at(b, 268)
        &&& self.calgos == u32_le_at(b, 272)
        &&& self.seq == u32_le_at(b, 276)
    }

    /// `self` holds the values that `default()` gives.
    pub open spec fn is_default(&self) -> bool {
        &&& self.id.is_default()
        &&& self.saddr.is_default()
        &&& self.selector.is_default()
        &&& self.policy.is_default()
        &&& self.aalgos == 0
        &&& self.ealgos == 0
        &&& self.calgos == 0
        &&& self.seq == 0
    }

    /// Decodes the first `XFRM_USER_ACQUIRE_LEN` bytes of `s`.
    pub fn decode(s: &[u8]) -> (r: UserAcquire)
        requires
            XFRM_USER_ACQUIRE_LEN <= s.len(),
        ensures
            r.decodes(s@),
    {
        proof {
            reveal(UserAcquire::decodes);
        }
        UserAcquire {
            id: Id::decode(slice_subrange(s, 0, 24)),
            saddr: Address::decode(slice_subrange(s, 24, 40)),
            selector: Selector::decode(slice_subrange(s, 40, 96)),
            policy: UserPolicyInfo::decode(slice_subrange(s, 96, 264)),
            aalgos: read_u32_le(s, 264),
            ealgos: read_u32_le(s, 268),
            calgos: read_u32_le(s, 272),
            seq: read_u32_le(s, 276),
        }
    }

    /// Decodes a `UserAcquire` from the start of `payload`; the bytes after the
    /// structure are ignored.
    pub fn parse(payload: &[u8]) -> (r: Result<UserAcquire, ParseError>)
        ensures
            payload.len() < XFRM_USER_ACQUIRE_LEN ==> r == Err::<UserAcquire, ParseError>(
                ParseError::BufferTooSmall { received: payload.len(), expected: XFRM_USER_ACQUIRE_LEN },
            ),
            XFRM_USER_ACQUIRE_LEN <= payload.len() ==> (r matches Ok(v) && v.decodes(payload@)),
    {
        if payload.len() < XFRM_USER_ACQUIRE_LEN {
            Err(ParseError::BufferTooSmall { received: payload.len(), expected: XFRM_USER_ACQUIRE_LEN })
        } else {
            Ok(UserAcquire::decode(payload))
        }
    }

    /// Appends the wire image to `out`.
    pub fn write_to(&self, out: &mut Vec<u8>)
        ensures
            final(out)@ == old(out)@ + self.spec_bytes(),
    {
        proof {
            reveal(UserAcquire::spec_bytes);
        }
        self.id.write_to(out);
        self.saddr.write_to(out);
        self.selector.write_to(out);
        self.policy.write_to(out);
        push_u32_le(out, self.aalgos);
        push_u32_le(out, self.ealgos);
        push_u32_le(out, self.calgos);
        push_u32_le(out, self.seq);
        assert(out@ =~= old(out)@ + self.spec_bytes());
    }

    /// The number of bytes `emit` writes.
    pub fn buffer_len(&self) -> (r: usize)
        ensures
            r == XFRM_USER_ACQUIRE_LEN,
            r == self.spec_bytes().len(),
    {
        proof {
            UserAcquire::lemma_roundtrip(*self);
        }
        XFRM_USER_ACQUIRE_LEN
    }

    /// Writes the wire image over the first `XFRM_USER_ACQUIRE_LEN` bytes of `buffer`.
    pub fn emit(&self, buffer: &mut [u8])
        requires
            XFRM_USER_ACQUIRE_LEN <= old(buffer)@.len(),
        ensures
            final(buffer)@ == self.spec_bytes() + old(buffer)@.subrange(
                XFRM_USER_ACQUIRE_LEN as int,
                old(buffer)@.len() as int,
            ),
    {
        let raw = UserAcquireBuffer::from(self);
        proof {
            UserAcquire::lemma_roundtrip(*self);
        }
        copy_prefix(buffer, raw.as_bytes());
    }
}

impl Default for UserAcquire {
    fn default() -> (r: UserAcquire)
        ensures
            r.is_default(),
    {
        UserAcquire {
            id: Id::default(),
            saddr: Address::default(),
            selector: Selector::default(),
            policy: UserPolicyInfo::default(),
            aalgos: 0,
            ealgos: 0,
            calgos: 0,
            seq: 0,
        }
    }
}

impl UserAcquire {
    /// Decoding the wire image of a `UserAcquire` gives back the same value,
    /// and the image is `XFRM_USER_ACQUIRE_LEN` bytes long.
    pub proof fn lemma_roundtrip(x: UserAcquire)
        ensures
            x.spec_bytes().len() == XFRM_USER_ACQUIRE_LEN,
            x.decodes(x.spec_bytes()),
    {
        reveal(UserAcquire::spec_bytes);
        reveal(UserAcquire::decodes);
        let b = x.spec_bytes();
        Id::lemma_roundtrip(x.id);
        assert(b.subrange(0, 24) =~= x.id.spec_bytes());
        Address::lemma_roundtrip(x.saddr);
        assert(b.subrange(24, 40) =~= x.saddr.spec_bytes());
        Selector::lemma_roundtrip(x.selector);
        assert(b.subrange(40, 96) =~= x.selector.spec_bytes());
        UserPolicyInfo::lemma_roundtrip(x.policy);
        assert(b.subrange(96, 264) =~= x.policy.spec_bytes());
        assert(b.subrange(264, 268) =~= u32_le_bytes(x.aalgos));
        lemma_u32_le_field(b, 264, x.aalgos);
        assert(b.subrange(268, 272) =~= u32_le_bytes(x.ealgos));
        lemma_u32_le_field(b, 268, x.ealgos);
        assert(b.subrange(272, 276) =~= u32_le_bytes(x.calgos));
        lemma_u32_le_field(b, 272, x.calgos);
        assert(b.subrange(276, 280) =~= u32_le_bytes(x.seq));
        lemma_u32_le_field(b, 276, x.seq);
    }

    /// The layout of the wire image: each field sits at its fixed offset of
    /// the kernel's structure, padding bytes are zero.
    pub proof fn lemma_layout(x: UserAcquire)
        ensures
            x.spec_bytes().len() == XFRM_USER_ACQUIRE_LEN,
            x.spec_bytes().subrange(0, 24) == x.id.spec_bytes(),
            x.spec_bytes().subrange(24, 40) == x.saddr.addr@,
            x.spec_bytes().subrange(40, 96) == x.selector.spec_bytes(),
            x.spec_bytes().subrange(96, 264) == x.policy.spec_bytes(),
            u32_le_at(x.spec_bytes(), 264) == x.aalgos,
            u32_le_at(x.spec_bytes(), 268) == x.ealgos,
            u32_le_at(x.spec_bytes(), 272) == x.calgos,
            u32_le_at(x.spec_bytes(), 276) == x.seq,
    {
        reveal(UserAcquire::spec_bytes);
        let b = x.spec_bytes();
        Id::lemma_roundtrip(x.id);
        assert(b.subrange(0, 24) =~= x.id.spec_bytes());
        Address::lemma_roundtrip(x.saddr);
        assert(b.subrange(24, 40) =~= x.saddr.spec_bytes());
        Selector::lemma_roundtrip(x.selector);
        assert(b.subrange(40, 96) =~= x.selector.spec_bytes());
        UserPolicyInfo::lemma_roundtrip(x.policy);
        assert(b.subrange(96, 264) =~= x.policy.spec_bytes());
        assert(b.subrange(264, 268) =~= u32_le_bytes(x.aalgos));
        lemma_u32_le_field(b, 264, x.aalgos);
        assert(b.subrange(268, 272) =~= u32_le_bytes(x.ealgos));
        lemma_u32_le_field(b, 268, x.ealgos);
        assert(b.subrange(272, 276) =~= u32_le_bytes(x.calgos));
        lemma_u32_le_field(b, 272, x.calgos);
        assert(b.subrange(276, 280) =~= u32_le_bytes(x.seq));
        lemma_u32_le_field(b, 276, x.seq);

    }

    /// What decoding reads: each field from its fixed offset of `b`.
    pub proof fn lemma_decode_layout(x: UserAcquire, b: Seq<u8>)
        requires
            XFRM_USER_ACQUIRE_LEN <= b.len(),
            x.decodes(b),
        ensures
            x.id.decodes(b.subrange(0, 24)),
            x.saddr.addr@ == b.subrange(24, 40),
            x.selector.decodes(b.subrange(40, 96)),
            x.policy.decodes(b.subrange(96, 264)),
            x.aalgos == u32_le_at(b, 264),
            x.ealgos == u32_le_at(b, 268),
            x.calgos == u32_le_at(b, 272),
            x.seq == u32_le_at(b, 276),
    {
        reveal(UserAcquire::decodes);
    }

    /// Encoding a value decoded from `b` gives back the first `XFRM_USER_ACQUIRE_LEN`
    /// bytes of `b`, with the padding bytes set to zero.
    pub proof fn lemma_reencode(x: UserAcquire, b: Seq<u8>)
        requires
            XFRM_USER_ACQUIRE_LEN <= b.len(),
            x.decodes(b),
        ensures
            x.spec_bytes() == UserAcquire::canonical(b),
    {
        reveal(UserAcquire::spec_bytes);
        reveal(UserAcquire::decodes);
        reveal(UserAcquire::canonical);
        Id::lemma_reencode(x.id, b.subrange(0, 24));
        Address::lemma_reencode(x.saddr, b.subrange(24, 40));
        Selector::lemma_reencode(x.selector, b.subrange(40, 96));
        UserPolicyInfo::lemma_reencode(x.policy, b.subrange(96, 264));
        lemma_u32_le_bytes_of(b, 264);
        lemma_u32_le_bytes_of(b, 268);
        lemma_u32_le_bytes_of(b, 272);
        lemma_u32_le_bytes_of(b, 276);
    }

    /// Only the first `XFRM_USER_ACQUIRE_LEN` bytes of `b` matter to what it decodes to.
    pub proof fn lemma_decodes_prefix(x: UserAcquire, b: Seq<u8>)
        requires
            XFRM_USER_ACQUIRE_LEN <= b.len(),
        ensures
            x.decodes(b) == x.decodes(b.subrange(0, XFRM_USER_ACQUIRE_LEN as int)),
    {
        reveal(UserAcquire::decodes);
        let p = b.subrange(0, XFRM_USER_ACQUIRE_LEN as int);
        assert(forall|i: int| 0 <= i < XFRM_USER_ACQUIRE_LEN ==> #[trigger] p[i] == b[i]);
        assert(p.subrange(0, 24) =~= b.subrange(0, 24));
        assert(p.subrange(24, 40) =~= b.subrange(24, 40));
        assert(p.subrange(40, 96) =~= b.subrange(40, 96));
        assert(p.subrange(96, 264) =~= b.subrange(96, 264));
    }

    /// At most one value decodes from given bytes.
    pub proof fn lemma_decodes_unique(x: UserAcquire, y: UserAcquire, b: Seq<u8>)
        requires
            XFRM_USER_ACQUIRE_LEN <= b.len(),
            x.decodes(b),
            y.decodes(b),
        ensures
            x == y,
    {
        reveal(UserAcquire::decodes);
        Id::lemma_decodes_unique(x.id, y.id, b.subrange(0, 24));
        Address::lemma_decodes_unique(x.saddr, y.saddr, b.subrange(24, 40));
        Selector::lemma_decodes_unique(x.selector, y.selector, b.subrange(40, 96));
        UserPolicyInfo::lemma_decodes_unique(x.policy, y.policy, b.subrange(96, 264));
    }
}

/// The wire image of a `UserAcquire`, as laid out in the kernel's structure.
pub struct UserAcquireBuffer {
    bytes: Vec<u8>,
}

impl View for UserAcquireBuffer {
    type V = Seq<u8>;

    closed spec fn view(&self) -> Seq<u8> {
        self.bytes@
    }
}

impl UserAcquireBuffer {
    /// Lays out `value` in its wire image.
    pub fn from(value: &UserAcquire) -> (r: UserAcquireBuffer)
        ensures
            r@ == value.spec_bytes(),
    {
        let mut bytes: Vec<u8> = Vec::new();
        value.write_to(&mut bytes);
        assert(bytes@ =~= value.spec_bytes());
        UserAcquireBuffer { bytes }
    }

    /// The bytes of the image.
    pub fn as_bytes(&self) -> (r: &[u8])
        ensures
            r@ == self@,
    {
        self.bytes.as_slice()
    }
}

} // verus!
