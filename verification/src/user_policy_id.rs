//! The `xfrm_userpolicy_id` structure.

use vstd::prelude::*;
use vstd::slice::slice_subrange;
use crate::wire::{
    copy_prefix,
    lemma_u32_le_bytes_of,
    lemma_u32_le_field,
    lemma_u8_bytes_of,
    lemma_u8_field,
    push_u32_le,
    push_zeros,
    read_u32_le,
    u32_le_at,
    u32_le_bytes,
    zeros,
    ParseError,
};
use crate::selector::{Selector};

verus! {

/// What names a policy in a get or delete request.
#[derive(Debug, Clone, Copy, Eq, PartialEq)]
pub struct UserPolicyId {
    pub selector: Selector,
    pub index: u32,
    pub direction: u8,
}

pub const XFRM_USER_POLICY_ID_LEN: usize = 64;

impl UserPolicyId {
    /// The first `XFRM_USER_POLICY_ID_LEN` bytes of `b` with every padding byte set to zero.
    #[verifier::opaque]
    pub open spec fn canonical(b: Seq<u8>) -> Seq<u8> {
        Selector::canonical(b.subrange(0, 56))
            + b.subrange(56, 60)
            + b.subrange(60, 61)
            + zeros(3)
    }

    /// The wire image: the fields in order, padding as zero bytes.
    #[verifier::opaque]
    pub open spec fn spec_bytes(&self) -> Seq<u8> {
        self.selector.spec_bytes()
            + u32_le_bytes(self.index)
            + seq![self.direction]
            + zeros(3)
    }

    /// `self` is what the first `XFRM_USER_POLICY_ID_LEN` bytes of `b` describe.
    #[verifier::opaque]
    pub open spec fn decodes(&self, b: Seq<u8>) -> bool {
        &&& self.selector.decodes(b.subrange(0, 56))
        &&& self.index == u32_le_at(b, 56)
        &&& self.direction == b[60]
    }

    /// `self` holds the values that `default()` gives.
    pub open spec fn is_default(&self) -> bool {
        &&& self.selector.is_default()
        &&& self.index == 0
        &&& self.direction == 0
    }

    /// Decodes the first `XFRM_USER_POLICY_ID_LEN` bytes of `s`.
    pub fn decode(s: &[u8]) -> (r: UserPolicyId)
        requires
            XFRM_USER_POLICY_ID_LEN <= s.len(),
        ensures
            r.decodes(s@),
    {
        proof {
            reveal(UserPolicyId::decodes);
        }
        UserPolicyId {
            selector: Selector::decode(slice_subrange(s, 0, 56)),
            index: read_u32_le(s, 56),
            direction: s[60],
        }
    }

    /// Decodes a `UserPolicyId` from the start of `payload`; the bytes after the
    /// structure are ignored.
    pub fn parse(payload: &[u8]) -> (r: Result<UserPolicyId, ParseError>)
        ensures
            payload.len() < XFRM_USER_POLICY_ID_LEN ==> r == Err::<UserPolicyId, ParseError>(
                ParseError::BufferTooSmall { received: payload.len(), expected: XFRM_USER_POLICY_ID_LEN },
            ),
            XFRM_USER_POLICY_ID_LEN <= payload.len() ==> (r matches Ok(v) && v.decodes(payload@)),
    {
        if payload.len() < XFRM_USER_POLICY_ID_LEN {
            Err(ParseError::BufferTooSmall { received: payload.len(), expected: XFRM_USER_POLICY_ID_LEN })
        } else {
            Ok(UserPolicyId::decode(payload))
        }
    }

    /// Appends the wire image to `out`.
    pub fn write_to(&self, out: &mut Vec<u8>)
        ensures
            final(out)@ == old(out)@ + self.spec_bytes(),
    {
        proof {
            reveal(UserPolicyId::spec_bytes);
        }
        self.selector.write_to(out);
        push_u32_le(out, self.index);
        out.push(self.direction);
        push_zeros(out, 3);
        assert(out@ =~= old(out)@ + self.spec_bytes());
    }

    /// The number of bytes `emit` writes.
    pub fn buffer_len(&self) -> (r: usize)
        ensures
            r == XFRM_USER_POLICY_ID_LEN,
            r == self.spec_bytes().len(),
    {
        proof {
            UserPolicyId::lemma_roundtrip(*self);
        }
        XFRM_USER_POLICY_ID_LEN
    }

    /// Writes the wire image over the first `XFRM_USER_POLICY_ID_LEN` bytes of `buffer`.
    pub fn emit(&self, buffer: &mut [u8])
        requires
            XFRM_USER_POLICY_ID_LEN <= old(buffer)@.len(),
        ensures
            final(buffer)@ == self.spec_bytes() + old(buffer)@.subrange(
                XFRM_USER_POLICY_ID_LEN as int,
                old(buffer)@.len() as int,
            ),
    {
        let raw = UserPolicyIdBuffer::from(self);
        proof {
            UserPolicyId::lemma_roundtrip(*self);
        }
        copy_prefix(buffer, raw.as_bytes());
    }
}

impl Default for UserPolicyId {
    fn default() -> (r: UserPolicyId)
        ensures
            r.is_default(),
    {
        UserPolicyId {
            selector: Selector::default(),
            index: 0,
            direction: 0,
        }
    }
}

impl UserPolicyId {
    /// Decoding the wire image of a `UserPolicyId` gives back the same value,
    /// and the image is `XFRM_USER_POLICY_ID_LEN` bytes long.
    pub proof fn lemma_roundtrip(x: UserPolicyId)
        ensures
            x.spec_bytes().len() == XFRM_USER_POLICY_ID_LEN,
            x.decodes(x.spec_bytes()),
    {
        reveal(UserPolicyId::spec_bytes);
        reveal(UserPolicyId::decodes);
        let b = x.spec_bytes();
        Selector::lemma_roundtrip(x.selector);
        assert(b.subrange(0, 56) =~= x.selector.spec_bytes());
        assert(b.subrange(56, 60) =~= u32_le_bytes(x.index));
        lemma_u32_le_field(b, 56, x.index);
        assert(b.subrange(60, 61) =~= seq![x.direction]);
        lemma_u8_field(b, 60, x.direction);
    }

    /// The layout of the wire image: each field sits at its fixed offset of
    /// the kernel's structure, padding bytes are zero.
    pub proof fn lemma_layout(x: UserPolicyId)
        ensures
            x.spec_bytes().len() == XFRM_USER_POLICY_ID_LEN,
            x.spec_bytes().subrange(0, 56) == x.selector.spec_bytes(),
            u32_le_at(x.spec_bytes(), 56) == x.index,
            x.spec_bytes()[60] == x.direction,
            x.spec_bytes().subrange(61, 64) == zeros(3),
    {
        reveal(UserPolicyId::spec_bytes);
        let b = x.spec_bytes();
        Selector::lemma_roundtrip(x.selector);
        assert(b.subrange(0, 56) =~= x.selector.spec_bytes());
        assert(b.subrange(56, 60) =~= u32_le_bytes(x.index));
        lemma_u32_le_field(b, 56, x.index);
        assert(b.subrange(60, 61) =~= seq![x.direction]);
        lemma_u8_field(b, 60, x.direction);
        assert(x.spec_bytes().subrange(61, 64) =~= zeros(3));
    }

    /// What decoding reads: each field from its fixed offset of `b`.
    pub proof fn lemma_decode_layout(x: UserPolicyId, b: Seq<u8>)
        requires
            XFRM_USER_POLICY_ID_LEN <= b.len(),
            x.decodes(b),
        ensures
            x.selector.decodes(b.subrange(0, 56)),
            x.index == u32_le_at(b, 56),
            x.direction == b[60],
    {
        reveal(UserPolicyId::decodes);
    }

    /// Encoding a value decoded from `b` gives back the first `XFRM_USER_POLICY_ID_LEN`
    /// bytes of `b`, with the padding bytes set to zero.
    pub proof fn lemma_reencode(x: UserPolicyId, b: Seq<u8>)
        requires
            XFRM_USER_POLICY_ID_LEN <= b.len(),
            x.decodes(b),
        ensures
            x.spec_bytes() == UserPolicyId::canonical(b),
    {
        reveal(UserPolicyId::spec_bytes);
        reveal(UserPolicyId::decodes);
        reveal(UserPolicyId::canonical);
        Selector::lemma_reencode(x.selector, b.subrange(0, 56));
        lemma_u32_le_bytes_of(b, 56);
        lemma_u8_bytes_of(b, 60);
    }

    /// Only the first `XFRM_USER_POLICY_ID_LEN` bytes of `b` matter to what it decodes to.
    pub proof fn lemma_decodes_prefix(x: UserPolicyId, b: Seq<u8>)
        requires
            XFRM_USER_POLICY_ID_LEN <= b.len(),
        ensures
            x.decodes(b) == x.decodes(b.subrange(0, XFRM_USER_POLICY_ID_LEN as int)),
    {
        reveal(UserPolicyId::decodes);
        let p = b.subrange(0, XFRM_USER_POLICY_ID_LEN as int);
        assert(forall|i: int| 0 <= i < XFRM_USER_POLICY_ID_LEN ==> #[trigger] p[i] == b[i]);
        assert(p.subrange(0, 56) =~= b.subrange(0, 56));
    }

    /// At most one value decodes from given bytes.
    pub proof fn lemma_decodes_unique(x: UserPolicyId, y: UserPolicyId, b: Seq<u8>)
        requires
            XFRM_USER_POLICY_ID_LEN <= b.len(),
            x.decodes(b),
            y.decodes(b),
        ensures
            x == y,
    {
        reveal(UserPolicyId::decodes);
        Selector::lemma_decodes_unique(x.selector, y.selector, b.subrange(0, 56));
    }
}

/// The wire image of a `UserPolicyId`, as laid out in the kernel's structure.
pub struct UserPolicyIdBuffer {
    bytes: Vec<u8>,
}

impl View for UserPolicyIdBuffer {
    type V = Seq<u8>;

    closed spec fn view(&self) -> Seq<u8> {
        self.bytes@
    }
}

impl UserPolicyIdBuffer {
    /// Lays out `value` in its wire image.
    pub fn from(value: &UserPolicyId) -> (r: UserPolicyIdBuffer)
        ensures
            r@ == value.spec_bytes(),
    {
        let mut bytes: Vec<u8> = Vec::new();
        value.write_to(&mut bytes);
        assert(bytes@ =~= value.spec_bytes());
        UserPolicyIdBuffer { bytes }
    }

    /// The bytes of the image.
    pub fn as_bytes(&self) -> (r: &[u8])
        ensures
            r@ == self@,
    {
        self.bytes.as_slice()
    }
}

} // verus!
