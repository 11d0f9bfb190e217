//! The `xfrm_userpolicy_type` structure.

use vstd::prelude::*;
use crate::wire::{
    copy_prefix,
    lemma_u16_le_bytes_of,
    lemma_u16_le_field,
    lemma_u8_bytes_of,
    lemma_u8_field,
    push_u16_le,
    push_zeros,
    read_u16_le,
    u16_le_at,
    u16_le_bytes,
    zeros,
    ParseError,
};

verus! {

/// The type (main or sub) of a policy.
#[derive(Debug, Clone, Copy, Eq, PartialEq)]
pub struct UserPolicyType {
    pub ptype: u8,
    pub reserved1: u16,
    pub reserved2: u8,
}

pub const XFRM_USER_POLICY_TYPE_LEN: usize = 6;

impl UserPolicyType {
    /// The first `XFRM_USER_POLICY_TYPE_LEN` bytes of `b` with every padding byte set to zero.
    #[verifier::opaque]
    pub open spec fn canonical(b: Seq<u8>) -> Seq<u8> {
        b.subrange(0, 1)
            + zeros(1)
            + b.subrange(2, 4)
            + b.subrange(4, 5)
            + zeros(1)
    }

    /// The wire image: the fields in order, padding as zero bytes.
    #[verifier::opaque]
    pub open spec fn spec_bytes(&self) -> Seq<u8> {
        seq![self.ptype]
            + zeros(1)
            + u16_le_bytes(self.reserved1)
            + seq![self.reserved2]
            + zeros(1)
    }

    /// `self` is what the first `XFRM_USER_POLICY_TYPE_LEN` bytes of `b` describe.
    #[verifier::opaque]
    pub open spec fn decodes(&self, b: Seq<u8>) -> bool {
        &&& self.ptype == b[0]
        &&& self.reserved1 == u16_le_at(b, 2)
        &&& self.reserved2 == b[4]
    }

    /// `self` holds the values that `default()` gives.
    pub open spec fn is_default(&self) -> bool {
        &&& self.ptype == 0
        &&& self.reserved1 == 0
        &&& self.reserved2 == 0
    }

    /// Decodes the first `XFRM_USER_POLICY_TYPE_LEN` bytes of `s`.
    pub fn decode(s: &[u8]) -> (r: UserPolicyType)
        requires
            XFRM_USER_POLICY_TYPE_LEN <= s.len(),
        ensures
            r.decodes(s@),
    {
        proof {
            reveal(UserPolicyType::decodes);
        }
        UserPolicyType {
            ptype: s[0],
            reserved1: read_u16_le(s, 2),
            reserved2: s[4],
        }
    }

    /// Decodes a `UserPolicyType` from the start of `payload`; the bytes after the
    /// structure are ignored.
    pub fn parse(payload: &[u8]) -> (r: Result<UserPolicyType, ParseError>)
        ensures
            payload.len() < XFRM_USER_POLICY_TYPE_LEN ==> r == Err::<UserPolicyType, ParseError>(
                ParseError::BufferTooSmall { received: payload.len(), expected: XFRM_USER_POLICY_TYPE_LEN },
            ),
            XFRM_USER_POLICY_TYPE_LEN <= payload.len() ==> (r matches Ok(v) && v.decodes(payload@)),
    {
        if payload.len() < XFRM_USER_POLICY_TYPE_LEN {
            Err(ParseError::BufferTooSmall { received: payload.len(), expected: XFRM_USER_POLICY_TYPE_LEN })
        } else {
            Ok(UserPolicyType::decode(payload))
        }
    }

    /// Appends the wire image to `out`.
    pub fn write_to(&self, out: &mut Vec<u8>)
        ensures
            final(out)@ == old(out)@ + self.spec_bytes(),
    {
        proof {
            reveal(UserPolicyType::spec_bytes);
        }
        out.push(self.ptype);
        push_zeros(out, 1);
        push_u16_le(out, self.reserved1);
        out.push(self.reserved2);
        push_zeros(out, 1);
        assert(out@ =~= old(out)@ + self.spec_bytes());
    }

    /// The number of bytes `emit` writes.
    pub fn buffer_len(&self) -> (r: usize)
        ensures
            r == XFRM_USER_POLICY_TYPE_LEN,
            r == self.spec_bytes().len(),
    {
        proof {
            UserPolicyType::lemma_roundtrip(*self);
        }
        XFRM_USER_POLICY_TYPE_LEN
    }

    /// Writes the wire image over the first `XFRM_USER_POLICY_TYPE_LEN` bytes of `buffer`.
    pub fn emit(&self, buffer: &mut [u8])
        requires
            XFRM_USER_POLICY_TYPE_LEN <= old(buffer)@.len(),
        ensures
            final(buffer)@ == self.spec_bytes() + old(buffer)@.subrange(
                XFRM_USER_POLICY_TYPE_LEN as int,
                old(buffer)@.len() as int,
            ),
    {
        let raw = UserPolicyTypeBuffer::from(self);
        proof {
            UserPolicyType::lemma_roundtrip(*self);
        }
        copy_prefix(buffer, raw.as_bytes());
    }
}

impl Default for UserPolicyType {
    fn default() -> (r: UserPolicyType)
        ensures
            r.is_default(),
    {
        UserPolicyType {
            ptype: 0,
            reserved1: 0,
            reserved2: 0,
        }
    }
}

impl UserPolicyType {
    /// Decoding the wire image of a `UserPolicyType` gives back the same value,
    /// and the image is `XFRM_USER_POLICY_TYPE_LEN` bytes long.
    pub proof fn lemma_roundtrip(x: UserPolicyType)
        ensures
            x.spec_bytes().len() == XFRM_USER_POLICY_TYPE_LEN,
            x.decodes(x.spec_bytes()),
    {
        reveal(UserPolicyType::spec_bytes);
        reveal(UserPolicyType::decodes);
        let b = x.spec_bytes();
        assert(b.subrange(0, 1) =~= seq![x.ptype]);
        lemma_u8_field(b, 0, x.ptype);
        assert(b.subrange(2, 4) =~= u16_le_bytes(x.reserved1));
        lemma_u16_le_field(b, 2, x.reserved1);
        assert(b.subrange(4, 5) =~= seq![x.reserved2]);
        lemma_u8_field(b, 4, x.reserved2);
    }

    /// The layout of the wire image: each field sits at its fixed offset of
    /// the kernel's structure, padding bytes are zero.
    pub proof fn lemma_layout(x: UserPolicyType)
        ensures
            x.spec_bytes().len() == XFRM_USER_POLICY_TYPE_LEN,
            x.spec_bytes()[0] == x.ptype,
            x.spec_bytes().subrange(1, 2) == zeros(1),
            u16_le_at(x.spec_bytes(), 2) == x.reserved1,
            x.spec_bytes()[4] == x.reserved2,
            x.spec_bytes().subrange(5, 6) == zeros(1),
    {
        reveal(UserPolicyType::spec_bytes);
        let b = x.spec_bytes();
        assert(b.subrange(0, 1) =~= seq![x.ptype]);
        lemma_u8_field(b, 0, x.ptype);
        assert(b.subrange(2, 4) =~= u16_le_bytes(x.reserved1));
        lemma_u16_le_field(b, 2, x.reserved1);
        assert(b.subrange(4, 5) =~= seq![x.reserved2]);
        lemma_u8_field(b, 4, x.reserved2);
        assert(x.spec_bytes().subrange(1, 2) =~= zeros(1));
        assert(x.spec_bytes().subrange(5, 6) =~= zeros(1));
    }

    /// What decoding reads: each field from its fixed offset of `b`.
    pub proof fn lemma_decode_layout(x: UserPolicyType, b: Seq<u8>)
        requires
            XFRM_USER_POLICY_TYPE_LEN <= b.len(),
            x.decodes(b),
        ensures
            x.ptype == b[0],
            x.reserved1 == u16_le_at(b, 2),
            x.reserved2 == b[4],
    {
        reveal(UserPolicyType::decodes);
    }

    /// Encoding a value decoded from `b` gives back the first `XFRM_USER_POLICY_TYPE_LEN`
    /// bytes of `b`, with the padding bytes set to zero.
    pub proof fn lemma_reencode(x: UserPolicyType, b: Seq<u8>)
        requires
            XFRM_USER_POLICY_TYPE_LEN <= b.len(),
            x.decodes(b),
        ensures
            x.spec_bytes() == UserPolicyType::canonical(b),
    {
        reveal(UserPolicyType::spec_bytes);
        reveal(UserPolicyType::decodes);
        reveal(UserPolicyType::canonical);
        lemma_u8_bytes_of(b, 0);
        lemma_u16_le_bytes_of(b, 2);
        lemma_u8_bytes_of(b, 4);
    }

    /// Only the first `XFRM_USER_POLICY_TYPE_LEN` bytes of `b` matter to what it decodes to.
    pub proof fn lemma_decodes_prefix(x: UserPolicyType, b: Seq<u8>)
        requires
            XFRM_USER_POLICY_TYPE_LEN <= b.len(),
        ensures
            x.decodes(b) == x.decodes(b.subrange(0, XFRM_USER_POLICY_TYPE_LEN as int)),
    {
        reveal(UserPolicyType::decodes);
        let p = b.subrange(0, XFRM_USER_POLICY_TYPE_LEN as int);
        assert(forall|i: int| 0 <= i < XFRM_USER_POLICY_TYPE_LEN ==> #[trigger] p[i] == b[i]);
    }

    /// At most one value decodes from given bytes.
    pub proof fn lemma_decodes_unique(x: UserPolicyType, y: UserPolicyType, b: Seq<u8>)
        requires
            XFRM_USER_POLICY_TYPE_LEN <= b.len(),
            x.decodes(b),
            y.decodes(b),
        ensures
            x == y,
    {
        reveal(UserPolicyType::decodes);

    }
}

/// The wire image of a `UserPolicyType`, as laid out in the kernel's structure.
pub struct UserPolicyTypeBuffer {
    bytes: Vec<u8>,
}

impl View for UserPolicyTypeBuffer {
    type V = Seq<u8>;

    closed spec fn view(&self) -> Seq<u8> {
        self.bytes@
    }
}

impl UserPolicyTypeBuffer {
    /// Lays out `value` in its wire image.
    pub fn from(value: &UserPolicyType) -> (r: UserPolicyTypeBuffer)
        ensures
            r@ == value.spec_bytes(),
    {
        let mut bytes: Vec<u8> = Vec::new();
        value.write_to(&mut bytes);
        assert(bytes@ =~= value.spec_bytes());
        UserPolicyTypeBuffer { bytes }
    }

    /// The bytes of the image.
    pub fn as_bytes(&self) -> (r: &[u8])
        ensures
            r@ == self@,
    {
        self.bytes.as_slice()
    }
}

} // verus!
