//! The `xfrm_user_polexpire` structure.

use vstd::prelude::*;
use vstd::slice::slice_subrange;
use crate::wire::{copy_prefix, lemma_u8_bytes_of, lemma_u8_field, push_zeros, zeros, ParseError};
use crate::user_policy_info::{UserPolicyInfo};

verus! {

/// The notice that a policy expires.
#[derive(Debug, Clone, Copy, Eq, PartialEq)]
pub struct UserPolicyExpire {
    pub pol: UserPolicyInfo,
    pub hard: u8,
}

pub const XFRM_USER_POLICY_EXPIRE_LEN: usize = 176;

impl UserPolicyExpire {
    /// The first `XFRM_USER_POLICY_EXPIRE_LEN` bytes of `b` with every padding byte set to zero.
    #[verifier::opaque]
    pub open spec fn canonical(b: Seq<u8>) -> Seq<u8> {
        UserPolicyInfo::canonical(b.subrange(0, 168))
            + b.subrange(168, 169)
            + zeros(7)
    }

    /// The wire image: the fields in order, padding as zero bytes.
    #[verifier::opaque]
    pub open spec fn spec_bytes(&self) -> Seq<u8> {
        self.pol.spec_bytes()
            + seq![self.hard]
            + zeros(7)
    }

    /// `self` is what the first `XFRM_USER_POLICY_EXPIRE_LEN` bytes of `b` describe.
    #[verifier::opaque]
    pub open spec fn decodes(&self, b: Seq<u8>) -> bool {
        &&& self.pol.decodes(b.subrange(0, 168))
        &&& self.hard == b[168]
    }

    /// `self` holds the values that `default()` gives.
    pub open spec fn is_default(&self) -> bool {
        &&& self.pol.is_default()
        &&& self.hard == 0
    }

    /// Decodes the first `XFRM_USER_POLICY_EXPIRE_LEN` bytes of `s`.
    pub fn decode(s: &[u8]) -> (r: UserPolicyExpire)
        requires
            XFRM_USER_POLICY_EXPIRE_LEN <= s.len(),
        ensures
            r.decodes(s@),
    {
        proof {
            reveal(UserPolicyExpire::decodes);
        }
        UserPolicyExpire {
            pol: UserPolicyInfo::decode(slice_subrange(s, 0, 168)),
            hard: s[168],
        }
    }

    /// Decodes a `UserPolicyExpire` from the start of `payload`; the bytes after the
    /// structure are ignored.
    pub fn parse(payload: &[u8]) -> (r: Result<UserPolicyExpire, ParseError>)
        ensures
            payload.len() < XFRM_USER_POLICY_EXPIRE_LEN ==> r == Err::<UserPolicyExpire, ParseError>(
                ParseError::BufferTooSmall { received: payload.len(), expected: XFRM_USER_POLICY_EXPIRE_LEN },
            ),
            XFRM_USER_POLICY_EXPIRE_LEN <= payload.len() ==> (r matches Ok(v) && v.decodes(payload@)),
    {
        if payload.len() < XFRM_USER_POLICY_EXPIRE_LEN {
            Err(ParseError::BufferTooSmall { received: payload.len(), expected: XFRM_USER_POLICY_EXPIRE_LEN })
        } else {
            Ok(UserPolicyExpire::decode(payload))
        }
    }

    /// Appends the wire image to `out`.
    pub fn write_to(&self, out: &mut Vec<u8>)
        ensures
            final(out)@ == old(out)@ + self.spec_bytes(),
    {
        proof {
            reveal(UserPolicyExpire::spec_bytes);
        }
        self.pol.write_to(out);
        out.push(self.hard);
        push_zeros(out, 7);
        assert(out@ =~= old(out)@ + self.spec_bytes());
    }

    /// The number of bytes `emit` writes.
    pub fn buffer_len(&self) -> (r: usize)
        ensures
            r == XFRM_USER_POLICY_EXPIRE_LEN,
            r == self.spec_bytes().len(),
    {
        proof {
            UserPolicyExpire::lemma_roundtrip(*self);
        }
        XFRM_USER_POLICY_EXPIRE_LEN
    }

    /// Writes the wire image over the first `XFRM_USER_POLICY_EXPIRE_LEN` bytes of `buffer`.
    pub fn emit(&self, buffer: &mut [u8])
        requires
            XFRM_USER_POLICY_EXPIRE_LEN <= old(buffer)@.len(),
        ensures
            final(buffer)@ == self.spec_bytes() + old(buffer)@.subrange(
                XFRM_USER_POLICY_EXPIRE_LEN as int,
                old(buffer)@.len() as int,
            ),
    {
        let raw = UserPolicyExpireBuffer::from(self);
        proof {
            UserPolicyExpire::lemma_roundtrip(*self);
        }
        copy_prefix(buffer, raw.as_bytes());
    }
}

impl Default for UserPolicyExpire {
    fn default() -> (r: UserPolicyExpire)
        ensures
            r.is_default(),
    {
        UserPolicyExpire {
            pol: UserPolicyInfo::default(),
            hard: 0,
        }
    }
}

impl UserPolicyExpire {
    /// Decoding the wire image of a `UserPolicyExpire` gives back the same value,
    /// and the image is `XFRM_USER_POLICY_EXPIRE_LEN` bytes long.
    pub proof fn lemma_roundtrip(x: UserPolicyExpire)
        ensures
            x.spec_bytes().len() == XFRM_USER_POLICY_EXPIRE_LEN,
            x.decodes(x.spec_bytes()),
    {
        reveal(UserPolicyExpire::spec_bytes);
        reveal(UserPolicyExpire::decodes);
        let b = x.spec_bytes();
        UserPolicyInfo::lemma_roundtrip(x.pol);
        assert(b.subrange(0, 168) =~= x.pol.spec_bytes());
        assert(b.subrange(168, 169) =~= seq![x.hard]);
        lemma_u8_field(b, 168, x.hard);
    }

    /// The layout of the wire image: each field sits at its fixed offset of
    /// the kernel's structure, padding bytes are zero.
    pub proof fn lemma_layout(x: UserPolicyExpire)
        ensures
            x.spec_bytes().len() == XFRM_USER_POLICY_EXPIRE_LEN,
            x.spec_bytes().subrange(0, 168) == x.pol.spec_bytes(),
            x.spec_bytes()[168] == x.hard,
            x.spec_bytes().subrange(169, 176) == zeros(7),
    {
        reveal(UserPolicyExpire::spec_bytes);
        let b = x.spec_bytes();
        UserPolicyInfo::lemma_roundtrip(x.pol);
        assert(b.subrange(0, 168) =~= x.pol.spec_bytes());
        assert(b.subrange(168, 169) =~= seq![x.hard]);
        lemma_u8_field(b, 168, x.hard);
        assert(x.spec_bytes().subrange(169, 176) =~= zeros(7));
    }

    /// What decoding reads: each field from its fixed offset of `b`.
    pub proof fn lemma_decode_layout(x: UserPolicyExpire, b: Seq<u8>)
        requires
            XFRM_USER_POLICY_EXPIRE_LEN <= b.len(),
            x.decodes(b),
        ensures
            x.pol.decodes(b.subrange(0, 168)),
            x.hard == b[168],
    {
        reveal(UserPolicyExpire::decodes);
    }

    /// Encoding a value decoded from `b` gives back the first `XFRM_USER_POLICY_EXPIRE_LEN`
    /// bytes of `b`, with the padding bytes set to zero.
    pub proof fn lemma_reencode(x: UserPolicyExpire, b: Seq<u8>)
        requires
            XFRM_USER_POLICY_EXPIRE_LEN <= b.len(),
            x.decodes(b),
        ensures
            x.spec_bytes() == UserPolicyExpire::canonical(b),
    {
        reveal(UserPolicyExpire::spec_bytes);
        reveal(UserPolicyExpire::decodes);
        reveal(UserPolicyExpire::canonical);
        UserPolicyInfo::lemma_reencode(x.pol, b.subrange(0, 168));
        lemma_u8_bytes_of(b, 168);
    }

    /// Only the first `XFRM_USER_POLICY_EXPIRE_LEN` bytes of `b` matter to what it decodes to.
    pub proof fn lemma_decodes_prefix(x: UserPolicyExpire, b: Seq<u8>)
        requires
            XFRM_USER_POLICY_EXPIRE_LEN <= b.len(),
        ensures
            x.decodes(b) == x.decodes(b.subrange(0, XFRM_USER_POLICY_EXPIRE_LEN as int)),
    {
        reveal(UserPolicyExpire::decodes);
        let p = b.subrange(0, XFRM_USER_POLICY_EXPIRE_LEN as int);
        assert(forall|i: int| 0 <= i < XFRM_USER_POLICY_EXPIRE_LEN ==> #[trigger] p[i] == b[i]);
        assert(p.subrange(0, 168) =~= b.subrange(0, 168));
    }

    /// At most one value decodes from given bytes.
    pub proof fn lemma_decodes_unique(x: UserPolicyExpire, y: UserPolicyExpire, b: Seq<u8>)
        requires
            XFRM_USER_POLICY_EXPIRE_LEN <= b.len(),
            x.decodes(b),
            y.decodes(b),
        ensures
            x == y,
    {
        reveal(UserPolicyExpire::decodes);
        UserPolicyInfo::lemma_decodes_unique(x.pol, y.pol, b.subrange(0, 168));
    }
}

/// The wire image of a `UserPolicyExpire`, as laid out in the kernel's structure.
pub struct UserPolicyExpireBuffer {
    bytes: Vec<u8>,
}

impl View for UserPolicyExpireBuffer {
    type V = Seq<u8>;

    closed spec fn view(&self) -> Seq<u8> {
        self.bytes@
    }
}

impl UserPolicyExpireBuffer {
    /// Lays out `value` in its wire image.
    pub fn from(value: &UserPolicyExpire) -> (r: UserPolicyExpireBuffer)
        ensures
            r@ == value.spec_bytes(),
    {
        let mut bytes: Vec<u8> = Vec::new();
        value.write_to(&mut bytes);
        assert(bytes@ =~= value.spec_bytes());
        UserPolicyExpireBuffer { bytes }
    }

    /// The bytes of the image.
    pub fn as_bytes(&self) -> (r: &[u8])
        ensures
            r@ == self@,
    {
        self.bytes.as_slice()
    }
}

} // verus!
