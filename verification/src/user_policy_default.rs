//! The `xfrm_userpolicy_default` structure.

use vstd::prelude::*;
use crate::wire::{copy_prefix, lemma_u8_bytes_of, lemma_u8_field, ParseError};

verus! {

/// The default action for each direction.
#[derive(Debug, Clone, Copy, Eq, PartialEq)]
pub struct UserPolicyDefault {
    pub input: u8,
    pub forward: u8,
    pub output: u8,
}

pub const XFRM_USER_POLICY_DEFAULT_LEN: usize = 3;

impl UserPolicyDefault {
    /// The first `XFRM_USER_POLICY_DEFAULT_LEN` bytes of `b` with every padding byte set to zero.
    #[verifier::opaque]
    pub open spec fn canonical(b: Seq<u8>) -> Seq<u8> {
        b.subrange(0, 1)
            + b.subrange(1, 2)
            + b.subrange(2, 3)
    }

    /// The wire image: the fields in order, padding as zero bytes.
    #[verifier::opaque]
    pub open spec fn spec_bytes(&self) -> Seq<u8> {
        seq![self.input]
            + seq![self.forward]
            + seq![self.output]
    }

    /// `self` is what the first `XFRM_USER_POLICY_DEFAULT_LEN` bytes of `b` describe.
    #[verifier::opaque]
    pub open spec fn decodes(&self, b: Seq<u8>) -> bool {
        &&& self.input == b[0]
        &&& self.forward == b[1]
        &&& self.output == b[2]
    }

    /// `self` holds the values that `default()` gives.
    pub open spec fn is_default(&self) -> bool {
        &&& self.input == 0
        &&& self.forward == 0
        &&& self.output == 0
    }

    /// Decodes the first `XFRM_USER_POLICY_DEFAULT_LEN` bytes of `s`.
    pub fn decode(s: &[u8]) -> (r: UserPolicyDefault)
        requires
            XFRM_USER_POLICY_DEFAULT_LEN <= s.len(),
        ensures
            r.decodes(s@),
    {
        proof {
            reveal(UserPolicyDefault::decodes);
        }
        UserPolicyDefault {
            input: s[0],
            forward: s[1],
            output: s[2],
        }
    }

    /// Decodes a `UserPolicyDefault` from the start of `payload`; the bytes after the
    /// structure are ignored.
    pub fn parse(payload: &[u8]) -> (r: Result<UserPolicyDefault, ParseError>)
        ensures
            payload.len() < XFRM_USER_POLICY_DEFAULT_LEN ==> r == Err::<UserPolicyDefault, ParseError>(
                ParseError::BufferTooSmall { received: payload.len(), expected: XFRM_USER_POLICY_DEFAULT_LEN },
            ),
            XFRM_USER_POLICY_DEFAULT_LEN <= payload.len() ==> (r matches Ok(v) && v.decodes(payload@)),
    {
        if payload.len() < XFRM_USER_POLICY_DEFAULT_LEN {
            Err(ParseError::BufferTooSmall { received: payload.len(), expected: XFRM_USER_POLICY_DEFAULT_LEN })
        } else {
            Ok(UserPolicyDefault::decode(payload))
        }
    }

    /// Appends the wire image to `out`.
    pub fn write_to(&self, out: &mut Vec<u8>)
        ensures
            final(out)@ == old(out)@ + self.spec_bytes(),
    {
        proof {
            reveal(UserPolicyDefault::spec_bytes);
        }
        out.push(self.input);
        out.push(self.forward);
        out.push(self.output);
        assert(out@ =~= old(out)@ + self.spec_bytes());
    }

    /// The number of bytes `emit` writes.
    pub fn buffer_len(&self) -> (r: usize)
        ensures
            r == XFRM_USER_POLICY_DEFAULT_LEN,
            r == self.spec_bytes().len(),
    {
        proof {
            UserPolicyDefault::lemma_roundtrip(*self);
        }
        XFRM_USER_POLICY_DEFAULT_LEN
    }

    /// Writes the wire image over the first `XFRM_USER_POLICY_DEFAULT_LEN` bytes of `buffer`.
    pub fn emit(&self, buffer: &mut [u8])
        requires
            XFRM_USER_POLICY_DEFAULT_LEN <= old(buffer)@.len(),
        ensures
            final(buffer)@ == self.spec_bytes() + old(buffer)@.subrange(
                XFRM_USER_POLICY_DEFAULT_LEN as int,
                old(buffer)@.len() as int,
            ),
    {
        let raw = UserPolicyDefaultBuffer::from(self);
        proof {
            UserPolicyDefault::lemma_roundtrip(*self);
        }
        copy_prefix(buffer, raw.as_bytes());
    }
}

impl Default for UserPolicyDefault {
    fn default() -> (r: UserPolicyDefault)
        ensures
            r.is_default(),
    {
        UserPolicyDefault {
            input: 0,
            forward: 0,
            output: 0,
        }
    }
}

impl UserPolicyDefault {
    /// Decoding the wire image of a `UserPolicyDefault` gives back the same value,
    /// and the image is `XFRM_USER_POLICY_DEFAULT_LEN` bytes long.
    pub proof fn lemma_roundtrip(x: UserPolicyDefault)
        ensures
            x.spec_bytes().len() == XFRM_USER_POLICY_DEFAULT_LEN,
            x.decodes(x.spec_bytes()),
    {
        reveal(UserPolicyDefault::spec_bytes);
        reveal(UserPolicyDefault::decodes);
        let b = x.spec_bytes();
        assert(b.subrange(0, 1) =~= seq![x.input]);
        lemma_u8_field(b, 0, x.input);
        assert(b.subrange(1, 2) =~= seq![x.forward]);
        lemma_u8_field(b, 1, x.forward);
        assert(b.subrange(2, 3) =~= seq![x.output]);
        lemma_u8_field(b, 2, x.output);
    }

    /// The layout of the wire image: each field sits at its fixed offset of
    /// the kernel's structure, padding bytes are zero.
    pub proof fn lemma_layout(x: UserPolicyDefault)
        ensures
            x.spec_bytes().len() == XFRM_USER_POLICY_DEFAULT_LEN,
            x.spec_bytes()[0] == x.input,
            x.spec_bytes()[1] == x.forward,
            x.spec_bytes()[2] == x.output,
    {
        reveal(UserPolicyDefault::spec_bytes);
        let b = x.spec_bytes();
        assert(b.subrange(0, 1) =~= seq![x.input]);
        lemma_u8_field(b, 0, x.input);
        assert(b.subrange(1, 2) =~= seq![x.forward]);
        lemma_u8_field(b, 1, x.forward);
        assert(b.subrange(2, 3) =~= seq![x.output]);
        lemma_u8_field(b, 2, x.output);

    }

    /// What decoding reads: each field from its fixed offset of `b`.
    pub proof fn lemma_decode_layout(x: UserPolicyDefault, b: Seq<u8>)
        requires
            XFRM_USER_POLICY_DEFAULT_LEN <= b.len(),
            x.decodes(b),
        ensures
            x.input == b[0],
            x.forward == b[1],
            x.output == b[2],
    {
        reveal(UserPolicyDefault::decodes);
    }

    /// Encoding a value decoded from `b` gives back the first `XFRM_USER_POLICY_DEFAULT_LEN`
    /// bytes of `b`, with the padding bytes set to zero.
    pub proof fn lemma_reencode(x: UserPolicyDefault, b: Seq<u8>)
        requires
            XFRM_USER_POLICY_DEFAULT_LEN <= b.len(),
            x.decodes(b),
        ensures
            x.spec_bytes() == UserPolicyDefault::canonical(b),
    {
        reveal(UserPolicyDefault::spec_bytes);
        reveal(UserPolicyDefault::decodes);
        reveal(UserPolicyDefault::canonical);
        lemma_u8_bytes_of(b, 0);
        lemma_u8_bytes_of(b, 1);
        lemma_u8_bytes_of(b, 2);
    }

    /// Only the first `XFRM_USER_POLICY_DEFAULT_LEN` bytes of `b` matter to what it decodes to.
    pub proof fn lemma_decodes_prefix(x: UserPolicyDefault, b: Seq<u8>)
        requires
            XFRM_USER_POLICY_DEFAULT_LEN <= b.len(),
        ensures
            x.decodes(b) == x.decodes(b.subrange(0, XFRM_USER_POLICY_DEFAULT_LEN as int)),
    {
        reveal(UserPolicyDefault::decodes);
        let p = b.subrange(0, XFRM_USER_POLICY_DEFAULT_LEN as int);
        assert(forall|i: int| 0 <= i < XFRM_USER_POLICY_DEFAULT_LEN ==> #[trigger] p[i] == b[i]);
    }

    /// At most one value decodes from given bytes.
    pub proof fn lemma_decodes_unique(x: UserPolicyDefault, y: UserPolicyDefault, b: Seq<u8>)
        requires
            XFRM_USER_POLICY_DEFAULT_LEN <= b.len(),
            x.decodes(b),
            y.decodes(b),
        ensures
            x == y,
    {
        reveal(UserPolicyDefault::decodes);

    }
}

/// The wire image of a `UserPolicyDefault`, as laid out in the kernel's structure.
pub struct UserPolicyDefaultBuffer {
    bytes: Vec<u8>,
}

impl View for UserPolicyDefaultBuffer {
    type V = Seq<u8>;

    closed spec fn view(&self) -> Seq<u8> {
        self.bytes@
    }
}

impl UserPolicyDefaultBuffer {
    /// Lays out `value` in its wire image.
    pub fn from(value: &UserPolicyDefault) -> (r: UserPolicyDefaultBuffer)
        ensures
            r@ == value.spec_bytes(),
    {
        let mut bytes: Vec<u8> = Vec::new();
        value.write_to(&mut bytes);
        assert(bytes@ =~= value.spec_bytes());
        UserPolicyDefaultBuffer { bytes }
    }

    /// The bytes of the image.
    pub fn as_bytes(&self) -> (r: &[u8])
        ensures
            r@ == self@,
    {
        self.bytes.as_slice()
    }
}

} // verus!
