//! The `xfrm_user_expire` structure.

use vstd::prelude::*;
use vstd::slice::slice_subrange;
use crate::wire::{copy_prefix, lemma_u8_bytes_of, lemma_u8_field, push_zeros, zeros, ParseError};
use crate::user_sa_info::{UserSaInfo};

verus! {

/// The notice that a security association expires.
#[derive(Debug, Clone, Copy, Eq, PartialEq)]
pub struct UserExpire {
    pub state: UserSaInfo,
    pub hard: u8,
}

pub const XFRM_USER_EXPIRE_LEN: usize = 232;

impl UserExpire {
    /// The first `XFRM_USER_EXPIRE_LEN` bytes of `b` with every padding byte set to zero.
    #[verifier::opaque]
    pub open spec fn canonical(b: Seq<u8>) -> Seq<u8> {
        UserSaInfo::canonical(b.subrange(0, 224))
            + b.subrange(224, 225)
            + zeros(7)
    }

    /// The wire image: the fields in order, padding as zero bytes.
    #[verifier::opaque]
    pub open spec fn spec_bytes(&self) -> Seq<u8> {
        self.state.spec_bytes()
            + seq![self.hard]
            + zeros(7)
    }

    /// `self` is what the first `XFRM_USER_EXPIRE_LEN` bytes of `b` describe.
    #[verifier::opaque]
    pub open spec fn decodes(&self, b: Seq<u8>) -> bool {
        &&& self.state.decodes(b.subrange(0, 224))
        &&& self.hard == b[224]
    }

    /// `self` holds the values that `default()` gives.
    pub open spec fn is_default(&self) -> bool {
        &&& self.state.is_default()
        &&& self.hard == 0
    }

    /// Decodes the first `XFRM_USER_EXPIRE_LEN` bytes of `s`.
    pub fn decode(s: &[u8]) -> (r: UserExpire)
        requires
            XFRM_USER_EXPIRE_LEN <= s.len(),
        ensures
            r.decodes(s@),
    {
        proof {
            reveal(UserExpire::decodes);
        }
        UserExpire {
            state: UserSaInfo::decode(slice_subrange(s, 0, 224)),
            hard: s[224],
        }
    }

    /// Decodes a `UserExpire` from the start of `payload`; the bytes after the
    /// structure are ignored.
    pub fn parse(payload: &[u8]) -> (r: Result<UserExpire, ParseError>)
        ensures
            payload.len() < XFRM_USER_EXPIRE_LEN ==> r == Err::<UserExpire, ParseError>(
                ParseError::BufferTooSmall { received: payload.len(), expected: XFRM_USER_EXPIRE_LEN },
            ),
            XFRM_USER_EXPIRE_LEN <= payload.len() ==> (r matches Ok(v) && v.decodes(payload@)),
    {
        if payload.len() < XFRM_USER_EXPIRE_LEN {
            Err(ParseError::BufferTooSmall { received: payload.len(), expected: XFRM_USER_EXPIRE_LEN })
        } else {
            Ok(UserExpire::decode(payload))
        }
    }

    /// Appends the wire image to `out`.
    pub fn write_to(&self, out: &mut Vec<u8>)
        ensures
            final(out)@ == old(out)@ + self.spec_bytes(),
    {
        proof {
            reveal(UserExpire::spec_bytes);
        }
        self.state.write_to(out);
        out.push(self.hard);
        push_zeros(out, 7);
        assert(out@ =~= old(out)@ + self.spec_bytes());
    }

    /// The number of bytes `emit` writes.
    pub fn buffer_len(&self) -> (r: usize)
        ensures
            r == XFRM_USER_EXPIRE_LEN,
            r == self.spec_bytes().len(),
    {
        proof {
            UserExpire::lemma_roundtrip(*self);
        }
        XFRM_USER_EXPIRE_LEN
    }

    /// Writes the wire image over the first `XFRM_USER_EXPIRE_LEN` bytes of `buffer`.
    pub fn emit(&self, buffer: &mut [u8])
        requires
            XFRM_USER_EXPIRE_LEN <= old(buffer)@.len(),
        ensures
            final(buffer)@ == self.spec_bytes() + old(buffer)@.subrange(
                XFRM_USER_EXPIRE_LEN as int,
                old(buffer)@.len() as int,
            ),
    {
        let raw = UserExpireBuffer::from(self);
        proof {
            UserExpire::lemma_roundtrip(*self);
        }
        copy_prefix(buffer, raw.as_bytes());
    }
}

impl Default for UserExpire {
    fn default() -> (r: UserExpire)
        ensures
            r.is_default(),
    {
        UserExpire {
            state: UserSaInfo::default(),
            hard: 0,
        }
    }
}

impl UserExpire {
    /// Decoding the wire image of a `UserExpire` gives back the same value,
    /// and the image is `XFRM_USER_EXPIRE_LEN` bytes long.
    pub proof fn lemma_roundtrip(x: UserExpire)
        ensures
            x.spec_bytes().len() == XFRM_USER_EXPIRE_LEN,
            x.decodes(x.spec_bytes()),
    {
        reveal(UserExpire::spec_bytes);
        reveal(UserExpire::decodes);
        let b = x.spec_bytes();
        UserSaInfo::lemma_roundtrip(x.state);
        assert(b.subrange(0, 224) =~= x.state.spec_bytes());
        assert(b.subrange(224, 225) =~= seq![x.hard]);
        lemma_u8_field(b, 224, x.hard);
    }

    /// The layout of the wire image: each field sits at its fixed offset of
    /// the kernel's structure, padding bytes are zero.
    pub proof fn lemma_layout(x: UserExpire)
        ensures
            x.spec_bytes().len() == XFRM_USER_EXPIRE_LEN,
            x.spec_bytes().subrange(0, 224) == x.state.spec_bytes(),
            x.spec_bytes()[224] == x.hard,
            x.spec_bytes().subrange(225, 232) == zeros(7),
    {
        reveal(UserExpire::spec_bytes);
        let b = x.spec_bytes();
        UserSaInfo::lemma_roundtrip(x.state);
        assert(b.subrange(0, 224) =~= x.state.spec_bytes());
        assert(b.subrange(224, 225) =~= seq![x.hard]);
        lemma_u8_field(b, 224, x.hard);
        assert(x.spec_bytes().subrange(225, 232) =~= zeros(7));
    }

    /// What decoding reads: each field from its fixed offset of `b`.
    pub proof fn lemma_decode_layout(x: UserExpire, b: Seq<u8>)
        requires
            XFRM_USER_EXPIRE_LEN <= b.len(),
            x.decodes(b),
        ensures
            x.state.decodes(b.subrange(0, 224)),
            x.hard == b[224],
    {
        reveal(UserExpire::decodes);
    }

    /// Encoding a value decoded from `b` gives back the first `XFRM_USER_EXPIRE_LEN`
    /// bytes of `b`, with the padding bytes set to zero.
    pub proof fn lemma_reencode(x: UserExpire, b: Seq<u8>)
        requires
            XFRM_USER_EXPIRE_LEN <= b.len(),
            x.decodes(b),
        ensures
            x.spec_bytes() == UserExpire::canonical(b),
    {
        reveal(UserExpire::spec_bytes);
        reveal(UserExpire::decodes);
        reveal(UserExpire::canonical);
        UserSaInfo::lemma_reencode(x.state, b.subrange(0, 224));
        lemma_u8_bytes_of(b, 224);
    }

    /// Only the first `XFRM_USER_EXPIRE_LEN` bytes of `b` matter to what it decodes to.
    pub proof fn lemma_decodes_prefix(x: UserExpire, b: Seq<u8>)
        requires
            XFRM_USER_EXPIRE_LEN <= b.len(),
        ensures
            x.decodes(b) == x.decodes(b.subrange(0, XFRM_USER_EXPIRE_LEN as int)),
    {
        reveal(UserExpire::decodes);
        let p = b.subrange(0, XFRM_USER_EXPIRE_LEN as int);
        assert(forall|i: int| 0 <= i < XFRM_USER_EXPIRE_LEN ==> #[trigger] p[i] == b[i]);
        assert(p.subrange(0, 224) =~= b.subrange(0, 224));
    }

    /// At most one value decodes from given bytes.
    pub proof fn lemma_decodes_unique(x: UserExpire, y: UserExpire, b: Seq<u8>)
        requires
            XFRM_USER_EXPIRE_LEN <= b.len(),
            x.decodes(b),
            y.decodes(b),
        ensures
            x == y,
    {
        reveal(UserExpire::decodes);
        UserSaInfo::lemma_decodes_unique(x.state, y.state, b.subrange(0, 224));
    }
}

/// The wire image of a `UserExpire`, as laid out in the kernel's structure.
pub struct UserExpireBuffer {
    bytes: Vec<u8>,
}

impl View for UserExpireBuffer {
    type V = Seq<u8>;

    closed spec fn view(&self) -> Seq<u8> {
        self.bytes@
    }
}

impl UserExpireBuffer {
    /// Lays out `value` in its wire image.
    pub fn from(value: &UserExpire) -> (r: UserExpireBuffer)
        ensures
            r@ == value.spec_bytes(),
    {
        let mut bytes: Vec<u8> = Vec::new();
        value.write_to(&mut bytes);
        assert(bytes@ =~= value.spec_bytes());
        UserExpireBuffer { bytes }
    }

    /// The bytes of the image.
    pub fn as_bytes(&self) -> (r: &[u8])
        ensures
            r@ == self@,
    {
        self.bytes.as_slice()
    }
}

} // verus!
