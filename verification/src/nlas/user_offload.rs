//! The `xfrm_user_offload` structure.

use vstd::prelude::*;
use crate::wire::{
    copy_prefix,
    i32_le_at,
    i32_le_bytes,
    lemma_i32_le_bytes_of,
    lemma_i32_le_field,
    lemma_u8_bytes_of,
    lemma_u8_field,
    push_i32_le,
    push_zeros,
    read_i32_le,
    zeros,
    ParseError,
};

verus! {

/// The device a security association is offloaded to.
#[derive(Debug, Clone, Copy, Eq, PartialEq)]
pub struct UserOffloadDev {
    pub ifindex: i32, // "int" in iproute2
    pub flags: u8,
}

pub const XFRM_USER_OFFLOAD_DEV_LEN: usize = 8;

impl UserOffloadDev {
    /// The first `XFRM_USER_OFFLOAD_DEV_LEN` bytes of `b` with every padding byte set to zero.
    #[verifier::opaque]
    pub open spec fn canonical(b: Seq<u8>) -> Seq<u8> {
        b.subrange(0, 4)
            + b.subrange(4, 5)
            + zeros(3)
    }

    /// The wire image: the fields in order, padding as zero bytes.
    #[verifier::opaque]
    pub open spec fn spec_bytes(&self) -> Seq<u8> {
        i32_le_bytes(self.ifindex)
            + seq![self.flags]
            + zeros(3)
    }

    /// `self` is what the first `XFRM_USER_OFFLOAD_DEV_LEN` bytes of `b` describe.
    #[verifier::opaque]
    pub open spec fn decodes(&self, b: Seq<u8>) -> bool {
        &&& self.ifindex == i32_le_at(b, 0)
        &&& self.flags == b[4]
    }

    /// `self` holds the values that `default()` gives.
    pub open spec fn is_default(&self) -> bool {
        &&& self.ifindex == 0
        &&& self.flags == 0
    }

    /// Decodes the first `XFRM_USER_OFFLOAD_DEV_LEN` bytes of `s`.
    pub fn decode(s: &[u8]) -> (r: UserOffloadDev)
        requires
            XFRM_USER_OFFLOAD_DEV_LEN <= s.len(),
        ensures
            r.decodes(s@),
    {
        proof {
            reveal(UserOffloadDev::decodes);
        }
        UserOffloadDev {
            ifindex: read_i32_le(s, 0),
            flags: s[4],
        }
    }

    /// Decodes a `UserOffloadDev` from the start of `payload`; the bytes after the
    /// structure are ignored.
    pub fn parse(payload: &[u8]) -> (r: Result<UserOffloadDev, ParseError>)
        ensures
            payload.len() < XFRM_USER_OFFLOAD_DEV_LEN ==> r == Err::<UserOffloadDev, ParseError>(
                ParseError::BufferTooSmall { received: payload.len(), expected: XFRM_USER_OFFLOAD_DEV_LEN },
            ),
            XFRM_USER_OFFLOAD_DEV_LEN <= payload.len() ==> (r matches Ok(v) && v.decodes(payload@)),
    {
        if payload.len() < XFRM_USER_OFFLOAD_DEV_LEN {
            Err(ParseError::BufferTooSmall { received: payload.len(), expected: XFRM_USER_OFFLOAD_DEV_LEN })
        } else {
            Ok(UserOffloadDev::decode(payload))
        }
    }

    /// Appends the wire image to `out`.
    pub fn write_to(&self, out: &mut Vec<u8>)
        ensures
            final(out)@ == old(out)@ + self.spec_bytes(),
    {
        proof {
            reveal(UserOffloadDev::spec_bytes);
        }
        push_i32_le(out, self.ifindex);
        out.push(self.flags);
        push_zeros(out, 3);
        assert(out@ =~= old(out)@ + self.spec_bytes());
    }

    /// The number of bytes `emit` writes.
    pub fn buffer_len(&self) -> (r: usize)
        ensures
            r == XFRM_USER_OFFLOAD_DEV_LEN,
            r == self.spec_bytes().len(),
    {
        proof {
            UserOffloadDev::lemma_roundtrip(*self);
        }
        XFRM_USER_OFFLOAD_DEV_LEN
    }

    /// Writes the wire image over the first `XFRM_USER_OFFLOAD_DEV_LEN` bytes of `buffer`.
    pub fn emit(&self, buffer: &mut [u8])
        requires
            XFRM_USER_OFFLOAD_DEV_LEN <= old(buffer)@.len(),
        ensures
            final(buffer)@ == self.spec_bytes() + old(buffer)@.subrange(
                XFRM_USER_OFFLOAD_DEV_LEN as int,
                old(buffer)@.len() as int,
            ),
    {
        let raw = UserOffloadDevBuffer::from(self);
        proof {
            UserOffloadDev::lemma_roundtrip(*self);
        }
        copy_prefix(buffer, raw.as_bytes());
    }
}

impl Default for UserOffloadDev {
    fn default() -> (r: UserOffloadDev)
        ensures
            r.is_default(),
    {
        UserOffloadDev {
            ifindex: 0,
            flags: 0,
        }
    }
}

impl UserOffloadDev {
    /// Decoding the wire image of a `UserOffloadDev` gives back the same value,
    /// and the image is `XFRM_USER_OFFLOAD_DEV_LEN` bytes long.
    pub proof fn lemma_roundtrip(x: UserOffloadDev)
        ensures
            x.spec_bytes().len() == XFRM_USER_OFFLOAD_DEV_LEN,
            x.decodes(x.spec_bytes()),
    {
        reveal(UserOffloadDev::spec_bytes);
        reveal(UserOffloadDev::decodes);
        let b = x.spec_bytes();
        assert(b.subrange(0, 4) =~= i32_le_bytes(x.ifindex));
        lemma_i32_le_field(b, 0, x.ifindex);
        assert(b.subrange(4, 5) =~= seq![x.flags]);
        lemma_u8_field(b, 4, x.flags);
    }

    /// The layout of the wire image: each field sits at its fixed offset of
    /// the kernel's structure, padding bytes are zero.
    pub proof fn lemma_layout(x: UserOffloadDev)
        ensures
            x.spec_bytes().len() == XFRM_USER_OFFLOAD_DEV_LEN,
            i32_le_at(x.spec_bytes(), 0) == x.ifindex,
            x.spec_bytes()[4] == x.flags,
            x.spec_bytes().subrange(5, 8) == zeros(3),
    {
        reveal(UserOffloadDev::spec_bytes);
        let b = x.spec_bytes();
        assert(b.subrange(0, 4) =~= i32_le_bytes(x.ifindex));
        lemma_i32_le_field(b, 0, x.ifindex);
        assert(b.subrange(4, 5) =~= seq![x.flags]);
        lemma_u8_field(b, 4, x.flags);
        assert(x.spec_bytes().subrange(5, 8) =~= zeros(3));
    }

    /// What decoding reads: each field from its fixed offset of `b`.
    pub proof fn lemma_decode_layout(x: UserOffloadDev, b: Seq<u8>)
        requires
            XFRM_USER_OFFLOAD_DEV_LEN <= b.len(),
            x.decodes(b),
        ensures
            x.ifindex == i32_le_at(b, 0),
            x.flags == b[4],
    {
        reveal(UserOffloadDev::decodes);
    }

    /// Encoding a value decoded from `b` gives back the first `XFRM_USER_OFFLOAD_DEV_LEN`
    /// bytes of `b`, with the padding bytes set to zero.
    pub proof fn lemma_reencode(x: UserOffloadDev, b: Seq<u8>)
        requires
            XFRM_USER_OFFLOAD_DEV_LEN <= b.len(),
            x.decodes(b),
        ensures
            x.spec_bytes() == UserOffloadDev::canonical(b),
    {
        reveal(UserOffloadDev::spec_bytes);
        reveal(UserOffloadDev::decodes);
        reveal(UserOffloadDev::canonical);
        lemma_i32_le_bytes_of(b, 0);
        lemma_u8_bytes_of(b, 4);
    }

    /// Only the first `XFRM_USER_OFFLOAD_DEV_LEN` bytes of `b` matter to what it decodes to.
    pub proof fn lemma_decodes_prefix(x: UserOffloadDev, b: Seq<u8>)
        requires
            XFRM_USER_OFFLOAD_DEV_LEN <= b.len(),
        ensures
            x.decodes(b) == x.decodes(b.subrange(0, XFRM_USER_OFFLOAD_DEV_LEN as int)),
    {
        reveal(UserOffloadDev::decodes);
        let p = b.subrange(0, XFRM_USER_OFFLOAD_DEV_LEN as int);
        assert(forall|i: int| 0 <= i < XFRM_USER_OFFLOAD_DEV_LEN ==> #[trigger] p[i] == b[i]);
    }

    /// At most one value decodes from given bytes.
    pub proof fn lemma_decodes_unique(x: UserOffloadDev, y: UserOffloadDev, b: Seq<u8>)
        requires
            XFRM_USER_OFFLOAD_DEV_LEN <= b.len(),
            x.decodes(b),
            y.decodes(b),
        ensures
            x == y,
    {
        reveal(UserOffloadDev::decodes);

    }
}

/// The wire image of a `UserOffloadDev`, as laid out in the kernel's structure.
pub struct UserOffloadDevBuffer {
    bytes: Vec<u8>,
}

impl View for UserOffloadDevBuffer {
    type V = Seq<u8>;

    closed spec fn view(&self) -> Seq<u8> {
        self.bytes@
    }
}

impl UserOffloadDevBuffer {
    /// Lays out `value` in its wire image.
    pub fn from(value: &UserOffloadDev) -> (r: UserOffloadDevBuffer)
        ensures
            r@ == value.spec_bytes(),
    {
        let mut bytes: Vec<u8> = Vec::new();
        value.write_to(&mut bytes);
        assert(bytes@ =~= value.spec_bytes());
        UserOffloadDevBuffer { bytes }
    }

    /// The bytes of the image.
    pub fn as_bytes(&self) -> (r: &[u8])
        ensures
            r@ == self@,
    {
        self.bytes.as_slice()
    }
}

} // verus!
