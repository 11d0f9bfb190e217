//! The `xfrm_aevent_id` structure.

use vstd::prelude::*;
use vstd::slice::slice_subrange;
use crate::wire::{
    copy_prefix,
    lemma_u32_le_bytes_of,
    lemma_u32_le_field,
    push_u32_le,
    read_u32_le,
    u32_le_at,
    u32_le_bytes,
    ParseError,
};
use crate::address::{Address};
use crate::user_sa_id::{UserSaId};

verus! {

/// What an asynchronous event is about.
#[derive(Debug, Clone, Copy, Eq, PartialEq)]
pub struct AsyncEventId {
    pub sa_id: UserSaId,
    pub saddr: Address,
    pub flags: u32,
    pub reqid: u32,
}

pub const XFRM_ASYNC_EVENT_ID_LEN: usize = 48;

impl AsyncEventId {
    /// The first `XFRM_ASYNC_EVENT_ID_LEN` bytes of `b` with every padding byte set to zero.
    #[verifier::opaque]
    pub open spec fn canonical(b: Seq<u8>) -> Seq<u8> {
        UserSaId::canonical(b.subrange(0, 24))
            + Address::canonical(b.subrange(24, 40))
            + b.subrange(40, 44)
            + b.subrange(44, 48)
    }

    /// The wire image: the fields in order, padding as zero bytes.
    #[verifier::opaque]
    pub open spec fn spec_bytes(&self) -> Seq<u8> {
        self.sa_id.spec_bytes()
            + self.saddr.spec_bytes()
            + u32_le_bytes(self.flags)
            + u32_le_bytes(self.reqid)
    }

    /// `self` is what the first `XFRM_ASYNC_EVENT_ID_LEN` bytes of `b` describe.
    #[verifier::opaque]
    pub open spec fn decodes(&self, b: Seq<u8>) -> bool {
        &&& self.sa_id.decodes(b.subrange(0, 24))
        &&& self.saddr.decodes(b.subrange(24, 40))
        &&& self.flags == u32_le_at(b, 40)
        &&& self.reqid == u32_le_at(b, 44)
    }

    /// `self` holds the values that `default()` gives.
    pub open spec fn is_default(&self) -> bool {
        &&& self.sa_id.is_default()
        &&& self.saddr.is_default()
        &&& self.flags == 0
        &&& self.reqid == 0
    }

    /// Decodes the first `XFRM_ASYNC_EVENT_ID_LEN` bytes of `s`.
    pub fn decode(s: &[u8]) -> (r: AsyncEventId)
        requires
            XFRM_ASYNC_EVENT_ID_LEN <= s.len(),
        ensures
            r.decodes(s@),
    {
        proof {
            reveal(AsyncEventId::decodes);
        }
        AsyncEventId {
            sa_id: UserSaId::decode(slice_subrange(s, 0, 24)),
            saddr: Address::decode(slice_subrange(s, 24, 40)),
            flags: read_u32_le(s, 40),
            reqid: read_u32_le(s, 44),
        }
    }

    /// Decodes an `AsyncEventId` from the start of `payload`; the bytes after the
    /// structure are ignored.
    pub fn parse(payload: &[u8]) -> (r: Result<AsyncEventId, ParseError>)
        ensures
            payload.len() < XFRM_ASYNC_EVENT_ID_LEN ==> r == Err::<AsyncEventId, ParseError>(
                ParseError::BufferTooSmall { received: payload.len(), expected: XFRM_ASYNC_EVENT_ID_LEN },
            ),
            XFRM_ASYNC_EVENT_ID_LEN <= payload.len() ==> (r matches Ok(v) && v.decodes(payload@)),
    {
        if payload.len() < XFRM_ASYNC_EVENT_ID_LEN {
            Err(ParseError::BufferTooSmall { received: payload.len(), expected: XFRM_ASYNC_EVENT_ID_LEN })
        } else {
            Ok(AsyncEventId::decode(payload))
        }
    }

    /// Appends the wire image to `out`.
    pub fn write_to(&self, out: &mut Vec<u8>)
        ensures
            final(out)@ == old(out)@ + self.spec_bytes(),
    {
        proof {
            reveal(AsyncEventId::spec_bytes);
        }
        self.sa_id.write_to(out);
        self.saddr.write_to(out);
        push_u32_le(out, self.flags);
        push_u32_le(out, self.reqid);
        assert(out@ =~= old(out)@ + self.spec_bytes());
    }

    /// The number of bytes `emit` writes.
    pub fn buffer_len(&self) -> (r: usize)
        ensures
            r == XFRM_ASYNC_EVENT_ID_LEN,
            r == self.spec_bytes().len(),
    {
        proof {
            AsyncEventId::lemma_roundtrip(*self);
        }
        XFRM_ASYNC_EVENT_ID_LEN
    }

    /// Writes the wire image over the first `XFRM_ASYNC_EVENT_ID_LEN` bytes of `buffer`.
    pub fn emit(&self, buffer: &mut [u8])
        requires
            XFRM_ASYNC_EVENT_ID_LEN <= old(buffer)@.len(),
        ensures
            final(buffer)@ == self.spec_bytes() + old(buffer)@.subrange(
                XFRM_ASYNC_EVENT_ID_LEN as int,
                old(buffer)@.len() as int,
            ),
    {
        let raw = AsyncEventIdBuffer::from(self);
        proof {
            AsyncEventId::lemma_roundtrip(*self);
        }
        copy_prefix(buffer, raw.as_bytes());
    }
}

impl Default for AsyncEventId {
    fn default() -> (r: AsyncEventId)
        ensures
            r.is_default(),
    {
        AsyncEventId {
            sa_id: UserSaId::default(),
            saddr: Address::default(),
            flags: 0,
            reqid: 0,
        }
    }
}

impl AsyncEventId {
    /// Decoding the wire image of an `AsyncEventId` gives back the same value,
    /// and the image is `XFRM_ASYNC_EVENT_ID_LEN` bytes long.
    pub proof fn lemma_roundtrip(x: AsyncEventId)
        ensures
            x.spec_bytes().len() == XFRM_ASYNC_EVENT_ID_LEN,
            x.decodes(x.spec_bytes()),
    {
        reveal(AsyncEventId::spec_bytes);
        reveal(AsyncEventId::decodes);
        let b = x.spec_bytes();
        UserSaId::lemma_roundtrip(x.sa_id);
        assert(b.subrange(0, 24) =~= x.sa_id.spec_bytes());
        Address::lemma_roundtrip(x.saddr);
        assert(b.subrange(24, 40) =~= x.saddr.spec_bytes());
        assert(b.subrange(40, 44) =~= u32_le_bytes(x.flags));
        lemma_u32_le_field(b, 40, x.flags);
        assert(b.subrange(44, 48) =~= u32_le_bytes(x.reqid));
        lemma_u32_le_field(b, 44, x.reqid);
    }

    /// The layout of the wire image: each field sits at its fixed offset of
    /// the kernel's structure, padding bytes are zero.
    pub proof fn lemma_layout(x: AsyncEventId)
        ensures
            x.spec_bytes().len() == XFRM_ASYNC_EVENT_ID_LEN,
            x.spec_bytes().subrange(0, 24) == x.sa_id.spec_bytes(),
            x.spec_bytes().subrange(24, 40) == x.saddr.addr@,
            u32_le_at(x.spec_bytes(), 40) == x.flags,
            u32_le_at(x.spec_bytes(), 44) == x.reqid,
    {
        reveal(AsyncEventId::spec_bytes);
        let b = x.spec_bytes();
        UserSaId::lemma_roundtrip(x.sa_id);
        assert(b.subrange(0, 24) =~= x.sa_id.spec_bytes());
        Address::lemma_roundtrip(x.saddr);
        assert(b.subrange(24, 40) =~= x.saddr.spec_bytes());
        assert(b.subrange(40, 44) =~= u32_le_bytes(x.flags));
        lemma_u32_le_field(b, 40, x.flags);
        assert(b.subrange(44, 48) =~= u32_le_bytes(x.reqid));
        lemma_u32_le_field(b, 44, x.reqid);

    }

    /// What decoding reads: each field from its fixed offset of `b`.
    pub proof fn lemma_decode_layout(x: AsyncEventId, b: Seq<u8>)
        requires
            XFRM_ASYNC_EVENT_ID_LEN <= b.len(),
            x.decodes(b),
        ensures
            x.sa_id.decodes(b.subrange(0, 24)),
            x.saddr.addr@ == b.subrange(24, 40),
            x.flags == u32_le_at(b, 40),
            x.reqid == u32_le_at(b, 44),
    {
        reveal(AsyncEventId::decodes);
    }

    /// Encoding a value decoded from `b` gives back the first `XFRM_ASYNC_EVENT_ID_LEN`
    /// bytes of `b`, with the padding bytes set to zero.
    pub proof fn lemma_reencode(x: AsyncEventId, b: Seq<u8>)
        requires
            XFRM_ASYNC_EVENT_ID_LEN <= b.len(),
            x.decodes(b),
        ensures
            x.spec_bytes() == AsyncEventId::canonical(b),
    {
        reveal(AsyncEventId::spec_bytes);
        reveal(AsyncEventId::decodes);
        reveal(AsyncEventId::canonical);
        UserSaId::lemma_reencode(x.sa_id, b.subrange(0, 24));
        Address::lemma_reencode(x.saddr, b.subrange(24, 40));
        lemma_u32_le_bytes_of(b, 40);
        lemma_u32_le_bytes_of(b, 44);
    }

    /// Only the first `XFRM_ASYNC_EVENT_ID_LEN` bytes of `b` matter to what it decodes to.
    pub proof fn lemma_decodes_prefix(x: AsyncEventId, b: Seq<u8>)
        requires
            XFRM_ASYNC_EVENT_ID_LEN <= b.len(),
        ensures
            x.decodes(b) == x.decodes(b.subrange(0, XFRM_ASYNC_EVENT_ID_LEN as int)),
    {
        reveal(AsyncEventId::decodes);
        let p = b.subrange(0, XFRM_ASYNC_EVENT_ID_LEN as int);
        assert(forall|i: int| 0 <= i < XFRM_ASYNC_EVENT_ID_LEN ==> #[trigger] p[i] == b[i]);
        assert(p.subrange(0, 24) =~= b.subrange(0, 24));
        assert(p.subrange(24, 40) =~= b.subrange(24, 40));
    }

    /// At most one value decodes from given bytes.
    pub proof fn lemma_decodes_unique(x: AsyncEventId, y: AsyncEventId, b: Seq<u8>)
        requires
            XFRM_ASYNC_EVENT_ID_LEN <= b.len(),
            x.decodes(b),
            y.decodes(b),
        ensures
            x == y,
    {
        reveal(AsyncEventId::decodes);
        UserSaId::lemma_decodes_unique(x.sa_id, y.sa_id, b.subrange(0, 24));
        Address::lemma_decodes_unique(x.saddr, y.saddr, b.subrange(24, 40));
    }
}

/// The wire image of an `AsyncEventId`, as laid out in the kernel's structure.
pub struct AsyncEventIdBuffer {
    bytes: Vec<u8>,
}

impl View for AsyncEventIdBuffer {
    type V = Seq<u8>;

    closed spec fn view(&self) -> Seq<u8> {
        self.bytes@
    }
}

impl AsyncEventIdBuffer {
    /// Lays out `value` in its wire image.
    pub fn from(value: &AsyncEventId) -> (r: AsyncEventIdBuffer)
        ensures
            r@ == value.spec_bytes(),
    {
        let mut bytes: Vec<u8> = Vec::new();
        value.write_to(&mut bytes);
        assert(bytes@ =~= value.spec_bytes());
        AsyncEventIdBuffer { bytes }
    }

    /// The bytes of the image.
    pub fn as_bytes(&self) -> (r: &[u8])
        ensures
            r@ == self@,
    {
        self.bytes.as_slice()
    }
}

} // verus!
