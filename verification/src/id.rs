//! The `xfrm_id` structure.

use vstd::prelude::*;
use vstd::slice::slice_subrange;
use crate::wire::{
    copy_prefix,
    lemma_u32_be_bytes_of,
    lemma_u32_be_field,
    lemma_u8_bytes_of,
    lemma_u8_field,
    push_u32_be,
    push_zeros,
    read_u32_be,
    u32_be_at,
    u32_be_bytes,
    zeros,
    ParseError,
};
use crate::address::{Address};

verus! {

/// What identifies a security association: destination, SPI and protocol.
#[derive(Debug, Clone, Copy, Eq, PartialEq)]
pub struct Id {
    pub daddr: Address,
    pub spi: u32, // big-endian on the wire
    pub proto: u8,
}

pub const XFRM_ID_LEN: usize = 24;

impl Id {
    /// The first `XFRM_ID_LEN` bytes of `b` with every padding byte set to zero.
    #[verifier::opaque]
    pub open spec fn canonical(b: Seq<u8>) -> Seq<u8> {
        Address::canonical(b.subrange(0, 16))
            + b.subrange(16, 20)
            + b.subrange(20, 21)
            + zeros(3)
    }

    /// The wire image: the fields in order, padding as zero bytes.
    #[verifier::opaque]
    pub open spec fn spec_bytes(&self) -> Seq<u8> {
        self.daddr.spec_bytes()
            + u32_be_bytes(self.spi)
            + seq![self.proto]
            + zeros(3)
    }

    /// `self` is what the first `XFRM_ID_LEN` bytes of `b` describe.
    #[verifier::opaque]
    pub open spec fn decodes(&self, b: Seq<u8>) -> bool {
        &&& self.daddr.decodes(b.subrange(0, 16))
        &&& self.spi == u32_be_at(b, 16)
        &&& self.proto == b[20]
    }

    /// `self` holds the values that `default()` gives.
    pub open spec fn is_default(&self) -> bool {
        &&& self.daddr.is_default()
        &&& self.spi == 0
        &&& self.proto == 0
    }

    /// Decodes the first `XFRM_ID_LEN` bytes of `s`.
    pub fn decode(s: &[u8]) -> (r: Id)
        requires
            XFRM_ID_LEN <= s.len(),
        ensures
            r.decodes(s@),
    {
        proof {
            reveal(Id::decodes);
        }
        Id {
            daddr: Address::decode(slice_subrange(s, 0, 16)),
            spi: read_u32_be(s, 16),
            proto: s[20],
        }
    }

    /// Decodes an `Id` from the start of `payload`; the bytes after the
    /// structure are ignored.
    pub fn parse(payload: &[u8]) -> (r: Result<Id, ParseError>)
        ensures
            payload.len() < XFRM_ID_LEN ==> r == Err::<Id, ParseError>(
                ParseError::BufferTooSmall { received: payload.len(), expected: XFRM_ID_LEN },
            ),
            XFRM_ID_LEN <= payload.len() ==> (r matches Ok(v) && v.decodes(payload@)),
    {
        if payload.len() < XFRM_ID_LEN {
            Err(ParseError::BufferTooSmall { received: payload.len(), expected: XFRM_ID_LEN })
        } else {
            Ok(Id::decode(payload))
        }
    }

    /// Appends the wire image to `out`.
    pub fn write_to(&self, out: &mut Vec<u8>)
        ensures
            final(out)@ == old(out)@ + self.spec_bytes(),
    {
        proof {
            reveal(Id::spec_bytes);
        }
        self.daddr.write_to(out);
        push_u32_be(out, self.spi);
        out.push(self.proto);
        push_zeros(out, 3);
        assert(out@ =~= old(out)@ + self.spec_bytes());
    }

    /// The number of bytes `emit` writes.
    pub fn buffer_len(&self) -> (r: usize)
        ensures
            r == XFRM_ID_LEN,
            r == self.spec_bytes().len(),
    {
        proof {
            Id::lemma_roundtrip(*self);
        }
        XFRM_ID_LEN
    }

    /// Writes the wire image over the first `XFRM_ID_LEN` bytes of `buffer`.
    pub fn emit(&self, buffer: &mut [u8])
        requires
            XFRM_ID_LEN <= old(buffer)@.len(),
        ensures
            final(buffer)@ == self.spec_bytes() + old(buffer)@.subrange(
                XFRM_ID_LEN as int,
                old(buffer)@.len() as int,
            ),
    {
        let raw = IdBuffer::from(self);
        proof {
            Id::lemma_roundtrip(*self);
        }
        copy_prefix(buffer, raw.as_bytes());
    }
}

impl Default for Id {
    fn default() -> (r: Id)
        ensures
            r.is_default(),
    {
        Id {
            daddr: Address::default(),
            spi: 0,
            proto: 0,
        }
    }
}

impl Id {
    /// Decoding the wire image of an `Id` gives back the same value,
    /// and the image is `XFRM_ID_LEN` bytes long.
    pub proof fn lemma_roundtrip(x: Id)
        ensures
            x.spec_bytes().len() == XFRM_ID_LEN,
            x.decodes(x.spec_bytes()),
    {
        reveal(Id::spec_bytes);
        reveal(Id::decodes);
        let b = x.spec_bytes();
        Address::lemma_roundtrip(x.daddr);
        assert(b.subrange(0, 16) =~= x.daddr.spec_bytes());
        assert(b.subrange(16, 20) =~= u32_be_bytes(x.spi));
        lemma_u32_be_field(b, 16, x.spi);
        assert(b.subrange(20, 21) =~= seq![x.proto]);
        lemma_u8_field(b, 20, x.proto);
    }

    /// The layout of the wire image: each field sits at its fixed offset of
    /// the kernel's structure, padding bytes are zero.
    pub proof fn lemma_layout(x: Id)
        ensures
            x.spec_bytes().len() == XFRM_ID_LEN,
            x.spec_bytes().subrange(0, 16) == x.daddr.addr@,
            u32_be_at(x.spec_bytes(), 16) == x.spi,
            x.spec_bytes()[20] == x.proto,
            x.spec_bytes().subrange(21, 24) == zeros(3),
    {
        reveal(Id::spec_bytes);
        let b = x.spec_bytes();
        Address::lemma_roundtrip(x.daddr);
        assert(b.subrange(0, 16) =~= x.daddr.spec_bytes());
        assert(b.subrange(16, 20) =~= u32_be_bytes(x.spi));
        lemma_u32_be_field(b, 16, x.spi);
        assert(b.subrange(20, 21) =~= seq![x.proto]);
        lemma_u8_field(b, 20, x.proto);
        assert(x.spec_bytes().subrange(21, 24) =~= zeros(3));
    }

    /// What decoding reads: each field from its fixed offset of `b`.
    pub proof fn lemma_decode_layout(x: Id, b: Seq<u8>)
        requires
            XFRM_ID_LEN <= b.len(),
            x.decodes(b),
        ensures
            x.daddr.addr@ == b.subrange(0, 16),
            x.spi == u32_be_at(b, 16),
            x.proto == b[20],
    {
        reveal(Id::decodes);
    }

    /// Encoding a value decoded from `b` gives back the first `XFRM_ID_LEN`
    /// bytes of `b`, with the padding bytes set to zero.
    pub proof fn lemma_reencode(x: Id, b: Seq<u8>)
        requires
            XFRM_ID_LEN <= b.len(),
            x.decodes(b),
        ensures
            x.spec_bytes() == Id::canonical(b),
    {
        reveal(Id::spec_bytes);
        reveal(Id::decodes);
        reveal(Id::canonical);
        Address::lemma_reencode(x.daddr, b.subrange(0, 16));
        lemma_u32_be_bytes_of(b, 16);
        lemma_u8_bytes_of(b, 20);
    }

    /// Only the first `XFRM_ID_LEN` bytes of `b` matter to what it decodes to.
    pub proof fn lemma_decodes_prefix(x: Id, b: Seq<u8>)
        requires
            XFRM_ID_LEN <= b.len(),
        ensures
            x.decodes(b) == x.decodes(b.subrange(0, XFRM_ID_LEN as int)),
    {
        reveal(Id::decodes);
        let p = b.subrange(0, XFRM_ID_LEN as int);
        assert(forall|i: int| 0 <= i < XFRM_ID_LEN ==> #[trigger] p[i] == b[i]);
        assert(p.subrange(0, 16) =~= b.subrange(0, 16));
    }

    /// At most one value decodes from given bytes.
    pub proof fn lemma_decodes_unique(x: Id, y: Id, b: Seq<u8>)
        requires
            XFRM_ID_LEN <= b.len(),
            x.decodes(b),
            y.decodes(b),
        ensures
            x == y,
    {
        reveal(Id::decodes);
        Address::lemma_decodes_unique(x.daddr, y.daddr, b.subrange(0, 16));
    }
}

/// The wire image of an `Id`, as laid out in the kernel's structure.
pub struct IdBuffer {
    bytes: Vec<u8>,
}

impl View for IdBuffer {
    type V = Seq<u8>;

    closed spec fn view(&self) -> Seq<u8> {
        self.bytes@
    }
}

impl IdBuffer {
    /// Lays out `value` in its wire image.
    pub fn from(value: &Id) -> (r: IdBuffer)
        ensures
            r@ == value.spec_bytes(),
    {
        let mut bytes: Vec<u8> = Vec::new();
        value.write_to(&mut bytes);
        assert(bytes@ =~= value.spec_bytes());
        IdBuffer { bytes }
    }

    /// The bytes of the image.
    pub fn as_bytes(&self) -> (r: &[u8])
        ensures
            r@ == self@,
    {
        self.bytes.as_slice()
    }
}

} // verus!
