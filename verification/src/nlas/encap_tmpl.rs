//! The `xfrm_encap_tmpl` structure.

use vstd::prelude::*;
use vstd::slice::slice_subrange;
use crate::wire::{
    copy_prefix,
    lemma_u16_be_bytes_of,
    lemma_u16_be_field,
    lemma_u16_le_bytes_of,
    lemma_u16_le_field,
    push_u16_be,
    push_u16_le,
    push_zeros,
    read_u16_be,
    read_u16_le,
    u16_be_at,
    u16_be_bytes,
    u16_le_at,
    u16_le_bytes,
    zeros,
    ParseError,
};
use crate::address::{Address};

verus! {

/// The UDP encapsulation of a security association.
#[derive(Debug, Clone, Copy, Eq, PartialEq)]
pub struct EncapTmpl {
    pub encap_type: u16,
    pub encap_sport: u16, // big-endian on the wire
    pub encap_dport: u16, // big-endian on the wire
    pub encap_oa: Address,
}

pub const XFRM_ENCAP_TMPL_LEN: usize = 24;

impl EncapTmpl {
    /// The first `XFRM_ENCAP_TMPL_LEN` bytes of `b` with every padding byte set to zero.
    #[verifier::opaque]
    pub open spec fn canonical(b: Seq<u8>) -> Seq<u8> {
        b.subrange(0, 2)
            + b.subrange(2, 4)
            + b.subrange(4, 6)
            + zeros(2)
            + Address::canonical(b.subrange(8, 24))
    }

    /// The wire image: the fields in order, padding as zero bytes.
    #[verifier::opaque]
    pub open spec fn spec_bytes(&self) -> Seq<u8> {
        u16_le_bytes(self.encap_type)
            + u16_be_bytes(self.encap_sport)
            + u16_be_bytes(self.encap_dport)
            + zeros(2)
            + self.encap_oa.spec_bytes()
    }

    /// `self` is what the first `XFRM_ENCAP_TMPL_LEN` bytes of `b` describe.
    #[verifier::opaque]
    pub open spec fn decodes(&self, b: Seq<u8>) -> bool {
        &&& self.encap_type == u16_le_at(b, 0)
        &&& self.encap_sport == u16_be_at(b, 2)
        &&& self.encap_dport == u16_be_at(b, 4)
        &&& self.encap_oa.decodes(b.subrange(8, 24))
    }

    /// `self` holds the values that `default()` gives.
    pub open spec fn is_default(&self) -> bool {
        &&& self.encap_type == 0
        &&& self.encap_sport == 0
        &&& self.encap_dport == 0
        &&& self.encap_oa.is_default()
    }

    /// Decodes the first `XFRM_ENCAP_TMPL_LEN` bytes of `s`.
    pub fn decode(s: &[u8]) -> (r: EncapTmpl)
        requires
            XFRM_ENCAP_TMPL_LEN <= s.len(),
        ensures
            r.decodes(s@),
    {
        proof {
            reveal(EncapTmpl::decodes);
        }
        EncapTmpl {
            encap_type: read_u16_le(s, 0),
            encap_sport: read_u16_be(s, 2),
            encap_dport: read_u16_be(s, 4),
            encap_oa: Address::decode(slice_subrange(s, 8, 24)),
        }
    }

    /// Decodes an `EncapTmpl` from the start of `payload`; the bytes after the
    /// structure are ignored.
    pub fn parse(payload: &[u8]) -> (r: Result<EncapTmpl, ParseError>)
        ensures
            payload.len() < XFRM_ENCAP_TMPL_LEN ==> r == Err::<EncapTmpl, ParseError>(
                ParseError::BufferTooSmall { received: payload.len(), expected: XFRM_ENCAP_TMPL_LEN },
            ),
            XFRM_ENCAP_TMPL_LEN <= payload.len() ==> (r matches Ok(v) && v.decodes(payload@)),
    {
        if payload.len() < XFRM_ENCAP_TMPL_LEN {
            Err(ParseError::BufferTooSmall { received: payload.len(), expected: XFRM_ENCAP_TMPL_LEN })
        } else {
            Ok(EncapTmpl::decode(payload))
        }
    }

    /// Appends the wire image to `out`.
    pub fn write_to(&self, out: &mut Vec<u8>)
        ensures
            final(out)@ == old(out)@ + self.spec_bytes(),
    {
        proof {
            reveal(EncapTmpl::spec_bytes);
        }
        push_u16_le(out, self.encap_type);
        push_u16_be(out, self.encap_sport);
        push_u16_be(out, self.encap_dport);
        push_zeros(out, 2);
        self.encap_oa.write_to(out);
        assert(out@ =~= old(out)@ + self.spec_bytes());
    }

    /// The number of bytes `emit` writes.
    pub fn buffer_len(&self) -> (r: usize)
        ensures
            r == XFRM_ENCAP_TMPL_LEN,
            r == self.spec_bytes().len(),
    {
        proof {
            EncapTmpl::lemma_roundtrip(*self);
        }
        XFRM_ENCAP_TMPL_LEN
    }

    /// Writes the wire image over the first `XFRM_ENCAP_TMPL_LEN` bytes of `buffer`.
    pub fn emit(&self, buffer: &mut [u8])
        requires
            XFRM_ENCAP_TMPL_LEN <= old(buffer)@.len(),
        ensures
            final(buffer)@ == self.spec_bytes() + old(buffer)@.subrange(
                XFRM_ENCAP_TMPL_LEN as int,
                old(buffer)@.len() as int,
            ),
    {
        let raw = EncapTmplBuffer::from(self);
        proof {
            EncapTmpl::lemma_roundtrip(*self);
        }
        copy_prefix(buffer, raw.as_bytes());
    }
}

impl Default for EncapTmpl {
    fn default() -> (r: EncapTmpl)
        ensures
            r.is_default(),
    {
        EncapTmpl {
            encap_type: 0,
            encap_sport: 0,
            encap_dport: 0,
            encap_oa: Address::default(),
        }
    }
}

impl EncapTmpl {
    /// Decoding the wire image of an `EncapTmpl` gives back the same value,
    /// and the image is `XFRM_ENCAP_TMPL_LEN` bytes long.
    pub proof fn lemma_roundtrip(x: EncapTmpl)
        ensures
            x.spec_bytes().len() == XFRM_ENCAP_TMPL_LEN,
            x.decodes(x.spec_bytes()),
    {
        reveal(EncapTmpl::spec_bytes);
        reveal(EncapTmpl::decodes);
        let b = x.spec_bytes();
        assert(b.subrange(0, 2) =~= u16_le_bytes(x.encap_type));
        lemma_u16_le_field(b, 0, x.encap_type);
        assert(b.subrange(2, 4) =~= u16_be_bytes(x.encap_sport));
        lemma_u16_be_field(b, 2, x.encap_sport);
        assert(b.subrange(4, 6) =~= u16_be_bytes(x.encap_dport));
        lemma_u16_be_field(b, 4, x.encap_dport);
        Address::lemma_roundtrip(x.encap_oa);
        assert(b.subrange(8, 24) =~= x.encap_oa.spec_bytes());
    }

    /// The layout of the wire image: each field sits at its fixed offset of
    /// the kernel's structure, padding bytes are zero.
    pub proof fn lemma_layout(x: EncapTmpl)
        ensures
            x.spec_bytes().len() == XFRM_ENCAP_TMPL_LEN,
            u16_le_at(x.spec_bytes(), 0) == x.encap_type,
            u16_be_at(x.spec_bytes(), 2) == x.encap_sport,
            u16_be_at(x.spec_bytes(), 4) == x.encap_dport,
            x.spec_bytes().subrange(6, 8) == zeros(2),
            x.spec_bytes().subrange(8, 24) == x.encap_oa.addr@,
    {
        reveal(EncapTmpl::spec_bytes);
        let b = x.spec_bytes();
        assert(b.subrange(0, 2) =~= u16_le_bytes(x.encap_type));
        lemma_u16_le_field(b, 0, x.encap_type);
        assert(b.subrange(2, 4) =~= u16_be_bytes(x.encap_sport));
        lemma_u16_be_field(b, 2, x.encap_sport);
        assert(b.subrange(4, 6) =~= u16_be_bytes(x.encap_dport));
        lemma_u16_be_field(b, 4, x.encap_dport);
        Address::lemma_roundtrip(x.encap_oa);
        assert(b.subrange(8, 24) =~= x.encap_oa.spec_bytes());
        assert(x.spec_bytes().subrange(6, 8) =~= zeros(2));
    }

    /// What decoding reads: each field from its fixed offset of `b`.
    pub proof fn lemma_decode_layout(x: EncapTmpl, b: Seq<u8>)
        requires
            XFRM_ENCAP_TMPL_LEN <= b.len(),
            x.decodes(b),
        ensures
            x.encap_type == u16_le_at(b, 0),
            x.encap_sport == u16_be_at(b, 2),
            x.encap_dport == u16_be_at(b, 4),
            x.encap_oa.addr@ == b.subrange(8, 24),
    {
        reveal(EncapTmpl::decodes);
    }

    /// Encoding a value decoded from `b` gives back the first `XFRM_ENCAP_TMPL_LEN`
    /// bytes of `b`, with the padding bytes set to zero.
    pub proof fn lemma_reencode(x: EncapTmpl, b: Seq<u8>)
        requires
            XFRM_ENCAP_TMPL_LEN <= b.len(),
            x.decodes(b),
        ensures
            x.spec_bytes() == EncapTmpl::canonical(b),
    {
        reveal(EncapTmpl::spec_bytes);
        reveal(EncapTmpl::decodes);
        reveal(EncapTmpl::canonical);
        lemma_u16_le_bytes_of(b, 0);
        lemma_u16_be_bytes_of(b, 2);
        lemma_u16_be_bytes_of(b, 4);
        Address::lemma_reencode(x.encap_oa, b.subrange(8, 24));
    }

    /// Only the first `XFRM_ENCAP_TMPL_LEN` bytes of `b` matter to what it decodes to.
    pub proof fn lemma_decodes_prefix(x: EncapTmpl, b: Seq<u8>)
        requires
            XFRM_ENCAP_TMPL_LEN <= b.len(),
        ensures
            x.decodes(b) == x.decodes(b.subrange(0, XFRM_ENCAP_TMPL_LEN as int)),
    {
        reveal(EncapTmpl::decodes);
        let p = b.subrange(0, XFRM_ENCAP_TMPL_LEN as int);
        assert(forall|i: int| 0 <= i < XFRM_ENCAP_TMPL_LEN ==> #[trigger] p[i] == b[i]);
        assert(p.subrange(8, 24) =~= b.subrange(8, 24));
    }

    /// At most one value decodes from given bytes.
    pub proof fn lemma_decodes_unique(x: EncapTmpl, y: EncapTmpl, b: Seq<u8>)
        requires
            XFRM_ENCAP_TMPL_LEN <= b.len(),
            x.decodes(b),
            y.decodes(b),
        ensures
            x == y,
    {
        reveal(EncapTmpl::decodes);
        Address::lemma_decodes_unique(x.encap_oa, y.encap_oa, b.subrange(8, 24));
    }
}

/// The wire image of an `EncapTmpl`, as laid out in the kernel's structure.
pub struct EncapTmplBuffer {
    bytes: Vec<u8>,
}

impl View for EncapTmplBuffer {
    type V = Seq<u8>;

    closed spec fn view(&self) -> Seq<u8> {
        self.bytes@
    }
}

impl EncapTmplBuffer {
    /// Lays out `value` in its wire image.
    pub fn from(value: &EncapTmpl) -> (r: EncapTmplBuffer)
        ensures
            r@ == value.spec_bytes(),
    {
        let mut bytes: Vec<u8> = Vec::new();
        value.write_to(&mut bytes);
        assert(bytes@ =~= value.spec_bytes());
        EncapTmplBuffer { bytes }
    }

    /// The bytes of the image.
    pub fn as_bytes(&self) -> (r: &[u8])
        ensures
            r@ == self@,
    {
        self.bytes.as_slice()
    }
}

} // verus!
