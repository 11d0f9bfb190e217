//! The `xfrm_algo` structure: an algorithm name, a key length and the key.

use vstd::prelude::*;
use vstd::slice::slice_subrange;
use crate::wire::{
    array_from_prefix, copy_prefix, lemma_u32_le_bytes_of, lemma_u32_le_field, push_slice, push_u32_le, read_u32_le,
    u32_le_at, u32_le_bytes, ParseError,
};

verus! {

pub const XFRM_ALG_NAME_LEN: usize = 64;

/// An algorithm and its key. `alg_key_len` is carried as it is and not
/// compared with the length of `alg_key`.
#[derive(Debug, Clone, Eq, PartialEq)]
pub struct Alg {
    pub alg_name: [u8; XFRM_ALG_NAME_LEN],
    pub alg_key_len: u32,
    pub alg_key: Vec<u8>,
}

pub const XFRM_ALG_HEADER_LEN: usize = 68;

impl Alg {
    /// The wire image: the name, the key length, then the key bytes.
    pub open spec fn spec_bytes(&self) -> Seq<u8> {
        self.alg_name@ + u32_le_bytes(self.alg_key_len) + self.alg_key@
    }

    /// `self` is what `b` describes: a header, and the key in all the bytes
    /// that follow it.
    pub open spec fn decodes(&self, b: Seq<u8>) -> bool {
        &&& self.alg_name@ == b.subrange(0, XFRM_ALG_NAME_LEN as int)
        &&& self.alg_key_len == u32_le_at(b, 64)
        &&& self.alg_key@ == b.subrange(XFRM_ALG_HEADER_LEN as int, b.len() as int)
    }

    /// The wire image of the header alone.
    pub open spec fn spec_header_bytes(&self) -> Seq<u8> {
        self.alg_name@ + u32_le_bytes(self.alg_key_len)
    }

    /// Decodes an `Alg` from `payload`: the header, then the key, which takes
    /// all the bytes after the header.
    pub fn parse(payload: &[u8]) -> (r: Result<Alg, ParseError>)
        ensures
            payload.len() < XFRM_ALG_HEADER_LEN ==> r == Err::<Alg, ParseError>(
                ParseError::BufferTooSmall {
                    received: payload.len(),
                    expected: XFRM_ALG_HEADER_LEN,
                },
            ),
            XFRM_ALG_HEADER_LEN <= payload.len() ==> (r matches Ok(v) && v.decodes(payload@)),
    {
        if payload.len() < XFRM_ALG_HEADER_LEN {
            return Err(
                ParseError::BufferTooSmall {
                    received: payload.len(),
                    expected: XFRM_ALG_HEADER_LEN,
                },
            );
        }
        let alg_name: [u8; XFRM_ALG_NAME_LEN] = array_from_prefix(payload);
        let alg_key_len = read_u32_le(payload, 64);
        let mut alg_key: Vec<u8> = Vec::new();
        push_slice(&mut alg_key, slice_subrange(payload, XFRM_ALG_HEADER_LEN, payload.len()));
        assert(alg_key@ =~= payload@.subrange(XFRM_ALG_HEADER_LEN as int, payload@.len() as int));
        Ok(Alg { alg_name, alg_key_len, alg_key })
    }

    /// The number of bytes `emit` writes: the header and the key.
    pub fn buffer_len(&self) -> (r: usize)
        requires
            XFRM_ALG_HEADER_LEN + self.alg_key@.len() <= usize::MAX,
        ensures
            r == XFRM_ALG_HEADER_LEN + self.alg_key@.len(),
            r == self.spec_bytes().len(),
    {
        XFRM_ALG_HEADER_LEN + self.alg_key.len()
    }

    /// Writes the header and the key; `buffer` must be exactly
    /// `buffer_len()` bytes long.
    pub fn emit(&self, buffer: &mut [u8])
        requires
            old(buffer)@.len() == XFRM_ALG_HEADER_LEN + self.alg_key@.len(),
        ensures
            final(buffer)@ == self.spec_bytes(),
    {
        let raw = AlgBuffer::from(self);
        let mut image: Vec<u8> = Vec::new();
        push_slice(&mut image, raw.as_bytes());
        push_slice(&mut image, self.alg_key.as_slice());
        copy_prefix(buffer, image.as_slice());
        assert(buffer@ =~= self.spec_bytes());
    }
}

impl Alg {
    /// Decoding the wire image of an `Alg` gives back the same algorithm, and
    /// the image is the header and the key.
    pub proof fn lemma_roundtrip(x: Alg)
        ensures
            x.spec_bytes().len() == XFRM_ALG_HEADER_LEN + x.alg_key@.len(),
            x.decodes(x.spec_bytes()),
    {
        let b = x.spec_bytes();
        assert(b.subrange(0, 64) =~= x.alg_name@);
        assert(b.subrange(64, 68) =~= u32_le_bytes(x.alg_key_len));
        lemma_u32_le_field(b, 64, x.alg_key_len);
        assert(b.subrange(68, b.len() as int) =~= x.alg_key@);
    }
}

impl Alg {
    /// Encoding a value decoded from `b` gives back `b`.
    pub proof fn lemma_reencode(x: Alg, b: Seq<u8>)
        requires
            XFRM_ALG_HEADER_LEN <= b.len(),
            x.decodes(b),
        ensures
            x.spec_bytes() == b,
    {
        assert(b =~= b.subrange(0, 64) + b.subrange(64, 68) + b.subrange(68, b.len() as int));
        lemma_u32_le_bytes_of(b, 64);
    }
}

impl Alg {
    /// The wire image of an `Alg` is the 64 name bytes at offsets 0..64, the
    /// little-endian `alg_key_len` at offset 64, and the key from offset 68
    /// on.
    pub proof fn lemma_layout(x: Alg)
        ensures
            x.spec_bytes().len() == XFRM_ALG_HEADER_LEN + x.alg_key@.len(),
            x.spec_bytes().subrange(0, 64) == x.alg_name@,
            u32_le_at(x.spec_bytes(), 64) == x.alg_key_len,
            x.spec_bytes().subrange(68, x.spec_bytes().len() as int) == x.alg_key@,
    {
        Alg::lemma_roundtrip(x);
    }

    /// An `Alg` decoded from `b` holds the fields read at those same offsets,
    /// and the key is all of `b` after the header.
    pub proof fn lemma_decode_layout(x: Alg, b: Seq<u8>)
        requires
            XFRM_ALG_HEADER_LEN <= b.len(),
            x.decodes(b),
        ensures
            x.alg_name@ == b.subrange(0, 64),
            x.alg_key_len == u32_le_at(b, 64),
            x.alg_key@ == b.subrange(68, b.len() as int),
    {
    }
}

/// The wire image of the header of an `Alg`: its name and key length.
pub struct AlgBuffer {
    bytes: Vec<u8>,
}

impl View for AlgBuffer {
    type V = Seq<u8>;

    closed spec fn view(&self) -> Seq<u8> {
        self.bytes@
    }
}

impl AlgBuffer {
    /// Lays out the header of `value`.
    pub fn from(value: &Alg) -> (r: AlgBuffer)
        ensures
            r@ == value.spec_header_bytes(),
            r@.len() == XFRM_ALG_HEADER_LEN,
    {
        let mut bytes: Vec<u8> = Vec::new();
        push_slice(&mut bytes, value.alg_name.as_slice());
        push_u32_le(&mut bytes, value.alg_key_len);
        assert(bytes@ =~= value.spec_header_bytes());
        AlgBuffer { bytes }
    }

    /// The bytes of the image.
    pub fn as_bytes(&self) -> (r: &[u8])
        ensures
            r@ == self@,
    {
        self.bytes.as_slice()
    }
}

} // verus!
