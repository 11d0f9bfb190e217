//! The `xfrm_user_sec_ctx` structure: a header and a security context
//! string.

use vstd::prelude::*;
use vstd::slice::slice_subrange;
use crate::constants::{XFRMA_SEC_CTX, XFRM_SC_ALG_SELINUX, XFRM_SC_DOI_LSM};
use crate::wire::{
    copy_prefix, lemma_u16_le_bytes_of, lemma_u16_le_field, lemma_u8_bytes_of, lemma_u8_field, push_slice, push_u16_le, read_u16_le,
    u16_le_at, u16_le_bytes, ParseError,
};

verus! {

/// A security context. The length fields are carried as they are and not
/// compared with the length of `ctx_str`.
#[derive(Debug, Clone, Eq, PartialEq)]
pub struct SecurityCtx {
    pub len: u16,
    pub exttype: u16,
    pub ctx_alg: u8,
    pub ctx_doi: u8,
    pub ctx_len: u16,
    pub ctx_str: Vec<u8>,
}

pub const XFRM_SEC_CTX_HEADER_LEN: usize = 8;

/// The longest context string that `context` keeps.
pub const XFRM_SEC_CTX_MAX_STR_LEN: usize = 256;

impl SecurityCtx {
    /// The wire image of the header alone.
    pub open spec fn spec_header_bytes(&self) -> Seq<u8> {
        u16_le_bytes(self.len) + u16_le_bytes(self.exttype) + seq![self.ctx_alg] + seq![
            self.ctx_doi,
        ] + u16_le_bytes(self.ctx_len)
    }

    /// The wire image: the header, then the context string.
    pub open spec fn spec_bytes(&self) -> Seq<u8> {
        self.spec_header_bytes() + self.ctx_str@
    }

    /// `self` is what `b` describes: a header, and the context string in all
    /// the bytes that follow it.
    pub open spec fn decodes(&self, b: Seq<u8>) -> bool {
        &&& self.len == u16_le_at(b, 0)
        &&& self.exttype == u16_le_at(b, 2)
        &&& self.ctx_alg == b[4]
        &&& self.ctx_doi == b[5]
        &&& self.ctx_len == u16_le_at(b, 6)
        &&& self.ctx_str@ == b.subrange(XFRM_SEC_CTX_HEADER_LEN as int, b.len() as int)
    }

    /// Decodes a `SecurityCtx` from `payload`: the header, then the context
    /// string, which takes all the bytes after the header.
    pub fn parse(payload: &[u8]) -> (r: Result<SecurityCtx, ParseError>)
        ensures
            payload.len() < XFRM_SEC_CTX_HEADER_LEN ==> r == Err::<SecurityCtx, ParseError>(
                ParseError::BufferTooSmall {
                    received: payload.len(),
                    expected: XFRM_SEC_CTX_HEADER_LEN,
                },
            ),
            XFRM_SEC_CTX_HEADER_LEN <= payload.len() ==> (r matches Ok(v) && v.decodes(payload@)),
    {
        if payload.len() < XFRM_SEC_CTX_HEADER_LEN {
            return Err(
                ParseError::BufferTooSmall {
                    received: payload.len(),
                    expected: XFRM_SEC_CTX_HEADER_LEN,
                },
            );
        }
        let mut ctx_str: Vec<u8> = Vec::new();
        push_slice(&mut ctx_str, slice_subrange(payload, XFRM_SEC_CTX_HEADER_LEN, payload.len()));
        assert(ctx_str@ =~= payload@.subrange(
            XFRM_SEC_CTX_HEADER_LEN as int,
            payload@.len() as int,
        ));
        Ok(
            SecurityCtx {
                len: read_u16_le(payload, 0),
                exttype: read_u16_le(payload, 2),
                ctx_alg: payload[4],
                ctx_doi: payload[5],
                ctx_len: read_u16_le(payload, 6),
                ctx_str,
            },
        )
    }

    /// The number of bytes `emit` writes: the header and the string.
    pub fn buffer_len(&self) -> (r: usize)
        requires
            XFRM_SEC_CTX_HEADER_LEN + self.ctx_str@.len() <= usize::MAX,
        ensures
            r == XFRM_SEC_CTX_HEADER_LEN + self.ctx_str@.len(),
            r == self.spec_bytes().len(),
    {
        XFRM_SEC_CTX_HEADER_LEN + self.ctx_str.len()
    }

    /// Writes the header and the string; `buffer` must be exactly
    /// `buffer_len()` bytes long.
    pub fn emit(&self, buffer: &mut [u8])
        requires
            old(buffer)@.len() == XFRM_SEC_CTX_HEADER_LEN + self.ctx_str@.len(),
        ensures
            final(buffer)@ == self.spec_bytes(),
    {
        let raw = SecurityCtxBuffer::from(self);
        let mut image: Vec<u8> = Vec::new();
        push_slice(&mut image, raw.as_bytes());
        push_slice(&mut image, self.ctx_str.as_slice());
        copy_prefix(buffer, image.as_slice());
        assert(buffer@ =~= self.spec_bytes());
    }

    /// Sets the context string to the first 256 bytes of `secctx`, and the
    /// two length fields to match it.
    pub fn context(&mut self, secctx: &[u8])
        ensures
            final(self).ctx_str@ == secctx@.subrange(
                0,
                if secctx@.len() <= XFRM_SEC_CTX_MAX_STR_LEN {
                    secctx@.len() as int
                } else {
                    XFRM_SEC_CTX_MAX_STR_LEN as int
                },
            ),
            final(self).ctx_len == final(self).ctx_str@.len(),
            final(self).len == XFRM_SEC_CTX_HEADER_LEN + final(self).ctx_str@.len(),
            final(self).exttype == old(self).exttype,
            final(self).ctx_alg == old(self).ctx_alg,
            final(self).ctx_doi == old(self).ctx_doi,
    {
        // The kernel limits the length of the security context
        // string to the page size, which is commonly 4096.
        // iproute2 limits it to 256 when parsing from the cli.
        // Keeping it at 256 should be plenty, but if it needs to
        // be a little more generous, it can be raised.
        let keep = if secctx.len() <= XFRM_SEC_CTX_MAX_STR_LEN {
            secctx.len()
        } else {
            XFRM_SEC_CTX_MAX_STR_LEN
        };
        let mut ctx_str: Vec<u8> = Vec::new();
        push_slice(&mut ctx_str, slice_subrange(secctx, 0, keep));
        self.ctx_len = keep as u16;
        self.ctx_str = ctx_str;
        self.len = XFRM_SEC_CTX_HEADER_LEN as u16 + self.ctx_len;
    }
}

impl Default for SecurityCtx {
    fn default() -> (r: SecurityCtx)
        ensures
            r.len == XFRM_SEC_CTX_HEADER_LEN,
            r.exttype == XFRMA_SEC_CTX,
            r.ctx_alg == XFRM_SC_ALG_SELINUX,
            r.ctx_doi == XFRM_SC_DOI_LSM,
            r.ctx_len == 0,
            r.ctx_str@.len() == 0,
    {
        SecurityCtx {
            len: XFRM_SEC_CTX_HEADER_LEN as u16,
            exttype: XFRMA_SEC_CTX,
            ctx_alg: XFRM_SC_ALG_SELINUX,
            ctx_doi: XFRM_SC_DOI_LSM,
            ctx_len: 0,
            ctx_str: Vec::new(),
        }
    }
}

impl SecurityCtx {
    /// Decoding the wire image of a `SecurityCtx` gives back the same context,
    /// and the image is the header and the string.
    pub proof fn lemma_roundtrip(x: SecurityCtx)
        ensures
            x.spec_bytes().len() == XFRM_SEC_CTX_HEADER_LEN + x.ctx_str@.len(),
            x.decodes(x.spec_bytes()),
    {
        let b = x.spec_bytes();
        assert(b.subrange(0, 2) =~= u16_le_bytes(x.len));
        lemma_u16_le_field(b, 0, x.len);
        assert(b.subrange(2, 4) =~= u16_le_bytes(x.exttype));
        lemma_u16_le_field(b, 2, x.exttype);
        assert(b.subrange(4, 5) =~= seq![x.ctx_alg]);
        lemma_u8_field(b, 4, x.ctx_alg);
        assert(b.subrange(5, 6) =~= seq![x.ctx_doi]);
        lemma_u8_field(b, 5, x.ctx_doi);
        assert(b.subrange(6, 8) =~= u16_le_bytes(x.ctx_len));
        lemma_u16_le_field(b, 6, x.ctx_len);
        assert(b.subrange(8, b.len() as int) =~= x.ctx_str@);
    }
}

impl SecurityCtx {
    /// Encoding a value decoded from `b` gives back `b`.
    pub proof fn lemma_reencode(x: SecurityCtx, b: Seq<u8>)
        requires
            XFRM_SEC_CTX_HEADER_LEN <= b.len(),
            x.decodes(b),
        ensures
            x.spec_bytes() == b,
    {
        assert(b =~= b.subrange(0, 2) + b.subrange(2, 4) + b.subrange(4, 5) + b.subrange(5, 6)
            + b.subrange(6, 8) + b.subrange(8, b.len() as int));
        lemma_u16_le_bytes_of(b, 0);
        lemma_u16_le_bytes_of(b, 2);
        lemma_u8_bytes_of(b, 4);
        lemma_u8_bytes_of(b, 5);
        lemma_u16_le_bytes_of(b, 6);
    }
}

impl SecurityCtx {
    /// The wire image of a `SecurityCtx` is eight header bytes and the
    /// string: the little-endian `len` at offset 0, `exttype` at 2, the
    /// `ctx_alg` byte at 4, the `ctx_doi` byte at 5, the little-endian
    /// `ctx_len` at 6, and the string from offset 8 on.
    pub proof fn lemma_layout(x: SecurityCtx)
        ensures
            x.spec_bytes().len() == XFRM_SEC_CTX_HEADER_LEN + x.ctx_str@.len(),
            u16_le_at(x.spec_bytes(), 0) == x.len,
            u16_le_at(x.spec_bytes(), 2) == x.exttype,
            x.spec_bytes()[4] == x.ctx_alg,
            x.spec_bytes()[5] == x.ctx_doi,
            u16_le_at(x.spec_bytes(), 6) == x.ctx_len,
            x.spec_bytes().subrange(8, x.spec_bytes().len() as int) == x.ctx_str@,
    {
        SecurityCtx::lemma_roundtrip(x);
    }

    /// A `SecurityCtx` decoded from `b` holds the fields read at those same
    /// offsets, and the string is all of `b` after the eighth byte.
    pub proof fn lemma_decode_layout(x: SecurityCtx, b: Seq<u8>)
        requires
            XFRM_SEC_CTX_HEADER_LEN <= b.len(),
            x.decodes(b),
        ensures
            x.len == u16_le_at(b, 0),
            x.exttype == u16_le_at(b, 2),
            x.ctx_alg == b[4],
            x.ctx_doi == b[5],
            x.ctx_len == u16_le_at(b, 6),
            x.ctx_str@ == b.subrange(8, b.len() as int),
    {
    }
}

/// The wire image of the header of a `SecurityCtx`.
pub struct SecurityCtxBuffer {
    bytes: Vec<u8>,
}

impl View for SecurityCtxBuffer {
    type V = Seq<u8>;

    closed spec fn view(&self) -> Seq<u8> {
        self.bytes@
    }
}

impl SecurityCtxBuffer {
    /// Lays out the header of `value`.
    pub fn from(value: &SecurityCtx) -> (r: SecurityCtxBuffer)
        ensures
            r@ == value.spec_header_bytes(),
            r@.len() == XFRM_SEC_CTX_HEADER_LEN,
    {
        let mut bytes: Vec<u8> = Vec::new();
        push_u16_le(&mut bytes, value.len);
        push_u16_le(&mut bytes, value.exttype);
        bytes.push(value.ctx_alg);
        bytes.push(value.ctx_doi);
        push_u16_le(&mut bytes, value.ctx_len);
        assert(bytes@ =~= value.spec_header_bytes());
        SecurityCtxBuffer { bytes }
    }

    /// The bytes of the image.
    pub fn as_bytes(&self) -> (r: &[u8])
        ensures
            r@ == self@,
    {
        self.bytes.as_slice()
    }
}

} // verus!
