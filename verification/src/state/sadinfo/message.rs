//! The messages about security association database information.

use vstd::prelude::*;
use vstd::slice::slice_subrange;
use crate::netlink_ints::emit_u32_le_at;
use crate::nla::{emit_nlas_at, lemma_nlas_roundtrip, nlas_buffer_len, nlas_bytes, nlas_decode, nlas_fit, nlas_model, parse_nlas, Nla};
use crate::wire::{lemma_u32_le_field, u32_le_at, u32_le_bytes, ParseError};

verus! {

/// A message with security association database information.
#[derive(Debug, PartialEq, Eq, Clone, Default)]
pub struct NewSadInfoMessage {
    pub flags: u32,
    pub nlas: Vec<Nla>,
}

impl NewSadInfoMessage {
    /// The wire image: the flags, then the attributes.
    pub open spec fn spec_bytes(&self) -> Seq<u8> {
        u32_le_bytes(self.flags) + nlas_bytes(nlas_model(self.nlas@))
    }

    /// `self` is what `b` describes: the flags in its first four bytes,
    /// then attributes filling the rest.
    pub open spec fn decodes(&self, b: Seq<u8>) -> bool {
        &&& self.flags == u32_le_at(b, 0)
        &&& nlas_decode(b.subrange(4, b.len() as int)) == Some(nlas_model(self.nlas@))
    }

    /// The number of bytes `emit` writes: the flags and the attributes.
    pub fn buffer_len(&self) -> (r: usize)
        requires
            4 + nlas_bytes(nlas_model(self.nlas@)).len() <= usize::MAX,
        ensures
            r == self.spec_bytes().len(),
    {
        4 + nlas_buffer_len(self.nlas.as_slice())
    }

    /// Writes the flags, then the attributes, over the start of `buffer`.
    pub fn emit(&self, buffer: &mut [u8])
        requires
            nlas_fit(nlas_model(self.nlas@)),
            4 + nlas_bytes(nlas_model(self.nlas@)).len() <= old(buffer)@.len(),
        ensures
            final(buffer)@ == self.spec_bytes() + old(buffer)@.subrange(
                self.spec_bytes().len() as int,
                old(buffer)@.len() as int,
            ),
    {
        let ghost len = old(buffer)@.len();
        let _ = emit_u32_le_at(buffer, 0, self.flags);
        let ghost mid = buffer@;
        emit_nlas_at(self.nlas.as_slice(), buffer, 4);
        proof {
            let n = nlas_bytes(nlas_model(self.nlas@));
            assert(mid.subrange(0, 4) =~= u32_le_bytes(self.flags));
            assert(mid.subrange((4 + n.len()) as int, len as int) =~= old(buffer)@.subrange(
                (4 + n.len()) as int,
                len as int,
            ));
            assert(buffer@ =~= self.spec_bytes() + old(buffer)@.subrange(
                self.spec_bytes().len() as int,
                len as int,
            ));
        }
    }

    /// Decodes the flags from the first four bytes of `buf` and the
    /// attributes from the rest.
    pub fn parse(buf: &[u8]) -> (r: Result<NewSadInfoMessage, ParseError>)
        requires
            4 <= buf.len(),
        ensures
            match nlas_decode(buf@.subrange(4, buf@.len() as int)) {
                Some(s) => r matches Ok(m) && m.decodes(buf@) && nlas_model(m.nlas@) == s,
                None => r == Err::<NewSadInfoMessage, ParseError>(ParseError::InvalidAttribute),
            },
    {
        let flags = match netlink_packet_core::parse_u32_le(slice_subrange(buf, 0, 4)) {
            Ok(v) => v,
            Err(_) => 0,
        };
        match parse_nlas(slice_subrange(buf, 4, buf.len())) {
            Ok(nlas) => Ok(NewSadInfoMessage { flags, nlas }),
            Err(e) => Err(e),
        }
    }
}

impl NewSadInfoMessage {
    /// Decoding the wire image of a `NewSadInfoMessage` gives back the same message, as
    /// long as every attribute value fits the length field.
    pub proof fn lemma_roundtrip(m: NewSadInfoMessage)
        requires
            nlas_fit(nlas_model(m.nlas@)),
        ensures
            m.decodes(m.spec_bytes()),
    {
        let h = u32_le_bytes(m.flags);
        let n = nlas_bytes(nlas_model(m.nlas@));
        lemma_nlas_roundtrip(nlas_model(m.nlas@));
        assert((h + n).subrange(0, 4) =~= h);
        lemma_u32_le_field(h + n, 0, m.flags);
        assert((h + n).subrange(4, (h + n).len() as int) =~= n);
    }
}

/// A request for security association database information.
#[derive(Debug, PartialEq, Eq, Clone, Default)]
pub struct GetSadInfoMessage {
    pub flags: u32,
}

impl GetSadInfoMessage {
    /// The wire image: the flags.
    pub open spec fn spec_bytes(&self) -> Seq<u8> {
        u32_le_bytes(self.flags)
    }

    /// `self` is what the first four bytes of `b` describe.
    pub open spec fn decodes(&self, b: Seq<u8>) -> bool {
        self.flags == u32_le_at(b, 0)
    }

    /// The number of bytes `emit` writes.
    pub fn buffer_len(&self) -> (r: usize)
        ensures
            r == 4,
            r == self.spec_bytes().len(),
    {
        4
    }

    /// Writes the flags over the first four bytes of `buffer`.
    pub fn emit(&self, buffer: &mut [u8])
        requires
            4 <= old(buffer)@.len(),
        ensures
            final(buffer)@ == self.spec_bytes() + old(buffer)@.subrange(
                4,
                old(buffer)@.len() as int,
            ),
    {
        let _ = emit_u32_le_at(buffer, 0, self.flags);
        assert(old(buffer)@.subrange(0, 0) + self.spec_bytes() =~= self.spec_bytes());
    }

    /// Decodes the flags from the first four bytes of `buf`.
    pub fn parse(buf: &[u8]) -> (r: Result<GetSadInfoMessage, ParseError>)
        requires
            4 <= buf.len(),
        ensures
            r matches Ok(m) && m.decodes(buf@),
    {
        let flags = match netlink_packet_core::parse_u32_le(slice_subrange(buf, 0, 4)) {
            Ok(v) => v,
            Err(_) => 0,
        };
        Ok(GetSadInfoMessage { flags })
    }
}

impl GetSadInfoMessage {
    /// Decoding the wire image of a `GetSadInfoMessage` gives back the same message.
    pub proof fn lemma_roundtrip(m: GetSadInfoMessage)
        ensures
            m.spec_bytes().len() == 4,
            m.decodes(m.spec_bytes()),
    {
        assert(m.spec_bytes().subrange(0, 4) =~= m.spec_bytes());
        lemma_u32_le_field(m.spec_bytes(), 0, m.flags);
    }
}

impl NewSadInfoMessage {
    /// The wire image of a `NewSadInfoMessage` is the little-endian flags at offset
    /// 0, then the images of its attributes from offset 4 on, one after the
    /// other, in their order.
    pub proof fn lemma_layout(m: NewSadInfoMessage)
        ensures
            m.spec_bytes().len() == 4 + nlas_bytes(nlas_model(m.nlas@)).len(),
            u32_le_at(m.spec_bytes(), 0) == m.flags,
            m.spec_bytes().subrange(4, m.spec_bytes().len() as int) == nlas_bytes(
                nlas_model(m.nlas@),
            ),
    {
        let h = u32_le_bytes(m.flags);
        let n = nlas_bytes(nlas_model(m.nlas@));
        assert((h + n).subrange(0, 4) =~= h);
        lemma_u32_le_field(h + n, 0, m.flags);
        assert((h + n).subrange(4, (h + n).len() as int) =~= n);
    }
}

} // verus!
