//! The request to flush policies.

use vstd::prelude::*;
use crate::nla::{emit_nlas, lemma_nlas_roundtrip, nlas_buffer_len, nlas_bytes, nlas_decode, nlas_fit, nlas_model, parse_nlas, Nla};
use crate::wire::ParseError;

verus! {

/// A request to flush policies.
#[derive(Debug, PartialEq, Eq, Clone, Default)]
pub struct FlushMessage {
    pub nlas: Vec<Nla>,
}

impl FlushMessage {
    /// The wire image: the attributes.
    pub open spec fn spec_bytes(&self) -> Seq<u8> {
        nlas_bytes(nlas_model(self.nlas@))
    }

    /// `self` is what `b` describes: attributes filling all of it.
    pub open spec fn decodes(&self, b: Seq<u8>) -> bool {
        nlas_decode(b) == Some(nlas_model(self.nlas@))
    }

    /// The number of bytes `emit` writes.
    pub fn buffer_len(&self) -> (r: usize)
        requires
            nlas_bytes(nlas_model(self.nlas@)).len() <= usize::MAX,
        ensures
            r == self.spec_bytes().len(),
    {
        nlas_buffer_len(self.nlas.as_slice())
    }

    /// Writes the attributes over the start of `buffer`.
    pub fn emit(&self, buffer: &mut [u8])
        requires
            nlas_fit(nlas_model(self.nlas@)),
            nlas_bytes(nlas_model(self.nlas@)).len() <= old(buffer)@.len(),
        ensures
            final(buffer)@ == self.spec_bytes() + old(buffer)@.subrange(
                self.spec_bytes().len() as int,
                old(buffer)@.len() as int,
            ),
    {
        emit_nlas(self.nlas.as_slice(), buffer);
    }

    /// Decodes the attributes that fill `buf`.
    pub fn parse(buf: &[u8]) -> (r: Result<FlushMessage, ParseError>)
        ensures
            match nlas_decode(buf@) {
                Some(s) => r matches Ok(m) && m.decodes(buf@) && nlas_model(m.nlas@) == s,
                None => r == Err::<FlushMessage, ParseError>(ParseError::InvalidAttribute),
            },
    {
        match parse_nlas(buf) {
            Ok(nlas) => Ok(FlushMessage { nlas }),
            Err(e) => Err(e),
        }
    }
}

impl FlushMessage {
    /// Decoding the wire image of a `FlushMessage` gives back the same message, as
    /// long as every attribute value fits the length field.
    pub proof fn lemma_roundtrip(m: FlushMessage)
        requires
            nlas_fit(nlas_model(m.nlas@)),
        ensures
            m.decodes(m.spec_bytes()),
    {
        lemma_nlas_roundtrip(nlas_model(m.nlas@));
    }
}

} // verus!
