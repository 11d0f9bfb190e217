//! The message that the NAT mapping of a security association changed.

use vstd::prelude::*;
use vstd::slice::slice_subrange;
use crate::user_mapping::{UserMapping, XFRM_USER_MAPPING_LEN};
use crate::wire::ParseError;

verus! {

/// A message that the NAT mapping of a security association changed.
#[derive(Debug, PartialEq, Eq, Clone, Default)]
pub struct MappingMessage {
    pub map: UserMapping,
}

impl MappingMessage {
    /// The wire image: the header alone.
    pub open spec fn spec_bytes(&self) -> Seq<u8> {
        self.map.spec_bytes()
    }

    /// `self` is what the first `XFRM_USER_MAPPING_LEN` bytes of `b` describe.
    pub open spec fn decodes(&self, b: Seq<u8>) -> bool {
        self.map.decodes(b.subrange(0, XFRM_USER_MAPPING_LEN as int))
    }

    /// The number of bytes `emit` writes.
    pub fn buffer_len(&self) -> (r: usize)
        ensures
            r == XFRM_USER_MAPPING_LEN,
            r == self.spec_bytes().len(),
    {
        self.map.buffer_len()
    }

    /// Writes the header over the first `XFRM_USER_MAPPING_LEN` bytes of `buffer`.
    pub fn emit(&self, buffer: &mut [u8])
        requires
            XFRM_USER_MAPPING_LEN <= old(buffer)@.len(),
        ensures
            final(buffer)@ == self.spec_bytes() + old(buffer)@.subrange(
                XFRM_USER_MAPPING_LEN as int,
                old(buffer)@.len() as int,
            ),
    {
        self.map.emit(buffer);
    }

    /// Decodes the message from the first `XFRM_USER_MAPPING_LEN` bytes of `buf`.
    pub fn parse(buf: &[u8]) -> (r: Result<MappingMessage, ParseError>)
        requires
            XFRM_USER_MAPPING_LEN <= buf.len(),
        ensures
            r matches Ok(m) && m.decodes(buf@),
    {
        let map = UserMapping::decode(slice_subrange(buf, 0, XFRM_USER_MAPPING_LEN));
        Ok(MappingMessage { map })
    }
}

impl MappingMessage {
    /// Decoding the wire image of a `MappingMessage` gives back the same message.
    pub proof fn lemma_roundtrip(m: MappingMessage)
        ensures
            m.spec_bytes().len() == XFRM_USER_MAPPING_LEN,
            m.decodes(m.spec_bytes()),
    {
        UserMapping::lemma_roundtrip(m.map);
        assert(m.map.spec_bytes().subrange(0, XFRM_USER_MAPPING_LEN as int) =~= m.map.spec_bytes());
    }
}

} // verus!
