//! The expire message of a security association.

use vstd::prelude::*;
use vstd::slice::slice_subrange;
use crate::user_expire::{UserExpire, XFRM_USER_EXPIRE_LEN};
use crate::wire::ParseError;

verus! {

/// A message that a security association expires.
#[derive(Debug, PartialEq, Eq, Clone, Default)]
pub struct ExpireMessage {
    pub expire: UserExpire,
}

impl ExpireMessage {
    /// The wire image: the header alone.
    pub open spec fn spec_bytes(&self) -> Seq<u8> {
        self.expire.spec_bytes()
    }

    /// `self` is what the first `XFRM_USER_EXPIRE_LEN` bytes of `b` describe.
    pub open spec fn decodes(&self, b: Seq<u8>) -> bool {
        self.expire.decodes(b.subrange(0, XFRM_USER_EXPIRE_LEN as int))
    }

    /// The number of bytes `emit` writes.
    pub fn buffer_len(&self) -> (r: usize)
        ensures
            r == XFRM_USER_EXPIRE_LEN,
            r == self.spec_bytes().len(),
    {
        self.expire.buffer_len()
    }

    /// Writes the header over the first `XFRM_USER_EXPIRE_LEN` bytes of `buffer`.
    pub fn emit(&self, buffer: &mut [u8])
        requires
            XFRM_USER_EXPIRE_LEN <= old(buffer)@.len(),
        ensures
            final(buffer)@ == self.spec_bytes() + old(buffer)@.subrange(
                XFRM_USER_EXPIRE_LEN as int,
                old(buffer)@.len() as int,
            ),
    {
        self.expire.emit(buffer);
    }

    /// Decodes the message from the first `XFRM_USER_EXPIRE_LEN` bytes of `buf`.
    pub fn parse(buf: &[u8]) -> (r: Result<ExpireMessage, ParseError>)
        requires
            XFRM_USER_EXPIRE_LEN <= buf.len(),
        ensures
            r matches Ok(m) && m.decodes(buf@),
    {
        let expire = UserExpire::decode(slice_subrange(buf, 0, XFRM_USER_EXPIRE_LEN));
        Ok(ExpireMessage { expire })
    }
}

impl ExpireMessage {
    /// Decoding the wire image of a `ExpireMessage` gives back the same message.
    pub proof fn lemma_roundtrip(m: ExpireMessage)
        ensures
            m.spec_bytes().len() == XFRM_USER_EXPIRE_LEN,
            m.decodes(m.spec_bytes()),
    {
        UserExpire::lemma_roundtrip(m.expire);
        assert(m.expire.spec_bytes().subrange(0, XFRM_USER_EXPIRE_LEN as int) =~= m.expire.spec_bytes());
    }
}

} // verus!
