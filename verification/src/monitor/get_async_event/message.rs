//! The request for the asynchronous event state of a security association.

use vstd::prelude::*;
use vstd::slice::slice_subrange;
use crate::async_event_id::{AsyncEventId, XFRM_ASYNC_EVENT_ID_LEN};
use crate::wire::ParseError;

verus! {

/// A request for the asynchronous event state of a security association.
#[derive(Debug, PartialEq, Eq, Clone, Default)]
pub struct GetAsyncEventMessage {
    pub id: AsyncEventId,
}

impl GetAsyncEventMessage {
    /// The wire image: the header alone.
    pub open spec fn spec_bytes(&self) -> Seq<u8> {
        self.id.spec_bytes()
    }

    /// `self` is what the first `XFRM_ASYNC_EVENT_ID_LEN` bytes of `b` describe.
    pub open spec fn decodes(&self, b: Seq<u8>) -> bool {
        self.id.decodes(b.subrange(0, XFRM_ASYNC_EVENT_ID_LEN as int))
    }

    /// The number of bytes `emit` writes.
    pub fn buffer_len(&self) -> (r: usize)
        ensures
            r == XFRM_ASYNC_EVENT_ID_LEN,
            r == self.spec_bytes().len(),
    {
        self.id.buffer_len()
    }

    /// Writes the header over the first `XFRM_ASYNC_EVENT_ID_LEN` bytes of `buffer`.
    pub fn emit(&self, buffer: &mut [u8])
        requires
            XFRM_ASYNC_EVENT_ID_LEN <= old(buffer)@.len(),
        ensures
            final(buffer)@ == self.spec_bytes() + old(buffer)@.subrange(
                XFRM_ASYNC_EVENT_ID_LEN as int,
                old(buffer)@.len() as int,
            ),
    {
        self.id.emit(buffer);
    }

    /// Decodes the message from the first `XFRM_ASYNC_EVENT_ID_LEN` bytes of `buf`.
    pub fn parse(buf: &[u8]) -> (r: Result<GetAsyncEventMessage, ParseError>)
        requires
            XFRM_ASYNC_EVENT_ID_LEN <= buf.len(),
        ensures
            r matches Ok(m) && m.decodes(buf@),
    {
        let id = AsyncEventId::decode(slice_subrange(buf, 0, XFRM_ASYNC_EVENT_ID_LEN));
        Ok(GetAsyncEventMessage { id })
    }
}

impl GetAsyncEventMessage {
    /// Decoding the wire image of a `GetAsyncEventMessage` gives back the same message.
    pub proof fn lemma_roundtrip(m: GetAsyncEventMessage)
        ensures
            m.spec_bytes().len() == XFRM_ASYNC_EVENT_ID_LEN,
            m.decodes(m.spec_bytes()),
    {
        AsyncEventId::lemma_roundtrip(m.id);
        assert(m.id.spec_bytes().subrange(0, XFRM_ASYNC_EVENT_ID_LEN as int) =~= m.id.spec_bytes());
    }
}

} // verus!
