//! A request to flush the security associations of a protocol.

use vstd::prelude::*;
use crate::wire::ParseError;

verus! {

/// A request to flush the security associations of one protocol.
#[derive(Debug, PartialEq, Eq, Clone, Default)]
pub struct FlushMessage {
    pub protocol: u8,
}

impl FlushMessage {
    /// The number of bytes `emit` writes.
    pub fn buffer_len(&self) -> (r: usize)
        ensures
            r == 1,
    {
        1
    }

    /// Writes the protocol into the first byte of `buffer`.
    pub fn emit(&self, buffer: &mut [u8])
        requires
            1 <= old(buffer)@.len(),
        ensures
            final(buffer)@ == old(buffer)@.update(0, self.protocol),
    {
        buffer[0] = self.protocol;
    }

    /// Reads the protocol from the first byte of `buf`.
    pub fn parse(buf: &[u8]) -> (r: Result<FlushMessage, ParseError>)
        ensures
            buf@.len() == 0 ==> r == Err::<FlushMessage, ParseError>(
                ParseError::BufferTooSmall { received: 0, expected: 1 },
            ),
            buf@.len() > 0 ==> r == Ok::<FlushMessage, ParseError>(
                FlushMessage { protocol: buf@[0] },
            ),
    {
        if buf.is_empty() {
            return Err(ParseError::BufferTooSmall { received: buf.len(), expected: 1 });
        }
        Ok(FlushMessage { protocol: buf[0] })
    }
}

} // verus!
