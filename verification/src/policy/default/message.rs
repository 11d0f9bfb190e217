//! The message with the default policy actions.

use vstd::prelude::*;
use vstd::slice::slice_subrange;
use crate::user_policy_default::{UserPolicyDefault, XFRM_USER_POLICY_DEFAULT_LEN};
use crate::wire::ParseError;

verus! {

/// A message with the default policy actions.
#[derive(Debug, PartialEq, Eq, Clone, Default)]
pub struct DefaultMessage {
    pub user_policy: UserPolicyDefault,
}

impl DefaultMessage {
    /// The wire image: the header alone.
    pub open spec fn spec_bytes(&self) -> Seq<u8> {
        self.user_policy.spec_bytes()
    }

    /// `self` is what the first `XFRM_USER_POLICY_DEFAULT_LEN` bytes of `b` describe.
    pub open spec fn decodes(&self, b: Seq<u8>) -> bool {
        self.user_policy.decodes(b.subrange(0, XFRM_USER_POLICY_DEFAULT_LEN as int))
    }

    /// The number of bytes `emit` writes.
    pub fn buffer_len(&self) -> (r: usize)
        ensures
            r == XFRM_USER_POLICY_DEFAULT_LEN,
            r == self.spec_bytes().len(),
    {
        self.user_policy.buffer_len()
    }

    /// Writes the header over the first `XFRM_USER_POLICY_DEFAULT_LEN` bytes of `buffer`.
    pub fn emit(&self, buffer: &mut [u8])
        requires
            XFRM_USER_POLICY_DEFAULT_LEN <= old(buffer)@.len(),
        ensures
            final(buffer)@ == self.spec_bytes() + old(buffer)@.subrange(
                XFRM_USER_POLICY_DEFAULT_LEN as int,
                old(buffer)@.len() as int,
            ),
    {
        self.user_policy.emit(buffer);
    }

    /// Decodes the message from the first `XFRM_USER_POLICY_DEFAULT_LEN` bytes of `buf`.
    pub fn parse(buf: &[u8]) -> (r: Result<DefaultMessage, ParseError>)
        requires
            XFRM_USER_POLICY_DEFAULT_LEN <= buf.len(),
        ensures
            r matches Ok(m) && m.decodes(buf@),
    {
        let user_policy = UserPolicyDefault::decode(slice_subrange(buf, 0, XFRM_USER_POLICY_DEFAULT_LEN));
        Ok(DefaultMessage { user_policy })
    }
}

impl DefaultMessage {
    /// Decoding the wire image of a `DefaultMessage` gives back the same message.
    pub proof fn lemma_roundtrip(m: DefaultMessage)
        ensures
            m.spec_bytes().len() == XFRM_USER_POLICY_DEFAULT_LEN,
            m.decodes(m.spec_bytes()),
    {
        UserPolicyDefault::lemma_roundtrip(m.user_policy);
        assert(m.user_policy.spec_bytes().subrange(0, XFRM_USER_POLICY_DEFAULT_LEN as int) =~= m.user_policy.spec_bytes());
    }
}

} // verus!
