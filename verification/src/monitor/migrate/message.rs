//! The migrate message of a policy.

use vstd::prelude::*;
use vstd::slice::slice_subrange;
use crate::nla::{emit_nlas_at, lemma_nlas_roundtrip, nlas_buffer_len, nlas_bytes, nlas_decode, nlas_fit, nlas_model, parse_nlas, Nla};
use crate::user_policy_id::{UserPolicyId, XFRM_USER_POLICY_ID_LEN};
use crate::wire::ParseError;

verus! {

/// A request to migrate the states of a policy.
#[derive(Debug, PartialEq, Eq, Clone, Default)]
pub struct MigrateMessage {
    pub user_policy_id: UserPolicyId,
    pub nlas: Vec<Nla>,
}

impl MigrateMessage {
    /// The wire image: the header, then the attributes.
    pub open spec fn spec_bytes(&self) -> Seq<u8> {
        self.user_policy_id.spec_bytes() + nlas_bytes(nlas_model(self.nlas@))
    }

    /// `self` is what `b` describes: the header in its first `XFRM_USER_POLICY_ID_LEN`
    /// bytes, then attributes filling the rest.
    pub open spec fn decodes(&self, b: Seq<u8>) -> bool {
        &&& self.user_policy_id.decodes(b.subrange(0, XFRM_USER_POLICY_ID_LEN as int))
        &&& nlas_decode(b.subrange(XFRM_USER_POLICY_ID_LEN as int, b.len() as int)) == Some(
            nlas_model(self.nlas@),
        )
    }

    /// The number of bytes `emit` writes: the header and the attributes.
    pub fn buffer_len(&self) -> (r: usize)
        requires
            XFRM_USER_POLICY_ID_LEN + nlas_bytes(nlas_model(self.nlas@)).len() <= usize::MAX,
        ensures
            r == self.spec_bytes().len(),
    {
        proof {
            UserPolicyId::lemma_roundtrip(self.user_policy_id);
        }
        self.user_policy_id.buffer_len() + nlas_buffer_len(self.nlas.as_slice())
    }

    /// Writes the header, then the attributes, over the start of `buffer`.
    pub fn emit(&self, buffer: &mut [u8])
        requires
            nlas_fit(nlas_model(self.nlas@)),
            XFRM_USER_POLICY_ID_LEN + nlas_bytes(nlas_model(self.nlas@)).len() <= old(buffer)@.len(),
        ensures
            final(buffer)@ == self.spec_bytes() + old(buffer)@.subrange(
                self.spec_bytes().len() as int,
                old(buffer)@.len() as int,
            ),
    {
        proof {
            UserPolicyId::lemma_roundtrip(self.user_policy_id);
        }
        let ghost len = old(buffer)@.len();
        self.user_policy_id.emit(buffer);
        let ghost mid = buffer@;
        emit_nlas_at(self.nlas.as_slice(), buffer, XFRM_USER_POLICY_ID_LEN);
        proof {
            let h = self.user_policy_id.spec_bytes();
            let n = nlas_bytes(nlas_model(self.nlas@));
            assert(mid.subrange(0, XFRM_USER_POLICY_ID_LEN as int) =~= h);
            assert(mid.subrange((XFRM_USER_POLICY_ID_LEN + n.len()) as int, len as int) =~= old(buffer)@.subrange(
                (XFRM_USER_POLICY_ID_LEN + n.len()) as int,
                len as int,
            ));
            assert(buffer@ =~= self.spec_bytes() + old(buffer)@.subrange(
                self.spec_bytes().len() as int,
                len as int,
            ));
        }
    }

    /// Decodes the header from the first `XFRM_USER_POLICY_ID_LEN` bytes of `buf` and the
    /// attributes from the rest.
    pub fn parse(buf: &[u8]) -> (r: Result<MigrateMessage, ParseError>)
        requires
            XFRM_USER_POLICY_ID_LEN <= buf.len(),
        ensures
            match nlas_decode(buf@.subrange(XFRM_USER_POLICY_ID_LEN as int, buf@.len() as int)) {
                Some(s) => r matches Ok(m) && m.decodes(buf@) && nlas_model(m.nlas@) == s,
                None => r == Err::<MigrateMessage, ParseError>(ParseError::InvalidAttribute),
            },
    {
        let user_policy_id = UserPolicyId::decode(slice_subrange(buf, 0, XFRM_USER_POLICY_ID_LEN));
        match parse_nlas(slice_subrange(buf, XFRM_USER_POLICY_ID_LEN, buf.len())) {
            Ok(nlas) => Ok(MigrateMessage { user_policy_id, nlas }),
            Err(e) => Err(e),
        }
    }
}

impl MigrateMessage {
    /// Decoding the wire image of a `MigrateMessage` gives back the same message, as
    /// long as every attribute value fits the length field.
    pub proof fn lemma_roundtrip(m: MigrateMessage)
        requires
            nlas_fit(nlas_model(m.nlas@)),
        ensures
            m.decodes(m.spec_bytes()),
    {
        let h = m.user_policy_id.spec_bytes();
        let n = nlas_bytes(nlas_model(m.nlas@));
        UserPolicyId::lemma_roundtrip(m.user_policy_id);
        lemma_nlas_roundtrip(nlas_model(m.nlas@));
        assert((h + n).subrange(0, XFRM_USER_POLICY_ID_LEN as int) =~= h);
        assert((h + n).subrange(XFRM_USER_POLICY_ID_LEN as int, (h + n).len() as int) =~= n);
    }
}

impl MigrateMessage {
    /// The wire image of a `MigrateMessage` is the image of its header in the first
    /// `XFRM_USER_POLICY_ID_LEN` bytes, then the images of its attributes, one after the
    /// other, in their order.
    pub proof fn lemma_layout(m: MigrateMessage)
        ensures
            m.spec_bytes().len() == XFRM_USER_POLICY_ID_LEN + nlas_bytes(nlas_model(m.nlas@)).len(),
            m.spec_bytes().subrange(0, XFRM_USER_POLICY_ID_LEN as int) == m.user_policy_id.spec_bytes(),
            m.spec_bytes().subrange(XFRM_USER_POLICY_ID_LEN as int, m.spec_bytes().len() as int) == nlas_bytes(
                nlas_model(m.nlas@),
            ),
    {
        let h = m.user_policy_id.spec_bytes();
        let n = nlas_bytes(nlas_model(m.nlas@));
        UserPolicyId::lemma_roundtrip(m.user_policy_id);
        assert((h + n).subrange(0, XFRM_USER_POLICY_ID_LEN as int) =~= h);
        assert((h + n).subrange(XFRM_USER_POLICY_ID_LEN as int, (h + n).len() as int) =~= n);
    }
}

} // verus!
