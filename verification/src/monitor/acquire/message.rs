//! The acquire message: the kernel asking a key manager for a security association.

use vstd::prelude::*;
use vstd::slice::slice_subrange;
use crate::nla::{emit_nlas_at, lemma_nlas_roundtrip, nlas_buffer_len, nlas_bytes, nlas_decode, nlas_fit, nlas_model, parse_nlas, Nla};
use crate::user_acquire::{UserAcquire, XFRM_USER_ACQUIRE_LEN};
use crate::wire::ParseError;

verus! {

/// A message from the kernel asking for a security association.
#[derive(Debug, PartialEq, Eq, Clone, Default)]
pub struct AcquireMessage {
    pub acquire: UserAcquire,
    pub nlas: Vec<Nla>,
}

impl AcquireMessage {
    /// The wire image: the header, then the attributes.
    pub open spec fn spec_bytes(&self) -> Seq<u8> {
        self.acquire.spec_bytes() + nlas_bytes(nlas_model(self.nlas@))
    }

    /// `self` is what `b` describes: the header in its first `XFRM_USER_ACQUIRE_LEN`
    /// bytes, then attributes filling the rest.
    pub open spec fn decodes(&self, b: Seq<u8>) -> bool {
        &&& self.acquire.decodes(b.subrange(0, XFRM_USER_ACQUIRE_LEN as int))
        &&& nlas_decode(b.subrange(XFRM_USER_ACQUIRE_LEN as int, b.len() as int)) == Some(
            nlas_model(self.nlas@),
        )
    }

    /// The number of bytes `emit` writes: the header and the attributes.
    pub fn buffer_len(&self) -> (r: usize)
        requires
            XFRM_USER_ACQUIRE_LEN + nlas_bytes(nlas_model(self.nlas@)).len() <= usize::MAX,
        ensures
            r == self.spec_bytes().len(),
    {
        proof {
            UserAcquire::lemma_roundtrip(self.acquire);
        }
        self.acquire.buffer_len() + nlas_buffer_len(self.nlas.as_slice())
    }

    /// Writes the header, then the attributes, over the start of `buffer`.
    pub fn emit(&self, buffer: &mut [u8])
        requires
            nlas_fit(nlas_model(self.nlas@)),
            XFRM_USER_ACQUIRE_LEN + nlas_bytes(nlas_model(self.nlas@)).len() <= old(buffer)@.len(),
        ensures
            final(buffer)@ == self.spec_bytes() + old(buffer)@.subrange(
                self.spec_bytes().len() as int,
                old(buffer)@.len() as int,
            ),
    {
        proof {
            UserAcquire::lemma_roundtrip(self.acquire);
        }
        let ghost len = old(buffer)@.len();
        self.acquire.emit(buffer);
        let ghost mid = buffer@;
        emit_nlas_at(self.nlas.as_slice(), buffer, XFRM_USER_ACQUIRE_LEN);
        proof {
            let h = self.acquire.spec_bytes();
            let n = nlas_bytes(nlas_model(self.nlas@));
            assert(mid.subrange(0, XFRM_USER_ACQUIRE_LEN as int) =~= h);
            assert(mid.subrange((XFRM_USER_ACQUIRE_LEN + n.len()) as int, len as int) =~= old(buffer)@.subrange(
                (XFRM_USER_ACQUIRE_LEN + n.len()) as int,
                len as int,
            ));
            assert(buffer@ =~= self.spec_bytes() + old(buffer)@.subrange(
                self.spec_bytes().len() as int,
                len as int,
            ));
        }
    }

    /// Decodes the header from the first `XFRM_USER_ACQUIRE_LEN` bytes of `buf` and the
    /// attributes from the rest.
    pub fn parse(buf: &[u8]) -> (r: Result<AcquireMessage, ParseError>)
        requires
            XFRM_USER_ACQUIRE_LEN <= buf.len(),
        ensures
            match nlas_decode(buf@.subrange(XFRM_USER_ACQUIRE_LEN as int, buf@.len() as int)) {
                Some(s) => r matches Ok(m) && m.decodes(buf@) && nlas_model(m.nlas@) == s,
                None => r == Err::<AcquireMessage, ParseError>(ParseError::InvalidAttribute),
            },
    {
        let acquire = UserAcquire::decode(slice_subrange(buf, 0, XFRM_USER_ACQUIRE_LEN));
        match parse_nlas(slice_subrange(buf, XFRM_USER_ACQUIRE_LEN, buf.len())) {
            Ok(nlas) => Ok(AcquireMessage { acquire, nlas }),
            Err(e) => Err(e),
        }
    }
}

impl AcquireMessage {
    /// Decoding the wire image of a `AcquireMessage` gives back the same message, as
    /// long as every attribute value fits the length field.
    pub proof fn lemma_roundtrip(m: AcquireMessage)
        requires
            nlas_fit(nlas_model(m.nlas@)),
        ensures
            m.decodes(m.spec_bytes()),
    {
        let h = m.acquire.spec_bytes();
        let n = nlas_bytes(nlas_model(m.nlas@));
        UserAcquire::lemma_roundtrip(m.acquire);
        lemma_nlas_roundtrip(nlas_model(m.nlas@));
        assert((h + n).subrange(0, XFRM_USER_ACQUIRE_LEN as int) =~= h);
        assert((h + n).subrange(XFRM_USER_ACQUIRE_LEN as int, (h + n).len() as int) =~= n);
    }
}

impl AcquireMessage {
    /// The wire image of a `AcquireMessage` is the image of its header in the first
    /// `XFRM_USER_ACQUIRE_LEN` bytes, then the images of its attributes, one after the
    /// other, in their order.
    pub proof fn lemma_layout(m: AcquireMessage)
        ensures
            m.spec_bytes().len() == XFRM_USER_ACQUIRE_LEN + nlas_bytes(nlas_model(m.nlas@)).len(),
            m.spec_bytes().subrange(0, XFRM_USER_ACQUIRE_LEN as int) == m.acquire.spec_bytes(),
            m.spec_bytes().subrange(XFRM_USER_ACQUIRE_LEN as int, m.spec_bytes().len() as int) == nlas_bytes(
                nlas_model(m.nlas@),
            ),
    {
        let h = m.acquire.spec_bytes();
        let n = nlas_bytes(nlas_model(m.nlas@));
        UserAcquire::lemma_roundtrip(m.acquire);
        assert((h + n).subrange(0, XFRM_USER_ACQUIRE_LEN as int) =~= h);
        assert((h + n).subrange(XFRM_USER_ACQUIRE_LEN as int, (h + n).len() as int) =~= n);
    }
}

} // verus!
