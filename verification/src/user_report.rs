//! The `xfrm_user_report` structure.

use vstd::prelude::*;
use vstd::slice::slice_subrange;
use crate::wire::{copy_prefix, lemma_u8_bytes_of, lemma_u8_field, push_zeros, zeros, ParseError};
use crate::selector::{Selector};

verus! {

/// A report of traffic that a protocol flagged.
#[derive(Debug, Clone, Copy, Eq, PartialEq)]
pub struct UserReport {
    pub proto: u8,
    pub selector: Selector,
}

pub const XFRM_USER_REPORT_LEN: usize = 60;

impl UserReport {
    /// The first `XFRM_USER_REPORT_LEN` bytes of `b` with every padding byte set to zero.
    #[verifier::opaque]
    pub open spec fn canonical(b: Seq<u8>) -> Seq<u8> {
        b.subrange(0, 1)
            + zeros(3)
            + Selector::canonical(b.subrange(4, 60))
    }

    /// The wire image: the fields in order, padding as zero bytes.
    #[verifier::opaque]
    pub open spec fn spec_bytes(&self) -> Seq<u8> {
        seq![self.proto]
            + zeros(3)
            + self.selector.spec_bytes()
    }

    /// `self` is what the first `XFRM_USER_REPORT_LEN` bytes of `b` describe.
    #[verifier::opaque]
    pub open spec fn decodes(&self, b: Seq<u8>) -> bool {
        &&& self.proto == b[0]
        &&& self.selector.decodes(b.subrange(4, 60))
    }

    /// `self` holds the values that `default()` gives.
    pub open spec fn is_default(&self) -> bool {
        &&& self.proto == 0
        &&& self.selector.is_default()
    }

    /// Decodes the first `XFRM_USER_REPORT_LEN` bytes of `s`.
    pub fn decode(s: &[u8]) -> (r: UserReport)
        requires
            XFRM_USER_REPORT_LEN <= s.len(),
        ensures
            r.decodes(s@),
    {
        proof {
            reveal(UserReport::decodes);
        }
        UserReport {
            proto: s[0],
            selector: Selector::decode(slice_subrange(s, 4, 60)),
        }
    }

    /// Decodes a `UserReport` from the start of `payload`; the bytes after the
    /// structure are ignored.
    pub fn parse(payload: &[u8]) -> (r: Result<UserReport, ParseError>)
        ensures
            payload.len() < XFRM_USER_REPORT_LEN ==> r == Err::<UserReport, ParseError>(
                ParseError::BufferTooSmall { received: payload.len(), expected: XFRM_USER_REPORT_LEN },
            ),
            XFRM_USER_REPORT_LEN <= payload.len() ==> (r matches Ok(v) && v.decodes(payload@)),
    {
        if payload.len() < XFRM_USER_REPORT_LEN {
            Err(ParseError::BufferTooSmall { received: payload.len(), expected: XFRM_USER_REPORT_LEN })
        } else {
            Ok(UserReport::decode(payload))
        }
    }

    /// Appends the wire image to `out`.
    pub fn write_to(&self, out: &mut Vec<u8>)
        ensures
            final(out)@ == old(out)@ + self.spec_bytes(),
    {
        proof {
            reveal(UserReport::spec_bytes);
        }
        out.push(self.proto);
        push_zeros(out, 3);
        self.selector.write_to(out);
        assert(out@ =~= old(out)@ + self.spec_bytes());
    }

    /// The number of bytes `emit` writes.
    pub fn buffer_len(&self) -> (r: usize)
        ensures
            r == XFRM_USER_REPORT_LEN,
            r == self.spec_bytes().len(),
    {
        proof {
            UserReport::lemma_roundtrip(*self);
        }
        XFRM_USER_REPORT_LEN
    }

    /// Writes the wire image over the first `XFRM_USER_REPORT_LEN` bytes of `buffer`.
    pub fn emit(&self, buffer: &mut [u8])
        requires
            XFRM_USER_REPORT_LEN <= old(buffer)@.len(),
        ensures
            final(buffer)@ == self.spec_bytes() + old(buffer)@.subrange(
                XFRM_USER_REPORT_LEN as int,
                old(buffer)@.len() as int,
            ),
    {
        let raw = UserReportBuffer::from(self);
        proof {
            UserReport::lemma_roundtrip(*self);
        }
        copy_prefix(buffer, raw.as_bytes());
    }
}

impl Default for UserReport {
    fn default() -> (r: UserReport)
        ensures
            r.is_default(),
    {
        UserReport {
            proto: 0,
            selector: Selector::default(),
        }
    }
}

impl UserReport {
    /// Decoding the wire image of a `UserReport` gives back the same value,
    /// and the image is `XFRM_USER_REPORT_LEN` bytes long.
    pub proof fn lemma_roundtrip(x: UserReport)
        ensures
            x.spec_bytes().len() == XFRM_USER_REPORT_LEN,
            x.decodes(x.spec_bytes()),
    {
        reveal(UserReport::spec_bytes);
        reveal(UserReport::decodes);
        let b = x.spec_bytes();
        assert(b.subrange(0, 1) =~= seq![x.proto]);
        lemma_u8_field(b, 0, x.proto);
        Selector::lemma_roundtrip(x.selector);
        assert(b.subrange(4, 60) =~= x.selector.spec_bytes());
    }

    /// The layout of the wire image: each field sits at its fixed offset of
    /// the kernel's structure, padding bytes are zero.
    pub proof fn lemma_layout(x: UserReport)
        ensures
            x.spec_bytes().len() == XFRM_USER_REPORT_LEN,
            x.spec_bytes()[0] == x.proto,
            x.spec_bytes().subrange(1, 4) == zeros(3),
            x.spec_bytes().subrange(4, 60) == x.selector.spec_bytes(),
    {
        reveal(UserReport::spec_bytes);
        let b = x.spec_bytes();
        assert(b.subrange(0, 1) =~= seq![x.proto]);
        lemma_u8_field(b, 0, x.proto);
        Selector::lemma_roundtrip(x.selector);
        assert(b.subrange(4, 60) =~= x.selector.spec_bytes());
        assert(x.spec_bytes().subrange(1, 4) =~= zeros(3));
    }

    /// What decoding reads: each field from its fixed offset of `b`.
    pub proof fn lemma_decode_layout(x: UserReport, b: Seq<u8>)
        requires
            XFRM_USER_REPORT_LEN <= b.len(),
            x.decodes(b),
        ensures
            x.proto == b[0],
            x.selector.decodes(b.subrange(4, 60)),
    {
        reveal(UserReport::decodes);
    }

    /// Encoding a value decoded from `b` gives back the first `XFRM_USER_REPORT_LEN`
    /// bytes of `b`, with the padding bytes set to zero.
    pub proof fn lemma_reencode(x: UserReport, b: Seq<u8>)
        requires
            XFRM_USER_REPORT_LEN <= b.len(),
            x.decodes(b),
        ensures
            x.spec_bytes() == UserReport::canonical(b),
    {
        reveal(UserReport::spec_bytes);
        reveal(UserReport::decodes);
        reveal(UserReport::canonical);
        lemma_u8_bytes_of(b, 0);
        Selector::lemma_reencode(x.selector, b.subrange(4, 60));
    }

    /// Only the first `XFRM_USER_REPORT_LEN` bytes of `b` matter to what it decodes to.
    pub proof fn lemma_decodes_prefix(x: UserReport, b: Seq<u8>)
        requires
            XFRM_USER_REPORT_LEN <= b.len(),
        ensures
            x.decodes(b) == x.decodes(b.subrange(0, XFRM_USER_REPORT_LEN as int)),
    {
        reveal(UserReport::decodes);
        let p = b.subrange(0, XFRM_USER_REPORT_LEN as int);
        assert(forall|i: int| 0 <= i < XFRM_USER_REPORT_LEN ==> #[trigger] p[i] == b[i]);
        assert(p.subrange(4, 60) =~= b.subrange(4, 60));
    }

    /// At most one value decodes from given bytes.
    pub proof fn lemma_decodes_unique(x: UserReport, y: UserReport, b: Seq<u8>)
        requires
            XFRM_USER_REPORT_LEN <= b.len(),
            x.decodes(b),
            y.decodes(b),
        ensures
            x == y,
    {
        reveal(UserReport::decodes);
        Selector::lemma_decodes_unique(x.selector, y.selector, b.subrange(4, 60));
    }
}

/// The wire image of a `UserReport`, as laid out in the kernel's structure.
pub struct UserReportBuffer {
    bytes: Vec<u8>,
}

impl View for UserReportBuffer {
    type V = Seq<u8>;

    closed spec fn view(&self) -> Seq<u8> {
        self.bytes@
    }
}

impl UserReportBuffer {
    /// Lays out `value` in its wire image.
    pub fn from(value: &UserReport) -> (r: UserReportBuffer)
        ensures
            r@ == value.spec_bytes(),
    {
        let mut bytes: Vec<u8> = Vec::new();
        value.write_to(&mut bytes);
        assert(bytes@ =~= value.spec_bytes());
        UserReportBuffer { bytes }
    }

    /// The bytes of the image.
    pub fn as_bytes(&self) -> (r: &[u8])
        ensures
            r@ == self@,
    {
        self.bytes.as_slice()
    }
}

} // verus!
