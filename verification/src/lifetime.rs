//! The `xfrm_lifetime_cfg` and `xfrm_lifetime_cur` structures.

use vstd::prelude::*;
use crate::wire::{
    copy_prefix,
    lemma_u64_le_bytes_of,
    lemma_u64_le_field,
    push_u64_le,
    read_u64_le,
    u64_le_at,
    u64_le_bytes,
    ParseError,
};
use crate::constants::XFRM_INF;

verus! {

/// The soft and hard limits after which a state or policy expires.
#[derive(Debug, Clone, Copy, Eq, PartialEq)]
pub struct LifetimeConfig {
    pub soft_byte_limit: u64,
    pub hard_byte_limit: u64,
    pub soft_packet_limit: u64,
    pub hard_packet_limit: u64,
    pub soft_add_expires_seconds: u64,
    pub hard_add_expires_seconds: u64,
    pub soft_use_expires_seconds: u64,
    pub hard_use_expires_seconds: u64,
}

pub const XFRM_LIFETIME_CONFIG_LEN: usize = 64;

impl LifetimeConfig {
    /// The first `XFRM_LIFETIME_CONFIG_LEN` bytes of `b` with every padding byte set to zero.
    #[verifier::opaque]
    pub open spec fn canonical(b: Seq<u8>) -> Seq<u8> {
        b.subrange(0, 8)
            + b.subrange(8, 16)
            + b.subrange(16, 24)
            + b.subrange(24, 32)
            + b.subrange(32, 40)
            + b.subrange(40, 48)
            + b.subrange(48, 56)
            + b.subrange(56, 64)
    }

    /// The wire image: the fields in order, padding as zero bytes.
    #[verifier::opaque]
    pub open spec fn spec_bytes(&self) -> Seq<u8> {
        u64_le_bytes(self.soft_byte_limit)
            + u64_le_bytes(self.hard_byte_limit)
            + u64_le_bytes(self.soft_packet_limit)
            + u64_le_bytes(self.hard_packet_limit)
            + u64_le_bytes(self.soft_add_expires_seconds)
            + u64_le_bytes(self.hard_add_expires_seconds)
            + u64_le_bytes(self.soft_use_expires_seconds)
            + u64_le_bytes(self.hard_use_expires_seconds)
    }

    /// `self` is what the first `XFRM_LIFETIME_CONFIG_LEN` bytes of `b` describe.
    #[verifier::opaque]
    pub open spec fn decodes(&self, b: Seq<u8>) -> bool {
        &&& self.soft_byte_limit == u64_le_at(b, 0)
        &&& self.hard_byte_limit == u64_le_at(b, 8)
        &&& self.soft_packet_limit == u64_le_at(b, 16)
        &&& self.hard_packet_limit == u64_le_at(b, 24)
        &&& self.soft_add_expires_seconds == u64_le_at(b, 32)
        &&& self.hard_add_expires_seconds == u64_le_at(b, 40)
        &&& self.soft_use_expires_seconds == u64_le_at(b, 48)
        &&& self.hard_use_expires_seconds == u64_le_at(b, 56)
    }

    /// `self` holds the values that `default()` gives.
    pub open spec fn is_default(&self) -> bool {
        &&& self.soft_byte_limit == XFRM_INF
        &&& self.hard_byte_limit == XFRM_INF
        &&& self.soft_packet_limit == XFRM_INF
        &&& self.hard_packet_limit == XFRM_INF
        &&& self.soft_add_expires_seconds == 0
        &&& self.hard_add_expires_seconds == 0
        &&& self.soft_use_expires_seconds == 0
        &&& self.hard_use_expires_seconds == 0
    }

    /// Decodes the first `XFRM_LIFETIME_CONFIG_LEN` bytes of `s`.
    pub fn decode(s: &[u8]) -> (r: LifetimeConfig)
        requires
            XFRM_LIFETIME_CONFIG_LEN <= s.len(),
        ensures
            r.decodes(s@),
    {
        proof {
            reveal(LifetimeConfig::decodes);
        }
        LifetimeConfig {
            soft_byte_limit: read_u64_le(s, 0),
            hard_byte_limit: read_u64_le(s, 8),
            soft_packet_limit: read_u64_le(s, 16),
            hard_packet_limit: read_u64_le(s, 24),
            soft_add_expires_seconds: read_u64_le(s, 32),
            hard_add_expires_seconds: read_u64_le(s, 40),
            soft_use_expires_seconds: read_u64_le(s, 48),
            hard_use_expires_seconds: read_u64_le(s, 56),
        }
    }

    /// Decodes a `LifetimeConfig` from the start of `payload`; the bytes after the
    /// structure are ignored.
    pub fn parse(payload: &[u8]) -> (r: Result<LifetimeConfig, ParseError>)
        ensures
            payload.len() < XFRM_LIFETIME_CONFIG_LEN ==> r == Err::<LifetimeConfig, ParseError>(
                ParseError::BufferTooSmall { received: payload.len(), expected: XFRM_LIFETIME_CONFIG_LEN },
            ),
            XFRM_LIFETIME_CONFIG_LEN <= payload.len() ==> (r matches Ok(v) && v.decodes(payload@)),
    {
        if payload.len() < XFRM_LIFETIME_CONFIG_LEN {
            Err(ParseError::BufferTooSmall { received: payload.len(), expected: XFRM_LIFETIME_CONFIG_LEN })
        } else {
            Ok(LifetimeConfig::decode(payload))
        }
    }

    /// Appends the wire image to `out`.
    pub fn write_to(&self, out: &mut Vec<u8>)
        ensures
            final(out)@ == old(out)@ + self.spec_bytes(),
    {
        proof {
            reveal(LifetimeConfig::spec_bytes);
        }
        push_u64_le(out, self.soft_byte_limit);
        push_u64_le(out, self.hard_byte_limit);
        push_u64_le(out, self.soft_packet_limit);
        push_u64_le(out, self.hard_packet_limit);
        push_u64_le(out, self.soft_add_expires_seconds);
        push_u64_le(out, self.hard_add_expires_seconds);
        push_u64_le(out, self.soft_use_expires_seconds);
        push_u64_le(out, self.hard_use_expires_seconds);
        assert(out@ =~= old(out)@ + self.spec_bytes());
    }

    /// The number of bytes `emit` writes.
    pub fn buffer_len(&self) -> (r: usize)
        ensures
            r == XFRM_LIFETIME_CONFIG_LEN,
            r == self.spec_bytes().len(),
    {
        proof {
            LifetimeConfig::lemma_roundtrip(*self);
        }
        XFRM_LIFETIME_CONFIG_LEN
    }

    /// Writes the wire image over the first `XFRM_LIFETIME_CONFIG_LEN` bytes of `buffer`.
    pub fn emit(&self, buffer: &mut [u8])
        requires
            XFRM_LIFETIME_CONFIG_LEN <= old(buffer)@.len(),
        ensures
            final(buffer)@ == self.spec_bytes() + old(buffer)@.subrange(
                XFRM_LIFETIME_CONFIG_LEN as int,
                old(buffer)@.len() as int,
            ),
    {
        let raw = LifetimeConfigBuffer::from(self);
        proof {
            LifetimeConfig::lemma_roundtrip(*self);
        }
        copy_prefix(buffer, raw.as_bytes());
    }
}

impl Default for LifetimeConfig {
    fn default() -> (r: LifetimeConfig)
        ensures
            r.is_default(),
    {
        LifetimeConfig {
            soft_byte_limit: XFRM_INF,
            hard_byte_limit: XFRM_INF,
            soft_packet_limit: XFRM_INF,
            hard_packet_limit: XFRM_INF,
            soft_add_expires_seconds: 0,
            hard_add_expires_seconds: 0,
            soft_use_expires_seconds: 0,
            hard_use_expires_seconds: 0,
        }
    }
}

impl LifetimeConfig {
    /// Decoding the wire image of a `LifetimeConfig` gives back the same value,
    /// and the image is `XFRM_LIFETIME_CONFIG_LEN` bytes long.
    pub proof fn lemma_roundtrip(x: LifetimeConfig)
        ensures
            x.spec_bytes().len() == XFRM_LIFETIME_CONFIG_LEN,
            x.decodes(x.spec_bytes()),
    {
        reveal(LifetimeConfig::spec_bytes);
        reveal(LifetimeConfig::decodes);
        let b = x.spec_bytes();
        assert(b.subrange(0, 8) =~= u64_le_bytes(x.soft_byte_limit));
        lemma_u64_le_field(b, 0, x.soft_byte_limit);
        assert(b.subrange(8, 16) =~= u64_le_bytes(x.hard_byte_limit));
        lemma_u64_le_field(b, 8, x.hard_byte_limit);
        assert(b.subrange(16, 24) =~= u64_le_bytes(x.soft_packet_limit));
        lemma_u64_le_field(b, 16, x.soft_packet_limit);
        assert(b.subrange(24, 32) =~= u64_le_bytes(x.hard_packet_limit));
        lemma_u64_le_field(b, 24, x.hard_packet_limit);
        assert(b.subrange(32, 40) =~= u64_le_bytes(x.soft_add_expires_seconds));
        lemma_u64_le_field(b, 32, x.soft_add_expires_seconds);
        assert(b.subrange(40, 48) =~= u64_le_bytes(x.hard_add_expires_seconds));
        lemma_u64_le_field(b, 40, x.hard_add_expires_seconds);
        assert(b.subrange(48, 56) =~= u64_le_bytes(x.soft_use_expires_seconds));
        lemma_u64_le_field(b, 48, x.soft_use_expires_seconds);
        assert(b.subrange(56, 64) =~= u64_le_bytes(x.hard_use_expires_seconds));
        lemma_u64_le_field(b, 56, x.hard_use_expires_seconds);
    }

    /// The layout of the wire image: each field sits at its fixed offset of
    /// the kernel's structure, padding bytes are zero.
    pub proof fn lemma_layout(x: LifetimeConfig)
        ensures
            x.spec_bytes().len() == XFRM_LIFETIME_CONFIG_LEN,
            u64_le_at(x.spec_bytes(), 0) == x.soft_byte_limit,
            u64_le_at(x.spec_bytes(), 8) == x.hard_byte_limit,
            u64_le_at(x.spec_bytes(), 16) == x.soft_packet_limit,
            u64_le_at(x.spec_bytes(), 24) == x.hard_packet_limit,
            u64_le_at(x.spec_bytes(), 32) == x.soft_add_expires_seconds,
            u64_le_at(x.spec_bytes(), 40) == x.hard_add_expires_seconds,
            u64_le_at(x.spec_bytes(), 48) == x.soft_use_expires_seconds,
            u64_le_at(x.spec_bytes(), 56) == x.hard_use_expires_seconds,
    {
        reveal(LifetimeConfig::spec_bytes);
        let b = x.spec_bytes();
        assert(b.subrange(0, 8) =~= u64_le_bytes(x.soft_byte_limit));
        lemma_u64_le_field(b, 0, x.soft_byte_limit);
        assert(b.subrange(8, 16) =~= u64_le_bytes(x.hard_byte_limit));
        lemma_u64_le_field(b, 8, x.hard_byte_limit);
        assert(b.subrange(16, 24) =~= u64_le_bytes(x.soft_packet_limit));
        lemma_u64_le_field(b, 16, x.soft_packet_limit);
        assert(b.subrange(24, 32) =~= u64_le_bytes(x.hard_packet_limit));
        lemma_u64_le_field(b, 24, x.hard_packet_limit);
        assert(b.subrange(32, 40) =~= u64_le_bytes(x.soft_add_expires_seconds));
        lemma_u64_le_field(b, 32, x.soft_add_expires_seconds);
        assert(b.subrange(40, 48) =~= u64_le_bytes(x.hard_add_expires_seconds));
        lemma_u64_le_field(b, 40, x.hard_add_expires_seconds);
        assert(b.subrange(48, 56) =~= u64_le_bytes(x.soft_use_expires_seconds));
        lemma_u64_le_field(b, 48, x.soft_use_expires_seconds);
        assert(b.subrange(56, 64) =~= u64_le_bytes(x.hard_use_expires_seconds));
        lemma_u64_le_field(b, 56, x.hard_use_expires_seconds);

    }

    /// What decoding reads: each field from its fixed offset of `b`.
    pub proof fn lemma_decode_layout(x: LifetimeConfig, b: Seq<u8>)
        requires
            XFRM_LIFETIME_CONFIG_LEN <= b.len(),
            x.decodes(b),
        ensures
            x.soft_byte_limit == u64_le_at(b, 0),
            x.hard_byte_limit == u64_le_at(b, 8),
            x.soft_packet_limit == u64_le_at(b, 16),
            x.hard_packet_limit == u64_le_at(b, 24),
            x.soft_add_expires_seconds == u64_le_at(b, 32),
            x.hard_add_expires_seconds == u64_le_at(b, 40),
            x.soft_use_expires_seconds == u64_le_at(b, 48),
            x.hard_use_expires_seconds == u64_le_at(b, 56),
    {
        reveal(LifetimeConfig::decodes);
    }

    /// Encoding a value decoded from `b` gives back the first `XFRM_LIFETIME_CONFIG_LEN`
    /// bytes of `b`, with the padding bytes set to zero.
    pub proof fn lemma_reencode(x: LifetimeConfig, b: Seq<u8>)
        requires
            XFRM_LIFETIME_CONFIG_LEN <= b.len(),
            x.decodes(b),
        ensures
            x.spec_bytes() == LifetimeConfig::canonical(b),
    {
        reveal(LifetimeConfig::spec_bytes);
        reveal(LifetimeConfig::decodes);
        reveal(LifetimeConfig::canonical);
        lemma_u64_le_bytes_of(b, 0);
        lemma_u64_le_bytes_of(b, 8);
        lemma_u64_le_bytes_of(b, 16);
        lemma_u64_le_bytes_of(b, 24);
        lemma_u64_le_bytes_of(b, 32);
        lemma_u64_le_bytes_of(b, 40);
        lemma_u64_le_bytes_of(b, 48);
        lemma_u64_le_bytes_of(b, 56);
    }

    /// Only the first `XFRM_LIFETIME_CONFIG_LEN` bytes of `b` matter to what it decodes to.
    pub proof fn lemma_decodes_prefix(x: LifetimeConfig, b: Seq<u8>)
        requires
            XFRM_LIFETIME_CONFIG_LEN <= b.len(),
        ensures
            x.decodes(b) == x.decodes(b.subrange(0, XFRM_LIFETIME_CONFIG_LEN as int)),
    {
        reveal(LifetimeConfig::decodes);
        let p = b.subrange(0, XFRM_LIFETIME_CONFIG_LEN as int);
        assert(forall|i: int| 0 <= i < XFRM_LIFETIME_CONFIG_LEN ==> #[trigger] p[i] == b[i]);
    }

    /// At most one value decodes from given bytes.
    pub proof fn lemma_decodes_unique(x: LifetimeConfig, y: LifetimeConfig, b: Seq<u8>)
        requires
            XFRM_LIFETIME_CONFIG_LEN <= b.len(),
            x.decodes(b),
            y.decodes(b),
        ensures
            x == y,
    {
        reveal(LifetimeConfig::decodes);

    }
}

/// The wire image of a `LifetimeConfig`, as laid out in the kernel's structure.
pub struct LifetimeConfigBuffer {
    bytes: Vec<u8>,
}

impl View for LifetimeConfigBuffer {
    type V = Seq<u8>;

    closed spec fn view(&self) -> Seq<u8> {
        self.bytes@
    }
}

impl LifetimeConfigBuffer {
    /// Lays out `value` in its wire image.
    pub fn from(value: &LifetimeConfig) -> (r: LifetimeConfigBuffer)
        ensures
            r@ == value.spec_bytes(),
    {
        let mut bytes: Vec<u8> = Vec::new();
        value.write_to(&mut bytes);
        assert(bytes@ =~= value.spec_bytes());
        LifetimeConfigBuffer { bytes }
    }

    /// The bytes of the image.
    pub fn as_bytes(&self) -> (r: &[u8])
        ensures
            r@ == self@,
    {
        self.bytes.as_slice()
    }
}

/// What a state or policy has used so far.
#[derive(Debug, Clone, Copy, Eq, PartialEq)]
pub struct Lifetime {
    pub bytes: u64,
    pub packets: u64,
    pub add_time: u64,
    pub use_time: u64,
}

pub const XFRM_LIFETIME_LEN: usize = 32;

impl Lifetime {
    /// The first `XFRM_LIFETIME_LEN` bytes of `b` with every padding byte set to zero.
    #[verifier::opaque]
    pub open spec fn canonical(b: Seq<u8>) -> Seq<u8> {
        b.subrange(0, 8)
            + b.subrange(8, 16)
            + b.subrange(16, 24)
            + b.subrange(24, 32)
    }

    /// The wire image: the fields in order, padding as zero bytes.
    #[verifier::opaque]
    pub open spec fn spec_bytes(&self) -> Seq<u8> {
        u64_le_bytes(self.bytes)
            + u64_le_bytes(self.packets)
            + u64_le_bytes(self.add_time)
            + u64_le_bytes(self.use_time)
    }

    /// `self` is what the first `XFRM_LIFETIME_LEN` bytes of `b` describe.
    #[verifier::opaque]
    pub open spec fn decodes(&self, b: Seq<u8>) -> bool {
        &&& self.bytes == u64_le_at(b, 0)
        &&& self.packets == u64_le_at(b, 8)
        &&& self.add_time == u64_le_at(b, 16)
        &&& self.use_time == u64_le_at(b, 24)
    }

    /// `self` holds the values that `default()` gives.
    pub open spec fn is_default(&self) -> bool {
        &&& self.bytes == 0
        &&& self.packets == 0
        &&& self.add_time == 0
        &&& self.use_time == 0
    }

    /// Decodes the first `XFRM_LIFETIME_LEN` bytes of `s`.
    pub fn decode(s: &[u8]) -> (r: Lifetime)
        requires
            XFRM_LIFETIME_LEN <= s.len(),
        ensures
            r.decodes(s@),
    {
        proof {
            reveal(Lifetime::decodes);
        }
        Lifetime {
            bytes: read_u64_le(s, 0),
            packets: read_u64_le(s, 8),
            add_time: read_u64_le(s, 16),
            use_time: read_u64_le(s, 24),
        }
    }

    /// Decodes a `Lifetime` from the start of `payload`; the bytes after the
    /// structure are ignored.
    pub fn parse(payload: &[u8]) -> (r: Result<Lifetime, ParseError>)
        ensures
            payload.len() < XFRM_LIFETIME_LEN ==> r == Err::<Lifetime, ParseError>(
                ParseError::BufferTooSmall { received: payload.len(), expected: XFRM_LIFETIME_LEN },
            ),
            XFRM_LIFETIME_LEN <= payload.len() ==> (r matches Ok(v) && v.decodes(payload@)),
    {
        if payload.len() < XFRM_LIFETIME_LEN {
            Err(ParseError::BufferTooSmall { received: payload.len(), expected: XFRM_LIFETIME_LEN })
        } else {
            Ok(Lifetime::decode(payload))
        }
    }

    /// Appends the wire image to `out`.
    pub fn write_to(&self, out: &mut Vec<u8>)
        ensures
            final(out)@ == old(out)@ + self.spec_bytes(),
    {
        proof {
            reveal(Lifetime::spec_bytes);
        }
        push_u64_le(out, self.bytes);
        push_u64_le(out, self.packets);
        push_u64_le(out, self.add_time);
        push_u64_le(out, self.use_time);
        assert(out@ =~= old(out)@ + self.spec_bytes());
    }

    /// The number of bytes `emit` writes.
    pub fn buffer_len(&self) -> (r: usize)
        ensures
            r == XFRM_LIFETIME_LEN,
            r == self.spec_bytes().len(),
    {
        proof {
            Lifetime::lemma_roundtrip(*self);
        }
        XFRM_LIFETIME_LEN
    }

    /// Writes the wire image over the first `XFRM_LIFETIME_LEN` bytes of `buffer`.
    pub fn emit(&self, buffer: &mut [u8])
        requires
            XFRM_LIFETIME_LEN <= old(buffer)@.len(),
        ensures
            final(buffer)@ == self.spec_bytes() + old(buffer)@.subrange(
                XFRM_LIFETIME_LEN as int,
                old(buffer)@.len() as int,
            ),
    {
        let raw = LifetimeBuffer::from(self);
        proof {
            Lifetime::lemma_roundtrip(*self);
        }
        copy_prefix(buffer, raw.as_bytes());
    }
}

impl Default for Lifetime {
    fn default() -> (r: Lifetime)
        ensures
            r.is_default(),
    {
        Lifetime {
            bytes: 0,
            packets: 0,
            add_time: 0,
            use_time: 0,
        }
    }
}

impl Lifetime {
    /// Decoding the wire image of a `Lifetime` gives back the same value,
    /// and the image is `XFRM_LIFETIME_LEN` bytes long.
    pub proof fn lemma_roundtrip(x: Lifetime)
        ensures
            x.spec_bytes().len() == XFRM_LIFETIME_LEN,
            x.decodes(x.spec_bytes()),
    {
        reveal(Lifetime::spec_bytes);
        reveal(Lifetime::decodes);
        let b = x.spec_bytes();
        assert(b.subrange(0, 8) =~= u64_le_bytes(x.bytes));
        lemma_u64_le_field(b, 0, x.bytes);
        assert(b.subrange(8, 16) =~= u64_le_bytes(x.packets));
        lemma_u64_le_field(b, 8, x.packets);
        assert(b.subrange(16, 24) =~= u64_le_bytes(x.add_time));
        lemma_u64_le_field(b, 16, x.add_time);
        assert(b.subrange(24, 32) =~= u64_le_bytes(x.use_time));
        lemma_u64_le_field(b, 24, x.use_time);
    }

    /// The layout of the wire image: each field sits at its fixed offset of
    /// the kernel's structure, padding bytes are zero.
    pub proof fn lemma_layout(x: Lifetime)
        ensures
            x.spec_bytes().len() == XFRM_LIFETIME_LEN,
            u64_le_at(x.spec_bytes(), 0) == x.bytes,
            u64_le_at(x.spec_bytes(), 8) == x.packets,
            u64_le_at(x.spec_bytes(), 16) == x.add_time,
            u64_le_at(x.spec_bytes(), 24) == x.use_time,
    {
        reveal(Lifetime::spec_bytes);
        let b = x.spec_bytes();
        assert(b.subrange(0, 8) =~= u64_le_bytes(x.bytes));
        lemma_u64_le_field(b, 0, x.bytes);
        assert(b.subrange(8, 16) =~= u64_le_bytes(x.packets));
        lemma_u64_le_field(b, 8, x.packets);
        assert(b.subrange(16, 24) =~= u64_le_bytes(x.add_time));
        lemma_u64_le_field(b, 16, x.add_time);
        assert(b.subrange(24, 32) =~= u64_le_bytes(x.use_time));
        lemma_u64_le_field(b, 24, x.use_time);

    }

    /// What decoding reads: each field from its fixed offset of `b`.
    pub proof fn lemma_decode_layout(x: Lifetime, b: Seq<u8>)
        requires
            XFRM_LIFETIME_LEN <= b.len(),
            x.decodes(b),
        ensures
            x.bytes == u64_le_at(b, 0),
            x.packets == u64_le_at(b, 8),
            x.add_time == u64_le_at(b, 16),
            x.use_time == u64_le_at(b, 24),
    {
        reveal(Lifetime::decodes);
    }

    /// Encoding a value decoded from `b` gives back the first `XFRM_LIFETIME_LEN`
    /// bytes of `b`, with the padding bytes set to zero.
    pub proof fn lemma_reencode(x: Lifetime, b: Seq<u8>)
        requires
            XFRM_LIFETIME_LEN <= b.len(),
            x.decodes(b),
        ensures
            x.spec_bytes() == Lifetime::canonical(b),
    {
        reveal(Lifetime::spec_bytes);
        reveal(Lifetime::decodes);
        reveal(Lifetime::canonical);
        lemma_u64_le_bytes_of(b, 0);
        lemma_u64_le_bytes_of(b, 8);
        lemma_u64_le_bytes_of(b, 16);
        lemma_u64_le_bytes_of(b, 24);
    }

    /// Only the first `XFRM_LIFETIME_LEN` bytes of `b` matter to what it decodes to.
    pub proof fn lemma_decodes_prefix(x: Lifetime, b: Seq<u8>)
        requires
            XFRM_LIFETIME_LEN <= b.len(),
        ensures
            x.decodes(b) == x.decodes(b.subrange(0, XFRM_LIFETIME_LEN as int)),
    {
        reveal(Lifetime::decodes);
        let p = b.subrange(0, XFRM_LIFETIME_LEN as int);
        assert(forall|i: int| 0 <= i < XFRM_LIFETIME_LEN ==> #[trigger] p[i] == b[i]);
    }

    /// At most one value decodes from given bytes.
    pub proof fn lemma_decodes_unique(x: Lifetime, y: Lifetime, b: Seq<u8>)
        requires
            XFRM_LIFETIME_LEN <= b.len(),
            x.decodes(b),
            y.decodes(b),
        ensures
            x == y,
    {
        reveal(Lifetime::decodes);

    }
}

/// The wire image of a `Lifetime`, as laid out in the kernel's structure.
pub struct LifetimeBuffer {
    bytes: Vec<u8>,
}

impl View for LifetimeBuffer {
    type V = Seq<u8>;

    closed spec fn view(&self) -> Seq<u8> {
        self.bytes@
    }
}

impl LifetimeBuffer {
    /// Lays out `value` in its wire image.
    pub fn from(value: &Lifetime) -> (r: LifetimeBuffer)
        ensures
            r@ == value.spec_bytes(),
    {
        let mut bytes: Vec<u8> = Vec::new();
        value.write_to(&mut bytes);
        assert(bytes@ =~= value.spec_bytes());
        LifetimeBuffer { bytes }
    }

    /// The bytes of the image.
    pub fn as_bytes(&self) -> (r: &[u8])
        ensures
            r@ == self@,
    {
        self.bytes.as_slice()
    }
}

} // verus!
