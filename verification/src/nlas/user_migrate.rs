//! The `xfrm_user_migrate` structure.

use vstd::prelude::*;
use vstd::slice::slice_subrange;
use crate::wire::{
    copy_prefix,
    lemma_u16_le_bytes_of,
    lemma_u16_le_field,
    lemma_u32_le_bytes_of,
    lemma_u32_le_field,
    lemma_u8_bytes_of,
    lemma_u8_field,
    push_u16_le,
    push_u32_le,
    read_u16_le,
    read_u32_le,
    u16_le_at,
    u16_le_bytes,
    u32_le_at,
    u32_le_bytes,
    ParseError,
};
use crate::address::{Address};

verus! {

/// One migration of endpoints.
#[derive(Debug, Clone, Copy, Eq, PartialEq)]
pub struct UserMigrate {
    pub old_daddr: Address,
    pub old_saddr: Address,
    pub new_daddr: Address,
    pub new_saddr: Address,
    pub proto: u8,
    pub mode: u8,
    pub reserved: u16,
    pub reqid: u32,
    pub old_family: u16,
    pub new_family: u16,
}

pub const XFRM_USER_MIGRATE_LEN: usize = 76;

impl UserMigrate {
    /// The first `XFRM_USER_MIGRATE_LEN` bytes of `b` with every padding byte set to zero.
    #[verifier::opaque]
    pub open spec fn canonical(b: Seq<u8>) -> Seq<u8> {
        Address::canonical(b.subrange(0, 16))
            + Address::canonical(b.subrange(16, 32))
            + Address::canonical(b.subrange(32, 48))
            + Address::canonical(b.subrange(48, 64))
            + b.subrange(64, 65)
            + b.subrange(65, 66)
            + b.subrange(66, 68)
            + b.subrange(68, 72)
            + b.subrange(72, 74)
            + b.subrange(74, 76)
    }

    /// The wire image: the fields in order, padding as zero bytes.
    #[verifier::opaque]
    pub open spec fn spec_bytes(&self) -> Seq<u8> {
        self.old_daddr.spec_bytes()
            + self.old_saddr.spec_bytes()
            + self.new_daddr.spec_bytes()
            + self.new_saddr.spec_bytes()
            + seq![self.proto]
            + seq![self.mode]
            + u16_le_bytes(self.reserved)
            + u32_le_bytes(self.reqid)
            + u16_le_bytes(self.old_family)
            + u16_le_bytes(self.new_family)
    }

    /// `self` is what the first `XFRM_USER_MIGRATE_LEN` bytes of `b` describe.
    #[verifier::opaque]
    pub open spec fn decodes(&self, b: Seq<u8>) -> bool {
        &&& self.old_daddr.decodes(b.subrange(0, 16))
        &&& self.old_saddr.decodes(b.subrange(16, 32))
        &&& self.new_daddr.decodes(b.subrange(32, 48))
        &&& self.new_saddr.decodes(b.subrange(48, 64))
        &&& self.proto == b[64]
        &&& self.mode == b[65]
        &&& self.reserved == u16_le_at(b, 66)
        &&& self.reqid == u32_le_at(b, 68)
        &&& self.old_family == u16_le_at(b, 72)
        &&& self.new_family == u16_le_at(b, 74)
    }

    /// `self` holds the values that `default()` gives.
    pub open spec fn is_default(&self) -> bool {
        &&& self.old_daddr.is_default()
        &&& self.old_saddr.is_default()
        &&& self.new_daddr.is_default()
        &&& self.new_saddr.is_default()
        &&& self.proto == 0
        &&& self.mode == 0
        &&& self.reserved == 0
        &&& self.reqid == 0
        &&& self.old_family == 0
        &&& self.new_family == 0
    }

    /// Decodes the first `XFRM_USER_MIGRATE_LEN` bytes of `s`.
    pub fn decode(s: &[u8]) -> (r: UserMigrate)
        requires
            XFRM_USER_MIGRATE_LEN <= s.len(),
        ensures
            r.decodes(s@),
    {
        proof {
            reveal(UserMigrate::decodes);
        }
        UserMigrate {
            old_daddr: Address::decode(slice_subrange(s, 0, 16)),
            old_saddr: Address::decode(slice_subrange(s, 16, 32)),
            new_daddr: Address::decode(slice_subrange(s, 32, 48)),
            new_saddr: Address::decode(slice_subrange(s, 48, 64)),
            proto: s[64],
            mode: s[65],
            reserved: read_u16_le(s, 66),
            reqid: read_u32_le(s, 68),
            old_family: read_u16_le(s, 72),
            new_family: read_u16_le(s, 74),
        }
    }

    /// Decodes a `UserMigrate` from the start of `payload`; the bytes after the
    /// structure are ignored.
    pub fn parse(payload: &[u8]) -> (r: Result<UserMigrate, ParseError>)
        ensures
            payload.len() < XFRM_USER_MIGRATE_LEN ==> r == Err::<UserMigrate, ParseError>(
                ParseError::BufferTooSmall { received: payload.len(), expected: XFRM_USER_MIGRATE_LEN },
            ),
            XFRM_USER_MIGRATE_LEN <= payload.len() ==> (r matches Ok(v) && v.decodes(payload@)),
    {
        if payload.len() < XFRM_USER_MIGRATE_LEN {
            Err(ParseError::BufferTooSmall { received: payload.len(), expected: XFRM_USER_MIGRATE_LEN })
        } else {
            Ok(UserMigrate::decode(payload))
        }
    }

    /// Appends the wire image to `out`.
    pub fn write_to(&self, out: &mut Vec<u8>)
        ensures
            final(out)@ == old(out)@ + self.spec_bytes(),
    {
        proof {
            reveal(UserMigrate::spec_bytes);
        }
        self.old_daddr.write_to(out);
        self.old_saddr.write_to(out);
        self.new_daddr.write_to(out);
        self.new_saddr.write_to(out);
        out.push(self.proto);
        out.push(self.mode);
        push_u16_le(out, self.reserved);
        push_u32_le(out, self.reqid);
        push_u16_le(out, self.old_family);
        push_u16_le(out, self.new_family);
        assert(out@ =~= old(out)@ + self.spec_bytes());
    }

    /// The number of bytes `emit` writes.
    pub fn buffer_len(&self) -> (r: usize)
        ensures
            r == XFRM_USER_MIGRATE_LEN,
            r == self.spec_bytes().len(),
    {
        proof {
            UserMigrate::lemma_roundtrip(*self);
        }
        XFRM_USER_MIGRATE_LEN
    }

    /// Writes the wire image over the first `XFRM_USER_MIGRATE_LEN` bytes of `buffer`.
    pub fn emit(&self, buffer: &mut [u8])
        requires
            XFRM_USER_MIGRATE_LEN <= old(buffer)@.len(),
        ensures
            final(buffer)@ == self.spec_bytes() + old(buffer)@.subrange(
                XFRM_USER_MIGRATE_LEN as int,
                old(buffer)@.len() as int,
            ),
    {
        let raw = UserMigrateBuffer::from(self);
        proof {
            UserMigrate::lemma_roundtrip(*self);
        }
        copy_prefix(buffer, raw.as_bytes());
    }
}

impl Default for UserMigrate {
    fn default() -> (r: UserMigrate)
        ensures
            r.is_default(),
    {
        UserMigrate {
            old_daddr: Address::default(),
            old_saddr: Address::default(),
            new_daddr: Address::default(),
            new_saddr: Address::default(),
            proto: 0,
            mode: 0,
            reserved: 0,
            reqid: 0,
            old_family: 0,
            new_family: 0,
        }
    }
}

impl UserMigrate {
    /// Decoding the wire image of a `UserMigrate` gives back the same value,
    /// and the image is `XFRM_USER_MIGRATE_LEN` bytes long.
    pub proof fn lemma_roundtrip(x: UserMigrate)
        ensures
            x.spec_bytes().len() == XFRM_USER_MIGRATE_LEN,
            x.decodes(x.spec_bytes()),
    {
        reveal(UserMigrate::spec_bytes);
        reveal(UserMigrate::decodes);
        let b = x.spec_bytes();
        Address::lemma_roundtrip(x.old_daddr);
        assert(b.subrange(0, 16) =~= x.old_daddr.spec_bytes());
        Address::lemma_roundtrip(x.old_saddr);
        assert(b.subrange(16, 32) =~= x.old_saddr.spec_bytes());
        Address::lemma_roundtrip(x.new_daddr);
        assert(b.subrange(32, 48) =~= x.new_daddr.spec_bytes());
        Address::lemma_roundtrip(x.new_saddr);
        assert(b.subrange(48, 64) =~= x.new_saddr.spec_bytes());
        assert(b.subrange(64, 65) =~= seq![x.proto]);
        lemma_u8_field(b, 64, x.proto);
        assert(b.subrange(65, 66) =~= seq![x.mode]);
        lemma_u8_field(b, 65, x.mode);
        assert(b.subrange(66, 68) =~= u16_le_bytes(x.reserved));
        lemma_u16_le_field(b, 66, x.reserved);
        assert(b.subrange(68, 72) =~= u32_le_bytes(x.reqid));
        lemma_u32_le_field(b, 68, x.reqid);
        assert(b.subrange(72, 74) =~= u16_le_bytes(x.old_family));
        lemma_u16_le_field(b, 72, x.old_family);
        assert(b.subrange(74, 76) =~= u16_le_bytes(x.new_family));
        lemma_u16_le_field(b, 74, x.new_family);
    }

    /// The layout of the wire image: each field sits at its fixed offset of
    /// the kernel's structure, padding bytes are zero.
    pub proof fn lemma_layout(x: UserMigrate)
        ensures
            x.spec_bytes().len() == XFRM_USER_MIGRATE_LEN,
            x.spec_bytes().subrange(0, 16) == x.old_daddr.addr@,
            x.spec_bytes().subrange(16, 32) == x.old_saddr.addr@,
            x.spec_bytes().subrange(32, 48) == x.new_daddr.addr@,
            x.spec_bytes().subrange(48, 64) == x.new_saddr.addr@,
            x.spec_bytes()[64] == x.proto,
            x.spec_bytes()[65] == x.mode,
            u16_le_at(x.spec_bytes(), 66) == x.reserved,
            u32_le_at(x.spec_bytes(), 68) == x.reqid,
            u16_le_at(x.spec_bytes(), 72) == x.old_family,
            u16_le_at(x.spec_bytes(), 74) == x.new_family,
    {
        reveal(UserMigrate::spec_bytes);
        let b = x.spec_bytes();
        Address::lemma_roundtrip(x.old_daddr);
        assert(b.subrange(0, 16) =~= x.old_daddr.spec_bytes());
        Address::lemma_roundtrip(x.old_saddr);
        assert(b.subrange(16, 32) =~= x.old_saddr.spec_bytes());
        Address::lemma_roundtrip(x.new_daddr);
        assert(b.subrange(32, 48) =~= x.new_daddr.spec_bytes());
        Address::lemma_roundtrip(x.new_saddr);
        assert(b.subrange(48, 64) =~= x.new_saddr.spec_bytes());
        assert(b.subrange(64, 65) =~= seq![x.proto]);
        lemma_u8_field(b, 64, x.proto);
        assert(b.subrange(65, 66) =~= seq![x.mode]);
        lemma_u8_field(b, 65, x.mode);
        assert(b.subrange(66, 68) =~= u16_le_bytes(x.reserved));
        lemma_u16_le_field(b, 66, x.reserved);
        assert(b.subrange(68, 72) =~= u32_le_bytes(x.reqid));
        lemma_u32_le_field(b, 68, x.reqid);
        assert(b.subrange(72, 74) =~= u16_le_bytes(x.old_family));
        lemma_u16_le_field(b, 72, x.old_family);
        assert(b.subrange(74, 76) =~= u16_le_bytes(x.new_family));
        lemma_u16_le_field(b, 74, x.new_family);

    }

    /// What decoding reads: each field from its fixed offset of `b`.
    pub proof fn lemma_decode_layout(x: UserMigrate, b: Seq<u8>)
        requires
            XFRM_USER_MIGRATE_LEN <= b.len(),
            x.decodes(b),
        ensures
            x.old_daddr.addr@ == b.subrange(0, 16),
            x.old_saddr.addr@ == b.subrange(16, 32),
            x.new_daddr.addr@ == b.subrange(32, 48),
            x.new_saddr.addr@ == b.subrange(48, 64),
            x.proto == b[64],
            x.mode == b[65],
            x.reserved == u16_le_at(b, 66),
            x.reqid == u32_le_at(b, 68),
            x.old_family == u16_le_at(b, 72),
            x.new_family == u16_le_at(b, 74),
    {
        reveal(UserMigrate::decodes);
    }

    /// Encoding a value decoded from `b` gives back the first `XFRM_USER_MIGRATE_LEN`
    /// bytes of `b`, with the padding bytes set to zero.
    pub proof fn lemma_reencode(x: UserMigrate, b: Seq<u8>)
        requires
            XFRM_USER_MIGRATE_LEN <= b.len(),
            x.decodes(b),
        ensures
            x.spec_bytes() == UserMigrate::canonical(b),
    {
        reveal(UserMigrate::spec_bytes);
        reveal(UserMigrate::decodes);
        reveal(UserMigrate::canonical);
        Address::lemma_reencode(x.old_daddr, b.subrange(0, 16));
        Address::lemma_reencode(x.old_saddr, b.subrange(16, 32));
        Address::lemma_reencode(x.new_daddr, b.subrange(32, 48));
        Address::lemma_reencode(x.new_saddr, b.subrange(48, 64));
        lemma_u8_bytes_of(b, 64);
        lemma_u8_bytes_of(b, 65);
        lemma_u16_le_bytes_of(b, 66);
        lemma_u32_le_bytes_of(b, 68);
        lemma_u16_le_bytes_of(b, 72);
        lemma_u16_le_bytes_of(b, 74);
    }

    /// Only the first `XFRM_USER_MIGRATE_LEN` bytes of `b` matter to what it decodes to.
    pub proof fn lemma_decodes_prefix(x: UserMigrate, b: Seq<u8>)
        requires
            XFRM_USER_MIGRATE_LEN <= b.len(),
        ensures
            x.decodes(b) == x.decodes(b.subrange(0, XFRM_USER_MIGRATE_LEN as int)),
    {
        reveal(UserMigrate::decodes);
        let p = b.subrange(0, XFRM_USER_MIGRATE_LEN as int);
        assert(forall|i: int| 0 <= i < XFRM_USER_MIGRATE_LEN ==> #[trigger] p[i] == b[i]);
        assert(p.subrange(0, 16) =~= b.subrange(0, 16));
        assert(p.subrange(16, 32) =~= b.subrange(16, 32));
        assert(p.subrange(32, 48) =~= b.subrange(32, 48));
        assert(p.subrange(48, 64) =~= b.subrange(48, 64));
    }

    /// At most one value decodes from given bytes.
    pub proof fn lemma_decodes_unique(x: UserMigrate, y: UserMigrate, b: Seq<u8>)
        requires
            XFRM_USER_MIGRATE_LEN <= b.len(),
            x.decodes(b),
            y.decodes(b),
        ensures
            x == y,
    {
        reveal(UserMigrate::decodes);
        Address::lemma_decodes_unique(x.old_daddr, y.old_daddr, b.subrange(0, 16));
        Address::lemma_decodes_unique(x.old_saddr, y.old_saddr, b.subrange(16, 32));
        Address::lemma_decodes_unique(x.new_daddr, y.new_daddr, b.subrange(32, 48));
        Address::lemma_decodes_unique(x.new_saddr, y.new_saddr, b.subrange(48, 64));
    }
}

/// The wire image of a `UserMigrate`, as laid out in the kernel's structure.
pub struct UserMigrateBuffer {
    bytes: Vec<u8>,
}

impl View for UserMigrateBuffer {
    type V = Seq<u8>;

    closed spec fn view(&self) -> Seq<u8> {
        self.bytes@
    }
}

impl UserMigrateBuffer {
    /// Lays out `value` in its wire image.
    pub fn from(value: &UserMigrate) -> (r: UserMigrateBuffer)
        ensures
            r@ == value.spec_bytes(),
    {
        let mut bytes: Vec<u8> = Vec::new();
        value.write_to(&mut bytes);
        assert(bytes@ =~= value.spec_bytes());
        UserMigrateBuffer { bytes }
    }

    /// The bytes of the image.
    pub fn as_bytes(&self) -> (r: &[u8])
        ensures
            r@ == self@,
    {
        self.bytes.as_slice()
    }
}

} // verus!
