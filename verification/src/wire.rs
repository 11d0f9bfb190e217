//! Byte-level building blocks: the little-endian and big-endian images of
//! the integer types, the error type of every decoder, and the helpers
//! that read fields out of a slice and append fields to a byte vector.
//!
//! The kernel lays its XFRM structures out in the byte order of the host.
//! This crate fixes that order as little-endian, the order of the hosts it
//! is meant for, so that every image below is one definite byte sequence;
//! the fields the kernel keeps in network order (SPIs, ports) are
//! big-endian.

use vstd::prelude::*;

verus! {

/// Why a decoder refused its input.
#[derive(Debug, Clone, Copy, PartialEq, Eq)]
pub enum ParseError {
    /// The input is shorter than the structure it should hold.
    BufferTooSmall { received: usize, expected: usize },
    /// The replay bitmap that follows an ESN replay header is not made of
    /// whole 32-bit words.
    InvalidReplayBitmap,
    /// A netlink attribute header is cut short, or its length field is
    /// smaller than a header or larger than what is left of the input.
    InvalidAttribute,
}

// ---------------------------------------------------------------------
// Little-endian and big-endian images of integers.
// ---------------------------------------------------------------------

/// The value of two bytes read least significant first.
pub open spec fn u16_of_le(b0: u8, b1: u8) -> u16 {
    (b0 as int + b1 as int * 0x100) as u16
}

/// The value of two bytes read most significant first.
pub open spec fn u16_of_be(b0: u8, b1: u8) -> u16 {
    u16_of_le(b1, b0)
}

/// The value of four bytes read least significant first.
pub open spec fn u32_of_le(b0: u8, b1: u8, b2: u8, b3: u8) -> u32 {
    (b0 as int + b1 as int * 0x100 + b2 as int * 0x1_0000 + b3 as int * 0x100_0000) as u32
}

/// The value of four bytes read most significant first.
pub open spec fn u32_of_be(b0: u8, b1: u8, b2: u8, b3: u8) -> u32 {
    u32_of_le(b3, b2, b1, b0)
}

/// The value of eight bytes read least significant first.
pub open spec fn u64_of_le(b: Seq<u8>) -> u64 {
    (u32_of_le(b[0], b[1], b[2], b[3]) as int + u32_of_le(b[4], b[5], b[6], b[7]) as int
        * 0x1_0000_0000) as u64
}

/// The two bytes of `v`, least significant first.
pub open spec fn u16_le_bytes(v: u16) -> Seq<u8> {
    seq![(v % 0x100) as u8, (v / 0x100) as u8]
}

/// The two bytes of `v`, most significant first.
pub open spec fn u16_be_bytes(v: u16) -> Seq<u8> {
    seq![(v / 0x100) as u8, (v % 0x100) as u8]
}

/// The four bytes of `v`, least significant first.
pub open spec fn u32_le_bytes(v: u32) -> Seq<u8> {
    seq![
        (v % 0x100) as u8,
        ((v / 0x100) % 0x100) as u8,
        ((v / 0x1_0000) % 0x100) as u8,
        (v / 0x100_0000) as u8,
    ]
}

/// The four bytes of `v`, most significant first.
pub open spec fn u32_be_bytes(v: u32) -> Seq<u8> {
    seq![
        (v / 0x100_0000) as u8,
        ((v / 0x1_0000) % 0x100) as u8,
        ((v / 0x100) % 0x100) as u8,
        (v % 0x100) as u8,
    ]
}

/// The eight bytes of `v`, least significant first.
pub open spec fn u64_le_bytes(v: u64) -> Seq<u8> {
    u32_le_bytes((v % 0x1_0000_0000) as u32) + u32_le_bytes((v / 0x1_0000_0000) as u32)
}

/// A 16-bit little-endian field of `s` at offset `k`.
pub open spec fn u16_le_at(s: Seq<u8>, k: int) -> u16 {
    u16_of_le(s[k], s[k + 1])
}

/// A 16-bit big-endian field of `s` at offset `k`.
pub open spec fn u16_be_at(s: Seq<u8>, k: int) -> u16 {
    u16_of_be(s[k], s[k + 1])
}

/// A 32-bit little-endian field of `s` at offset `k`.
pub open spec fn u32_le_at(s: Seq<u8>, k: int) -> u32 {
    u32_of_le(s[k], s[k + 1], s[k + 2], s[k + 3])
}

/// A 32-bit big-endian field of `s` at offset `k`.
pub open spec fn u32_be_at(s: Seq<u8>, k: int) -> u32 {
    u32_of_be(s[k], s[k + 1], s[k + 2], s[k + 3])
}

/// A 64-bit little-endian field of `s` at offset `k`.
pub open spec fn u64_le_at(s: Seq<u8>, k: int) -> u64 {
    u64_of_le(s.subrange(k, k + 8))
}

/// A signed 32-bit little-endian (two's complement) field of `s` at offset `k`.
pub open spec fn i32_le_at(s: Seq<u8>, k: int) -> i32 {
    u32_le_at(s, k) as i32
}

/// The four bytes of a signed 32-bit value, least significant first.
pub open spec fn i32_le_bytes(v: i32) -> Seq<u8> {
    u32_le_bytes(v as u32)
}

/// The little-endian images of `s`, one after the other.
pub open spec fn u32_words_le(s: Seq<u32>) -> Seq<u8>
    decreases s.len(),
{
    if s.len() == 0 {
        Seq::empty()
    } else {
        u32_words_le(s.drop_last()) + u32_le_bytes(s.last())
    }
}

/// `n` zero bytes.
pub open spec fn zeros(n: nat) -> Seq<u8> {
    Seq::new(n, |i: int| 0u8)
}

// ---------------------------------------------------------------------
// Each image reads back as the value it was made from.
// ---------------------------------------------------------------------

pub proof fn lemma_u16_le(v: u16)
    ensures
        u16_le_bytes(v).len() == 2,
        u16_le_at(u16_le_bytes(v), 0) == v,
{
}

pub proof fn lemma_u16_be(v: u16)
    ensures
        u16_be_bytes(v).len() == 2,
        u16_be_at(u16_be_bytes(v), 0) == v,
{
}

pub proof fn lemma_u32_le(v: u32)
    ensures
        u32_le_bytes(v).len() == 4,
        u32_le_at(u32_le_bytes(v), 0) == v,
{
}

pub proof fn lemma_u32_be(v: u32)
    ensures
        u32_be_bytes(v).len() == 4,
        u32_be_at(u32_be_bytes(v), 0) == v,
{
}

pub proof fn lemma_u64_le(v: u64)
    ensures
        u64_le_bytes(v).len() == 8,
        u64_le_at(u64_le_bytes(v), 0) == v,
{
    let lo = (v % 0x1_0000_0000) as u32;
    let hi = (v / 0x1_0000_0000) as u32;
    lemma_u32_le(lo);
    lemma_u32_le(hi);
    let b = u64_le_bytes(v);
    assert(b.subrange(0, 8) =~= b);
    assert(u32_of_le(b[0], b[1], b[2], b[3]) == lo);
    assert(u32_of_le(b[4], b[5], b[6], b[7]) == hi);
}

pub proof fn lemma_i32_le(v: i32)
    ensures
        i32_le_bytes(v).len() == 4,
        i32_le_at(i32_le_bytes(v), 0) == v,
{
    lemma_u32_le(v as u32);
    assert(((v as u32) as i32) == v) by (bit_vector);
}

/// The images of `s` take four bytes per word, and word `i` is the image at
/// offset `4 * i`.
pub proof fn lemma_u32_words_le(s: Seq<u32>)
    ensures
        u32_words_le(s).len() == 4 * s.len(),
        forall|i: int|
            0 <= i < s.len() ==> #[trigger] u32_words_le(s).subrange(4 * i, 4 * i + 4)
                == u32_le_bytes(s[i]),
    decreases s.len(),
{
    if s.len() > 0 {
        let p = s.drop_last();
        lemma_u32_words_le(p);
        let w = u32_words_le(s);
        assert forall|i: int| 0 <= i < s.len() implies #[trigger] w.subrange(4 * i, 4 * i + 4)
            == u32_le_bytes(s[i]) by {
            if i < p.len() {
                assert(u32_words_le(p).subrange(4 * i, 4 * i + 4) == u32_le_bytes(p[i]));
                assert(w.subrange(4 * i, 4 * i + 4) =~= u32_words_le(p).subrange(4 * i, 4 * i + 4));
            } else {
                assert(w.subrange(4 * i, 4 * i + 4) =~= u32_le_bytes(s.last()));
            }
        }
    }
}

/// Overwriting the first bytes of `r` in `a + r` by `w` gives `a + w` and
/// the rest of `r`.
pub proof fn lemma_overwrite(a: Seq<u8>, r: Seq<u8>, w: Seq<u8>)
    requires
        w.len() <= r.len(),
    ensures
        (a + r).subrange(0, a.len() as int) + w + (a + r).subrange(
            (a.len() + w.len()) as int,
            (a.len() + r.len()) as int,
        ) == a + w + r.subrange(w.len() as int, r.len() as int),
{
    assert((a + r).subrange(0, a.len() as int) =~= a);
    assert((a + r).subrange((a.len() + w.len()) as int, (a.len() + r.len()) as int) =~= r.subrange(
        w.len() as int,
        r.len() as int,
    ));
}

// ---------------------------------------------------------------------
// A field whose bytes are an image reads back as the imaged value.
// ---------------------------------------------------------------------

pub proof fn lemma_u8_field(b: Seq<u8>, k: int, v: u8)
    requires
        0 <= k,
        k + 1 <= b.len(),
        b.subrange(k, k + 1) == seq![v],
    ensures
        b[k] == v,
{
    assert(b.subrange(k, k + 1)[0] == b[k]);
}

pub proof fn lemma_u16_le_field(b: Seq<u8>, k: int, v: u16)
    requires
        0 <= k,
        k + 2 <= b.len(),
        b.subrange(k, k + 2) == u16_le_bytes(v),
    ensures
        u16_le_at(b, k) == v,
{
    lemma_u16_le(v);
    let w = b.subrange(k, k + 2);
    assert(w[0] == b[k] && w[1] == b[k + 1]);
}

pub proof fn lemma_u16_be_field(b: Seq<u8>, k: int, v: u16)
    requires
        0 <= k,
        k + 2 <= b.len(),
        b.subrange(k, k + 2) == u16_be_bytes(v),
    ensures
        u16_be_at(b, k) == v,
{
    lemma_u16_be(v);
    let w = b.subrange(k, k + 2);
    assert(w[0] == b[k] && w[1] == b[k + 1]);
}

pub proof fn lemma_u32_le_field(b: Seq<u8>, k: int, v: u32)
    requires
        0 <= k,
        k + 4 <= b.len(),
        b.subrange(k, k + 4) == u32_le_bytes(v),
    ensures
        u32_le_at(b, k) == v,
{
    lemma_u32_le(v);
    let w = b.subrange(k, k + 4);
    assert(w[0] == b[k] && w[1] == b[k + 1] && w[2] == b[k + 2] && w[3] == b[k + 3]);
}

pub proof fn lemma_u32_be_field(b: Seq<u8>, k: int, v: u32)
    requires
        0 <= k,
        k + 4 <= b.len(),
        b.subrange(k, k + 4) == u32_be_bytes(v),
    ensures
        u32_be_at(b, k) == v,
{
    lemma_u32_be(v);
    let w = b.subrange(k, k + 4);
    assert(w[0] == b[k] && w[1] == b[k + 1] && w[2] == b[k + 2] && w[3] == b[k + 3]);
}

pub proof fn lemma_u64_le_field(b: Seq<u8>, k: int, v: u64)
    requires
        0 <= k,
        k + 8 <= b.len(),
        b.subrange(k, k + 8) == u64_le_bytes(v),
    ensures
        u64_le_at(b, k) == v,
{
    lemma_u64_le(v);
    assert(u64_le_bytes(v).subrange(0, 8) =~= u64_le_bytes(v));
}

pub proof fn lemma_i32_le_field(b: Seq<u8>, k: int, v: i32)
    requires
        0 <= k,
        k + 4 <= b.len(),
        b.subrange(k, k + 4) == i32_le_bytes(v),
    ensures
        i32_le_at(b, k) == v,
{
    lemma_u32_le_field(b, k, v as u32);
    assert(((v as u32) as i32) == v) by (bit_vector);
}

// ---------------------------------------------------------------------
// The image of a value read from bytes is those bytes.
// ---------------------------------------------------------------------

pub proof fn lemma_u8_bytes_of(b: Seq<u8>, k: int)
    requires
        0 <= k,
        k + 1 <= b.len(),
    ensures
        seq![b[k]] == b.subrange(k, k + 1),
{
    assert(seq![b[k]] =~= b.subrange(k, k + 1));
}

pub proof fn lemma_u16_le_bytes_of(b: Seq<u8>, k: int)
    requires
        0 <= k,
        k + 2 <= b.len(),
    ensures
        u16_le_bytes(u16_le_at(b, k)) == b.subrange(k, k + 2),
{
    assert(u16_le_bytes(u16_le_at(b, k)) =~= b.subrange(k, k + 2));
}

pub proof fn lemma_u16_be_bytes_of(b: Seq<u8>, k: int)
    requires
        0 <= k,
        k + 2 <= b.len(),
    ensures
        u16_be_bytes(u16_be_at(b, k)) == b.subrange(k, k + 2),
{
    assert(u16_be_bytes(u16_be_at(b, k)) =~= b.subrange(k, k + 2));
}

/// The bytes of a 32-bit value put together from four bytes are those four
/// bytes.
proof fn lemma_u32_split(b0: u8, b1: u8, b2: u8, b3: u8)
    ensures
        ({
            let v = (b0 as int + b1 as int * 0x100 + b2 as int * 0x1_0000 + b3 as int
                * 0x100_0000) as u32;
            &&& (v % 0x100) as u8 == b0
            &&& ((v / 0x100) % 0x100) as u8 == b1
            &&& ((v / 0x1_0000) % 0x100) as u8 == b2
            &&& (v / 0x100_0000) as u8 == b3
        }),
{
    let v = (b0 as int + b1 as int * 0x100 + b2 as int * 0x1_0000 + b3 as int * 0x100_0000) as u32;
    assert(v == b0 as u32 + b1 as u32 * 0x100 + b2 as u32 * 0x1_0000 + b3 as u32 * 0x100_0000);
    assert({
        let w = b0 as u32 + b1 as u32 * 0x100 + b2 as u32 * 0x1_0000 + b3 as u32 * 0x100_0000;
        &&& (w % 0x100) as u8 == b0
        &&& ((w / 0x100) % 0x100) as u8 == b1
        &&& ((w / 0x1_0000) % 0x100) as u8 == b2
        &&& (w / 0x100_0000) as u8 == b3
    }) by (bit_vector);
}

pub proof fn lemma_u32_le_bytes_of(b: Seq<u8>, k: int)
    requires
        0 <= k,
        k + 4 <= b.len(),
    ensures
        u32_le_bytes(u32_le_at(b, k)) == b.subrange(k, k + 4),
{
    lemma_u32_split(b[k], b[k + 1], b[k + 2], b[k + 3]);
    assert(u32_le_bytes(u32_le_at(b, k)) =~= b.subrange(k, k + 4));
}

pub proof fn lemma_u32_be_bytes_of(b: Seq<u8>, k: int)
    requires
        0 <= k,
        k + 4 <= b.len(),
    ensures
        u32_be_bytes(u32_be_at(b, k)) == b.subrange(k, k + 4),
{
    lemma_u32_split(b[k + 3], b[k + 2], b[k + 1], b[k]);
    assert(u32_be_bytes(u32_be_at(b, k)) =~= b.subrange(k, k + 4));
}

pub proof fn lemma_u64_le_bytes_of(b: Seq<u8>, k: int)
    requires
        0 <= k,
        k + 8 <= b.len(),
    ensures
        u64_le_bytes(u64_le_at(b, k)) == b.subrange(k, k + 8),
{
    let w = b.subrange(k, k + 8);
    let lo = u32_of_le(w[0], w[1], w[2], w[3]);
    let hi = u32_of_le(w[4], w[5], w[6], w[7]);
    let v = u64_le_at(b, k);
    assert(v == lo as int + hi as int * 0x1_0000_0000);
    assert((v % 0x1_0000_0000) as u32 == lo);
    assert((v / 0x1_0000_0000) as u32 == hi);
    lemma_u32_le_bytes_of(w, 0);
    lemma_u32_le_bytes_of(w, 4);
    assert(u64_le_bytes(v) =~= w);
}

pub proof fn lemma_i32_le_bytes_of(b: Seq<u8>, k: int)
    requires
        0 <= k,
        k + 4 <= b.len(),
    ensures
        i32_le_bytes(i32_le_at(b, k)) == b.subrange(k, k + 4),
{
    let u = u32_le_at(b, k);
    assert(((u as i32) as u32) == u) by (bit_vector);
    lemma_u32_le_bytes_of(b, k);
}

// ---------------------------------------------------------------------
// Reading fields out of a slice.
// ---------------------------------------------------------------------

pub fn read_u16_le(s: &[u8], k: usize) -> (r: u16)
    requires
        k + 2 <= s.len(),
    ensures
        r == u16_le_at(s@, k as int),
{
    s[k] as u16 + (s[k + 1] as u16) * 0x100
}

pub fn read_u16_be(s: &[u8], k: usize) -> (r: u16)
    requires
        k + 2 <= s.len(),
    ensures
        r == u16_be_at(s@, k as int),
{
    s[k + 1] as u16 + (s[k] as u16) * 0x100
}

pub fn read_u32_le(s: &[u8], k: usize) -> (r: u32)
    requires
        k + 4 <= s.len(),
    ensures
        r == u32_le_at(s@, k as int),
{
    s[k] as u32 + (s[k + 1] as u32) * 0x100 + (s[k + 2] as u32) * 0x1_0000 + (s[k + 3] as u32)
        * 0x100_0000
}

pub fn read_u32_be(s: &[u8], k: usize) -> (r: u32)
    requires
        k + 4 <= s.len(),
    ensures
        r == u32_be_at(s@, k as int),
{
    s[k + 3] as u32 + (s[k + 2] as u32) * 0x100 + (s[k + 1] as u32) * 0x1_0000 + (s[k] as u32)
        * 0x100_0000
}

pub fn read_u64_le(s: &[u8], k: usize) -> (r: u64)
    requires
        k + 8 <= s.len(),
    ensures
        r == u64_le_at(s@, k as int),
{
    let lo = read_u32_le(s, k);
    let hi = read_u32_le(s, k + 4);
    let ghost w = s@.subrange(k as int, k + 8);
    assert(u32_of_le(w[0], w[1], w[2], w[3]) == lo);
    assert(u32_of_le(w[4], w[5], w[6], w[7]) == hi);
    lo as u64 + (hi as u64) * 0x1_0000_0000
}

pub fn read_i32_le(s: &[u8], k: usize) -> (r: i32)
    requires
        k + 4 <= s.len(),
    ensures
        r == i32_le_at(s@, k as int),
{
    read_u32_le(s, k) as i32
}

// ---------------------------------------------------------------------
// Appending fields to a byte vector.
// ---------------------------------------------------------------------

pub fn push_u16_le(out: &mut Vec<u8>, v: u16)
    ensures
        final(out)@ == old(out)@ + u16_le_bytes(v),
{
    out.push((v % 0x100) as u8);
    out.push((v / 0x100) as u8);
}

pub fn push_u16_be(out: &mut Vec<u8>, v: u16)
    ensures
        final(out)@ == old(out)@ + u16_be_bytes(v),
{
    out.push((v / 0x100) as u8);
    out.push((v % 0x100) as u8);
}

pub fn push_u32_le(out: &mut Vec<u8>, v: u32)
    ensures
        final(out)@ == old(out)@ + u32_le_bytes(v),
{
    out.push((v % 0x100) as u8);
    out.push(((v / 0x100) % 0x100) as u8);
    out.push(((v / 0x1_0000) % 0x100) as u8);
    out.push((v / 0x100_0000) as u8);
}

pub fn push_u32_be(out: &mut Vec<u8>, v: u32)
    ensures
        final(out)@ == old(out)@ + u32_be_bytes(v),
{
    out.push((v / 0x100_0000) as u8);
    out.push(((v / 0x1_0000) % 0x100) as u8);
    out.push(((v / 0x100) % 0x100) as u8);
    out.push((v % 0x100) as u8);
}

pub fn push_u64_le(out: &mut Vec<u8>, v: u64)
    ensures
        final(out)@ == old(out)@ + u64_le_bytes(v),
{
    push_u32_le(out, (v % 0x1_0000_0000) as u32);
    push_u32_le(out, (v / 0x1_0000_0000) as u32);
}

pub fn push_i32_le(out: &mut Vec<u8>, v: i32)
    ensures
        final(out)@ == old(out)@ + i32_le_bytes(v),
{
    push_u32_le(out, v as u32);
}

pub fn push_zeros(out: &mut Vec<u8>, n: usize)
    ensures
        final(out)@ == old(out)@ + zeros(n as nat),
{
    let mut i: usize = 0;
    while i < n
        invariant
            i <= n,
            out@ == old(out)@ + zeros(i as nat),
        decreases n - i,
    {
        out.push(0u8);
        i = i + 1;
        assert(out@ =~= old(out)@ + zeros(i as nat));
    }
}

pub fn push_slice(out: &mut Vec<u8>, src: &[u8])
    ensures
        final(out)@ == old(out)@ + src@,
{
    let mut i: usize = 0;
    while i < src.len()
        invariant
            i <= src@.len(),
            out@ == old(out)@ + src@.subrange(0, i as int),
        decreases src@.len() - i,
    {
        out.push(src[i]);
        i = i + 1;
        assert(out@ =~= old(out)@ + src@.subrange(0, i as int));
    }
    assert(src@.subrange(0, src@.len() as int) =~= src@);
}

/// A fresh array holding the first `N` bytes of `s`.
pub fn array_from_prefix<const N: usize>(s: &[u8]) -> (r: [u8; N])
    requires
        N <= s.len(),
    ensures
        r@ == s@.subrange(0, N as int),
{
    let mut a = [0u8; N];
    let mut i: usize = 0;
    while i < N
        invariant
            i <= N,
            N <= s@.len(),
            a@.len() == N,
            forall|j: int| 0 <= j < i ==> a@[j] == s@[j],
        decreases N - i,
    {
        a[i] = s[i];
        i = i + 1;
    }
    assert(a@ =~= s@.subrange(0, N as int));
    a
}

/// Copies `src` over the first `src.len()` bytes of `dst`, leaving the rest
/// of `dst` as it was.
pub fn copy_prefix(dst: &mut [u8], src: &[u8])
    requires
        src@.len() <= old(dst)@.len(),
    ensures
        final(dst)@ == src@ + old(dst)@.subrange(src@.len() as int, old(dst)@.len() as int),
{
    copy_at(dst, 0, src);
    assert(old(dst)@.subrange(0, 0) + src@ =~= src@);
}

/// Copies `src` over `dst[off..off + src.len()]`, leaving the rest of `dst`
/// as it was.
pub fn copy_at(dst: &mut [u8], off: usize, src: &[u8])
    requires
        off + src@.len() <= old(dst)@.len(),
    ensures
        final(dst)@ == old(dst)@.subrange(0, off as int) + src@ + old(dst)@.subrange(
            off + src@.len(),
            old(dst)@.len() as int,
        ),
{
    let mut i: usize = 0;
    while i < src.len()
        invariant
            i <= src@.len(),
            off + src@.len() <= old(dst)@.len(),
            dst@.len() == old(dst)@.len(),
            dst.len() == old(dst)@.len(),
            forall|j: int| 0 <= j < off ==> dst@[j] == old(dst)@[j],
            forall|j: int| 0 <= j < i ==> dst@[off + j] == src@[j],
            forall|j: int| off + i <= j < dst@.len() ==> dst@[j] == old(dst)@[j],
        decreases src@.len() - i,
    {
        dst[off + i] = src[i];
        i = i + 1;
    }
    assert(dst@ =~= old(dst)@.subrange(0, off as int) + src@ + old(dst)@.subrange(
        off + src@.len(),
        old(dst)@.len() as int,
    ));
}

} // verus!
