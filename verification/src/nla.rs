//! Lists of netlink attributes, as they follow the fixed header of an XFRM
//! message. Each attribute is a 2-byte length (header included, padding
//! not), a 2-byte type, the value, and zero padding up to a multiple of
//! four bytes. An attribute is kept as its type (flag bits included) and
//! its value bytes.

use vstd::prelude::*;
use vstd::slice::slice_subrange;
use crate::netlink_ints::emit_u16_le_at;
use crate::wire::{
    copy_at, lemma_overwrite, lemma_u16_le_field, push_slice, u16_le_at, u16_le_bytes, zeros,
    ParseError,
};

verus! {

/// The size of an attribute header.
pub const NLA_HEADER_SIZE: usize = 4;

/// The largest value an attribute can carry: its length, header included,
/// must fit the 16-bit length field.
pub const NLA_MAX_VALUE_LEN: usize = 65531;

/// A netlink attribute: its type, with the nested and network-byte-order
/// flag bits, and its value.
#[derive(Debug, Clone, Eq, PartialEq)]
pub struct Nla {
    pub kind: u16,
    pub value: Vec<u8>,
}

/// An attribute as a value: its type and its value bytes.
pub type NlaModel = (u16, Seq<u8>);

/// The attributes of `v`, as values.
pub open spec fn nlas_model(v: Seq<Nla>) -> Seq<NlaModel> {
    Seq::new(v.len(), |i: int| (v[i].kind, v[i].value@))
}

/// `n` rounded up to a multiple of four.
pub open spec fn nla_align(n: int) -> int {
    (n + 3) / 4 * 4
}

/// Every attribute value fits the 16-bit length field.
pub open spec fn nlas_fit(s: Seq<NlaModel>) -> bool {
    forall|i: int| 0 <= i < s.len() ==> #[trigger] s[i].1.len() <= NLA_MAX_VALUE_LEN
}

/// The wire image of one attribute.
pub open spec fn nla_bytes(a: NlaModel) -> Seq<u8> {
    u16_le_bytes((a.1.len() + NLA_HEADER_SIZE) as u16) + u16_le_bytes(a.0) + a.1 + zeros(
        (nla_align(a.1.len() as int) - a.1.len()) as nat,
    )
}

/// The wire image of a list of attributes: each image after the other.
pub open spec fn nlas_bytes(s: Seq<NlaModel>) -> Seq<u8>
    decreases s.len(),
{
    if s.len() == 0 {
        Seq::empty()
    } else {
        nla_bytes(s[0]) + nlas_bytes(s.drop_first())
    }
}

/// The attributes that `b` holds, or `None` where an attribute header is
/// cut short or its length field is smaller than a header or larger than
/// what is left. After each attribute the next one starts at the next
/// multiple of four; the list ends where the bytes do.
pub open spec fn nlas_decode(b: Seq<u8>) -> Option<Seq<NlaModel>>
    decreases b.len(),
{
    if b.len() == 0 {
        Some(Seq::empty())
    } else if b.len() < NLA_HEADER_SIZE {
        None
    } else {
        let l = u16_le_at(b, 0) as int;
        if l < NLA_HEADER_SIZE || l > b.len() {
            None
        } else {
            let item = (u16_le_at(b, 2), b.subrange(NLA_HEADER_SIZE as int, l));
            let adv = nla_align(l);
            if adv >= b.len() {
                Some(seq![item])
            } else {
                match nlas_decode(b.subrange(adv, b.len() as int)) {
                    Some(rest) => Some(seq![item] + rest),
                    None => None,
                }
            }
        }
    }
}

/// Prepends `p` to a decoded list, keeping a failure a failure.
pub open spec fn prepend(p: Seq<NlaModel>, o: Option<Seq<NlaModel>>) -> Option<Seq<NlaModel>> {
    match o {
        Some(r) => Some(p + r),
        None => None,
    }
}

/// The image of one attribute is its padded length plus the header.
pub proof fn lemma_nla_bytes_len(a: NlaModel)
    ensures
        nla_bytes(a).len() == NLA_HEADER_SIZE + nla_align(a.1.len() as int),
        nla_align(a.1.len() as int) >= a.1.len(),
        nla_align(a.1.len() as int) % 4 == 0,
{
}

/// Appending an attribute appends its image.
pub proof fn lemma_nlas_bytes_push(s: Seq<NlaModel>, a: NlaModel)
    ensures
        nlas_bytes(s.push(a)) == nlas_bytes(s) + nla_bytes(a),
    decreases s.len(),
{
    if s.len() == 0 {
        assert(s.push(a).drop_first() =~= Seq::<NlaModel>::empty());
        reveal_with_fuel(nlas_bytes, 2);
        assert(nlas_bytes(s.push(a)) =~= nla_bytes(a));
    } else {
        assert(s.push(a).drop_first() =~= s.drop_first().push(a));
        lemma_nlas_bytes_push(s.drop_first(), a);
        assert(s.push(a)[0] == s[0]);
        assert(nlas_bytes(s.push(a)) =~= nlas_bytes(s) + nla_bytes(a));
    }
}

/// Decoding the image of a list of attributes gives back the list, as long
/// as every value fits the length field.
pub proof fn lemma_nlas_roundtrip(s: Seq<NlaModel>)
    requires
        nlas_fit(s),
    ensures
        nlas_decode(nlas_bytes(s)) == Some(s),
    decreases s.len(),
{
    if s.len() == 0 {
        assert(nlas_bytes(s) =~= Seq::<u8>::empty());
    } else {
        let a = s[0];
        let r = s.drop_first();
        let h = nla_bytes(a);
        let t = nlas_bytes(r);
        let b = nlas_bytes(s);
        assert(nlas_fit(r)) by {
            assert forall|i: int| 0 <= i < r.len() implies #[trigger] r[i].1.len()
                <= NLA_MAX_VALUE_LEN by {
                assert(r[i] == s[i + 1]);
            }
        }
        assert(a.1.len() <= NLA_MAX_VALUE_LEN) by {
            assert(s[0] == a);
        }
        lemma_nlas_roundtrip(r);
        lemma_nla_layout(a);
        assert(b == h + t);
        let l = (a.1.len() + NLA_HEADER_SIZE) as u16;
        assert(b[0] == h[0] && b[1] == h[1] && b[2] == h[2] && b[3] == h[3]);
        assert(u16_le_at(b, 0) == l);
        assert(u16_le_at(b, 2) == a.0);
        assert(b.subrange(NLA_HEADER_SIZE as int, l as int) =~= h.subrange(4, 4 + a.1.len() as int));
        let adv = nla_align(l as int);
        assert(adv == h.len());
        if adv >= b.len() {
            assert(t.len() == 0);
            assert(t =~= Seq::<u8>::empty());
            if r.len() > 0 {
                lemma_nla_bytes_len(r[0]);
                assert(t.len() > 0);
            }
            assert(r =~= Seq::<NlaModel>::empty());
            assert(s =~= seq![a]);
        } else {
            assert(b.subrange(adv, b.len() as int) =~= t);
            assert(s =~= seq![a] + r);
        }
    }
}

/// The wire image of an attribute whose value fits the length field: the
/// little-endian length (header included, padding not) at offset 0, the
/// little-endian type at offset 2, the value from offset 4, then zeros up to
/// the next multiple of four.
pub proof fn lemma_nla_layout(a: NlaModel)
    requires
        a.1.len() <= NLA_MAX_VALUE_LEN,
    ensures
        nla_bytes(a).len() == NLA_HEADER_SIZE + nla_align(a.1.len() as int),
        u16_le_at(nla_bytes(a), 0) == a.1.len() + NLA_HEADER_SIZE,
        u16_le_at(nla_bytes(a), 2) == a.0,
        nla_bytes(a).subrange(4, 4 + a.1.len() as int) == a.1,
        nla_bytes(a).subrange(4 + a.1.len() as int, nla_bytes(a).len() as int) == zeros(
            (nla_align(a.1.len() as int) - a.1.len()) as nat,
        ),
{
    let b = nla_bytes(a);
    let n = a.1.len();
    let l = (n + NLA_HEADER_SIZE) as u16;
    lemma_nla_bytes_len(a);
    assert(b.subrange(0, 2) =~= u16_le_bytes(l));
    lemma_u16_le_field(b, 0, l);
    assert(b.subrange(2, 4) =~= u16_le_bytes(a.0));
    lemma_u16_le_field(b, 2, a.0);
    assert(b.subrange(4, 4 + n as int) =~= a.1);
    assert(b.subrange(4 + n as int, b.len() as int) =~= zeros((nla_align(n as int) - n) as nat));
}

/// The first attribute decoded from `b` is the type read at offset 2 and
/// the value between offset 4 and the length read at offset 0; the next
/// attribute starts at that length rounded up to a multiple of four.
pub proof fn lemma_nlas_decode_first(b: Seq<u8>)
    requires
        nlas_decode(b) matches Some(s) && s.len() > 0,
    ensures
        NLA_HEADER_SIZE <= u16_le_at(b, 0) <= b.len(),
        nlas_decode(b).unwrap()[0] == (u16_le_at(b, 2), b.subrange(4, u16_le_at(b, 0) as int)),
        nla_align(u16_le_at(b, 0) as int) < b.len() ==> nlas_decode(b).unwrap().drop_first()
            == nlas_decode(b.subrange(nla_align(u16_le_at(b, 0) as int), b.len() as int)).unwrap(),
        nla_align(u16_le_at(b, 0) as int) >= b.len() ==> nlas_decode(b).unwrap().len() == 1,
{
    let l = u16_le_at(b, 0) as int;
    let item = (u16_le_at(b, 2), b.subrange(NLA_HEADER_SIZE as int, l));
    if nla_align(l) < b.len() {
        let rest = nlas_decode(b.subrange(nla_align(l), b.len() as int)).unwrap();
        assert((seq![item] + rest).drop_first() =~= rest);
    }
}

/// Decodes the list of attributes that fills `buf`.
pub fn parse_nlas(buf: &[u8]) -> (r: Result<Vec<Nla>, ParseError>)
    ensures
        match nlas_decode(buf@) {
            Some(s) => r matches Ok(v) && nlas_model(v@) == s,
            None => r == Err::<Vec<Nla>, ParseError>(ParseError::InvalidAttribute),
        },
{
    let mut nlas: Vec<Nla> = Vec::new();
    let mut pos: usize = 0;
    assert(buf@.subrange(0, buf@.len() as int) =~= buf@);
    assert(nlas_model(nlas@) =~= Seq::<NlaModel>::empty());
    while pos < buf.len()
        invariant
            pos <= buf@.len(),
            nlas_decode(buf@) == prepend(
                nlas_model(nlas@),
                nlas_decode(buf@.subrange(pos as int, buf@.len() as int)),
            ),
        decreases buf@.len() - pos,
    {
        let ghost b = buf@.subrange(pos as int, buf@.len() as int);
        let remaining = buf.len() - pos;
        if remaining < NLA_HEADER_SIZE {
            return Err(ParseError::InvalidAttribute);
        }
        let length = match netlink_packet_core::parse_u16_le(slice_subrange(buf, pos, pos + 2)) {
            Ok(v) => v,
            Err(_) => 0,
        };
        let kind = match netlink_packet_core::parse_u16_le(slice_subrange(buf, pos + 2, pos + 4)) {
            Ok(v) => v,
            Err(_) => 0,
        };
        assert(length == u16_le_at(b, 0));
        assert(kind == u16_le_at(b, 2));
        let l = length as usize;
        if l < NLA_HEADER_SIZE || l > remaining {
            return Err(ParseError::InvalidAttribute);
        }
        let mut value: Vec<u8> = Vec::new();
        push_slice(&mut value, slice_subrange(buf, pos + NLA_HEADER_SIZE, pos + l));
        assert(value@ =~= b.subrange(NLA_HEADER_SIZE as int, l as int));
        let ghost item: NlaModel = (kind, value@);
        let ghost before = nlas_model(nlas@);
        nlas.push(Nla { kind, value });
        assert(nlas_model(nlas@) =~= before.push(item));
        let adv = (l + 3) / 4 * 4;
        if adv >= remaining {
            pos = buf.len();
            assert(nlas_decode(b) == Some(seq![item]));
            assert(buf@.subrange(pos as int, buf@.len() as int) =~= Seq::<u8>::empty());
            assert(before + seq![item] =~= before.push(item));
            assert(before.push(item) + Seq::<NlaModel>::empty() =~= before.push(item));
        } else {
            pos = pos + adv;
            assert(b.subrange(adv as int, b.len() as int) =~= buf@.subrange(
                pos as int,
                buf@.len() as int,
            ));
            proof {
                match nlas_decode(buf@.subrange(pos as int, buf@.len() as int)) {
                    Some(rest) => {
                        assert(before + (seq![item] + rest) =~= before.push(item) + rest);
                    },
                    None => {},
                }
            }
        }
    }
    assert(buf@.subrange(pos as int, buf@.len() as int) =~= Seq::<u8>::empty());
    assert(nlas_model(nlas@) + Seq::<NlaModel>::empty() =~= nlas_model(nlas@));
    Ok(nlas)
}

/// The number of bytes `emit_nlas` writes for `nlas`.
pub fn nlas_buffer_len(nlas: &[Nla]) -> (r: usize)
    requires
        nlas_bytes(nlas_model(nlas@)).len() <= usize::MAX,
    ensures
        r == nlas_bytes(nlas_model(nlas@)).len(),
{
    let mut total: usize = 0;
    let mut i: usize = 0;
    while i < nlas.len()
        invariant
            i <= nlas@.len(),
            nlas_bytes(nlas_model(nlas@)).len() <= usize::MAX,
            total == nlas_bytes(nlas_model(nlas@).subrange(0, i as int)).len(),
            nlas_bytes(nlas_model(nlas@).subrange(0, i as int)).len() <= nlas_bytes(
                nlas_model(nlas@),
            ).len(),
        decreases nlas@.len() - i,
    {
        let ghost m = nlas_model(nlas@);
        proof {
            assert(m.subrange(0, i + 1) =~= m.subrange(0, i as int).push(m[i as int]));
            lemma_nlas_bytes_push(m.subrange(0, i as int), m[i as int]);
            lemma_nla_bytes_len(m[i as int]);
            lemma_nlas_prefix_len(m, i + 1);
        }
        let vlen = nlas[i].value.len();
        total = total + NLA_HEADER_SIZE + (vlen + 3) / 4 * 4;
        i = i + 1;
    }
    assert(nlas_model(nlas@).subrange(0, i as int) =~= nlas_model(nlas@));
    total
}

/// The image of a prefix of a list is no longer than the image of the list.
pub proof fn lemma_nlas_prefix_len(s: Seq<NlaModel>, k: int)
    requires
        0 <= k <= s.len(),
    ensures
        nlas_bytes(s.subrange(0, k)).len() <= nlas_bytes(s).len(),
    decreases s.len() - k,
{
    if k < s.len() {
        lemma_nlas_prefix_len(s, k + 1);
        assert(s.subrange(0, k + 1) =~= s.subrange(0, k).push(s[k]));
        lemma_nlas_bytes_push(s.subrange(0, k), s[k]);
    } else {
        assert(s.subrange(0, k) =~= s);
    }
}

/// Writes the images of `nlas` one after the other over the start of
/// `buffer`.
pub fn emit_nlas(nlas: &[Nla], buffer: &mut [u8])
    requires
        nlas_fit(nlas_model(nlas@)),
        nlas_bytes(nlas_model(nlas@)).len() <= old(buffer)@.len(),
    ensures
        final(buffer)@ == nlas_bytes(nlas_model(nlas@)) + old(buffer)@.subrange(
            nlas_bytes(nlas_model(nlas@)).len() as int,
            old(buffer)@.len() as int,
        ),
{
    emit_nlas_at(nlas, buffer, 0);
    assert(old(buffer)@.subrange(0, 0) + nlas_bytes(nlas_model(nlas@)) =~= nlas_bytes(
        nlas_model(nlas@),
    ));
}

/// Writes the images of `nlas` one after the other into `buffer`, from
/// `offset` on, leaving the bytes before and after them as they were.
pub fn emit_nlas_at(nlas: &[Nla], buffer: &mut [u8], offset: usize)
    requires
        nlas_fit(nlas_model(nlas@)),
        offset + nlas_bytes(nlas_model(nlas@)).len() <= old(buffer)@.len(),
    ensures
        final(buffer)@ == old(buffer)@.subrange(0, offset as int) + nlas_bytes(nlas_model(nlas@))
            + old(buffer)@.subrange(
            offset + nlas_bytes(nlas_model(nlas@)).len(),
            old(buffer)@.len() as int,
        ),
{
    let ghost m = nlas_model(nlas@);
    let ghost len = old(buffer)@.len();
    let ghost pre = old(buffer)@.subrange(0, offset as int);
    let mut start: usize = offset;
    let mut i: usize = 0;
    assert(m.subrange(0, 0) =~= Seq::<NlaModel>::empty());
    assert(old(buffer)@ =~= pre + nlas_bytes(m.subrange(0, 0)) + old(buffer)@.subrange(
        offset as int,
        len as int,
    ));
    while i < nlas.len()
        invariant
            i <= nlas@.len(),
            m == nlas_model(nlas@),
            nlas_fit(m),
            len == old(buffer)@.len(),
            pre == old(buffer)@.subrange(0, offset as int),
            buffer.len() == len,
            buffer@.len() == len,
            offset + nlas_bytes(m).len() <= len,
            start == offset + nlas_bytes(m.subrange(0, i as int)).len(),
            buffer@ == pre + nlas_bytes(m.subrange(0, i as int)) + old(buffer)@.subrange(
                start as int,
                len as int,
            ),
        decreases nlas@.len() - i,
    {
        proof {
            assert(m.subrange(0, i + 1) =~= m.subrange(0, i as int).push(m[i as int]));
            lemma_nlas_bytes_push(m.subrange(0, i as int), m[i as int]);
            lemma_nla_bytes_len(m[i as int]);
            lemma_nlas_prefix_len(m, i + 1);
            assert(m[i as int].1.len() <= NLA_MAX_VALUE_LEN);
        }
        let end = emit_nla(&nlas[i], buffer, start);
        proof {
            let a = m[i as int];
            let rest = old(buffer)@.subrange(start as int, len as int);
            lemma_overwrite(pre + nlas_bytes(m.subrange(0, i as int)), rest, nla_bytes(a));
            assert(rest.subrange(nla_bytes(a).len() as int, rest.len() as int) =~= old(
                buffer,
            )@.subrange(end as int, len as int));
            assert(pre + nlas_bytes(m.subrange(0, i as int)) + nla_bytes(a) =~= pre
                + nlas_bytes(m.subrange(0, i + 1)));
        }
        start = end;
        i = i + 1;
    }
    assert(m.subrange(0, i as int) =~= m);
}

/// Writes the image of one attribute at `start`, and returns where it
/// ends.
fn emit_nla(nla: &Nla, buffer: &mut [u8], start: usize) -> (end: usize)
    requires
        nla.value@.len() <= NLA_MAX_VALUE_LEN,
        start + nla_bytes((nla.kind, nla.value@)).len() <= old(buffer)@.len(),
    ensures
        end == start + nla_bytes((nla.kind, nla.value@)).len(),
        final(buffer)@ == old(buffer)@.subrange(0, start as int) + nla_bytes(
            (nla.kind, nla.value@),
        ) + old(buffer)@.subrange(end as int, old(buffer)@.len() as int),
{
    let ghost a: NlaModel = (nla.kind, nla.value@);
    proof {
        lemma_nla_bytes_len(a);
    }
    let blen = buffer.len();
    let vlen = nla.value.len();
    let padded = (vlen + 3) / 4 * 4;
    let r1 = emit_u16_le_at(buffer, start, (vlen + NLA_HEADER_SIZE) as u16);
    let r2 = emit_u16_le_at(buffer, start + 2, nla.kind);
    copy_at(buffer, start + NLA_HEADER_SIZE, nla.value.as_slice());
    let mut k: usize = start + NLA_HEADER_SIZE + vlen;
    let end = start + NLA_HEADER_SIZE + padded;
    while k < end
        invariant
            start + NLA_HEADER_SIZE + vlen <= k <= end,
            end <= old(buffer)@.len(),
            buffer@.len() == old(buffer)@.len(),
            buffer.len() == old(buffer)@.len(),
            forall|j: int| 0 <= j < start ==> buffer@[j] == old(buffer)@[j],
            forall|j: int| end <= j < buffer@.len() ==> buffer@[j] == old(buffer)@[j],
            forall|j: int|
                start <= j < start + NLA_HEADER_SIZE + vlen ==> #[trigger] buffer@[j] == nla_bytes(
                    a,
                )[j - start],
            nla_bytes(a).len() == NLA_HEADER_SIZE + padded,
            end == start + NLA_HEADER_SIZE + padded,
            forall|j: int| start + NLA_HEADER_SIZE + vlen <= j < k ==> buffer@[j] == 0,
        decreases end - k,
    {
        buffer[k] = 0;
        k = k + 1;
    }
    assert(buffer@ =~= old(buffer)@.subrange(0, start as int) + nla_bytes(a) + old(
        buffer,
    )@.subrange(end as int, old(buffer)@.len() as int));
    end
}

} // verus!
