//! The integer readers and writers of `netlink_packet_core` that this crate
//! calls, with what their source shows them to do. They read and write the
//! little-endian image of the value, whatever the byte order of the host.

use vstd::prelude::*;
use crate::wire::{u16_le_at, u16_le_bytes, u32_le_at, u32_le_bytes};

verus! {

#[verifier::external_type_specification]
#[verifier::external_body]
pub struct ExDecodeError(netlink_packet_core::DecodeError);

/// `netlink_packet_core::parse_u16_le` accepts exactly two bytes and reads
/// them least significant first (`u16::from_le_bytes`); any other length
/// gives an error.
pub assume_specification[ netlink_packet_core::parse_u16_le ](payload: &[u8]) -> (r: Result<
    u16,
    netlink_packet_core::DecodeError,
>)
    ensures
        (r is Ok) <==> payload@.len() == 2,
        r matches Ok(v) ==> v == u16_le_at(payload@, 0),
;

/// `netlink_packet_core::parse_u32_le` accepts exactly four bytes and reads
/// them least significant first (`u32::from_le_bytes`); any other length
/// gives an error.
pub assume_specification[ netlink_packet_core::parse_u32_le ](payload: &[u8]) -> (r: Result<
    u32,
    netlink_packet_core::DecodeError,
>)
    ensures
        (r is Ok) <==> payload@.len() == 4,
        r matches Ok(v) ==> v == u32_le_at(payload@, 0),
;

/// Calls `netlink_packet_core::emit_u16_le` on `buf[offset..]`. It fails,
/// writing nothing, when fewer than two bytes follow `offset`; otherwise it
/// writes `value.to_le_bytes()` over the two bytes at `offset` and leaves
/// the rest of `buf` as it was.
#[verifier::external_body]
pub(crate) fn emit_u16_le_at(buf: &mut [u8], offset: usize, value: u16) -> (r: Result<
    (),
    netlink_packet_core::DecodeError,
>)
    requires
        offset <= old(buf)@.len(),
    ensures
        (r is Ok) <==> offset + 2 <= old(buf)@.len(),
        r is Ok ==> final(buf)@ == old(buf)@.subrange(0, offset as int) + u16_le_bytes(value)
            + old(buf)@.subrange(offset + 2, old(buf)@.len() as int),
        r is Err ==> final(buf)@ == old(buf)@,
{
    netlink_packet_core::emit_u16_le(&mut buf[offset..], value)
}

/// Calls `netlink_packet_core::emit_u32_le` on `buf[offset..]`. It fails,
/// writing nothing, when fewer than four bytes follow `offset`; otherwise it
/// writes `value.to_le_bytes()` over the four bytes at `offset` and leaves
/// the rest of `buf` as it was.
#[verifier::external_body]
pub(crate) fn emit_u32_le_at(buf: &mut [u8], offset: usize, value: u32) -> (r: Result<
    (),
    netlink_packet_core::DecodeError,
>)
    requires
        offset <= old(buf)@.len(),
    ensures
        (r is Ok) <==> offset + 4 <= old(buf)@.len(),
        r is Ok ==> final(buf)@ == old(buf)@.subrange(0, offset as int) + u32_le_bytes(value)
            + old(buf)@.subrange(offset + 4, old(buf)@.len() as int),
        r is Err ==> final(buf)@ == old(buf)@,
{
    netlink_packet_core::emit_u32_le(&mut buf[offset..], value)
}

} // verus!
