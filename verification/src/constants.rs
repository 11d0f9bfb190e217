//! Constants of the XFRM interface that the structures refer to.

use vstd::prelude::*;

verus! {

/// The IPv4 address family.
pub const AF_INET: u16 = 2;
/// The IPv6 address family.
pub const AF_INET6: u16 = 10;
/// The IP compression protocol, whose SPIs are 16 bits wide.
pub const IPPROTO_COMP: u8 = 108;
/// "No limit" in a lifetime configuration.
pub const XFRM_INF: u64 = 0xffff_ffff_ffff_ffff;
/// The attribute type of a security context.
pub const XFRMA_SEC_CTX: u16 = 8;
/// The SELinux security context algorithm.
pub const XFRM_SC_ALG_SELINUX: u8 = 1;
/// The LSM domain of interpretation of a security context.
pub const XFRM_SC_DOI_LSM: u8 = 1;

} // verus!
