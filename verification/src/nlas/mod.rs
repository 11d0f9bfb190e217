//! The structures carried in XFRM netlink attributes.

pub mod address_filter;
pub mod alg;
pub mod encap_tmpl;
pub mod mark;
pub mod replay;
pub mod replay_esn;
pub mod security_ctx;
pub mod user_kmaddress;
pub mod user_migrate;
pub mod user_offload;
pub mod user_template;
