//! Attributes of security policy database information.

pub mod spd_info;
