//! Attributes of security association database information.

pub mod sad_info;
