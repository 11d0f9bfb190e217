//! Security policy database information.

pub mod message;
pub mod nlas;
