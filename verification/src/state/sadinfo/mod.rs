//! Security association database information.

pub mod message;
pub mod nlas;
