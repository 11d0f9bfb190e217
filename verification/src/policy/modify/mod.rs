//! One kind of policy message.

pub mod message;
