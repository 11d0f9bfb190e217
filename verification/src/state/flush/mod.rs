//! One kind of state message.

pub mod message;
