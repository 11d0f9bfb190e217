//! One kind of monitor message.

pub mod message;
