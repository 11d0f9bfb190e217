//! Messages that the kernel sends to listeners, and the requests about them.

pub mod acquire;
pub mod expire;
pub mod get_async_event;
pub mod mapping;
pub mod migrate;
pub mod new_async_event;
pub mod polexpire;
pub mod report;
