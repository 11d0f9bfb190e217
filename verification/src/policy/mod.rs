//! Messages about policies.

pub mod default;
pub mod flush;
pub mod modify;
pub mod spdinfo;
