//! Messages about security associations.

pub mod allocspi;
pub mod delget;
pub mod flush;
pub mod modify;
pub mod sadinfo;
