//! Session relay core: the connection registry, the fan-out routing rules,
//! the in-band session membership protocol and the bus message model.

pub mod handler;
pub mod protocol;
pub mod pubsub;
pub mod registry;
