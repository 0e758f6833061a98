//! Core of a direct-messaging broker: clients register under a nickname,
//! hold one inbound queue each, and exchange point-to-point messages that are
//! also recorded in a per-user log.

pub mod codec;
pub mod error;
pub mod message;
pub mod queue;
pub mod registry;
pub mod router;
pub mod session;
pub mod store;
pub mod wire;
