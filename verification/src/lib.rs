//! Core of a real-time fan-out relay: connection registry, room membership,
//! broadcast fan-out with per-consumer cursors, inbound message routing, and
//! the per-connection session lifecycle.

pub mod broadcast;
pub mod membership;
pub mod registry;
pub mod router;
pub mod session;
pub mod types;
