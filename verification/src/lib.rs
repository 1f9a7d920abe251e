//! A real-time fan-out hub: clients register with a set of topics, attach an
//! outbound channel once their transport is upgraded, and receive every
//! payload published to a topic they subscribed to.
//!
//! The registry, the broadcaster, the lifecycle operations and the state
//! machine of a connection session are verified; sharing the hub between
//! tasks and moving bytes over a transport are left to the caller.

pub mod channel;
pub mod client;
pub mod error;
pub mod registry;
pub mod delivery;
pub mod session;
pub mod hub;
pub mod laws;
