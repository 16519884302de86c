//! An in-process publish/subscribe broker with a verified core.
//!
//! Producers append events to a topic; every subscriber registered on that
//! topic at that moment is handed the event through its own delivery channel.
//! The contracts are stated over ghost models: a topic's history is a
//! sequence of events, a subscriber's inbox is the sequence of events its
//! channel has taken.

pub mod broker;
pub mod channel;
pub mod client;
pub mod model;
pub mod registry;
pub mod session;
pub mod store;
pub mod table;
