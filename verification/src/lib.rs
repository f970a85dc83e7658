//! Client-side logic of an EventStore client: connection settings, wire
//! types, stream commands, cluster discovery and the registry of pending
//! operations.

pub mod commands;
pub mod credentials;
pub mod discovery;
pub mod external;
pub mod messages;
pub mod messaging;
pub mod metadata;
pub mod position;
pub mod registry;
pub mod types;
