//! Verified core of a small networking layer: length-prefixed framing of byte
//! streams, session-UUID prefixes, the message registry and routing of the
//! messaging plugin, and the connection state machine of the WebSocket client
//! port.

pub mod client;
pub mod plugins;
pub mod port_systems;
