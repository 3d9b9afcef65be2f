//! Gateway protocol: connection URLs, client properties, payloads, the
//! reconnect backoff, and the session decisions of a connection.

pub mod heartbeat;
pub mod payload;
pub mod properties;
pub mod reconnect;
pub mod session;
