//! Presence model: account, device, status and activity kinds, activity
//! configuration, and the presence payloads sent to the gateway.

pub mod activity;
pub mod kinds;
pub mod status;
