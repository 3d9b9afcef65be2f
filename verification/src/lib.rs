//! Configuration pipeline, presence payloads and gateway session decisions
//! for a Discord keep-alive client, with their contracts proved by Verus.

pub mod json;
pub mod text;
pub mod presence;
pub mod gateway;
pub mod health;
pub mod config;
pub mod indexed;
pub mod render;
pub mod show;
pub mod adapt;
pub mod logfmt;
