//! The configuration pipeline with positional ids: a flat account and
//! `ACCOUNT_{i}` / `[[accounts]]` entries merged by position.

pub mod partial;
pub mod schema;
pub mod merge;
pub mod env;
pub mod properties;
pub mod defaults;
pub mod resolve;
pub mod load;
pub mod leaves;
