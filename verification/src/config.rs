//! The configuration pipeline keyed by string ids: sources become partial
//! layers, layers merge field by field, and the merged layer resolves into
//! the settings of each account.

pub mod keyed;
pub mod token;
pub mod partial;
pub mod fields;
pub mod error;
pub mod util;
pub mod id;
pub mod order;
pub mod path;
pub mod merge;
pub mod env;
pub mod cli;
pub mod resolve;
pub mod defaults;
pub mod load;
pub mod file;
pub mod set_text;
