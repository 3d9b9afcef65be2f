//! Why a configuration could not be loaded or resolved.

use vstd::prelude::*;
use vstd::string::*;

verus! {

/// A configuration error. `message` gives its text.
#[derive(Debug, Clone, PartialEq, Eq)]
pub enum ConfigError {
    /// The config file could not be read or parsed; the reader's message.
    Figment(String),
    ConfigNotFound(String),
    NoAccounts,
    MissingToken(String),
    Invalid(String, String),
    InvalidPath(String),
    InvalidId(String),
    UnknownField(String),
}

/// The text of an error.
pub open spec fn error_text(e: ConfigError) -> Seq<char> {
    match e {
        ConfigError::Figment(m) => "failed to load config: "@ + m@,
        ConfigError::ConfigNotFound(p) => "config file not found: "@ + p@,
        ConfigError::NoAccounts => "no accounts configured (set TOKEN, ACCOUNT_N_TOKEN, or [[accounts]] in config)"@,
        ConfigError::MissingToken(a) => "account '"@ + a@ + "': token is required"@,
        ConfigError::Invalid(a, m) => "account '"@ + a@ + "': "@ + m@,
        ConfigError::InvalidPath(m) => "invalid config path: "@ + m@,
        ConfigError::InvalidId(m) => "invalid id: "@ + m@,
        ConfigError::UnknownField(m) => "unknown field: "@ + m@,
    }
}

impl ConfigError {
    /// The error's text.
    pub fn message(&self) -> (r: String)
        ensures
            r@ == error_text(*self),
    {
        match self {
            ConfigError::Figment(m) => String::from_str("failed to load config: ").concat(m.as_str()),
            ConfigError::ConfigNotFound(p) => String::from_str("config file not found: ").concat(p.as_str()),
            ConfigError::NoAccounts => String::from_str(
                "no accounts configured (set TOKEN, ACCOUNT_N_TOKEN, or [[accounts]] in config)",
            ),
            ConfigError::MissingToken(a) => String::from_str("account '").concat(a.as_str()).concat(
                "': token is required",
            ),
            ConfigError::Invalid(a, m) => String::from_str("account '").concat(a.as_str()).concat("': ").concat(
                m.as_str(),
            ),
            ConfigError::InvalidPath(m) => String::from_str("invalid config path: ").concat(m.as_str()),
            ConfigError::InvalidId(m) => String::from_str("invalid id: ").concat(m.as_str()),
            ConfigError::UnknownField(m) => String::from_str("unknown field: ").concat(m.as_str()),
        }
    }
}

} // verus!
