//! Errors of the library.
use vstd::prelude::*;

verus! {

/// What is wrong with a configuration.
#[derive(Debug)]
pub enum ConfigError {
    /// A setting has a value that it cannot have.
    InvalidValue {
        /// The dotted path of the setting.
        key: String,
        /// What is wrong with the value.
        message: String,
    },
}

/// An error of the library.
#[derive(Debug)]
pub enum SyscityError {
    /// A configuration is wrong.
    Config(ConfigError),
    /// A request is refused.
    Validation(String),
    /// An outside service failed.
    ExternalService(String),
}

} // verus!
