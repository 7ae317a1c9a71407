//! Decision logic of the Syscity gateway: configuration, access checks, slash
//! commands, message dispatch, hot reload, and the evaluation suite with its
//! failure analysis.
pub mod agent;
pub mod error;
pub mod eval;
pub mod gateway;
pub mod json;
pub mod laws;
pub mod path;
pub mod scalar;
pub mod strmap;
pub mod text;
