//! What the operations of the library are for, as laws over their contracts:
//! each speaks of what goes into an operation and what comes out of it.
pub mod access;
pub mod admin;
pub mod answers;
pub mod artifacts;
pub mod attribution;
pub mod basics;
pub mod commands;
pub mod config;
pub mod dispatch;
pub mod events;
pub mod goals;
pub mod json;
pub mod loader;
pub mod names;
pub mod path;
pub mod rca;
pub mod recycle;
pub mod reload;
pub mod sending;
pub mod session;
pub mod spawn;
pub mod standalone;
pub mod suites;
pub mod text;
