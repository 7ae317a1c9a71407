//! HTTP handlers and administrative operations.
pub mod admin;
pub mod artifacts;
pub mod web_ui;
pub mod ws_ticket;
