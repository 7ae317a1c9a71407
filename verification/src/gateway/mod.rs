//! The gateway control plane.
pub mod agent_spawn;
pub mod auth;
pub mod commands;
pub mod config;
pub mod dispatch;
pub mod events;
pub mod goal_spawn;
pub mod handlers;
pub mod hot_reload;
