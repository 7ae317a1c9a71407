//! Plugin, hot-reload, subagent, cron and spending configuration.
use vstd::prelude::*;

verus! {

/// Plugin system configuration
#[derive(Debug, Clone)]
pub struct PluginConfig {
    /// Enable plugin system
    pub enabled: bool,
    /// Auto-load plugins on startup
    pub auto_load: bool,
    /// Plugin directory path (None = default)
    pub plugin_dir: Option<String>,
}

impl Default for PluginConfig {
    fn default() -> (r: Self)
        ensures
            r == (PluginConfig { enabled: true, auto_load: true, plugin_dir: None }),
    {
        PluginConfig { enabled: true, auto_load: true, plugin_dir: None }
    }
}

/// Hot reload configuration
#[derive(Debug, Clone)]
pub struct HotReloadConfig {
    /// Enable hot reload for configuration
    pub enabled: bool,
    /// Watch config files for changes
    pub watch_config: bool,
    /// Watch agent files for changes
    pub watch_agents: bool,
    /// Watch plugin files for changes
    pub watch_plugins: bool,
    /// Debounce duration in seconds
    pub debounce_seconds: u64,
}

impl Default for HotReloadConfig {
    fn default() -> (r: Self)
        ensures
            r == (HotReloadConfig {
                enabled: true,
                watch_config: true,
                watch_agents: true,
                watch_plugins: true,
                debounce_seconds: 2,
            }),
    {
        HotReloadConfig {
            enabled: true,
            watch_config: true,
            watch_agents: true,
            watch_plugins: true,
            debounce_seconds: 2,
        }
    }
}

/// ACP (Agent Control Plane) configuration
#[derive(Debug, Clone)]
pub struct AcpConfig {
    /// Enable subagent spawning
    pub enabled: bool,
    /// Maximum concurrent subagents
    pub max_subagents: usize,
    /// Default subagent timeout in seconds
    pub default_timeout_seconds: u64,
    /// Maximum iterations per ACP session execution
    pub max_iterations: usize,
}

impl Default for AcpConfig {
    fn default() -> (r: Self)
        ensures
            r == (AcpConfig {
                enabled: true,
                max_subagents: 10,
                default_timeout_seconds: 300,
                max_iterations: 100,
            }),
    {
        AcpConfig {
            enabled: true,
            max_subagents: 10,
            default_timeout_seconds: 300,
            max_iterations: 100,
        }
    }
}

/// Cron scheduler configuration
#[derive(Debug, Clone)]
pub struct CronConfig {
    /// Enable cron scheduler
    pub enabled: bool,
    /// Check interval in seconds
    pub check_interval_seconds: u64,
}

impl Default for CronConfig {
    fn default() -> (r: Self)
        ensures
            r == (CronConfig { enabled: true, check_interval_seconds: 60 }),
    {
        CronConfig { enabled: true, check_interval_seconds: 60 }
    }
}

/// Live spend and action-rate limits; zero means unlimited.
#[derive(Debug, Clone)]
pub struct CostGuardConfig {
    /// Maximum daily LLM spend in cents (0 = unlimited).
    pub daily_limit_cents: u64,
    /// Maximum provider calls per hour across all agents (0 = unlimited).
    pub hourly_action_limit: u64,
}

impl Default for CostGuardConfig {
    fn default() -> (r: Self)
        ensures
            r == (CostGuardConfig { daily_limit_cents: 0, hourly_action_limit: 0 }),
    {
        CostGuardConfig { daily_limit_cents: 0, hourly_action_limit: 0 }
    }
}

} // verus!
