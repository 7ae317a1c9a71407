//! TUI-facing settings: theme, and the eval/self-tuning knobs.
use vstd::prelude::*;

use super::optimizer::{
    BadcaseGovernanceConfig, CompressionQualityConfig, HumanReviewConfig, OnlineMonitoringConfig,
    OnlineSamplingConfig, ScalarOptimizerConfig, StructuralProposerConfig,
};

verus! {

/// Which palette the TUI should render with. `Auto` asks the terminal.
#[derive(Debug, Clone, Copy, PartialEq, Eq, Structural)]
pub enum ThemeSetting {
    Dark,
    Light,
    Auto,
}

impl Default for ThemeSetting {
    fn default() -> (r: Self)
        ensures
            r == ThemeSetting::Auto,
    {
        ThemeSetting::Auto
    }
}

/// Client-facing TUI preferences, persisted in gateway config.
#[derive(Debug, Clone, Copy, PartialEq, Eq, Structural)]
pub struct TuiConfig {
    /// The theme setting the TUI resolves at startup.
    pub theme: ThemeSetting,
}

impl Default for TuiConfig {
    fn default() -> (r: Self)
        ensures
            r.theme == ThemeSetting::Auto,
    {
        TuiConfig { theme: ThemeSetting::Auto }
    }
}

/// Harness self-tuning configuration.
///
/// Gates the background scalar optimizer that hot-updates the default agent's
/// scalar parameters. Everything in it defaults to disabled.
#[derive(Debug, Clone)]
pub struct EvalConfig {
    /// Scalar optimizer that probes and hot-updates default-agent scalars.
    pub optimizer: ScalarOptimizerConfig,
    /// Governance of the regression set: difficulty-weighted trials.
    pub badcase_governance: BadcaseGovernanceConfig,
    /// Fixed sampling rate of human review.
    pub human_review: HumanReviewConfig,
    /// Online quality monitoring.
    pub online_monitoring: OnlineMonitoringConfig,
    /// Compression quality metrics and threshold.
    pub compression_quality: CompressionQualityConfig,
    /// Structural proposer.
    pub proposer: StructuralProposerConfig,
    /// Online sampling of production traffic.
    pub sampling: OnlineSamplingConfig,
}

impl EvalConfig {
    /// The default settings.
    pub open spec fn is_default(self) -> bool {
        &&& self.optimizer.is_default()
        &&& self.badcase_governance.is_default()
        &&& self.human_review.is_default()
        &&& self.online_monitoring.is_default()
        &&& self.compression_quality.is_default()
        &&& self.proposer.is_default()
        &&& self.sampling.is_default()
    }
}

impl Default for EvalConfig {
    fn default() -> (r: Self)
        ensures
            r.is_default(),
    {
        EvalConfig {
            optimizer: ScalarOptimizerConfig::default(),
            badcase_governance: BadcaseGovernanceConfig::default(),
            human_review: HumanReviewConfig::default(),
            online_monitoring: OnlineMonitoringConfig::default(),
            compression_quality: CompressionQualityConfig::default(),
            proposer: StructuralProposerConfig::default(),
            sampling: OnlineSamplingConfig::default(),
        }
    }
}

} // verus!
