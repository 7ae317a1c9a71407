//! Scalar-optimizer, guardrail and verdict tuning for the eval loop.
use vstd::prelude::*;

use crate::scalar::Double;
use crate::strmap::StrMap;

verus! {

/// Configuration for the background scalar optimizer.
#[derive(Debug, Clone)]
pub struct ScalarOptimizerConfig {
    /// Master switch.
    pub enabled: bool,
    /// Scheduling cadence between runs ("30m", "1h", "manual" = never).
    pub cadence: String,
    /// Maximum number of scalar candidates applied per run.
    pub max_steps: u32,
    /// Perturbation delta for continuous scalars (temperature ± delta).
    pub delta: Double,
    /// Allowed temperature range for probe candidates.
    pub temperature_bounds: [Double; 2],
    /// Guardrails between candidate generation and application.
    pub guardrails: OptimizerGuardrailConfig,
    /// Statistical verdict on candidates.
    pub verdict: OptimizerVerdictConfig,
}

impl ScalarOptimizerConfig {
    /// Off, manual, one step of 0.1 within 0.0 and 1.5.
    pub open spec fn is_default(self) -> bool {
        &&& !self.enabled
        &&& self.cadence@ == "manual"@
        &&& self.max_steps == 1
        &&& self.delta.bits == 0x3fb9_9999_9999_999a
        &&& self.temperature_bounds@[0].bits == 0
        &&& self.temperature_bounds@[1].bits == 0x3ff8_0000_0000_0000
        &&& self.guardrails.is_default()
        &&& self.verdict.is_default()
    }
}

impl Default for ScalarOptimizerConfig {
    fn default() -> (r: Self)
        ensures
            r.is_default(),
    {
        ScalarOptimizerConfig {
            enabled: false,
            cadence: "manual".to_string(),
            max_steps: 1,
            delta: Double { bits: 0x3fb9_9999_9999_999a },
            temperature_bounds: [Double { bits: 0 }, Double { bits: 0x3ff8_0000_0000_0000 }],
            guardrails: OptimizerGuardrailConfig::default(),
            verdict: OptimizerVerdictConfig::default(),
        }
    }
}

/// Guardrail configuration for the scalar optimizer.
#[derive(Debug, Clone)]
pub struct OptimizerGuardrailConfig {
    /// Master switch.
    pub enabled: bool,
    /// Minimum shadow-eval pass rate a candidate must clear.
    pub min_shadow_pass_rate: Double,
    /// Circuit breaker: pause auto-apply after this many consecutive failures.
    pub max_consecutive_failures: u32,
    /// Cooldown before an open breaker re-arms (seconds).
    pub cooldown_secs: u64,
    /// Reject candidates when the cost guard has exceeded its budget.
    pub cost_guard_enabled: bool,
    /// Reject when the recent down-vote ratio exceeds this.
    pub max_down_ratio: Double,
    /// Minimum number of votes required before the down-ratio gate fires.
    pub min_votes: u32,
    /// Reject when this many online risks accumulate in the window.
    pub max_online_risks: u32,
    /// Online-signal observation window (hours).
    pub window_hours: u64,
}

impl OptimizerGuardrailConfig {
    /// Off, with a pass rate of 0.7 and a down-vote ratio of 0.5.
    pub open spec fn is_default(self) -> bool {
        &&& !self.enabled
        &&& self.min_shadow_pass_rate.bits == 0x3fe6_6666_6666_6666
        &&& self.max_consecutive_failures == 2
        &&& self.cooldown_secs == 300
        &&& self.cost_guard_enabled
        &&& self.max_down_ratio.bits == 0x3fe0_0000_0000_0000
        &&& self.min_votes == 10
        &&& self.max_online_risks == 3
        &&& self.window_hours == 24
    }
}

impl Default for OptimizerGuardrailConfig {
    fn default() -> (r: Self)
        ensures
            r.is_default(),
    {
        OptimizerGuardrailConfig {
            enabled: false,
            min_shadow_pass_rate: Double { bits: 0x3fe6_6666_6666_6666 },
            max_consecutive_failures: 2,
            cooldown_secs: 300,
            cost_guard_enabled: true,
            max_down_ratio: Double { bits: 0x3fe0_0000_0000_0000 },
            min_votes: 10,
            max_online_risks: 3,
            window_hours: 24,
        }
    }
}

/// Statistical verdict of the scalar optimizer.
#[derive(Debug, Clone)]
pub struct OptimizerVerdictConfig {
    /// Master switch.
    pub enabled: bool,
    /// Regression suite; none means that the harness is not run.
    pub suite: Option<String>,
    /// Trials per task.
    pub trials: usize,
    /// Bootstrap resamples.
    pub bootstrap_iterations: usize,
    /// Confidence level.
    pub confidence_level: Double,
    /// Replay sampled production turns as the verdict.
    pub replay_shadow: bool,
}

impl OptimizerVerdictConfig {
    /// Off, two trials, a thousand resamples, confidence 0.95.
    pub open spec fn is_default(self) -> bool {
        &&& !self.enabled
        &&& self.suite is None
        &&& self.trials == 2
        &&& self.bootstrap_iterations == 1000
        &&& self.confidence_level.bits == 0x3fee_6666_6666_6666
        &&& !self.replay_shadow
    }
}

impl Default for OptimizerVerdictConfig {
    fn default() -> (r: Self)
        ensures
            r.is_default(),
    {
        OptimizerVerdictConfig {
            enabled: false,
            suite: None,
            trials: 2,
            bootstrap_iterations: 1000,
            confidence_level: Double { bits: 0x3fee_6666_6666_6666 },
            replay_shadow: false,
        }
    }
}

/// Structural proposer: revised tool descriptions, prompts and procedures.
#[derive(Debug, Clone)]
pub struct StructuralProposerConfig {
    /// Judge candidates by the harness and a bootstrap verdict.
    pub verdict_enabled: bool,
    /// Regression suite.
    pub suite: Option<String>,
    /// Trials per task.
    pub trials: usize,
    /// Bootstrap resamples.
    pub bootstrap_iterations: usize,
    /// Confidence level.
    pub confidence_level: Double,
    /// Cap on the candidates of one proposal.
    pub max_candidates: usize,
}

impl StructuralProposerConfig {
    /// Off, four candidates, judged as the optimizer's verdict would.
    pub open spec fn is_default(self) -> bool {
        &&& !self.verdict_enabled
        &&& self.suite is None
        &&& self.trials == 2
        &&& self.bootstrap_iterations == 1000
        &&& self.confidence_level.bits == 0x3fee_6666_6666_6666
        &&& self.max_candidates == 4
    }
}

impl Default for StructuralProposerConfig {
    fn default() -> (r: Self)
        ensures
            r.is_default(),
    {
        StructuralProposerConfig {
            verdict_enabled: false,
            suite: None,
            trials: 2,
            bootstrap_iterations: 1000,
            confidence_level: Double { bits: 0x3fee_6666_6666_6666 },
            max_candidates: 4,
        }
    }
}

/// Governance of the regression set: difficulty-weighted trials.
#[derive(Debug, Clone)]
pub struct BadcaseGovernanceConfig {
    /// Difficulty label to multiplier of the trial count.
    pub difficulty_weights: StrMap<Double>,
    /// The weight of a label that is not listed.
    pub default_weight: Double,
}

impl BadcaseGovernanceConfig {
    /// No weights, and 1.0 for every label.
    pub open spec fn is_default(self) -> bool {
        &&& self.difficulty_weights@ == Map::<Seq<char>, Double>::empty()
        &&& self.default_weight.bits == 0x3ff0_0000_0000_0000
    }
}

impl Default for BadcaseGovernanceConfig {
    fn default() -> (r: Self)
        ensures
            r.is_default(),
    {
        BadcaseGovernanceConfig {
            difficulty_weights: StrMap::new(),
            default_weight: Double { bits: 0x3ff0_0000_0000_0000 },
        }
    }
}

/// Fixed sampling rate of human review.
#[derive(Debug, Clone)]
pub struct HumanReviewConfig {
    /// The rate (0.0 to 1.0) at which ordinary cases are sent to review; none
    /// sends only those of low confidence or in conflict.
    pub sampling_rate: Option<Double>,
}

impl HumanReviewConfig {
    /// No sampling of ordinary cases.
    pub open spec fn is_default(self) -> bool {
        self.sampling_rate is None
    }
}

impl Default for HumanReviewConfig {
    fn default() -> (r: Self)
        ensures
            r.is_default(),
    {
        HumanReviewConfig { sampling_rate: None }
    }
}

/// Online quality monitoring.
#[derive(Debug, Clone)]
pub struct OnlineMonitoringConfig {
    /// Send turns of high risk to a judge model.
    pub enabled: bool,
    /// The number of risks in one turn that calls the judge.
    pub llm_judge_risk_threshold: usize,
    /// The judge model, if not the critic's.
    pub judge_model: Option<String>,
}

impl OnlineMonitoringConfig {
    /// Off, with a threshold of two risks.
    pub open spec fn is_default(self) -> bool {
        &&& !self.enabled
        &&& self.llm_judge_risk_threshold == 2
        &&& self.judge_model is None
    }
}

impl Default for OnlineMonitoringConfig {
    fn default() -> (r: Self)
        ensures
            r.is_default(),
    {
        OnlineMonitoringConfig { enabled: false, llm_judge_risk_threshold: 2, judge_model: None }
    }
}

/// Compression quality.
#[derive(Debug, Clone)]
pub struct CompressionQualityConfig {
    /// Record compression quality.
    pub enabled: bool,
    /// Warn when fewer than this share of the tokens is kept (0.0 = never).
    pub min_retention_ratio: Double,
}

impl CompressionQualityConfig {
    /// Off, with a retention of 0.5.
    pub open spec fn is_default(self) -> bool {
        &&& !self.enabled
        &&& self.min_retention_ratio.bits == 0x3fe0_0000_0000_0000
    }
}

impl Default for CompressionQualityConfig {
    fn default() -> (r: Self)
        ensures
            r.is_default(),
    {
        CompressionQualityConfig {
            enabled: false,
            min_retention_ratio: Double { bits: 0x3fe0_0000_0000_0000 },
        }
    }
}

/// Online sampling of production turns.
#[derive(Debug, Clone)]
pub struct OnlineSamplingConfig {
    /// Master switch. When false, no production turns are sampled.
    pub enabled: bool,
    /// Fraction of completed turns to keep; 0.0 samples every turn.
    pub sample_rate: Double,
}

impl OnlineSamplingConfig {
    /// Off, with a rate of 0.0.
    pub open spec fn is_default(self) -> bool {
        &&& !self.enabled
        &&& self.sample_rate.bits == 0
    }
}

impl Default for OnlineSamplingConfig {
    fn default() -> (r: Self)
        ensures
            r.is_default(),
    {
        OnlineSamplingConfig { enabled: false, sample_rate: Double { bits: 0 } }
    }
}

} // verus!
