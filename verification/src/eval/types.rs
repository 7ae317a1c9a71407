//! What the evaluation harness records of a trial.
use vstd::prelude::*;

use crate::gateway::events::TokenUsage;
use crate::json::Json;

verus! {

/// A point in time, counted from the epoch.
#[derive(Debug, Clone, Copy, PartialEq, Eq, Structural)]
pub struct Timestamp {
    pub secs: u64,
    pub nanos: u32,
}

impl Timestamp {
    /// The nanoseconds since the epoch.
    pub open spec fn total_nanos(self) -> int {
        self.secs * 1_000_000_000 + self.nanos
    }
}

/// The time on the clock of the machine, by `std::time::SystemTime::now`, as it
/// is counted from the epoch; the epoch where the clock stands before it.
/// Nothing is claimed of it.
#[verifier::external_body]
pub(crate) fn now() -> Timestamp {
    let d = std::time::SystemTime::now()
        .duration_since(std::time::SystemTime::UNIX_EPOCH)
        .unwrap_or_default();
    Timestamp { secs: d.as_secs(), nanos: d.subsec_nanos() }
}

/// One tool call of a turn.
#[derive(Debug)]
pub struct ToolCallRecord {
    pub name: String,
    pub args: String,
    pub result: String,
    pub success: bool,
    pub duration_ms: u64,
}

impl Clone for ToolCallRecord {
    fn clone(&self) -> (r: Self)
        ensures
            r == *self,
    {
        ToolCallRecord {
            name: self.name.clone(),
            args: self.args.clone(),
            result: self.result.clone(),
            success: self.success,
            duration_ms: self.duration_ms,
        }
    }
}

/// The outcome of one goal condition.
#[derive(Debug, Clone)]
pub struct ConditionResult {
    pub passed: bool,
    pub actual: String,
    pub detail: String,
}

/// What a critic says of a response.
#[derive(Debug, Clone)]
pub struct Critique {
    pub passed: bool,
    pub weaknesses: Vec<String>,
}

/// The outcome of one check of a skill.
#[derive(Debug, Clone)]
pub struct SkillCheck {
    pub passed: bool,
    /// The case, the scenario or the name of what was checked.
    pub label: String,
    pub detail: String,
}

/// The breakdown of the evaluation of a skill.
#[derive(Debug, Clone)]
pub struct SkillResults {
    pub trigger_results: Vec<SkillCheck>,
    pub execution_results: Vec<SkillCheck>,
    pub quality_results: Vec<SkillCheck>,
    pub resilience_results: Vec<SkillCheck>,
}

/// The outcome of one trial of a task.
#[derive(Debug, Clone)]
pub struct TrialResult {
    pub trial_index: usize,
    pub response: String,
    pub tool_calls: Vec<ToolCallRecord>,
    pub token_usage: Option<TokenUsage>,
    pub duration_ms: u64,
    pub condition_results: Vec<ConditionResult>,
    pub conditions_passed: bool,
    pub critique: Option<Critique>,
    pub critique_passed: bool,
    pub skill_results: Option<SkillResults>,
    pub skill_passed: bool,
    /// The outcomes of the turns, serialized.
    pub turn_results: Vec<Json>,
    pub session_condition_results: Vec<ConditionResult>,
    pub session_conditions_passed: bool,
    pub passed: bool,
}

} // verus!
