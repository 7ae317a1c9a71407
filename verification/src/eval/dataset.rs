//! Tasks and suites of the evaluation.
use vstd::prelude::*;

use crate::json::Json;
use crate::scalar::Double;
use crate::strmap::StrMap;

verus! {

/// What a response is judged by.
#[derive(Debug, Clone, PartialEq, Eq)]
pub enum QualityDimension {
    FactualAccuracy,
    Completeness,
    Consistency,
    Clarity,
    Actionable,
    Safety,
    InstructionFollowing,
    ContextRetention,
    GoalSwitch,
    EmotionHandling,
    EvidenceConsistency,
    Custom(String),
}

/// What a dimension is.
pub enum DimensionModel {
    FactualAccuracy,
    Completeness,
    Consistency,
    Clarity,
    Actionable,
    Safety,
    InstructionFollowing,
    ContextRetention,
    GoalSwitch,
    EmotionHandling,
    EvidenceConsistency,
    Custom(Seq<char>),
}

impl View for QualityDimension {
    type V = DimensionModel;

    open spec fn view(&self) -> DimensionModel {
        match self {
            QualityDimension::FactualAccuracy => DimensionModel::FactualAccuracy,
            QualityDimension::Completeness => DimensionModel::Completeness,
            QualityDimension::Consistency => DimensionModel::Consistency,
            QualityDimension::Clarity => DimensionModel::Clarity,
            QualityDimension::Actionable => DimensionModel::Actionable,
            QualityDimension::Safety => DimensionModel::Safety,
            QualityDimension::InstructionFollowing => DimensionModel::InstructionFollowing,
            QualityDimension::ContextRetention => DimensionModel::ContextRetention,
            QualityDimension::GoalSwitch => DimensionModel::GoalSwitch,
            QualityDimension::EmotionHandling => DimensionModel::EmotionHandling,
            QualityDimension::EvidenceConsistency => DimensionModel::EvidenceConsistency,
            QualityDimension::Custom(s) => DimensionModel::Custom(s@),
        }
    }
}

/// The dimensions of a list.
pub open spec fn dimension_models(v: Seq<QualityDimension>) -> Seq<DimensionModel> {
    v.map_values(|d: QualityDimension| d@)
}

/// How a number is compared with a threshold.
#[derive(Debug, Clone, Copy, PartialEq, Eq, Structural)]
pub enum Comparison {
    Gt,
    Lt,
    Ge,
    Le,
    Eq,
}

/// What must hold when a task is done.
#[derive(Debug, Clone)]
pub enum GoalCondition {
    /// A command exits with a code.
    ExitCode { command: String, expected: Option<i32> },
    /// The output of a command holds a text.
    Pattern { command: String, must_contain: String },
    /// A file exists.
    FileExists { path: String },
    /// The output of a command compares with a threshold.
    Numeric { command: String, operator: Comparison, threshold: Double },
    /// The output of a command lacks a text.
    MustNotContain { command: String, must_not_contain: String },
    /// A command that analyzes the code succeeds.
    StaticAnalysis { command: String },
}

/// What a condition is.
pub enum ConditionModel {
    ExitCode { command: Seq<char>, expected: Option<i32> },
    Pattern { command: Seq<char>, must_contain: Seq<char> },
    FileExists { path: Seq<char> },
    Numeric { command: Seq<char>, operator: Comparison, threshold: Double },
    MustNotContain { command: Seq<char>, must_not_contain: Seq<char> },
    StaticAnalysis { command: Seq<char> },
}

impl View for GoalCondition {
    type V = ConditionModel;

    open spec fn view(&self) -> ConditionModel {
        match self {
            GoalCondition::ExitCode { command, expected } => ConditionModel::ExitCode {
                command: command@,
                expected: *expected,
            },
            GoalCondition::Pattern { command, must_contain } => ConditionModel::Pattern {
                command: command@,
                must_contain: must_contain@,
            },
            GoalCondition::FileExists { path } => ConditionModel::FileExists { path: path@ },
            GoalCondition::Numeric { command, operator, threshold } => ConditionModel::Numeric {
                command: command@,
                operator: *operator,
                threshold: *threshold,
            },
            GoalCondition::MustNotContain { command, must_not_contain } => {
                ConditionModel::MustNotContain {
                    command: command@,
                    must_not_contain: must_not_contain@,
                }
            },
            GoalCondition::StaticAnalysis { command } => ConditionModel::StaticAnalysis {
                command: command@,
            },
        }
    }
}

/// The conditions of a list.
pub open spec fn condition_models(v: Seq<GoalCondition>) -> Seq<ConditionModel> {
    v.map_values(|c: GoalCondition| c@)
}

/// The dimensions that a critic judges, with a threshold for each.
#[derive(Debug, Clone)]
pub struct QualityCriteria {
    pub dimensions: Vec<QualityDimension>,
    pub thresholds: StrMap<Double>,
}

/// Where a task comes from.
#[derive(Debug, Clone, Copy, PartialEq, Eq, Structural)]
pub enum EvalTaskSource {
    ExpertDesign,
    Extended,
    Online,
    BadcaseRecycle,
}

/// What an agent is for.
#[derive(Debug, Clone, Copy, PartialEq, Eq, Structural)]
pub enum AgentType {
    KnowledgeQA,
    TaskExecution,
    ReasoningDecision,
    MultiTurnGuide,
    CreativeGeneration,
    MultiAgent,
}

/// What a suite measures.
#[derive(Debug, Clone, Copy, PartialEq, Eq, Structural)]
pub enum SuiteCategory {
    Capability,
    Regression,
    Adversarial,
    MultiTurnHard,
}

/// A shell command run before or after a trial.
#[derive(Debug)]
pub struct SetupCommand {
    pub command: String,
}

/// One turn of a task with several.
#[derive(Debug)]
pub struct TurnInput {
    pub user_message: String,
    pub conditions: Vec<GoalCondition>,
}

/// A task of the evaluation.
#[derive(Debug)]
pub struct EvalTask {
    pub id: String,
    pub description: String,
    pub input: String,
    pub user_id: String,
    pub conditions: Vec<GoalCondition>,
    pub criteria: Option<QualityCriteria>,
    pub expected_behavior: String,
    pub source: EvalTaskSource,
    pub failure_reason: Option<String>,
    pub setup: Vec<SetupCommand>,
    pub cleanup: Vec<SetupCommand>,
    pub agent_type: Option<AgentType>,
    pub turns: Vec<TurnInput>,
    pub session_conditions: Vec<GoalCondition>,
    /// Difficulty label for regression weighting: easy, medium or hard.
    pub difficulty: String,
    /// Coverage tags for regression attribution.
    pub coverage: Vec<String>,
    /// How many trials the task gets, where it is not left to the suite.
    pub trials: Option<usize>,
    /// The pass rate that is asked of the task, where it is not left to the suite.
    pub min_pass_rate: Option<Double>,
}

/// A suite of tasks.
#[derive(Debug)]
pub struct EvalSuite {
    pub id: String,
    pub name: String,
    pub category: SuiteCategory,
    pub tasks: Vec<EvalTask>,
    pub min_pass_rate: Double,
    pub trials: usize,
    pub continuous_success_required: bool,
    pub sampling_rate: Double,
    pub tags: Vec<String>,
    pub agent_type: Option<AgentType>,
    /// The designs of the skill evaluation, serialized.
    pub skill_designs: Vec<Json>,
}

} // verus!
