//! The evaluation data set: what the task files and suite manifests hold, and
//! the tasks and suites made of it.
use vstd::prelude::*;
use vstd::string::*;

use super::dataset::{
    condition_models, dimension_models, AgentType, Comparison, ConditionModel, DimensionModel,
    EvalTask, EvalTaskSource, GoalCondition, QualityCriteria, QualityDimension,
    SetupCommand, SuiteCategory, TurnInput,
};
use crate::error::SyscityError;
use crate::json::Json;
use crate::path::{join_path, path_below};
use crate::scalar::Double;
use crate::strmap::StrMap;
use crate::text::{
    cat, contains_text, decimal, decimal_of, is_one_of, occurs, opt_text, same, signed_decimal,
    signed_decimal_of, texts,
};

verus! {

// ---------------------------------------------------------------------------
// Task files
// ---------------------------------------------------------------------------

/// A scalar of a task file, as far as it is read as a text.
#[derive(Debug)]
pub enum YamlScalar {
    Text(String),
    Whole(u64),
    Int(i64),
    /// A floating-point number, as it is printed.
    Float(String),
    Bool(bool),
    /// Any other value, as it is printed for debugging.
    Other(String),
}

/// A condition of a task.
#[derive(Debug)]
pub struct YamlCondition {
    pub cond_type: String,
    pub command: String,
    /// A text or a number.
    pub must_contain: Option<YamlScalar>,
    /// The forbidden text; where it is left out, `must_contain` has it.
    pub must_not_contain: Option<YamlScalar>,
    pub expected: Option<i32>,
    pub path: String,
    pub operator: String,
    pub threshold: Option<Double>,
}

/// Dimensions and thresholds of a task.
#[derive(Debug)]
pub struct YamlCriteria {
    pub dimensions: Vec<String>,
    pub thresholds: StrMap<Double>,
}

/// A shell command.
#[derive(Debug)]
pub struct YamlCommand {
    pub command: String,
}

/// A turn of a task with several.
#[derive(Debug)]
pub struct YamlTurnInput {
    pub user_message: String,
    pub conditions: Vec<YamlCondition>,
}

/// A task of a task file.
#[derive(Debug)]
pub struct YamlTask {
    pub id: String,
    pub description: String,
    pub input: String,
    pub expected_behavior: String,
    pub conditions: Vec<YamlCondition>,
    pub criteria: Option<YamlCriteria>,
    pub setup: Vec<YamlCommand>,
    pub cleanup: Vec<YamlCommand>,
    pub source: Option<String>,
    pub failure_reason: Option<String>,
    pub agent_type: Option<String>,
    pub turns: Vec<YamlTurnInput>,
    pub session_conditions: Vec<YamlCondition>,
    pub difficulty: String,
    pub coverage: Vec<String>,
}

/// A task file.
#[derive(Debug)]
pub struct YamlTaskFile {
    pub tasks: Vec<YamlTask>,
    /// The design of the skill evaluation, serialized.
    pub skill_eval_design: Option<Json>,
}

/// Result of loading a task file: the tasks and the optional design of the
/// skill evaluation.
#[derive(Debug)]
pub struct LoadedTaskFile {
    pub tasks: Vec<EvalTask>,
    pub skill_design: Option<Json>,
}

/// The difficulty of a task that names none.
pub fn default_task_difficulty() -> (r: String)
    ensures
        r@ == "medium"@,
{
    "medium".to_string()
}

/// The error for a file that cannot be parsed.
pub fn parse_error(path: &str, error: &str) -> (r: SyscityError)
    ensures
        r matches SyscityError::Validation(m) && m@ == "Cannot parse "@ + path@ + ": "@ + error@,
{
    let mut s = cat("Cannot parse ", path);
    s.append(": ");
    s.append(error);
    SyscityError::Validation(s)
}

/// The error for a manifest, named in another, that cannot be parsed.
pub fn included_parse_error(path: &str, error: &str) -> (r: SyscityError)
    ensures
        r matches SyscityError::Validation(m) && m@ == "Cannot parse included "@ + path@ + ": "@
            + error@,
{
    let mut s = cat("Cannot parse included ", path);
    s.append(": ");
    s.append(error);
    SyscityError::Validation(s)
}

// ---------------------------------------------------------------------------
// Labels
// ---------------------------------------------------------------------------

/// The dimension that a label names; a label that names no known one stands for a
/// dimension of its own kind.
pub open spec fn dimension_named(s: Seq<char>) -> DimensionModel {
    if s == "factual_accuracy"@ {
        DimensionModel::FactualAccuracy
    } else if s == "completeness"@ {
        DimensionModel::Completeness
    } else if s == "consistency"@ {
        DimensionModel::Consistency
    } else if s == "clarity"@ {
        DimensionModel::Clarity
    } else if s == "actionable"@ {
        DimensionModel::Actionable
    } else if s == "safety"@ {
        DimensionModel::Safety
    } else if s == "instruction_following"@ {
        DimensionModel::InstructionFollowing
    } else if s == "context_retention"@ {
        DimensionModel::ContextRetention
    } else if s == "goal_switch"@ {
        DimensionModel::GoalSwitch
    } else if s == "emotion_handling"@ {
        DimensionModel::EmotionHandling
    } else if s == "evidence_consistency"@ {
        DimensionModel::EvidenceConsistency
    } else {
        DimensionModel::Custom(s)
    }
}

/// Parse a dimension label.
pub fn parse_dimension(s: &str) -> (r: QualityDimension)
    ensures
        r@ == dimension_named(s@),
{
    if same(s, "factual_accuracy") {
        QualityDimension::FactualAccuracy
    } else if same(s, "completeness") {
        QualityDimension::Completeness
    } else if same(s, "consistency") {
        QualityDimension::Consistency
    } else if same(s, "clarity") {
        QualityDimension::Clarity
    } else if same(s, "actionable") {
        QualityDimension::Actionable
    } else if same(s, "safety") {
        QualityDimension::Safety
    } else if same(s, "instruction_following") {
        QualityDimension::InstructionFollowing
    } else if same(s, "context_retention") {
        QualityDimension::ContextRetention
    } else if same(s, "goal_switch") {
        QualityDimension::GoalSwitch
    } else if same(s, "emotion_handling") {
        QualityDimension::EmotionHandling
    } else if same(s, "evidence_consistency") {
        QualityDimension::EvidenceConsistency
    } else {
        QualityDimension::Custom(s.to_string())
    }
}

/// The labels of the known dimensions differ.
pub proof fn lemma_labels_differ()
    ensures
        dimension_named("factual_accuracy"@) == DimensionModel::FactualAccuracy,
        dimension_named("completeness"@) == DimensionModel::Completeness,
        dimension_named("consistency"@) == DimensionModel::Consistency,
        dimension_named("clarity"@) == DimensionModel::Clarity,
        dimension_named("actionable"@) == DimensionModel::Actionable,
        dimension_named("safety"@) == DimensionModel::Safety,
        dimension_named("instruction_following"@) == DimensionModel::InstructionFollowing,
        dimension_named("context_retention"@) == DimensionModel::ContextRetention,
        dimension_named("goal_switch"@) == DimensionModel::GoalSwitch,
        dimension_named("emotion_handling"@) == DimensionModel::EmotionHandling,
        dimension_named("evidence_consistency"@) == DimensionModel::EvidenceConsistency,
{
    reveal_strlit("factual_accuracy");
    reveal_strlit("completeness");
    reveal_strlit("consistency");
    reveal_strlit("clarity");
    reveal_strlit("actionable");
    reveal_strlit("safety");
    reveal_strlit("instruction_following");
    reveal_strlit("context_retention");
    reveal_strlit("goal_switch");
    reveal_strlit("emotion_handling");
    reveal_strlit("evidence_consistency");
    assert("factual_accuracy"@.len() == 16 && "factual_accuracy"@[0] == 'f');
    assert("completeness"@.len() == 12 && "completeness"@[0] == 'c');
    assert("consistency"@.len() == 11 && "consistency"@[0] == 'c');
    assert("clarity"@.len() == 7 && "clarity"@[0] == 'c');
    assert("actionable"@.len() == 10 && "actionable"@[0] == 'a');
    assert("safety"@.len() == 6 && "safety"@[0] == 's');
    assert("instruction_following"@.len() == 21 && "instruction_following"@[0] == 'i');
    assert("context_retention"@.len() == 17 && "context_retention"@[0] == 'c');
    assert("goal_switch"@.len() == 11 && "goal_switch"@[0] == 'g');
    assert("emotion_handling"@.len() == 16 && "emotion_handling"@[0] == 'e');
    assert("evidence_consistency"@.len() == 20 && "evidence_consistency"@[0] == 'e');
}

/// No two labels name the same dimension.
pub proof fn law_labels_do_not_merge(a: Seq<char>, b: Seq<char>)
    ensures
        dimension_named(a) == dimension_named(b) <==> a == b,
{
}

/// The comparison that an operator names, or the name that it is written under in
/// a badcase file; equality where it names none.
pub open spec fn operator_named(s: Seq<char>) -> Comparison {
    if s == "gt"@ || s == ">"@ || s == "Gt"@ {
        Comparison::Gt
    } else if s == "lt"@ || s == "<"@ || s == "Lt"@ {
        Comparison::Lt
    } else if s == "gte"@ || s == ">="@ || s == "ge"@ || s == "Ge"@ {
        Comparison::Ge
    } else if s == "lte"@ || s == "<="@ || s == "le"@ || s == "Le"@ {
        Comparison::Le
    } else {
        Comparison::Eq
    }
}

/// Parse the operator of a numeric condition.
pub fn parse_operator(s: &str) -> (r: Comparison)
    ensures
        r == operator_named(s@),
{
    if same(s, "gt") || same(s, ">") || same(s, "Gt") {
        Comparison::Gt
    } else if same(s, "lt") || same(s, "<") || same(s, "Lt") {
        Comparison::Lt
    } else if same(s, "gte") || same(s, ">=") || same(s, "ge") || same(s, "Ge") {
        Comparison::Ge
    } else if same(s, "lte") || same(s, "<=") || same(s, "le") || same(s, "Le") {
        Comparison::Le
    } else {
        Comparison::Eq
    }
}

/// The category that a label names; capability where it names none.
pub open spec fn category_named(s: Seq<char>) -> SuiteCategory {
    if s == "capability"@ {
        SuiteCategory::Capability
    } else if s == "regression"@ {
        SuiteCategory::Regression
    } else if s == "adversarial"@ {
        SuiteCategory::Adversarial
    } else if s == "multi_turn"@ {
        SuiteCategory::MultiTurnHard
    } else {
        SuiteCategory::Capability
    }
}

/// Parse a category label.
pub fn parse_category(s: &str) -> (r: SuiteCategory)
    ensures
        r == category_named(s@),
{
    if same(s, "capability") {
        SuiteCategory::Capability
    } else if same(s, "regression") {
        SuiteCategory::Regression
    } else if same(s, "adversarial") {
        SuiteCategory::Adversarial
    } else if same(s, "multi_turn") {
        SuiteCategory::MultiTurnHard
    } else {
        SuiteCategory::Capability
    }
}

/// The agent type that a label names; question answering where it names none.
pub open spec fn agent_type_named(s: Seq<char>) -> AgentType {
    if s == "knowledge_qa"@ {
        AgentType::KnowledgeQA
    } else if s == "task_execution"@ {
        AgentType::TaskExecution
    } else if s == "reasoning_decision"@ {
        AgentType::ReasoningDecision
    } else if s == "multi_turn_guide"@ {
        AgentType::MultiTurnGuide
    } else if s == "creative_generation"@ {
        AgentType::CreativeGeneration
    } else if s == "multi_agent"@ {
        AgentType::MultiAgent
    } else {
        AgentType::KnowledgeQA
    }
}

/// Parse an agent type label.
pub fn parse_agent_type(s: &str) -> (r: AgentType)
    ensures
        r == agent_type_named(s@),
{
    if same(s, "knowledge_qa") {
        AgentType::KnowledgeQA
    } else if same(s, "task_execution") {
        AgentType::TaskExecution
    } else if same(s, "reasoning_decision") {
        AgentType::ReasoningDecision
    } else if same(s, "multi_turn_guide") {
        AgentType::MultiTurnGuide
    } else if same(s, "creative_generation") {
        AgentType::CreativeGeneration
    } else if same(s, "multi_agent") {
        AgentType::MultiAgent
    } else {
        AgentType::KnowledgeQA
    }
}

/// The source that a label names; expert design where it names none.
pub open spec fn source_named(s: Option<Seq<char>>) -> EvalTaskSource {
    if s == Some("extended"@) {
        EvalTaskSource::Extended
    } else if s == Some("online"@) {
        EvalTaskSource::Online
    } else if s == Some("badcase"@) {
        EvalTaskSource::BadcaseRecycle
    } else {
        EvalTaskSource::ExpertDesign
    }
}

/// Parse a source label.
pub fn parse_source(s: &Option<String>) -> (r: EvalTaskSource)
    ensures
        r == source_named(opt_text(*s)),
{
    match s {
        Some(s) => {
            if same(s, "extended") {
                EvalTaskSource::Extended
            } else if same(s, "online") {
                EvalTaskSource::Online
            } else if same(s, "badcase") {
                EvalTaskSource::BadcaseRecycle
            } else {
                EvalTaskSource::ExpertDesign
            }
        },
        None => EvalTaskSource::ExpertDesign,
    }
}

// ---------------------------------------------------------------------------
// Conditions
// ---------------------------------------------------------------------------

/// A scalar as a text.
pub open spec fn scalar_text(v: YamlScalar) -> Seq<char> {
    match v {
        YamlScalar::Text(s) => s@,
        YamlScalar::Whole(n) => decimal(n as nat),
        YamlScalar::Int(n) => signed_decimal(n as int),
        YamlScalar::Float(s) => s@,
        YamlScalar::Bool(b) => if b {
            "true"@
        } else {
            "false"@
        },
        YamlScalar::Other(s) => s@,
    }
}

/// A scalar as a text.
pub fn yaml_value_to_string(v: &YamlScalar) -> (r: String)
    ensures
        r@ == scalar_text(*v),
{
    match v {
        YamlScalar::Text(s) => s.clone(),
        YamlScalar::Whole(n) => decimal_of(*n),
        YamlScalar::Int(n) => signed_decimal_of(*n),
        YamlScalar::Float(s) => s.clone(),
        YamlScalar::Bool(b) => {
            if *b {
                "true".to_string()
            } else {
                "false".to_string()
            }
        },
        YamlScalar::Other(s) => s.clone(),
    }
}

/// An optional scalar as a text.
pub open spec fn optional_text(v: Option<YamlScalar>) -> Seq<char> {
    match v {
        Some(v) => scalar_text(v),
        None => Seq::empty(),
    }
}

fn optional_string(v: &Option<YamlScalar>) -> (r: String)
    ensures
        r@ == optional_text(*v),
{
    match v {
        Some(v) => yaml_value_to_string(v),
        None => String::new(),
    }
}

/// The text that an entry forbids.
pub open spec fn forbidden_text(yc: YamlCondition) -> Seq<char> {
    if yc.must_not_contain is Some {
        optional_text(yc.must_not_contain)
    } else {
        optional_text(yc.must_contain)
    }
}

/// The condition that an entry stands for; none where its type is unknown.
pub open spec fn converted(yc: YamlCondition) -> Option<ConditionModel> {
    let kind = yc.cond_type@;
    if kind == "exit_code"@ {
        Some(ConditionModel::ExitCode { command: yc.command@, expected: yc.expected })
    } else if kind == "pattern"@ {
        Some(
            ConditionModel::Pattern {
                command: yc.command@,
                must_contain: optional_text(yc.must_contain),
            },
        )
    } else if kind == "file_exists"@ {
        Some(ConditionModel::FileExists { path: yc.path@ })
    } else if kind == "must_not_contain"@ {
        Some(
            ConditionModel::MustNotContain {
                command: yc.command@,
                must_not_contain: forbidden_text(yc),
            },
        )
    } else if kind == "static_analysis"@ {
        Some(ConditionModel::StaticAnalysis { command: yc.command@ })
    } else if kind == "numeric"@ {
        Some(
            ConditionModel::Numeric {
                command: yc.command@,
                operator: operator_named(yc.operator@),
                threshold: match yc.threshold {
                    Some(t) => t,
                    None => (Double { bits: 0 }),
                },
            },
        )
    } else {
        None
    }
}

/// The model of an optional condition.
pub open spec fn condition_model(c: Option<GoalCondition>) -> Option<ConditionModel> {
    match c {
        Some(c) => Some(c@),
        None => None,
    }
}

/// Convert an entry into a condition. Nothing comes of an unknown type.
pub fn convert_condition(yc: YamlCondition) -> (r: Option<GoalCondition>)
    ensures
        condition_model(r) == converted(yc),
{
    if same(&yc.cond_type, "exit_code") {
        Some(GoalCondition::ExitCode { command: yc.command, expected: yc.expected })
    } else if same(&yc.cond_type, "pattern") {
        let must_contain = optional_string(&yc.must_contain);
        Some(GoalCondition::Pattern { command: yc.command, must_contain })
    } else if same(&yc.cond_type, "file_exists") {
        Some(GoalCondition::FileExists { path: yc.path })
    } else if same(&yc.cond_type, "must_not_contain") {
        let must_not_contain = if yc.must_not_contain.is_some() {
            optional_string(&yc.must_not_contain)
        } else {
            optional_string(&yc.must_contain)
        };
        Some(GoalCondition::MustNotContain { command: yc.command, must_not_contain })
    } else if same(&yc.cond_type, "static_analysis") {
        Some(GoalCondition::StaticAnalysis { command: yc.command })
    } else if same(&yc.cond_type, "numeric") {
        let operator = parse_operator(&yc.operator);
        let threshold = match yc.threshold {
            Some(t) => t,
            None => Double { bits: 0 },
        };
        Some(GoalCondition::Numeric { command: yc.command, operator, threshold })
    } else {
        None
    }
}

/// The conditions that some entries stand for, in their order.
pub open spec fn all_converted(v: Seq<YamlCondition>) -> Seq<ConditionModel>
    decreases v.len(),
{
    if v.len() == 0 {
        Seq::empty()
    } else {
        match converted(v.last()) {
            Some(c) => all_converted(v.drop_last()).push(c),
            None => all_converted(v.drop_last()),
        }
    }
}

/// Convert entries into conditions, leaving out those of unknown types.
pub fn convert_conditions(v: Vec<YamlCondition>) -> (r: Vec<GoalCondition>)
    ensures
        condition_models(r@) == all_converted(v@),
{
    let ghost all = v@;
    let mut out: Vec<GoalCondition> = Vec::new();
    assert(condition_models(out@) =~= all_converted(all.take(0)));
    for yc in it: v
        invariant
            it.seq() == all,
            condition_models(out@) == all_converted(all.take(it.index())),
    {
        let ghost before = out@;
        let ghost i = it.index();
        proof {
            assert(all.take(i + 1).drop_last() =~= all.take(i));
            assert(all.take(i + 1).last() == yc);
        }
        match convert_condition(yc) {
            Some(c) => {
                out.push(c);
                assert(condition_models(out@) =~= condition_models(before).push(c@));
            },
            None => {},
        }
    }
    assert(all.take(all.len() as int) =~= all);
    out
}

// ---------------------------------------------------------------------------
// Tasks
// ---------------------------------------------------------------------------

/// The dimensions that some labels name.
pub open spec fn dimensions_named(labels: Seq<String>) -> Seq<DimensionModel> {
    labels.map_values(|s: String| dimension_named(s@))
}

/// The commands of a list.
pub open spec fn commands_of(v: Seq<SetupCommand>) -> Seq<Seq<char>> {
    v.map_values(|c: SetupCommand| c.command@)
}

/// The commands of a list of a task file.
pub open spec fn yaml_commands_of(v: Seq<YamlCommand>) -> Seq<Seq<char>> {
    v.map_values(|c: YamlCommand| c.command@)
}

/// Whether the criteria of a task are those of its entry.
pub open spec fn criteria_converted(yc: Option<YamlCriteria>, c: Option<QualityCriteria>) -> bool {
    match (yc, c) {
        (Some(yc), Some(c)) => {
            &&& dimension_models(c.dimensions@) == dimensions_named(yc.dimensions@)
            &&& c.thresholds == yc.thresholds
        },
        (None, None) => true,
        _ => false,
    }
}

/// Whether a turn of a task is that of its entry.
pub open spec fn turn_converted(yt: YamlTurnInput, t: TurnInput) -> bool {
    &&& t.user_message == yt.user_message
    &&& condition_models(t.conditions@) == all_converted(yt.conditions@)
}

/// Whether the turns of a task are those of its entry.
pub open spec fn turns_converted(yt: Seq<YamlTurnInput>, t: Seq<TurnInput>) -> bool {
    &&& t.len() == yt.len()
    &&& forall|i: int| 0 <= i < t.len() ==> turn_converted(yt[i], #[trigger] t[i])
}

/// Whether a task is the one that an entry stands for.
pub open spec fn task_converted(yt: YamlTask, t: EvalTask) -> bool {
    &&& t.id == yt.id
    &&& t.description == yt.description
    &&& t.input == yt.input
    &&& t.user_id@ == "eval_user"@
    &&& condition_models(t.conditions@) == all_converted(yt.conditions@)
    &&& criteria_converted(yt.criteria, t.criteria)
    &&& t.expected_behavior == yt.expected_behavior
    &&& t.source == source_named(opt_text(yt.source))
    &&& t.failure_reason == yt.failure_reason
    &&& commands_of(t.setup@) == yaml_commands_of(yt.setup@)
    &&& commands_of(t.cleanup@) == yaml_commands_of(yt.cleanup@)
    &&& t.agent_type == optional_agent_type(yt.agent_type)
    &&& turns_converted(yt.turns@, t.turns@)
    &&& condition_models(t.session_conditions@) == all_converted(yt.session_conditions@)
    &&& t.difficulty == yt.difficulty
    &&& t.coverage == yt.coverage
    &&& t.trials is None
    &&& t.min_pass_rate is None
}

/// The agent type that an optional label names.
pub open spec fn optional_agent_type(s: Option<String>) -> Option<AgentType> {
    match s {
        Some(s) => Some(agent_type_named(s@)),
        None => None,
    }
}

/// Parse an optional agent type label.
pub fn parse_optional_agent_type(s: &Option<String>) -> (r: Option<AgentType>)
    ensures
        r == optional_agent_type(*s),
{
    match s {
        Some(s) => Some(parse_agent_type(s)),
        None => None,
    }
}

/// Convert the criteria of an entry.
pub fn convert_criteria(yc: YamlCriteria) -> (r: QualityCriteria)
    ensures
        criteria_converted(Some(yc), Some(r)),
{
    let mut dimensions: Vec<QualityDimension> = Vec::new();
    let mut i: usize = 0;
    while i < yc.dimensions.len()
        invariant
            i <= yc.dimensions@.len(),
            dimensions@.len() == i,
            forall|k: int|
                0 <= k < i ==> (#[trigger] dimensions@[k])@ == dimension_named(
                    yc.dimensions@[k]@,
                ),
        decreases yc.dimensions.len() - i,
    {
        dimensions.push(parse_dimension(&yc.dimensions[i]));
        i += 1;
    }
    assert(dimension_models(dimensions@) =~= dimensions_named(yc.dimensions@));
    QualityCriteria { dimensions, thresholds: yc.thresholds }
}

fn convert_commands(v: Vec<YamlCommand>) -> (r: Vec<SetupCommand>)
    ensures
        commands_of(r@) == yaml_commands_of(v@),
{
    let ghost all = v@;
    let mut out: Vec<SetupCommand> = Vec::new();
    for c in it: v
        invariant
            it.seq() == all,
            out@.len() == it.index(),
            forall|k: int|
                0 <= k < out@.len() ==> (#[trigger] out@[k]).command == all[k].command,
    {
        out.push(SetupCommand { command: c.command });
    }
    assert(commands_of(out@) =~= yaml_commands_of(all));
    out
}

fn convert_turns(v: Vec<YamlTurnInput>) -> (r: Vec<TurnInput>)
    ensures
        turns_converted(v@, r@),
{
    let ghost all = v@;
    let mut out: Vec<TurnInput> = Vec::new();
    for t in it: v
        invariant
            it.seq() == all,
            out@.len() == it.index(),
            forall|k: int| 0 <= k < out@.len() ==> turn_converted(all[k], #[trigger] out@[k]),
    {
        let conditions = convert_conditions(t.conditions);
        out.push(TurnInput { user_message: t.user_message, conditions });
    }
    out
}

/// Convert an entry of a task file into a task.
pub fn convert_task(yt: YamlTask) -> (r: Result<EvalTask, SyscityError>)
    ensures
        r matches Ok(t) && task_converted(yt, t),
{
    let conditions = convert_conditions(yt.conditions);
    let criteria = match yt.criteria {
        Some(yc) => Some(convert_criteria(yc)),
        None => None,
    };
    let setup = convert_commands(yt.setup);
    let cleanup = convert_commands(yt.cleanup);
    let source = parse_source(&yt.source);
    let turns = convert_turns(yt.turns);
    let session_conditions = convert_conditions(yt.session_conditions);
    let agent_type = parse_optional_agent_type(&yt.agent_type);
    Ok(
        EvalTask {
            id: yt.id,
            description: yt.description,
            input: yt.input,
            user_id: "eval_user".to_string(),
            conditions,
            criteria,
            expected_behavior: yt.expected_behavior,
            source,
            failure_reason: yt.failure_reason,
            setup,
            cleanup,
            agent_type,
            turns,
            session_conditions,
            difficulty: yt.difficulty,
            coverage: yt.coverage,
            trials: None,
            min_pass_rate: None,
        },
    )
}

/// The tasks of a task file, and its design of the skill evaluation.
pub fn load_tasks(file: YamlTaskFile) -> (r: Result<LoadedTaskFile, SyscityError>)
    ensures
        r matches Ok(l) && {
            &&& l.tasks@.len() == file.tasks@.len()
            &&& forall|i: int|
                0 <= i < l.tasks@.len() ==> task_converted(file.tasks@[i], #[trigger] l.tasks@[i])
            &&& l.skill_design == file.skill_eval_design
        },
{
    let ghost all = file.tasks@;
    let mut tasks: Vec<EvalTask> = Vec::new();
    for yt in it: file.tasks
        invariant
            it.seq() == all,
            tasks@.len() == it.index(),
            forall|k: int| 0 <= k < tasks@.len() ==> task_converted(all[k], #[trigger] tasks@[k]),
    {
        match convert_task(yt) {
            Ok(t) => tasks.push(t),
            Err(e) => {
                return Err(e);
            },
        }
    }
    Ok(LoadedTaskFile { tasks, skill_design: file.skill_eval_design })
}

// ---------------------------------------------------------------------------
// Places
// ---------------------------------------------------------------------------

/// Default `evals/` directory below the root of the project.
pub fn default_evals_dir(project_root: &str) -> (r: String)
    ensures
        r@ == path_below(project_root@, "evals"@),
{
    join_path(project_root, "evals")
}

/// The path of a file that a manifest names: next to the manifest where `found`
/// says that the file is there, else below the default directory.
pub fn resolve_path(manifest_dir: &str, rel: &str, found: bool, project_root: &str) -> (r: String)
    ensures
        r@ == (if found {
            path_below(manifest_dir@, rel@)
        } else {
            path_below(path_below(project_root@, "evals"@), rel@)
        }),
{
    if found {
        join_path(manifest_dir, rel)
    } else {
        join_path(&default_evals_dir(project_root), rel)
    }
}

// ---------------------------------------------------------------------------
// Manifests
// ---------------------------------------------------------------------------

/// A task file named in a flat manifest.
#[derive(Debug)]
pub struct YamlTaskRef {
    pub id: String,
    pub path: String,
    pub task_filter: Option<String>,
    pub min_pass_rate: Option<Double>,
    pub trials: Option<usize>,
    pub sampling_rate: Option<Double>,
}

/// A task file named in a category of a registry.
#[derive(Debug)]
pub struct YamlSuiteEntry {
    pub id: String,
    pub path: String,
    pub weight: Option<Double>,
    pub min_pass_rate: Option<Double>,
    pub trials: Option<usize>,
    pub sampling_rate: Option<Double>,
    pub continuous_success_required: Option<bool>,
    pub task_filter: Option<String>,
}

/// A category of a registry.
#[derive(Debug)]
pub struct YamlCategory {
    pub name: String,
    pub category: Option<String>,
    pub description: String,
    pub schedule: Option<String>,
    pub suites: Vec<YamlSuiteEntry>,
}

/// A reference to sections of another manifest.
#[derive(Debug)]
pub struct YamlInclude {
    pub path: String,
    pub sections: Vec<String>,
}

/// A suite manifest: flat tasks, categories, and references to others.
#[derive(Debug)]
pub struct YamlManifest {
    pub name: Option<String>,
    pub description: String,
    pub category: Option<String>,
    pub trials: Option<usize>,
    pub min_pass_rate: Option<Double>,
    pub continuous_success_required: Option<bool>,
    pub sampling_rate: Option<Double>,
    pub agent_type: Option<String>,
    pub tasks: Vec<YamlTaskRef>,
    pub categories: StrMap<YamlCategory>,
    pub includes: Vec<YamlInclude>,
}

/// A task file to load, with what holds for its tasks.
#[derive(Debug)]
pub struct ResolvedEntry {
    pub task_path: String,
    pub task_filter: Option<String>,
    pub min_pass_rate: Double,
    pub trials: usize,
    pub sampling_rate: Option<Double>,
}

/// What an entry is.
pub struct EntryModel {
    pub path: Seq<char>,
    pub filter: Option<Seq<char>>,
    pub min_pass_rate: Double,
    pub trials: usize,
    pub sampling_rate: Option<Double>,
}

impl View for ResolvedEntry {
    type V = EntryModel;

    open spec fn view(&self) -> EntryModel {
        EntryModel {
            path: self.task_path@,
            filter: opt_text(self.task_filter),
            min_pass_rate: self.min_pass_rate,
            trials: self.trials,
            sampling_rate: self.sampling_rate,
        }
    }
}

/// What some entries are.
pub open spec fn entry_models(v: Seq<ResolvedEntry>) -> Seq<EntryModel> {
    v.map_values(|e: ResolvedEntry| e@)
}

/// A number, or the default where none is given.
pub open spec fn rate_or(rate: Option<Double>, default: Double) -> Double {
    match rate {
        Some(x) => x,
        None => default,
    }
}

/// A count, or the default where none is given.
pub open spec fn count_or(count: Option<usize>, default: usize) -> usize {
    match count {
        Some(n) => n,
        None => default,
    }
}

fn rate_with_default(rate: Option<Double>, default: Double) -> (r: Double)
    ensures
        r == rate_or(rate, default),
{
    match rate {
        Some(x) => x,
        None => default,
    }
}

fn count_with_default(count: Option<usize>, default: usize) -> (r: usize)
    ensures
        r == count_or(count, default),
{
    match count {
        Some(n) => n,
        None => default,
    }
}

/// The pass rate that is asked where nothing is said: 0.8.
pub open spec fn usual_rate() -> Double {
    Double { bits: 0x3fe9_9999_9999_999a }
}

/// The number of trials where nothing is said.
pub const USUAL_TRIALS: usize = 5;

impl YamlManifest {
    /// The pass rate for what names none.
    pub open spec fn rate(self) -> Double {
        rate_or(self.min_pass_rate, usual_rate())
    }

    /// The trials for what names none.
    pub open spec fn trial_count(self) -> usize {
        count_or(self.trials, USUAL_TRIALS)
    }

    /// The pass rate for what names none.
    pub fn default_min_pass_rate(&self) -> (r: Double)
        ensures
            r == self.rate(),
    {
        rate_with_default(self.min_pass_rate, Double { bits: 0x3fe9_9999_9999_999a })
    }

    /// The trials for what names none.
    pub fn default_trials(&self) -> (r: usize)
        ensures
            r == self.trial_count(),
    {
        count_with_default(self.trials, USUAL_TRIALS)
    }
}

/// Whether a filter lets a task through, by the task's id.
pub open spec fn passes(filter: Option<Seq<char>>, id: Seq<char>) -> bool {
    match filter {
        Some(f) => occurs(id, f),
        None => true,
    }
}

/// Whether a filter lets a task through, by the task's id.
pub fn filter_passes(filter: &Option<String>, id: &str) -> (r: bool)
    ensures
        r == passes(opt_text(*filter), id@),
{
    match filter {
        Some(f) => contains_text(id, f),
        None => true,
    }
}

/// The entry for a reference of a flat manifest.
pub open spec fn flat_entry(t: YamlTaskRef, rate: Double, trials: usize) -> EntryModel {
    EntryModel {
        path: t.path@,
        filter: opt_text(t.task_filter),
        min_pass_rate: rate_or(t.min_pass_rate, rate),
        trials: count_or(t.trials, trials),
        sampling_rate: t.sampling_rate,
    }
}

/// The entries for a reference of a flat manifest: one for each task of the file
/// that passes its filter, given the ids of the tasks. The paths are those that
/// the manifest writes.
pub fn flat_entries(manifest: &YamlManifest, task_ref: &YamlTaskRef, ids: &Vec<String>) -> (r: Vec<
    ResolvedEntry,
>)
    ensures
        r@.len() == texts(ids@).filter(
            |id: Seq<char>| passes(opt_text(task_ref.task_filter), id),
        ).len(),
        forall|i: int|
            0 <= i < r@.len() ==> (#[trigger] r@[i])@ == flat_entry(
                *task_ref,
                manifest.rate(),
                manifest.trial_count(),
            ),
{
    let ghost all = texts(ids@);
    let ghost p = |id: Seq<char>| passes(opt_text(task_ref.task_filter), id);
    let rate = manifest.default_min_pass_rate();
    let trials = manifest.default_trials();
    let mut out: Vec<ResolvedEntry> = Vec::new();
    let mut i: usize = 0;
    proof {
        assert(all.take(0) =~= Seq::empty());
        assert(all.take(0).filter(p).len() == 0) by {
            reveal(Seq::filter);
        }
    }
    while i < ids.len()
        invariant
            i <= ids@.len(),
            all == texts(ids@),
            p == (|id: Seq<char>| passes(opt_text(task_ref.task_filter), id)),
            rate == manifest.rate(),
            trials == manifest.trial_count(),
            out@.len() == all.take(i as int).filter(p).len(),
            forall|k: int|
                0 <= k < out@.len() ==> (#[trigger] out@[k])@ == flat_entry(
                    *task_ref,
                    manifest.rate(),
                    manifest.trial_count(),
                ),
        decreases ids.len() - i,
    {
        proof {
            assert(all[i as int] == ids@[i as int]@);
            assert(all.take(i + 1).drop_last() =~= all.take(i as int));
            assert(all.take(i + 1).last() == all[i as int]);
            reveal(Seq::filter);
        }
        if filter_passes(&task_ref.task_filter, &ids[i]) {
            out.push(
                ResolvedEntry {
                    task_path: task_ref.path.clone(),
                    task_filter: task_ref.task_filter.clone(),
                    min_pass_rate: rate_with_default(task_ref.min_pass_rate, rate),
                    trials: count_with_default(task_ref.trials, trials),
                    sampling_rate: task_ref.sampling_rate,
                },
            );
        }
        i += 1;
    }
    assert(all.take(all.len() as int) =~= all);
    out
}

/// The entry for a suite of a category.
pub open spec fn suite_entry(e: YamlSuiteEntry, rate: Double, trials: usize) -> EntryModel {
    EntryModel {
        path: e.path@,
        filter: opt_text(e.task_filter),
        min_pass_rate: rate_or(e.min_pass_rate, rate),
        trials: count_or(e.trials, trials),
        sampling_rate: e.sampling_rate,
    }
}

/// The entries for the suites of a category.
pub open spec fn suite_entries(v: Seq<YamlSuiteEntry>, rate: Double, trials: usize) -> Seq<
    EntryModel,
> {
    v.map_values(|e: YamlSuiteEntry| suite_entry(e, rate, trials))
}

/// Whether a category is wanted: any is where none is named.
pub open spec fn wanted(key: Seq<char>, sections: Seq<Seq<char>>) -> bool {
    sections.len() == 0 || sections.contains(key)
}

/// The entries for the wanted ones among the first `n` categories.
pub open spec fn category_entries_to(
    cats: Seq<(String, YamlCategory)>,
    sections: Seq<Seq<char>>,
    rate: Double,
    trials: usize,
    n: int,
) -> Seq<EntryModel>
    decreases n,
{
    if n <= 0 || n > cats.len() {
        Seq::empty()
    } else if wanted(cats[n - 1].0@, sections) {
        category_entries_to(cats, sections, rate, trials, n - 1) + suite_entries(
            cats[n - 1].1.suites@,
            rate,
            trials,
        )
    } else {
        category_entries_to(cats, sections, rate, trials, n - 1)
    }
}

fn wanted_entries(
    categories: &StrMap<YamlCategory>,
    sections: &Vec<String>,
    rate: Double,
    trials: usize,
) -> (r: Vec<ResolvedEntry>)
    ensures
        entry_models(r@) == category_entries_to(
            categories.list(),
            texts(sections@),
            rate,
            trials,
            categories.list().len() as int,
        ),
{
    let ghost cats = categories.list();
    let ghost names = texts(sections@);
    let mut out: Vec<ResolvedEntry> = Vec::new();
    let mut i: usize = 0;
    assert(entry_models(out@) =~= Seq::empty());
    while i < categories.len()
        invariant
            i <= cats.len(),
            cats == categories.list(),
            names == texts(sections@),
            entry_models(out@) == category_entries_to(cats, names, rate, trials, i as int),
        decreases categories.list().len() - i,
    {
        let key = categories.key_at(i);
        let cat = categories.value_at(i);
        if sections.is_empty() || is_one_of(sections.as_slice(), key) {
            let ghost base = entry_models(out@);
            let ghost all = suite_entries(cat.suites@, rate, trials);
            let mut k: usize = 0;
            assert(entry_models(out@) =~= base + all.take(0));
            while k < cat.suites.len()
                invariant
                    k <= cat.suites@.len(),
                    all == suite_entries(cat.suites@, rate, trials),
                    entry_models(out@) == base + all.take(k as int),
                decreases cat.suites.len() - k,
            {
                let ghost before = out@;
                let entry = &cat.suites[k];
                out.push(
                    ResolvedEntry {
                        task_path: entry.path.clone(),
                        task_filter: entry.task_filter.clone(),
                        min_pass_rate: rate_with_default(entry.min_pass_rate, rate),
                        trials: count_with_default(entry.trials, trials),
                        sampling_rate: entry.sampling_rate,
                    },
                );
                proof {
                    assert(out@.last()@ == all[k as int]);
                    assert(entry_models(out@) =~= entry_models(before).push(all[k as int]));
                    assert(base + all.take(k + 1) =~= (base + all.take(k as int)).push(
                        all[k as int],
                    ));
                }
                k += 1;
            }
            assert(all.take(all.len() as int) =~= all);
        }
        i += 1;
    }
    out
}

/// An entry with the directory that its path is meant below: 0 for that of the
/// manifest, `k + 1` for that of the manifest that its include `k` names.
#[derive(Debug)]
pub struct PlacedEntry {
    pub place: usize,
    pub entry: ResolvedEntry,
}

/// What some placed entries are.
pub open spec fn placed_models(v: Seq<PlacedEntry>) -> Seq<(int, EntryModel)> {
    v.map_values(|p: PlacedEntry| (p.place as int, p.entry@))
}

/// Some entries, all in one place.
pub open spec fn at_place(place: int, v: Seq<EntryModel>) -> Seq<(int, EntryModel)> {
    v.map_values(|e: EntryModel| (place, e))
}

/// The entries for the first `n` references of a flat manifest, given the ids of the
/// tasks of their files: for each task that passes the filter one.
pub open spec fn flat_to(m: YamlManifest, ids: Seq<Vec<String>>, n: int) -> Seq<EntryModel>
    decreases n,
{
    if n <= 0 || n > m.tasks@.len() || n > ids.len() {
        Seq::empty()
    } else {
        let t = m.tasks@[n - 1];
        let passing = texts(ids[n - 1]@).filter(
            |id: Seq<char>| passes(opt_text(t.task_filter), id),
        );
        flat_to(m, ids, n - 1) + Seq::new(
            passing.len(),
            |i: int| flat_entry(t, m.rate(), m.trial_count()),
        )
    }
}

/// The entries for the first `n` includes of a manifest, given the manifests that they
/// name.
pub open spec fn included_to(m: YamlManifest, others: Seq<YamlManifest>, n: int) -> Seq<
    (int, EntryModel),
>
    decreases n,
{
    if n <= 0 || n > m.includes@.len() || n > others.len() {
        Seq::empty()
    } else {
        let cats = others[n - 1].categories.list();
        included_to(m, others, n - 1) + at_place(
            n,
            category_entries_to(
                cats,
                texts(m.includes@[n - 1].sections@),
                usual_rate(),
                USUAL_TRIALS,
                cats.len() as int,
            ),
        )
    }
}

/// The entries of a manifest in any of its forms: those of its flat list, of the
/// category that the suite name selects, and of its includes, in this order.
pub open spec fn manifest_models(
    m: YamlManifest,
    suite_name: Seq<char>,
    ids: Seq<Vec<String>>,
    others: Seq<YamlManifest>,
) -> Seq<(int, EntryModel)> {
    let cats = m.categories.list();
    at_place(0, flat_to(m, ids, m.tasks@.len() as int)) + at_place(
        0,
        category_entries_to(
            cats,
            sections_of(suite_name),
            m.rate(),
            m.trial_count(),
            cats.len() as int,
        ),
    ) + included_to(m, others, m.includes@.len() as int)
}

fn put_placed(out: &mut Vec<PlacedEntry>, place: usize, entries: Vec<ResolvedEntry>)
    ensures
        placed_models(final(out)@) == placed_models(old(out)@) + at_place(
            place as int,
            entry_models(entries@),
        ),
{
    let ghost before = placed_models(out@);
    let ghost parts = entries@;
    let ghost added = at_place(place as int, entry_models(parts));
    assert(before + added.take(0) =~= before);
    for e in it: entries
        invariant
            it.seq() == parts,
            added == at_place(place as int, entry_models(parts)),
            placed_models(out@) == before + added.take(it.index()),
    {
        let ghost mid = out@;
        out.push(PlacedEntry { place, entry: e });
        proof {
            let i = it.index();
            assert(added[i] == (place as int, e@));
            assert(placed_models(out@) =~= placed_models(mid).push((place as int, e@)));
            assert(before + added.take(i + 1) =~= (before + added.take(i)).push(added[i]));
        }
    }
    assert(added.take(added.len() as int) =~= added);
}

/// The entries of a manifest, given the ids of the tasks of each file that its flat
/// list names, and the manifest that each of its includes names.
pub fn manifest_entries(
    m: &YamlManifest,
    suite_name: &str,
    ids: &Vec<Vec<String>>,
    others: &Vec<YamlManifest>,
) -> (r: Vec<PlacedEntry>)
    requires
        ids@.len() == m.tasks@.len(),
        others@.len() == m.includes@.len(),
    ensures
        placed_models(r@) == manifest_models(*m, suite_name@, ids@, others@),
{
    let mut out: Vec<PlacedEntry> = Vec::new();
    let mut i: usize = 0;
    assert(placed_models(out@) =~= at_place(0, flat_to(*m, ids@, 0)));
    while i < m.tasks.len()
        invariant
            i <= m.tasks@.len(),
            ids@.len() == m.tasks@.len(),
            placed_models(out@) == at_place(0, flat_to(*m, ids@, i as int)),
        decreases m.tasks.len() - i,
    {
        let entries = flat_entries(m, &m.tasks[i], &ids[i]);
        proof {
            let before = flat_to(*m, ids@, i as int);
            let more = entry_models(entries@);
            assert(flat_to(*m, ids@, i + 1) =~= before + more);
            assert(at_place(0, before + more) =~= at_place(0, before) + at_place(0, more));
        }
        put_placed(&mut out, 0, entries);
        i += 1;
    }
    put_placed(&mut out, 0, category_entries(m, suite_name));
    let ghost own = placed_models(out@);
    let mut k: usize = 0;
    assert(own + included_to(*m, others@, 0) =~= own);
    while k < m.includes.len()
        invariant
            k <= m.includes@.len(),
            others@.len() == m.includes@.len(),
            placed_models(out@) == own + included_to(*m, others@, k as int),
        decreases m.includes.len() - k,
    {
        let ghost before = included_to(*m, others@, k as int);
        let entries = included_entries(&others[k], &m.includes[k].sections);
        let ghost more = at_place(k + 1, entry_models(entries@));
        assert(k < m.includes.len());
        put_placed(&mut out, k + 1, entries);
        assert(own + before + more =~= own + (before + more));
        k += 1;
    }
    out
}

/// An entry with its path resolved: below its directory where `found` says that there
/// is a file, else below the default directory.
pub open spec fn resolved(
    p: (int, EntryModel),
    dirs: Seq<Seq<char>>,
    found: bool,
    project_root: Seq<char>,
) -> EntryModel {
    EntryModel {
        path: if found {
            path_below(dirs[p.0], p.1.path)
        } else {
            path_below(path_below(project_root, "evals"@), p.1.path)
        },
        ..p.1
    }
}

/// The entries with their paths resolved, given the directory of each place and whether
/// the file of each entry is there.
pub fn resolve_entries(
    entries: Vec<PlacedEntry>,
    dirs: &Vec<String>,
    found: &Vec<bool>,
    project_root: &str,
) -> (r: Vec<ResolvedEntry>)
    requires
        found@.len() == entries@.len(),
        forall|i: int| 0 <= i < entries@.len() ==> (#[trigger] entries@[i]).place < dirs@.len(),
    ensures
        r@.len() == entries@.len(),
        forall|i: int|
            0 <= i < r@.len() ==> (#[trigger] r@[i])@ == resolved(
                placed_models(entries@)[i],
                texts(dirs@),
                found@[i],
                project_root@,
            ),
{
    let ghost parts = entries@;
    let mut out: Vec<ResolvedEntry> = Vec::new();
    let mut at: usize = 0;
    for p in it: entries
        invariant
            it.seq() == parts,
            found@.len() == parts.len(),
            at == it.index(),
            out@.len() == at,
            forall|i: int| 0 <= i < parts.len() ==> (#[trigger] parts[i]).place < dirs@.len(),
            forall|i: int|
                0 <= i < out@.len() ==> (#[trigger] out@[i])@ == resolved(
                    placed_models(parts)[i],
                    texts(dirs@),
                    found@[i],
                    project_root@,
                ),
    {
        let PlacedEntry { place, entry } = p;
        assert(parts[it.index()].place == place);
        let task_path = resolve_path(&dirs[place], &entry.task_path, found[at], project_root);
        out.push(ResolvedEntry { task_path, ..entry });
        assert(at < found.len());
        at += 1;
    }
    out
}

/// The categories that a suite name stands for.
pub open spec fn sections_of(suite_name: Seq<char>) -> Seq<Seq<char>> {
    if suite_name.len() == 0 {
        Seq::empty()
    } else {
        seq![suite_name]
    }
}

/// The entries for the suites of the category that a suite name selects, or of
/// every category where the name is empty. The paths are those that the
/// manifest writes.
pub fn category_entries(manifest: &YamlManifest, suite_name: &str) -> (r: Vec<ResolvedEntry>)
    ensures
        entry_models(r@) == category_entries_to(
            manifest.categories.list(),
            sections_of(suite_name@),
            manifest.rate(),
            manifest.trial_count(),
            manifest.categories.list().len() as int,
        ),
{
    let mut sections: Vec<String> = Vec::new();
    if !suite_name.is_empty() {
        sections.push(suite_name.to_string());
    }
    assert(texts(sections@) =~= sections_of(suite_name@));
    wanted_entries(
        &manifest.categories,
        &sections,
        manifest.default_min_pass_rate(),
        manifest.default_trials(),
    )
}

/// The entries of a manifest that another refers to: those of the sections that
/// it names, or of all. What the manifest says of trials and rates as a whole is
/// left aside.
pub fn included_entries(manifest: &YamlManifest, sections: &Vec<String>) -> (r: Vec<ResolvedEntry>)
    ensures
        entry_models(r@) == category_entries_to(
            manifest.categories.list(),
            texts(sections@),
            usual_rate(),
            USUAL_TRIALS,
            manifest.categories.list().len() as int,
        ),
{
    wanted_entries(
        &manifest.categories,
        sections,
        Double { bits: 0x3fe9_9999_9999_999a },
        USUAL_TRIALS,
    )
}

} // verus!
