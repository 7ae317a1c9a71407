//! Laws of loading tasks and manifests.
use vstd::prelude::*;

use crate::error::SyscityError;
use crate::eval::dataset::{
    condition_models, dimension_models, AgentType, Comparison, ConditionModel, DimensionModel,
    EvalTask, EvalTaskSource, GoalCondition, QualityDimension, SuiteCategory,
};
use crate::eval::loader::{
    all_converted, category_entries, category_entries_to, convert_condition, convert_conditions,
    convert_task, converted, default_evals_dir, entry_models, filter_passes, flat_entries,
    included_entries, load_tasks, manifest_entries, parse_agent_type, parse_category,
    parse_dimension, parse_operator, parse_optional_agent_type, parse_source, resolve_entries,
    resolve_path, suite_entries, wanted, yaml_value_to_string, EntryModel, LoadedTaskFile,
    PlacedEntry, ResolvedEntry, YamlCategory, YamlCondition, YamlManifest, YamlScalar, YamlTask,
    YamlTaskFile, YamlTaskRef,
};
use crate::path::path_below;
use crate::scalar::Double;
use crate::text::{decimal, occurs, opt_text, texts};

verus! {

/// A label stands for the dimension that it is the name of; any other label is a
/// dimension of its own.
pub proof fn law_labels_name_their_dimensions(s: &str, r: QualityDimension)
    requires
        call_ensures(parse_dimension, (s,), r),
    ensures
        s@ == "factual_accuracy"@ <==> r@ is FactualAccuracy,
        s@ == "completeness"@ <==> r@ is Completeness,
        s@ == "consistency"@ <==> r@ is Consistency,
        s@ == "clarity"@ <==> r@ is Clarity,
        s@ == "actionable"@ <==> r@ is Actionable,
        s@ == "safety"@ <==> r@ is Safety,
        s@ == "instruction_following"@ <==> r@ is InstructionFollowing,
        s@ == "context_retention"@ <==> r@ is ContextRetention,
        s@ == "goal_switch"@ <==> r@ is GoalSwitch,
        s@ == "emotion_handling"@ <==> r@ is EmotionHandling,
        s@ == "evidence_consistency"@ <==> r@ is EvidenceConsistency,
        r@ matches DimensionModel::Custom(label) ==> label == s@,
{
    reveal_strlit("factual_accuracy");
    reveal_strlit("completeness");
    reveal_strlit("consistency");
    reveal_strlit("clarity");
    reveal_strlit("actionable");
    reveal_strlit("safety");
    reveal_strlit("instruction_following");
    reveal_strlit("context_retention");
    reveal_strlit("goal_switch");
    reveal_strlit("emotion_handling");
    reveal_strlit("evidence_consistency");
    assert("factual_accuracy"@.len() == 16 && "factual_accuracy"@[0] == 'f' && "factual_accuracy"@[1] == 'a' && "factual_accuracy"@[2] == 'c' && "factual_accuracy"@[3] == 't');
    assert("completeness"@.len() == 12 && "completeness"@[0] == 'c' && "completeness"@[1] == 'o' && "completeness"@[2] == 'm' && "completeness"@[3] == 'p');
    assert("consistency"@.len() == 11 && "consistency"@[0] == 'c' && "consistency"@[1] == 'o' && "consistency"@[2] == 'n' && "consistency"@[3] == 's');
    assert("clarity"@.len() == 7 && "clarity"@[0] == 'c' && "clarity"@[1] == 'l' && "clarity"@[2] == 'a' && "clarity"@[3] == 'r');
    assert("actionable"@.len() == 10 && "actionable"@[0] == 'a' && "actionable"@[1] == 'c' && "actionable"@[2] == 't' && "actionable"@[3] == 'i');
    assert("safety"@.len() == 6 && "safety"@[0] == 's' && "safety"@[1] == 'a' && "safety"@[2] == 'f' && "safety"@[3] == 'e');
    assert("instruction_following"@.len() == 21 && "instruction_following"@[0] == 'i' && "instruction_following"@[1] == 'n' && "instruction_following"@[2] == 's' && "instruction_following"@[3] == 't');
    assert("context_retention"@.len() == 17 && "context_retention"@[0] == 'c' && "context_retention"@[1] == 'o' && "context_retention"@[2] == 'n' && "context_retention"@[3] == 't');
    assert("goal_switch"@.len() == 11 && "goal_switch"@[0] == 'g' && "goal_switch"@[1] == 'o' && "goal_switch"@[2] == 'a' && "goal_switch"@[3] == 'l');
    assert("emotion_handling"@.len() == 16 && "emotion_handling"@[0] == 'e' && "emotion_handling"@[1] == 'm' && "emotion_handling"@[2] == 'o' && "emotion_handling"@[3] == 't');
    assert("evidence_consistency"@.len() == 20 && "evidence_consistency"@[0] == 'e' && "evidence_consistency"@[1] == 'v' && "evidence_consistency"@[2] == 'i' && "evidence_consistency"@[3] == 'd');
}

/// An operator is written as a sign, in letters or as its own name, and each of
/// these means that operator; anything else means equality.
pub proof fn law_operators_mean_what_they_say(s: &str, r: Comparison)
    requires
        call_ensures(parse_operator, (s,), r),
    ensures
        s@ == "gt"@ ==> r == Comparison::Gt,
        s@ == ">"@ ==> r == Comparison::Gt,
        s@ == "Gt"@ ==> r == Comparison::Gt,
        s@ == "lt"@ ==> r == Comparison::Lt,
        s@ == "<"@ ==> r == Comparison::Lt,
        s@ == "Lt"@ ==> r == Comparison::Lt,
        s@ == "gte"@ ==> r == Comparison::Ge,
        s@ == ">="@ ==> r == Comparison::Ge,
        s@ == "ge"@ ==> r == Comparison::Ge,
        s@ == "Ge"@ ==> r == Comparison::Ge,
        s@ == "lte"@ ==> r == Comparison::Le,
        s@ == "<="@ ==> r == Comparison::Le,
        s@ == "le"@ ==> r == Comparison::Le,
        s@ == "Le"@ ==> r == Comparison::Le,
        s@ == "eq"@ ==> r == Comparison::Eq,
        s@ == "=="@ ==> r == Comparison::Eq,
        s@ == "Eq"@ ==> r == Comparison::Eq,
        r != Comparison::Eq ==> s@ == "gt"@ || s@ == ">"@ || s@ == "Gt"@ || s@ == "lt"@ || s@ == "<"@ || s@ == "Lt"@ || s@ == "gte"@ || s@ == ">="@ || s@ == "ge"@ || s@ == "Ge"@ || s@ == "lte"@ || s@ == "<="@ || s@ == "le"@ || s@ == "Le"@,
{
    reveal_strlit("gt");
    reveal_strlit(">");
    reveal_strlit("Gt");
    reveal_strlit("lt");
    reveal_strlit("<");
    reveal_strlit("Lt");
    reveal_strlit("gte");
    reveal_strlit(">=");
    reveal_strlit("ge");
    reveal_strlit("Ge");
    reveal_strlit("lte");
    reveal_strlit("<=");
    reveal_strlit("le");
    reveal_strlit("Le");
    reveal_strlit("eq");
    reveal_strlit("==");
    reveal_strlit("Eq");
    assert("gt"@.len() == 2 && "gt"@[0] == 'g' && "gt"@[1] == 't');
    assert(">"@.len() == 1 && ">"@[0] == '>');
    assert("Gt"@.len() == 2 && "Gt"@[0] == 'G' && "Gt"@[1] == 't');
    assert("lt"@.len() == 2 && "lt"@[0] == 'l' && "lt"@[1] == 't');
    assert("<"@.len() == 1 && "<"@[0] == '<');
    assert("Lt"@.len() == 2 && "Lt"@[0] == 'L' && "Lt"@[1] == 't');
    assert("gte"@.len() == 3 && "gte"@[0] == 'g' && "gte"@[1] == 't' && "gte"@[2] == 'e');
    assert(">="@.len() == 2 && ">="@[0] == '>' && ">="@[1] == '=');
    assert("ge"@.len() == 2 && "ge"@[0] == 'g' && "ge"@[1] == 'e');
    assert("Ge"@.len() == 2 && "Ge"@[0] == 'G' && "Ge"@[1] == 'e');
    assert("lte"@.len() == 3 && "lte"@[0] == 'l' && "lte"@[1] == 't' && "lte"@[2] == 'e');
    assert("<="@.len() == 2 && "<="@[0] == '<' && "<="@[1] == '=');
    assert("le"@.len() == 2 && "le"@[0] == 'l' && "le"@[1] == 'e');
    assert("Le"@.len() == 2 && "Le"@[0] == 'L' && "Le"@[1] == 'e');
    assert("eq"@.len() == 2 && "eq"@[0] == 'e' && "eq"@[1] == 'q');
    assert("=="@.len() == 2 && "=="@[0] == '=' && "=="@[1] == '=');
    assert("Eq"@.len() == 2 && "Eq"@[0] == 'E' && "Eq"@[1] == 'q');
}

/// A category goes by its name, and one that is not known is a capability.
pub proof fn law_categories_go_by_their_names(s: &str, r: SuiteCategory)
    requires
        call_ensures(parse_category, (s,), r),
    ensures
        s@ == "capability"@ ==> r == SuiteCategory::Capability,
        s@ == "regression"@ <==> r == SuiteCategory::Regression,
        s@ == "adversarial"@ <==> r == SuiteCategory::Adversarial,
        s@ == "multi_turn"@ <==> r == SuiteCategory::MultiTurnHard,
{
    reveal_strlit("capability");
    reveal_strlit("regression");
    reveal_strlit("adversarial");
    reveal_strlit("multi_turn");
    assert("capability"@.len() == 10 && "capability"@[0] == 'c' && "capability"@[1] == 'a' && "capability"@[2] == 'p' && "capability"@[3] == 'a');
    assert("regression"@.len() == 10 && "regression"@[0] == 'r' && "regression"@[1] == 'e' && "regression"@[2] == 'g' && "regression"@[3] == 'r');
    assert("adversarial"@.len() == 11 && "adversarial"@[0] == 'a' && "adversarial"@[1] == 'd' && "adversarial"@[2] == 'v' && "adversarial"@[3] == 'e');
    assert("multi_turn"@.len() == 10 && "multi_turn"@[0] == 'm' && "multi_turn"@[1] == 'u' && "multi_turn"@[2] == 'l' && "multi_turn"@[3] == 't');
}

/// A kind of agent goes by its name, and one that is not known answers questions;
/// a task that names none has none.
pub proof fn law_kinds_of_agents_go_by_their_names(
    s: &str,
    r: AgentType,
    o: &Option<String>,
    q: Option<AgentType>,
)
    requires
        call_ensures(parse_agent_type, (s,), r),
        call_ensures(parse_optional_agent_type, (o,), q),
    ensures
        s@ == "knowledge_qa"@ ==> r == AgentType::KnowledgeQA,
        s@ == "task_execution"@ <==> r == AgentType::TaskExecution,
        s@ == "reasoning_decision"@ <==> r == AgentType::ReasoningDecision,
        s@ == "multi_turn_guide"@ <==> r == AgentType::MultiTurnGuide,
        s@ == "creative_generation"@ <==> r == AgentType::CreativeGeneration,
        s@ == "multi_agent"@ <==> r == AgentType::MultiAgent,
        q is Some <==> *o is Some,
        *o is Some && o->0@ == s@ ==> q == Some(r),
{
    reveal_strlit("knowledge_qa");
    reveal_strlit("task_execution");
    reveal_strlit("reasoning_decision");
    reveal_strlit("multi_turn_guide");
    reveal_strlit("creative_generation");
    reveal_strlit("multi_agent");
    assert("knowledge_qa"@.len() == 12 && "knowledge_qa"@[0] == 'k' && "knowledge_qa"@[1] == 'n' && "knowledge_qa"@[2] == 'o' && "knowledge_qa"@[3] == 'w');
    assert("task_execution"@.len() == 14 && "task_execution"@[0] == 't' && "task_execution"@[1] == 'a' && "task_execution"@[2] == 's' && "task_execution"@[3] == 'k');
    assert("reasoning_decision"@.len() == 18 && "reasoning_decision"@[0] == 'r' && "reasoning_decision"@[1] == 'e' && "reasoning_decision"@[2] == 'a' && "reasoning_decision"@[3] == 's');
    assert("multi_turn_guide"@.len() == 16 && "multi_turn_guide"@[0] == 'm' && "multi_turn_guide"@[1] == 'u' && "multi_turn_guide"@[2] == 'l' && "multi_turn_guide"@[3] == 't');
    assert("creative_generation"@.len() == 19 && "creative_generation"@[0] == 'c' && "creative_generation"@[1] == 'r' && "creative_generation"@[2] == 'e' && "creative_generation"@[3] == 'a');
    assert("multi_agent"@.len() == 11 && "multi_agent"@[0] == 'm' && "multi_agent"@[1] == 'u' && "multi_agent"@[2] == 'l' && "multi_agent"@[3] == 't');
}

/// A source goes by its name; a task of no source, or of an unknown one, was
/// designed by an expert.
pub proof fn law_sources_go_by_their_names(s: &Option<String>, r: EvalTaskSource)
    requires
        call_ensures(parse_source, (s,), r),
    ensures
        r == EvalTaskSource::Extended <==> opt_text(*s) == Some("extended"@),
        r == EvalTaskSource::Online <==> opt_text(*s) == Some("online"@),
        r == EvalTaskSource::BadcaseRecycle <==> opt_text(*s) == Some("badcase"@),
        *s is None ==> r == EvalTaskSource::ExpertDesign,
{
    reveal_strlit("extended");
    reveal_strlit("online");
    reveal_strlit("badcase");
    assert("extended"@.len() == 8 && "extended"@[0] == 'e' && "extended"@[1] == 'x' && "extended"@[2] == 't' && "extended"@[3] == 'e');
    assert("online"@.len() == 6 && "online"@[0] == 'o' && "online"@[1] == 'n' && "online"@[2] == 'l' && "online"@[3] == 'i');
    assert("badcase"@.len() == 7 && "badcase"@[0] == 'b' && "badcase"@[1] == 'a' && "badcase"@[2] == 'd' && "badcase"@[3] == 'c');
}

/// A condition is of the kind that it names and checks what it names: its command
/// or path, the text that has to be there or must not, the code, the operator and
/// the threshold. One of an unknown kind is none.
pub proof fn law_conditions_check_what_they_name(
    yc: YamlCondition,
    r: Option<GoalCondition>,
    op: Comparison,
    operator: &str,
    text: String,
    scalar: &YamlScalar,
)
    requires
        call_ensures(convert_condition, (yc,), r),
        call_ensures(parse_operator, (operator,), op),
        operator@ == yc.operator@,
        call_ensures(yaml_value_to_string, (scalar,), text),
    ensures
        r is Some <==> yc.cond_type@ == "exit_code"@ || yc.cond_type@ == "pattern"@ || yc.cond_type@ == "file_exists"@ || yc.cond_type@ == "must_not_contain"@ || yc.cond_type@ == "static_analysis"@ || yc.cond_type@ == "numeric"@,
        yc.cond_type@ == "exit_code"@ ==> r->0@ == (ConditionModel::ExitCode {
            command: yc.command@,
            expected: yc.expected,
        }),
        yc.cond_type@ == "pattern"@ && yc.must_contain == Some(*scalar) ==> r->0@ == (
        ConditionModel::Pattern { command: yc.command@, must_contain: text@ }),
        yc.cond_type@ == "file_exists"@ ==> r->0@ == (ConditionModel::FileExists {
            path: yc.path@,
        }),
        yc.cond_type@ == "must_not_contain"@ && yc.must_not_contain == Some(*scalar) ==> r->0@ == (
        ConditionModel::MustNotContain { command: yc.command@, must_not_contain: text@ }),
        yc.cond_type@ == "must_not_contain"@ && yc.must_not_contain is None && yc.must_contain
            == Some(*scalar) ==> r->0@ == (ConditionModel::MustNotContain {
            command: yc.command@,
            must_not_contain: text@,
        }),
        yc.cond_type@ == "static_analysis"@ ==> r->0@ == (ConditionModel::StaticAnalysis {
            command: yc.command@,
        }),
        yc.cond_type@ == "numeric"@ && yc.threshold is Some ==> r->0@ == (
        ConditionModel::Numeric { command: yc.command@, operator: op, threshold: yc.threshold->0 }),
{
    reveal_strlit("exit_code");
    reveal_strlit("pattern");
    reveal_strlit("file_exists");
    reveal_strlit("must_not_contain");
    reveal_strlit("static_analysis");
    reveal_strlit("numeric");
    assert("exit_code"@.len() == 9 && "exit_code"@[0] == 'e' && "exit_code"@[1] == 'x' && "exit_code"@[2] == 'i' && "exit_code"@[3] == 't');
    assert("pattern"@.len() == 7 && "pattern"@[0] == 'p' && "pattern"@[1] == 'a' && "pattern"@[2] == 't' && "pattern"@[3] == 't');
    assert("file_exists"@.len() == 11 && "file_exists"@[0] == 'f' && "file_exists"@[1] == 'i' && "file_exists"@[2] == 'l' && "file_exists"@[3] == 'e');
    assert("must_not_contain"@.len() == 16 && "must_not_contain"@[0] == 'm' && "must_not_contain"@[1] == 'u' && "must_not_contain"@[2] == 's' && "must_not_contain"@[3] == 't');
    assert("static_analysis"@.len() == 15 && "static_analysis"@[0] == 's' && "static_analysis"@[1] == 't' && "static_analysis"@[2] == 'a' && "static_analysis"@[3] == 't');
    assert("numeric"@.len() == 7 && "numeric"@[0] == 'n' && "numeric"@[1] == 'u' && "numeric"@[2] == 'm' && "numeric"@[3] == 'e');
}

/// A text is taken as it is, a number as its digits and a truth value as its
/// word.
pub proof fn law_scalars_are_written_as_they_read(v: &YamlScalar, r: String)
    requires
        call_ensures(yaml_value_to_string, (v,), r),
    ensures
        *v matches YamlScalar::Text(s) ==> r@ == s@,
        *v matches YamlScalar::Whole(n) ==> crate::text::number_of(r@) == Some(n as nat),
        *v matches YamlScalar::Int(n) ==> if n >= 0 {
            crate::text::number_of(r@) == Some(n as nat)
        } else {
            r@ == "-"@ + decimal((-n) as nat)
        },
        *v == YamlScalar::Bool(true) ==> r@ == "true"@,
        *v == YamlScalar::Bool(false) ==> r@ == "false"@,
{
    match *v {
        YamlScalar::Whole(n) => crate::laws::text::law_decimals_read_back(n as nat),
        YamlScalar::Int(n) => {
            if n >= 0 {
                crate::laws::text::law_decimals_read_back(n as nat);
            }
        },
        _ => {},
    }
}

/// Every condition of a known kind is kept, in its order, and none is made up.
pub proof fn law_known_conditions_are_kept(
    v: Vec<YamlCondition>,
    r: Vec<GoalCondition>,
    i: int,
)
    requires
        call_ensures(convert_conditions, (v,), r),
    ensures
        r@.len() <= v@.len(),
        0 <= i < v@.len() && converted(v@[i]) is Some ==> condition_models(r@).contains(
            converted(v@[i])->0,
        ),
        (forall|k: int| 0 <= k < v@.len() ==> converted(#[trigger] v@[k]) is Some) ==> r@.len()
            == v@.len() && (0 <= i < v@.len() ==> r@[i]@ == converted(v@[i])->0),
{
    lemma_all_converted(v@, i);
    assert(condition_models(r@).len() == r@.len());
    if (forall|k: int| 0 <= k < v@.len() ==> converted(#[trigger] v@[k]) is Some) && 0 <= i
        < v@.len() {
        assert(condition_models(r@)[i] == r@[i]@);
    }
}

proof fn lemma_all_converted(v: Seq<YamlCondition>, i: int)
    ensures
        all_converted(v).len() <= v.len(),
        0 <= i < v.len() && converted(v[i]) is Some ==> all_converted(v).contains(
            converted(v[i])->0,
        ),
        (forall|k: int| 0 <= k < v.len() ==> converted(#[trigger] v[k]) is Some) ==> all_converted(
            v,
        ).len() == v.len() && (0 <= i < v.len() ==> all_converted(v)[i] == converted(v[i])->0),
    decreases v.len(),
{
    if v.len() > 0 {
        let less = v.drop_last();
        lemma_all_converted(less, i);
        let now = all_converted(v);
        if 0 <= i < v.len() && converted(v[i]) is Some {
            if i == v.len() - 1 {
                assert(now.last() == converted(v[i])->0);
            } else {
                assert(less[i] == v[i]);
                let k = choose|k: int| 0 <= k < all_converted(less).len() && all_converted(less)[k]
                    == converted(v[i])->0;
                assert(now[k] == converted(v[i])->0);
            }
        }
        if forall|k: int| 0 <= k < v.len() ==> converted(#[trigger] v[k]) is Some {
            assert forall|k: int| 0 <= k < less.len() implies converted(#[trigger] less[k])
                is Some by {
                assert(less[k] == v[k]);
            }
            assert(converted(v[v.len() - 1]) is Some);
        }
    }
}

/// A task is loaded as it is written: its texts, its labels and its turns in
/// their places; what a task file does not say of trials and rates is left to the
/// suite.
pub proof fn law_tasks_are_loaded_as_written(
    file: YamlTaskFile,
    r: Result<LoadedTaskFile, SyscityError>,
    i: int,
    s: EvalTaskSource,
)
    requires
        call_ensures(load_tasks, (file,), r),
        0 <= i < file.tasks@.len(),
        call_ensures(parse_source, (&file.tasks@[i].source,), s),
    ensures
        r is Ok,
        r->Ok_0.tasks@.len() == file.tasks@.len(),
        r->Ok_0.skill_design == file.skill_eval_design,
        ({
            let y = file.tasks@[i];
            let t = r->Ok_0.tasks@[i];
            &&& t.id@ == y.id@
            &&& t.input@ == y.input@
            &&& t.description@ == y.description@
            &&& t.expected_behavior@ == y.expected_behavior@
            &&& opt_text(t.failure_reason) == opt_text(y.failure_reason)
            &&& t.source == s
            &&& t.difficulty@ == y.difficulty@
            &&& texts(t.coverage@) == texts(y.coverage@)
            &&& t.user_id@ == "eval_user"@
            &&& t.trials is None
            &&& t.min_pass_rate is None
            &&& t.criteria is Some <==> y.criteria is Some
            &&& t.turns@.len() == y.turns@.len()
            &&& t.setup@.len() == y.setup@.len()
            &&& t.cleanup@.len() == y.cleanup@.len()
            &&& forall|k: int|
                0 <= k < t.turns@.len() ==> (#[trigger] t.turns@[k]).user_message@
                    == y.turns@[k].user_message@
            &&& forall|k: int|
                0 <= k < t.setup@.len() ==> (#[trigger] t.setup@[k]).command@
                    == y.setup@[k].command@
            &&& forall|k: int|
                0 <= k < t.cleanup@.len() ==> (#[trigger] t.cleanup@[k]).command@
                    == y.cleanup@[k].command@
        }),
{
    let y = file.tasks@[i];
    let t = r->Ok_0.tasks@[i];
    assert(crate::eval::loader::task_converted(y, t));
    let a = crate::eval::loader::commands_of(t.setup@);
    let b = crate::eval::loader::yaml_commands_of(y.setup@);
    assert(a.len() == t.setup@.len() && b.len() == y.setup@.len());
    assert forall|k: int| 0 <= k < t.setup@.len() implies (#[trigger] t.setup@[k]).command@
        == y.setup@[k].command@ by {
        assert(a[k] == b[k]);
    }
    let c = crate::eval::loader::commands_of(t.cleanup@);
    let d = crate::eval::loader::yaml_commands_of(y.cleanup@);
    assert(c.len() == t.cleanup@.len() && d.len() == y.cleanup@.len());
    assert forall|k: int| 0 <= k < t.cleanup@.len() implies (#[trigger] t.cleanup@[k]).command@
        == y.cleanup@[k].command@ by {
        assert(c[k] == d[k]);
    }
    assert forall|k: int| 0 <= k < t.turns@.len() implies (#[trigger] t.turns@[k]).user_message@
        == y.turns@[k].user_message@ by {
        assert(crate::eval::loader::turn_converted(y.turns@[k], t.turns@[k]));
    }
}

/// A filter lets pass the ids that hold it, and no filter all of them.
pub proof fn law_a_filter_passes_what_holds_it(filter: &Option<String>, id: &str, r: bool)
    requires
        call_ensures(filter_passes, (filter, id), r),
    ensures
        *filter is None ==> r,
        *filter is Some ==> (r <==> occurs(id@, filter->0@)),
{
}

/// What an entry of a manifest says itself wins over what the manifest says; a
/// manifest that says nothing asks for a rate of 0.8 and its usual trials.
pub proof fn law_an_entry_keeps_its_own_settings(
    manifest: &YamlManifest,
    task_ref: &YamlTaskRef,
    ids: &Vec<String>,
    r: Vec<ResolvedEntry>,
    i: int,
)
    requires
        call_ensures(flat_entries, (manifest, task_ref, ids), r),
        0 <= i < r@.len(),
    ensures
        r@[i]@.path == task_ref.path@,
        r@[i]@.filter == opt_text(task_ref.task_filter),
        r@[i]@.sampling_rate == task_ref.sampling_rate,
        task_ref.min_pass_rate is Some ==> r@[i]@.min_pass_rate == task_ref.min_pass_rate->0,
        task_ref.min_pass_rate is None && manifest.min_pass_rate is Some ==> r@[i]@.min_pass_rate
            == manifest.min_pass_rate->0,
        task_ref.min_pass_rate is None && manifest.min_pass_rate is None
            ==> r@[i]@.min_pass_rate.bits == 0x3fe9_9999_9999_999a,
        task_ref.trials is Some ==> r@[i]@.trials == task_ref.trials->0,
        task_ref.trials is None && manifest.trials is Some ==> r@[i]@.trials
            == manifest.trials->0,
{
}

/// The entries of a registry are those of the category that is asked for, or of
/// all where none is: each with its path, its filter and its own settings.
pub proof fn law_the_category_asked_for_is_loaded(
    manifest: &YamlManifest,
    suite_name: &str,
    r: Vec<ResolvedEntry>,
    c: int,
    i: int,
)
    requires
        call_ensures(category_entries, (manifest, suite_name), r),
        0 <= c < manifest.categories.list().len(),
        0 <= i < manifest.categories.list()[c].1.suites@.len(),
        suite_name@.len() == 0 || manifest.categories.list()[c].0@ == suite_name@,
    ensures
        exists|k: int|
            0 <= k < r@.len() && {
                let e = (#[trigger] r@[k])@;
                let s = manifest.categories.list()[c].1.suites@[i];
                &&& e.path == s.path@
                &&& e.filter == opt_text(s.task_filter)
                &&& e.sampling_rate == s.sampling_rate
                &&& s.min_pass_rate is Some ==> e.min_pass_rate == s.min_pass_rate->0
                &&& s.min_pass_rate is None && manifest.min_pass_rate is Some ==> e.min_pass_rate
                    == manifest.min_pass_rate->0
                &&& s.trials is Some ==> e.trials == s.trials->0
                &&& s.trials is None && manifest.trials is Some ==> e.trials == manifest.trials->0
            },
{
    let cats = manifest.categories.list();
    let sections = crate::eval::loader::sections_of(suite_name@);
    let rate = manifest.rate();
    let trials = manifest.trial_count();
    if suite_name@.len() > 0 {
        assert(sections[0] == suite_name@);
    }
    assert(wanted(cats[c].0@, sections));
    lemma_category(cats, sections, rate, trials, cats.len() as int, c, i);
    let all = entry_models(r@);
    let s = crate::eval::loader::suite_entry(cats[c].1.suites@[i], rate, trials);
    let k = choose|k: int| 0 <= k < all.len() && all[k] == s;
    assert(all[k] == r@[k]@);
}

proof fn lemma_category(
    cats: Seq<(String, YamlCategory)>,
    sections: Seq<Seq<char>>,
    rate: Double,
    trials: usize,
    n: int,
    c: int,
    i: int,
)
    requires
        0 <= c < n <= cats.len(),
        0 <= i < cats[c].1.suites@.len(),
        wanted(cats[c].0@, sections),
    ensures
        category_entries_to(cats, sections, rate, trials, n).contains(
            crate::eval::loader::suite_entry(cats[c].1.suites@[i], rate, trials),
        ),
    decreases n,
{
    let now = category_entries_to(cats, sections, rate, trials, n);
    let less = category_entries_to(cats, sections, rate, trials, n - 1);
    let s = crate::eval::loader::suite_entry(cats[c].1.suites@[i], rate, trials);
    if c == n - 1 {
        let own = suite_entries(cats[c].1.suites@, rate, trials);
        assert(own[i] == s);
        assert(now[less.len() + i] == s);
    } else {
        lemma_category(cats, sections, rate, trials, n - 1, c, i);
        let k = choose|k: int| 0 <= k < less.len() && less[k] == s;
        assert(now[k] == s);
    }
}

/// A path that is found beside its manifest is taken there, any other below the
/// evaluations of the project.
pub proof fn law_paths_are_looked_for_beside_the_manifest(
    manifest_dir: &str,
    rel: &str,
    found: bool,
    project_root: &str,
    r: String,
    dir: String,
)
    requires
        call_ensures(resolve_path, (manifest_dir, rel, found, project_root), r),
        call_ensures(default_evals_dir, (project_root,), dir),
    ensures
        found ==> r@ == path_below(manifest_dir@, rel@),
        !found ==> r@ == path_below(dir@, rel@),
        dir@ == path_below(project_root@, "evals"@),
{
}

/// An entry that is resolved keeps everything but its path; the path is taken
/// beside the manifest that the entry stands in, where it was found there.
pub proof fn law_entries_are_resolved_beside_their_manifest(
    entries: Vec<PlacedEntry>,
    dirs: &Vec<String>,
    found: &Vec<bool>,
    project_root: &str,
    r: Vec<ResolvedEntry>,
    i: int,
)
    requires
        call_ensures(resolve_entries, (entries, dirs, found, project_root), r),
        found@.len() == entries@.len(),
        0 <= i < entries@.len(),
        entries@[i].place < dirs@.len(),
    ensures
        r@.len() == entries@.len(),
        r@[i]@.filter == entries@[i].entry@.filter,
        r@[i]@.min_pass_rate == entries@[i].entry@.min_pass_rate,
        r@[i]@.trials == entries@[i].entry@.trials,
        r@[i]@.sampling_rate == entries@[i].entry@.sampling_rate,
        found@[i] ==> r@[i]@.path == path_below(
            dirs@[entries@[i].place as int]@,
            entries@[i].entry@.path,
        ),
        !found@[i] ==> r@[i]@.path == path_below(
            path_below(project_root@, "evals"@),
            entries@[i].entry@.path,
        ),
{
    let p = crate::eval::loader::placed_models(entries@);
    assert(p[i] == (entries@[i].place as int, entries@[i].entry@));
    assert(texts(dirs@)[entries@[i].place as int] == dirs@[entries@[i].place as int]@);
    assert(r@[i]@ == crate::eval::loader::resolved(p[i], texts(dirs@), found@[i], project_root@));
}

/// Sections of another manifest are those that are named, or all where none is;
/// what their entries do not say is filled in with the usual rate, whatever the
/// other manifest says.
pub proof fn law_included_sections_are_those_named(
    manifest: &YamlManifest,
    sections: &Vec<String>,
    r: Vec<ResolvedEntry>,
    c: int,
    i: int,
)
    requires
        call_ensures(included_entries, (manifest, sections), r),
        0 <= c < manifest.categories.list().len(),
        0 <= i < manifest.categories.list()[c].1.suites@.len(),
        sections@.len() == 0 || texts(sections@).contains(manifest.categories.list()[c].0@),
    ensures
        exists|k: int|
            0 <= k < r@.len() && {
                let e = (#[trigger] r@[k])@;
                let s = manifest.categories.list()[c].1.suites@[i];
                &&& e.path == s.path@
                &&& e.filter == opt_text(s.task_filter)
                &&& e.sampling_rate == s.sampling_rate
                &&& s.min_pass_rate is Some ==> e.min_pass_rate == s.min_pass_rate->0
                &&& s.min_pass_rate is None ==> e.min_pass_rate.bits == 0x3fe9_9999_9999_999a
                &&& s.trials is Some ==> e.trials == s.trials->0
            },
{
    let cats = manifest.categories.list();
    let rate = crate::eval::loader::usual_rate();
    let trials = crate::eval::loader::USUAL_TRIALS;
    assert(wanted(cats[c].0@, texts(sections@)));
    lemma_category(cats, texts(sections@), rate, trials, cats.len() as int, c, i);
    let all = entry_models(r@);
    let s = crate::eval::loader::suite_entry(cats[c].1.suites@[i], rate, trials);
    let k = choose|k: int| 0 <= k < all.len() && all[k] == s;
    assert(all[k] == r@[k]@);
}

/// Whether an entry of a manifest comes from one of its task files.
pub open spec fn is_of_file(e: (int, EntryModel), t: YamlTaskRef, m: YamlManifest) -> bool {
    &&& e.0 == 0
    &&& e.1.path == t.path@
    &&& e.1.filter == opt_text(t.task_filter)
    &&& t.min_pass_rate is Some ==> e.1.min_pass_rate == t.min_pass_rate->0
    &&& t.min_pass_rate is None && m.min_pass_rate is Some ==> e.1.min_pass_rate
        == m.min_pass_rate->0
    &&& t.trials is Some ==> e.1.trials == t.trials->0
}

/// The entries of a manifest hold each of its task files that has a task which
/// its filter lets pass.
pub proof fn law_a_manifest_lists_its_task_files(
    m: &YamlManifest,
    suite_name: &str,
    ids: &Vec<Vec<String>>,
    others: &Vec<YamlManifest>,
    r: Vec<PlacedEntry>,
    i: int,
    j: int,
)
    requires
        call_ensures(manifest_entries, (m, suite_name, ids, others), r),
        ids@.len() == m.tasks@.len(),
        0 <= i < m.tasks@.len(),
        0 <= j < ids@[i]@.len(),
        m.tasks@[i].task_filter is None || occurs(ids@[i]@[j]@, m.tasks@[i].task_filter->0@),
    ensures
        exists|k: int|
            0 <= k < r@.len() && is_of_file(
                ((#[trigger] r@[k]).place as int, r@[k].entry@),
                m.tasks@[i],
                *m,
            ),
{
    let n = m.tasks@.len() as int;
    let t = m.tasks@[i];
    let flat = crate::eval::loader::flat_to(*m, ids@, n);
    lemma_flat(*m, ids@, n, i, j);
    let e = crate::eval::loader::flat_entry(t, m.rate(), m.trial_count());
    let k = choose|k: int| 0 <= k < flat.len() && flat[k] == e;
    let all = crate::eval::loader::manifest_models(*m, suite_name@, ids@, others@);
    assert(all[k] == crate::eval::loader::at_place(0, flat)[k]);
    let placed = crate::eval::loader::placed_models(r@);
    assert(placed.len() == r@.len());
    assert(placed[k] == (r@[k].place as int, r@[k].entry@));
    assert(placed[k] == (0int, e));
    assert(is_of_file((r@[k].place as int, r@[k].entry@), t, *m));
}

proof fn lemma_flat(m: YamlManifest, ids: Seq<Vec<String>>, n: int, i: int, j: int)
    requires
        ids.len() == m.tasks@.len(),
        0 <= i < n <= m.tasks@.len(),
        0 <= j < ids[i]@.len(),
        m.tasks@[i].task_filter is None || occurs(ids[i]@[j]@, m.tasks@[i].task_filter->0@),
    ensures
        crate::eval::loader::flat_to(m, ids, n).contains(
            crate::eval::loader::flat_entry(m.tasks@[i], m.rate(), m.trial_count()),
        ),
    decreases n,
{
    let now = crate::eval::loader::flat_to(m, ids, n);
    let less = crate::eval::loader::flat_to(m, ids, n - 1);
    let e = crate::eval::loader::flat_entry(m.tasks@[i], m.rate(), m.trial_count());
    if i == n - 1 {
        let t = m.tasks@[i];
        let p = |id: Seq<char>| crate::eval::loader::passes(opt_text(t.task_filter), id);
        let list = texts(ids[i]@);
        assert(list[j] == ids[i]@[j]@);
        crate::text::lemma_filter_has(list, p, list[j]);
        assert(list.contains(list[j]));
        let passing = list.filter(p);
        assert(passing.contains(list[j]));
        assert(passing.len() > 0);
        assert(now[less.len() as int] == e);
    } else {
        lemma_flat(m, ids, n - 1, i, j);
        let k = choose|k: int| 0 <= k < less.len() && less[k] == e;
        assert(now[k] == e);
    }
}

/// The criteria of a task are those that are written: each label as the dimension
/// that it stands for, in its place, and the thresholds as they are. Its
/// conditions, those of its session and those of its turns are each the written
/// ones.
pub proof fn law_criteria_and_conditions_are_loaded_as_written(
    yt: YamlTask,
    r: Result<EvalTask, SyscityError>,
    i: int,
    label: &str,
    d: QualityDimension,
)
    requires
        call_ensures(convert_task, (yt,), r),
        call_ensures(parse_dimension, (label,), d),
    ensures
        r is Ok,
        yt.criteria is Some ==> r->Ok_0.criteria is Some && r->Ok_0.criteria->0.thresholds
            == yt.criteria->0.thresholds && r->Ok_0.criteria->0.dimensions@.len()
            == yt.criteria->0.dimensions@.len(),
        yt.criteria is Some && 0 <= i < yt.criteria->0.dimensions@.len()
            && yt.criteria->0.dimensions@[i]@ == label@ ==> r->Ok_0.criteria->0.dimensions@[i]@
            == d@,
        yt.criteria is None ==> r->Ok_0.criteria is None,
        condition_models(r->Ok_0.conditions@) == all_converted(yt.conditions@),
        condition_models(r->Ok_0.session_conditions@) == all_converted(yt.session_conditions@),
        0 <= i < yt.turns@.len() ==> condition_models(r->Ok_0.turns@[i].conditions@)
            == all_converted(yt.turns@[i].conditions@),
{
    let t = r->Ok_0;
    if yt.criteria is Some {
        let yc = yt.criteria->0;
        let c = t.criteria->0;
        let a = dimension_models(c.dimensions@);
        let b = crate::eval::loader::dimensions_named(yc.dimensions@);
        assert(a.len() == c.dimensions@.len() && b.len() == yc.dimensions@.len());
        if 0 <= i < yc.dimensions@.len() {
            assert(a[i] == c.dimensions@[i]@);
            assert(b[i] == crate::eval::loader::dimension_named(yc.dimensions@[i]@));
        }
    }
    if 0 <= i < yt.turns@.len() {
        assert(crate::eval::loader::turn_converted(yt.turns@[i], t.turns@[i]));
    }
}

/// Nothing is loaded from a category that is not asked for.
pub proof fn law_no_other_category_is_loaded(
    manifest: &YamlManifest,
    suite_name: &str,
    r: Vec<ResolvedEntry>,
    k: int,
)
    requires
        call_ensures(category_entries, (manifest, suite_name), r),
        0 <= k < r@.len(),
    ensures
        exists|c: int, i: int|
            0 <= c < manifest.categories.list().len() && 0 <= i
                < manifest.categories.list()[c].1.suites@.len() && (suite_name@.len() == 0
                || manifest.categories.list()[c].0@ == suite_name@) && r@[k]@.path == (
            #[trigger] manifest.categories.list()[c].1.suites@[i]).path@,
{
    let cats = manifest.categories.list();
    let sections = crate::eval::loader::sections_of(suite_name@);
    let rate = manifest.rate();
    let trials = manifest.trial_count();
    let all = entry_models(r@);
    assert(all[k] == r@[k]@);
    lemma_from_category(cats, sections, rate, trials, cats.len() as int, k);
    let (c, i) = choose|c: int, i: int|
        0 <= c < cats.len() && 0 <= i < cats[c].1.suites@.len() && wanted(cats[c].0@, sections)
            && all[k] == crate::eval::loader::suite_entry(
            #[trigger] cats[c].1.suites@[i],
            rate,
            trials,
        );
    if suite_name@.len() > 0 {
        let s = choose|s: int| 0 <= s < sections.len() && sections[s] == cats[c].0@;
        assert(sections[s] == suite_name@);
    }
    assert(r@[k]@.path == cats[c].1.suites@[i].path@);
}

proof fn lemma_from_category(
    cats: Seq<(String, YamlCategory)>,
    sections: Seq<Seq<char>>,
    rate: Double,
    trials: usize,
    n: int,
    k: int,
)
    requires
        0 <= n <= cats.len(),
        0 <= k < category_entries_to(cats, sections, rate, trials, n).len(),
    ensures
        exists|c: int, i: int|
            0 <= c < cats.len() && 0 <= i < cats[c].1.suites@.len() && wanted(
                cats[c].0@,
                sections,
            ) && category_entries_to(cats, sections, rate, trials, n)[k]
                == crate::eval::loader::suite_entry(
                #[trigger] cats[c].1.suites@[i],
                rate,
                trials,
            ),
    decreases n,
{
    let now = category_entries_to(cats, sections, rate, trials, n);
    let less = category_entries_to(cats, sections, rate, trials, n - 1);
    if k < less.len() {
        assert(now[k] == less[k]);
        lemma_from_category(cats, sections, rate, trials, n - 1, k);
        let (c, i) = choose|c: int, i: int|
            0 <= c < cats.len() && 0 <= i < cats[c].1.suites@.len() && wanted(
                cats[c].0@,
                sections,
            ) && less[k] == crate::eval::loader::suite_entry(
                #[trigger] cats[c].1.suites@[i],
                rate,
                trials,
            );
        assert(now[k] == crate::eval::loader::suite_entry(cats[c].1.suites@[i], rate, trials));
    } else {
        let c = n - 1;
        let i = k - less.len();
        let own = suite_entries(cats[c].1.suites@, rate, trials);
        assert(now[k] == own[i]);
        assert(own[i] == crate::eval::loader::suite_entry(cats[c].1.suites@[i], rate, trials));
    }
}

/// The entries of a manifest hold those of its own categories that are asked for,
/// in its own place, and those of the manifests that it refers to, each in the
/// place of that manifest.
pub proof fn law_a_manifest_lists_its_categories_and_references(
    m: &YamlManifest,
    suite_name: &str,
    ids: &Vec<Vec<String>>,
    others: &Vec<YamlManifest>,
    r: Vec<PlacedEntry>,
    own: Vec<ResolvedEntry>,
    k: int,
    n: int,
    theirs: Vec<ResolvedEntry>,
)
    requires
        call_ensures(manifest_entries, (m, suite_name, ids, others), r),
        ids@.len() == m.tasks@.len(),
        others@.len() == m.includes@.len(),
        call_ensures(category_entries, (m, suite_name), own),
        0 <= n < others@.len(),
        call_ensures(included_entries, (&others@[n], &m.includes@[n].sections), theirs),
    ensures
        0 <= k < own@.len() ==> exists|j: int|
            0 <= j < r@.len() && (#[trigger] r@[j]).place == 0 && r@[j].entry@ == own@[k]@,
        0 <= k < theirs@.len() ==> exists|j: int|
            0 <= j < r@.len() && (#[trigger] r@[j]).place == n + 1 && r@[j].entry@ == theirs@[k]@,
{
    let flat = crate::eval::loader::at_place(
        0,
        crate::eval::loader::flat_to(*m, ids@, m.tasks@.len() as int),
    );
    let cats = m.categories.list();
    let mine = category_entries_to(
        cats,
        crate::eval::loader::sections_of(suite_name@),
        m.rate(),
        m.trial_count(),
        cats.len() as int,
    );
    let mid = crate::eval::loader::at_place(0, mine);
    let last = crate::eval::loader::included_to(*m, others@, m.includes@.len() as int);
    let all = flat + mid + last;
    let placed = crate::eval::loader::placed_models(r@);
    assert(placed == all);
    assert(placed.len() == r@.len());
    if 0 <= k < own@.len() {
        assert(entry_models(own@)[k] == own@[k]@);
        assert(mid[k] == (0int, own@[k]@));
        let j = flat.len() + k;
        assert(all[j] == mid[k]);
        assert(placed[j] == (r@[j].place as int, r@[j].entry@));
    }
    if 0 <= k < theirs@.len() {
        assert(entry_models(theirs@)[k] == theirs@[k]@);
        lemma_included(*m, others@, m.includes@.len() as int, n, theirs@[k]@, k);
        let e = (n + 1, theirs@[k]@);
        let i = choose|i: int| 0 <= i < last.len() && last[i] == e;
        let j = flat.len() + mid.len() + i;
        assert(all[j] == last[i]);
        assert(placed[j] == (r@[j].place as int, r@[j].entry@));
    }
}

proof fn lemma_included(
    m: YamlManifest,
    others: Seq<YamlManifest>,
    count: int,
    n: int,
    e: EntryModel,
    k: int,
)
    requires
        others.len() == m.includes@.len(),
        0 <= n < count <= others.len(),
        ({
            let cats = others[n].categories.list();
            let own = category_entries_to(
                cats,
                texts(m.includes@[n].sections@),
                crate::eval::loader::usual_rate(),
                crate::eval::loader::USUAL_TRIALS,
                cats.len() as int,
            );
            0 <= k < own.len() && own[k] == e
        }),
    ensures
        crate::eval::loader::included_to(m, others, count).contains((n + 1, e)),
    decreases count,
{
    let now = crate::eval::loader::included_to(m, others, count);
    let less = crate::eval::loader::included_to(m, others, count - 1);
    if n == count - 1 {
        let cats = others[n].categories.list();
        let own = category_entries_to(
            cats,
            texts(m.includes@[n].sections@),
            crate::eval::loader::usual_rate(),
            crate::eval::loader::USUAL_TRIALS,
            cats.len() as int,
        );
        assert(crate::eval::loader::at_place(count, own)[k] == (count, e));
        assert(now[less.len() + k] == (n + 1, e));
    } else {
        lemma_included(m, others, count - 1, n, e, k);
        let i = choose|i: int| 0 <= i < less.len() && less[i] == (n + 1, e);
        assert(now[i] == (n + 1, e));
    }
}

} // verus!
