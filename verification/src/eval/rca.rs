//! Root cause analysis of agent failures: evidence, phenomenon, module
//! diagnosis, responsibility, and the structured result.
use vstd::prelude::*;
use vstd::string::*;

use super::types::{Critique, Timestamp, ToolCallRecord, TrialResult};
use crate::scalar::Double;
use crate::text::{
    byte_len, bytes_of, cat, contains_text, copy_texts, debug_list, debug_list_of, decimal, decimal_of,
    decimal_of_usize, join, joined, lowercase, occurs, opt_text, same, texts,
};

verus! {

// ---------------------------------------------------------------------------
// Phenomena and modules
// ---------------------------------------------------------------------------

/// What the user sees as the failure.
#[derive(Debug, Clone, Copy, PartialEq, Eq, Hash, Structural)]
pub enum ProblemPhenomenon {
    /// Off-topic: user question is clear but agent replies off-topic.
    NonResponsive,
    /// Entity not clarified: order ID, product, etc. not disambiguated.
    OrderNotClarified,
    /// Factual error: correct info exists in KB but response is wrong.
    FactualError,
    /// Over-promise: committing beyond authority or business rules.
    OverPromise,
    /// Critical tool not called.
    ToolNotCalled,
    /// Tool call order violated.
    ToolWrongOrder,
    /// Hallucination: response content not supported by trace evidence.
    Hallucination,
    /// Improper refusal: refused when it shouldn't, or wrong reason.
    RefusalError,
}

impl ProblemPhenomenon {
    /// The phenomenon by its name.
    pub open spec fn named(self) -> Seq<char> {
        match self {
            ProblemPhenomenon::NonResponsive => "NonResponsive"@,
            ProblemPhenomenon::OrderNotClarified => "OrderNotClarified"@,
            ProblemPhenomenon::FactualError => "FactualError"@,
            ProblemPhenomenon::OverPromise => "OverPromise"@,
            ProblemPhenomenon::ToolNotCalled => "ToolNotCalled"@,
            ProblemPhenomenon::ToolWrongOrder => "ToolWrongOrder"@,
            ProblemPhenomenon::Hallucination => "Hallucination"@,
            ProblemPhenomenon::RefusalError => "RefusalError"@,
        }
    }

    /// The phenomenon by its name.
    pub fn name(&self) -> (r: String)
        ensures
            r@ == self.named(),
    {
        match self {
            ProblemPhenomenon::NonResponsive => "NonResponsive".to_string(),
            ProblemPhenomenon::OrderNotClarified => "OrderNotClarified".to_string(),
            ProblemPhenomenon::FactualError => "FactualError".to_string(),
            ProblemPhenomenon::OverPromise => "OverPromise".to_string(),
            ProblemPhenomenon::ToolNotCalled => "ToolNotCalled".to_string(),
            ProblemPhenomenon::ToolWrongOrder => "ToolWrongOrder".to_string(),
            ProblemPhenomenon::Hallucination => "Hallucination".to_string(),
            ProblemPhenomenon::RefusalError => "RefusalError".to_string(),
        }
    }

    /// The phenomenon of a name, if it is one.
    pub fn from_name(name: &str) -> (r: Option<ProblemPhenomenon>)
        ensures
            r == phenomenon_named(name@),
    {
        if same(name, "NonResponsive") {
            Some(ProblemPhenomenon::NonResponsive)
        } else if same(name, "OrderNotClarified") {
            Some(ProblemPhenomenon::OrderNotClarified)
        } else if same(name, "FactualError") {
            Some(ProblemPhenomenon::FactualError)
        } else if same(name, "OverPromise") {
            Some(ProblemPhenomenon::OverPromise)
        } else if same(name, "ToolNotCalled") {
            Some(ProblemPhenomenon::ToolNotCalled)
        } else if same(name, "ToolWrongOrder") {
            Some(ProblemPhenomenon::ToolWrongOrder)
        } else if same(name, "Hallucination") {
            Some(ProblemPhenomenon::Hallucination)
        } else if same(name, "RefusalError") {
            Some(ProblemPhenomenon::RefusalError)
        } else {
            None
        }
    }
}

/// The phenomenon of a name, if it is one.
pub open spec fn phenomenon_named(name: Seq<char>) -> Option<ProblemPhenomenon> {
    if name == "NonResponsive"@ {
        Some(ProblemPhenomenon::NonResponsive)
    } else if name == "OrderNotClarified"@ {
        Some(ProblemPhenomenon::OrderNotClarified)
    } else if name == "FactualError"@ {
        Some(ProblemPhenomenon::FactualError)
    } else if name == "OverPromise"@ {
        Some(ProblemPhenomenon::OverPromise)
    } else if name == "ToolNotCalled"@ {
        Some(ProblemPhenomenon::ToolNotCalled)
    } else if name == "ToolWrongOrder"@ {
        Some(ProblemPhenomenon::ToolWrongOrder)
    } else if name == "Hallucination"@ {
        Some(ProblemPhenomenon::Hallucination)
    } else if name == "RefusalError"@ {
        Some(ProblemPhenomenon::RefusalError)
    } else {
        None
    }
}

/// A functional module that could be the root cause.
#[derive(Debug, Clone, Copy, PartialEq, Eq, Hash, Structural)]
pub enum CandidateModule {
    IntentRecognition,
    SlotFilling,
    ContextMemory,
    Retrieval,
    ToolSelection,
    ToolExecution,
    ParameterConstruction,
    Reasoning,
    ResponseGeneration,
    PolicyEnforcement,
    SystemInfra,
}

/// All modules.
pub open spec fn all_modules() -> Seq<CandidateModule> {
    seq![
        CandidateModule::IntentRecognition,
        CandidateModule::SlotFilling,
        CandidateModule::ContextMemory,
        CandidateModule::Retrieval,
        CandidateModule::ToolSelection,
        CandidateModule::ToolExecution,
        CandidateModule::ParameterConstruction,
        CandidateModule::Reasoning,
        CandidateModule::ResponseGeneration,
        CandidateModule::PolicyEnforcement,
        CandidateModule::SystemInfra,
    ]
}

impl CandidateModule {
    /// Return all modules (for fallback when mapping has no hit).
    pub fn all() -> (r: Vec<Self>)
        ensures
            r@ == all_modules(),
    {
        vec![
            CandidateModule::IntentRecognition,
            CandidateModule::SlotFilling,
            CandidateModule::ContextMemory,
            CandidateModule::Retrieval,
            CandidateModule::ToolSelection,
            CandidateModule::ToolExecution,
            CandidateModule::ParameterConstruction,
            CandidateModule::Reasoning,
            CandidateModule::ResponseGeneration,
            CandidateModule::PolicyEnforcement,
            CandidateModule::SystemInfra,
        ]
    }

    /// The module by its name.
    pub open spec fn named(self) -> Seq<char> {
        match self {
            CandidateModule::IntentRecognition => "IntentRecognition"@,
            CandidateModule::SlotFilling => "SlotFilling"@,
            CandidateModule::ContextMemory => "ContextMemory"@,
            CandidateModule::Retrieval => "Retrieval"@,
            CandidateModule::ToolSelection => "ToolSelection"@,
            CandidateModule::ToolExecution => "ToolExecution"@,
            CandidateModule::ParameterConstruction => "ParameterConstruction"@,
            CandidateModule::Reasoning => "Reasoning"@,
            CandidateModule::ResponseGeneration => "ResponseGeneration"@,
            CandidateModule::PolicyEnforcement => "PolicyEnforcement"@,
            CandidateModule::SystemInfra => "SystemInfra"@,
        }
    }

    /// The module by its name.
    pub fn name(&self) -> (r: String)
        ensures
            r@ == self.named(),
    {
        match self {
            CandidateModule::IntentRecognition => "IntentRecognition".to_string(),
            CandidateModule::SlotFilling => "SlotFilling".to_string(),
            CandidateModule::ContextMemory => "ContextMemory".to_string(),
            CandidateModule::Retrieval => "Retrieval".to_string(),
            CandidateModule::ToolSelection => "ToolSelection".to_string(),
            CandidateModule::ToolExecution => "ToolExecution".to_string(),
            CandidateModule::ParameterConstruction => "ParameterConstruction".to_string(),
            CandidateModule::Reasoning => "Reasoning".to_string(),
            CandidateModule::ResponseGeneration => "ResponseGeneration".to_string(),
            CandidateModule::PolicyEnforcement => "PolicyEnforcement".to_string(),
            CandidateModule::SystemInfra => "SystemInfra".to_string(),
        }
    }
}

/// The category label of a module.
pub open spec fn category_of(module: CandidateModule) -> Seq<char> {
    match module {
        CandidateModule::IntentRecognition => "语义理解"@,
        CandidateModule::SlotFilling => "槽位抽取"@,
        CandidateModule::ContextMemory => "上下文记忆"@,
        CandidateModule::Retrieval => "知识召回"@,
        CandidateModule::ToolSelection => "工具执行"@,
        CandidateModule::ToolExecution => "工具执行"@,
        CandidateModule::ParameterConstruction => "参数构造"@,
        CandidateModule::Reasoning => "推理决策"@,
        CandidateModule::ResponseGeneration => "回复生成"@,
        CandidateModule::PolicyEnforcement => "风险防控"@,
        CandidateModule::SystemInfra => "系统基础设施"@,
    }
}

/// Map a CandidateModule to its category label.
pub fn module_category(module: &CandidateModule) -> (r: &'static str)
    ensures
        r@ == category_of(*module),
{
    match module {
        CandidateModule::IntentRecognition => "语义理解",
        CandidateModule::SlotFilling => "槽位抽取",
        CandidateModule::ContextMemory => "上下文记忆",
        CandidateModule::Retrieval => "知识召回",
        CandidateModule::ToolSelection => "工具执行",
        CandidateModule::ToolExecution => "工具执行",
        CandidateModule::ParameterConstruction => "参数构造",
        CandidateModule::Reasoning => "推理决策",
        CandidateModule::ResponseGeneration => "回复生成",
        CandidateModule::PolicyEnforcement => "风险防控",
        CandidateModule::SystemInfra => "系统基础设施",
    }
}

/// The team that owns a module.
pub open spec fn owner_of(module: CandidateModule) -> Seq<char> {
    match module {
        CandidateModule::IntentRecognition => "nlp_team"@,
        CandidateModule::SlotFilling => "nlp_team"@,
        CandidateModule::ContextMemory => "memory_team"@,
        CandidateModule::Retrieval => "knowledge_team"@,
        CandidateModule::ToolSelection => "tool_team"@,
        CandidateModule::ToolExecution => "tool_team"@,
        CandidateModule::ParameterConstruction => "tool_team"@,
        CandidateModule::Reasoning => "reasoning_team"@,
        CandidateModule::ResponseGeneration => "generation_team"@,
        CandidateModule::PolicyEnforcement => "policy_team"@,
        CandidateModule::SystemInfra => "infra_team"@,
    }
}

/// Map a CandidateModule to its responsible owner/team string.
pub fn module_to_owner(module: &CandidateModule) -> (r: &'static str)
    ensures
        r@ == owner_of(*module),
{
    match module {
        CandidateModule::IntentRecognition => "nlp_team",
        CandidateModule::SlotFilling => "nlp_team",
        CandidateModule::ContextMemory => "memory_team",
        CandidateModule::Retrieval => "knowledge_team",
        CandidateModule::ToolSelection => "tool_team",
        CandidateModule::ToolExecution => "tool_team",
        CandidateModule::ParameterConstruction => "tool_team",
        CandidateModule::Reasoning => "reasoning_team",
        CandidateModule::ResponseGeneration => "generation_team",
        CandidateModule::PolicyEnforcement => "policy_team",
        CandidateModule::SystemInfra => "infra_team",
    }
}

/// The modules that may cause a phenomenon, the likeliest first.
pub open spec fn candidates_of(phenomenon: ProblemPhenomenon) -> Seq<CandidateModule> {
    match phenomenon {
        ProblemPhenomenon::NonResponsive => seq![
            CandidateModule::IntentRecognition,
            CandidateModule::ContextMemory,
        ],
        ProblemPhenomenon::OrderNotClarified => seq![
            CandidateModule::SlotFilling,
            CandidateModule::ContextMemory,
        ],
        ProblemPhenomenon::FactualError => seq![
            CandidateModule::Retrieval,
            CandidateModule::Reasoning,
            CandidateModule::ResponseGeneration,
        ],
        ProblemPhenomenon::OverPromise => seq![
            CandidateModule::PolicyEnforcement,
            CandidateModule::ResponseGeneration,
        ],
        ProblemPhenomenon::ToolNotCalled => seq![
            CandidateModule::ToolSelection,
            CandidateModule::IntentRecognition,
        ],
        ProblemPhenomenon::ToolWrongOrder => seq![
            CandidateModule::ToolSelection,
            CandidateModule::Reasoning,
        ],
        ProblemPhenomenon::Hallucination => seq![
            CandidateModule::Retrieval,
            CandidateModule::ResponseGeneration,
        ],
        ProblemPhenomenon::RefusalError => seq![
            CandidateModule::PolicyEnforcement,
            CandidateModule::IntentRecognition,
        ],
    }
}

/// The modules that may cause each phenomenon.
#[derive(Debug)]
pub struct ModuleMapping {
    pub entries: Vec<(ProblemPhenomenon, Vec<CandidateModule>)>,
}

impl ModuleMapping {
    /// The modules under a phenomenon, from entry `i` on.
    pub open spec fn find_from(self, phenomenon: ProblemPhenomenon, i: int) -> Option<
        Seq<CandidateModule>,
    >
        decreases self.entries@.len() - i,
    {
        if i < 0 || i >= self.entries@.len() {
            None
        } else if self.entries@[i].0 == phenomenon {
            Some(self.entries@[i].1@)
        } else {
            self.find_from(phenomenon, i + 1)
        }
    }

    /// The modules under a phenomenon.
    pub fn get(&self, phenomenon: &ProblemPhenomenon) -> (r: Option<&Vec<CandidateModule>>)
        ensures
            match r {
                Some(v) => self.find_from(*phenomenon, 0) == Some(v@),
                None => self.find_from(*phenomenon, 0) is None,
            },
    {
        let mut i: usize = 0;
        while i < self.entries.len()
            invariant
                i <= self.entries@.len(),
                self.find_from(*phenomenon, 0) == self.find_from(*phenomenon, i as int),
            decreases self.entries.len() - i,
        {
            if self.entries[i].0 == *phenomenon {
                return Some(&self.entries[i].1);
            }
            i += 1;
        }
        None
    }

    /// Whether a phenomenon has modules.
    pub fn contains_key(&self, phenomenon: &ProblemPhenomenon) -> (r: bool)
        ensures
            r == self.find_from(*phenomenon, 0) is Some,
    {
        self.get(phenomenon).is_some()
    }
}

// ---------------------------------------------------------------------------
// Verdicts, entries, input and result
// ---------------------------------------------------------------------------

/// Result of diagnosing a single candidate module.
#[derive(Debug)]
pub enum ModuleVerdict {
    /// Module functioned correctly.
    Pass,
    /// Module mostly passed but has minor issues.
    SoftPass(String),
    /// Module failed: root cause located.
    Fail(String),
    /// Unable to determine (needs deeper analysis).
    Unknown,
}

/// What a diagnosis says.
pub enum VerdictModel {
    Pass,
    SoftPass(Seq<char>),
    Fail(Seq<char>),
    Unknown,
}

impl View for ModuleVerdict {
    type V = VerdictModel;

    open spec fn view(&self) -> VerdictModel {
        match self {
            ModuleVerdict::Pass => VerdictModel::Pass,
            ModuleVerdict::SoftPass(s) => VerdictModel::SoftPass(s@),
            ModuleVerdict::Fail(s) => VerdictModel::Fail(s@),
            ModuleVerdict::Unknown => VerdictModel::Unknown,
        }
    }
}

/// How a badcase entered the analysis.
#[derive(Debug, Clone)]
pub enum BadcaseEntry {
    /// Found by the harness (failed trial).
    AutoDetected,
    /// Collected online: a risk signal fired on a turn.
    OnlineRisk,
    /// Collected online: a user disliked the turn.
    HumanVote,
    /// Submitted by a person.
    ManualSubmit { reporter: String, description: String },
}

/// Input to the analysis.
#[derive(Debug)]
pub struct RcaInput {
    pub run_id: String,
    pub task_id: String,
    pub user_input: String,
    pub response: String,
    pub tool_calls: Vec<ToolCallRecord>,
    pub scoring: Option<TrialResult>,
    pub entry: BadcaseEntry,
}

/// Complete output of the analysis: three layers of attribution and a fix.
#[derive(Debug, Clone)]
pub struct RcaResult {
    /// What the user sees.
    pub phenomenon: String,
    /// Which step first deviated in the trace.
    pub process_deviation: String,
    /// Which module should own this.
    pub responsibility: String,
    pub problem_category: String,
    pub problem_enumeration: String,
    pub responsibility_module: CandidateModule,
    pub sub_responsibility: Option<CandidateModule>,
    pub evidence_chain: Vec<String>,
    pub fix_suggestion: String,
    /// How sure the attribution is, from 0.0 to 1.0.
    pub confidence: Double,
    pub analysis_duration_ms: u64,
    pub entry: BadcaseEntry,
    /// When the analysis was completed.
    pub completed_at: Timestamp,
}

/// What the result of an analysis is.
pub struct RcaModel {
    pub phenomenon: Seq<char>,
    pub process_deviation: Seq<char>,
    pub responsibility: Seq<char>,
    pub problem_category: Seq<char>,
    pub problem_enumeration: Seq<char>,
    pub responsibility_module: CandidateModule,
    pub sub_responsibility: Option<CandidateModule>,
    pub evidence_chain: Seq<Seq<char>>,
    pub fix_suggestion: Seq<char>,
    pub confidence: Double,
    pub analysis_duration_ms: u64,
    pub entry: BadcaseEntry,
    pub completed_at: Timestamp,
}

impl View for RcaResult {
    type V = RcaModel;

    open spec fn view(&self) -> RcaModel {
        RcaModel {
            phenomenon: self.phenomenon@,
            process_deviation: self.process_deviation@,
            responsibility: self.responsibility@,
            problem_category: self.problem_category@,
            problem_enumeration: self.problem_enumeration@,
            responsibility_module: self.responsibility_module,
            sub_responsibility: self.sub_responsibility,
            evidence_chain: texts(self.evidence_chain@),
            fix_suggestion: self.fix_suggestion@,
            confidence: self.confidence,
            analysis_duration_ms: self.analysis_duration_ms,
            entry: self.entry,
            completed_at: self.completed_at,
        }
    }
}

impl BadcaseEntry {
    /// The same entry again.
    pub fn copied(&self) -> (r: Self)
        ensures
            r == *self,
    {
        match self {
            BadcaseEntry::AutoDetected => BadcaseEntry::AutoDetected,
            BadcaseEntry::OnlineRisk => BadcaseEntry::OnlineRisk,
            BadcaseEntry::HumanVote => BadcaseEntry::HumanVote,
            BadcaseEntry::ManualSubmit { reporter, description } => BadcaseEntry::ManualSubmit {
                reporter: reporter.clone(),
                description: description.clone(),
            },
        }
    }
}

impl RcaResult {
    /// The same result again.
    pub fn copied(&self) -> (r: Self)
        ensures
            r@ == self@,
    {
        RcaResult {
            phenomenon: self.phenomenon.clone(),
            process_deviation: self.process_deviation.clone(),
            responsibility: self.responsibility.clone(),
            problem_category: self.problem_category.clone(),
            problem_enumeration: self.problem_enumeration.clone(),
            responsibility_module: self.responsibility_module,
            sub_responsibility: self.sub_responsibility,
            evidence_chain: copy_texts(&self.evidence_chain),
            fix_suggestion: self.fix_suggestion.clone(),
            confidence: self.confidence,
            analysis_duration_ms: self.analysis_duration_ms,
            entry: self.entry.copied(),
            completed_at: self.completed_at,
        }
    }
}

// ---------------------------------------------------------------------------
// Knowledge base
// ---------------------------------------------------------------------------

/// A historical resolution.
#[derive(Debug)]
pub struct RcaKnowledgeBaseEntry {
    pub problem_enumeration: String,
    pub responsibility_module: CandidateModule,
    pub known_fixes: Vec<String>,
    pub hit_count: u32,
    pub last_resolution: Option<String>,
}

/// What a resolution is.
pub struct KnownModel {
    pub problem: Seq<char>,
    pub module: CandidateModule,
    pub fixes: Seq<Seq<char>>,
    pub hits: u32,
    pub resolution: Option<Seq<char>>,
}

impl View for RcaKnowledgeBaseEntry {
    type V = KnownModel;

    open spec fn view(&self) -> KnownModel {
        KnownModel {
            problem: self.problem_enumeration@,
            module: self.responsibility_module,
            fixes: texts(self.known_fixes@),
            hits: self.hit_count,
            resolution: opt_text(self.last_resolution),
        }
    }
}

/// A known problem that has not been met yet.
pub open spec fn known(problem: Seq<char>, module: CandidateModule, fixes: Seq<Seq<char>>) ->
    KnownModel {
    KnownModel { problem, module, fixes, hits: 0, resolution: None }
}

fn make_known(problem: &str, module: CandidateModule, fixes: Vec<String>) -> (r:
    RcaKnowledgeBaseEntry)
    ensures
        r@ == known(problem@, module, texts(fixes@)),
{
    RcaKnowledgeBaseEntry {
        problem_enumeration: problem.to_string(),
        responsibility_module: module,
        known_fixes: fixes,
        hit_count: 0,
        last_resolution: None,
    }
}

/// The failure patterns that are known from the start.
pub open spec fn seeded() -> Seq<KnownModel> {
    seq![
        known(
            "关键工具未调用"@,
            CandidateModule::ToolSelection,
            seq![
                "检查工具选择 prompt 中是否包含所有必需工具"@,
                "确认工具注册列表包含目标工具"@,
                "添加工具选择约束词 (必须/应当调用)"@,
            ],
        ),
        known(
            "意图识别错误"@,
            CandidateModule::IntentRecognition,
            seq![
                "增强意图识别 prompt 中的边界案例描述"@,
                "添加否定/排除规则以避免误匹配"@,
            ],
        ),
        known(
            "知识召回不足"@,
            CandidateModule::Retrieval,
            seq![
                "增加检索工具的结果数量限制"@,
                "优化检索 query 构造方式"@,
                "添加 fallback 检索策略"@,
            ],
        ),
        known(
            "回复质量缺陷"@,
            CandidateModule::ResponseGeneration,
            seq![
                "优化回复模板约束条件"@,
                "添加事实一致性检查 prompt"@,
                "限制回复长度和格式要求"@,
            ],
        ),
        known(
            "策略违规"@,
            CandidateModule::PolicyEnforcement,
            seq![
                "更新策略规则定义"@,
                "添加 guardrail 检查逻辑"@,
                "实现拒绝响应模板"@,
            ],
        ),
        known(
            "过度承诺"@,
            CandidateModule::PolicyEnforcement,
            seq![
                "在系统 prompt 中添加权限边界描述"@,
                "禁止使用确定性/保证性词汇"@,
                "添加知识库权限校验机制"@,
            ],
        ),
        known(
            "幻觉回复"@,
            CandidateModule::ResponseGeneration,
            seq![
                "强制要求回复仅基于工具返回结果"@,
                "添加来源引用要求"@,
                "实施事实验证步骤"@,
            ],
        ),
        known(
            "拒绝策略不当"@,
            CandidateModule::PolicyEnforcement,
            seq![
                "细化拒绝策略分类 (可回答/需澄清/坚决拒绝)"@,
                "添加可回答场景的豁免规则"@,
            ],
        ),
    ]
}

/// Knowledge base of historical results.
#[derive(Debug)]
pub struct RcaKnowledgeBase {
    entries: Vec<RcaKnowledgeBaseEntry>,
}

/// The first entry at or after `i` for a problem and a module.
pub open spec fn known_from(
    entries: Seq<KnownModel>,
    problem: Seq<char>,
    module: CandidateModule,
    i: int,
) -> Option<int>
    decreases entries.len() - i,
{
    if i < 0 || i >= entries.len() {
        None
    } else if entries[i].problem == problem && entries[i].module == module {
        Some(i)
    } else {
        known_from(entries, problem, module, i + 1)
    }
}

/// The first entry for a problem and a module.
pub open spec fn known_at(
    entries: Seq<KnownModel>,
    problem: Seq<char>,
    module: CandidateModule,
) -> Option<int> {
    known_from(entries, problem, module, 0)
}

/// What is found is in range, and matches.
pub proof fn lemma_known_from(
    entries: Seq<KnownModel>,
    problem: Seq<char>,
    module: CandidateModule,
    i: int,
)
    requires
        0 <= i,
    ensures
        known_from(entries, problem, module, i) matches Some(j) ==> i <= j < entries.len()
            && entries[j].problem == problem && entries[j].module == module,
    decreases entries.len() - i,
{
    if i < entries.len() && !(entries[i].problem == problem && entries[i].module == module) {
        lemma_known_from(entries, problem, module, i + 1);
    }
}

/// The knowledge after a resolution was recorded: a known problem is met once
/// more and gets the new fixes and resolution, an unknown one is added.
pub open spec fn recorded(entries: Seq<KnownModel>, e: KnownModel) -> Seq<KnownModel> {
    match known_at(entries, e.problem, e.module) {
        Some(i) => entries.update(
            i,
            KnownModel {
                hits: (entries[i].hits + 1) as u32,
                fixes: e.fixes,
                resolution: e.resolution,
                ..entries[i]
            },
        ),
        None => entries.push(e),
    }
}

/// Whether no two entries stand for the same problem and module.
pub open spec fn distinct_known(entries: Seq<KnownModel>) -> bool {
    forall|i: int, j: int|
        0 <= i < j < entries.len() ==> !((#[trigger] entries[i]).problem == (
        #[trigger] entries[j]).problem && entries[i].module == entries[j].module)
}

/// The knowledge from the start has each problem of a module once.
pub proof fn law_seeded_knowledge_is_distinct()
    ensures
        distinct_known(seeded()),
{
    reveal_strlit("关键工具未调用");
    reveal_strlit("意图识别错误");
    reveal_strlit("知识召回不足");
    reveal_strlit("回复质量缺陷");
    reveal_strlit("策略违规");
    reveal_strlit("过度承诺");
    reveal_strlit("幻觉回复");
    reveal_strlit("拒绝策略不当");
    assert("关键工具未调用"@.len() == 7 && "关键工具未调用"@[0] == '关');
    assert("意图识别错误"@.len() == 6 && "意图识别错误"@[0] == '意');
    assert("知识召回不足"@.len() == 6 && "知识召回不足"@[0] == '知');
    assert("回复质量缺陷"@.len() == 6 && "回复质量缺陷"@[0] == '回');
    assert("策略违规"@.len() == 4 && "策略违规"@[0] == '策');
    assert("过度承诺"@.len() == 4 && "过度承诺"@[0] == '过');
    assert("幻觉回复"@.len() == 4 && "幻觉回复"@[0] == '幻');
    assert("拒绝策略不当"@.len() == 6 && "拒绝策略不当"@[0] == '拒');
}

/// Whatever is recorded, the knowledge has each problem of a module once, and no
/// problem that was known is forgotten.
pub proof fn law_recording_keeps_problems_distinct(entries: Seq<KnownModel>, e: KnownModel)
    requires
        distinct_known(entries),
    ensures
        distinct_known(recorded(entries, e)),
        forall|i: int|
            0 <= i < entries.len() ==> (#[trigger] recorded(entries, e)[i]).problem
                == entries[i].problem && recorded(entries, e)[i].module == entries[i].module,
{
    lemma_known_from(entries, e.problem, e.module, 0);
    if known_at(entries, e.problem, e.module) is None {
        lemma_unknown(entries, e.problem, e.module, 0);
    }
}

proof fn lemma_unknown(
    entries: Seq<KnownModel>,
    problem: Seq<char>,
    module: CandidateModule,
    i: int,
)
    requires
        0 <= i,
        known_from(entries, problem, module, i) is None,
    ensures
        forall|j: int|
            i <= j < entries.len() ==> !((#[trigger] entries[j]).problem == problem
                && entries[j].module == module),
    decreases entries.len() - i,
{
    if i < entries.len() {
        lemma_unknown(entries, problem, module, i + 1);
    }
}

impl View for RcaKnowledgeBase {
    type V = Seq<KnownModel>;

    closed spec fn view(&self) -> Seq<KnownModel> {
        self.entries@.map_values(|e: RcaKnowledgeBaseEntry| e@)
    }
}

impl Default for RcaKnowledgeBase {
    fn default() -> (r: Self)
        ensures
            r@ == seeded(),
    {
        let entries = RcaKnowledgeBase::seed_defaults();
        RcaKnowledgeBase { entries }
    }
}

impl RcaKnowledgeBase {
    /// The knowledge from the start.
    pub fn new() -> (r: Self)
        ensures
            r@ == seeded(),
    {
        RcaKnowledgeBase::default()
    }

    /// Common failure patterns and known fixes.
    fn seed_defaults() -> (r: Vec<RcaKnowledgeBaseEntry>)
        ensures
            r@.map_values(|e: RcaKnowledgeBaseEntry| e@) == seeded(),
    {
        let r = vec![
        make_known(
            "关键工具未调用",
            CandidateModule::ToolSelection,
            vec![
                "检查工具选择 prompt 中是否包含所有必需工具".to_string(),
                "确认工具注册列表包含目标工具".to_string(),
                "添加工具选择约束词 (必须/应当调用)".to_string(),
            ],
        ),
        make_known(
            "意图识别错误",
            CandidateModule::IntentRecognition,
            vec![
                "增强意图识别 prompt 中的边界案例描述".to_string(),
                "添加否定/排除规则以避免误匹配".to_string(),
            ],
        ),
        make_known(
            "知识召回不足",
            CandidateModule::Retrieval,
            vec![
                "增加检索工具的结果数量限制".to_string(),
                "优化检索 query 构造方式".to_string(),
                "添加 fallback 检索策略".to_string(),
            ],
        ),
        make_known(
            "回复质量缺陷",
            CandidateModule::ResponseGeneration,
            vec![
                "优化回复模板约束条件".to_string(),
                "添加事实一致性检查 prompt".to_string(),
                "限制回复长度和格式要求".to_string(),
            ],
        ),
        make_known(
            "策略违规",
            CandidateModule::PolicyEnforcement,
            vec![
                "更新策略规则定义".to_string(),
                "添加 guardrail 检查逻辑".to_string(),
                "实现拒绝响应模板".to_string(),
            ],
        ),
        make_known(
            "过度承诺",
            CandidateModule::PolicyEnforcement,
            vec![
                "在系统 prompt 中添加权限边界描述".to_string(),
                "禁止使用确定性/保证性词汇".to_string(),
                "添加知识库权限校验机制".to_string(),
            ],
        ),
        make_known(
            "幻觉回复",
            CandidateModule::ResponseGeneration,
            vec![
                "强制要求回复仅基于工具返回结果".to_string(),
                "添加来源引用要求".to_string(),
                "实施事实验证步骤".to_string(),
            ],
        ),
        make_known(
            "拒绝策略不当",
            CandidateModule::PolicyEnforcement,
            vec![
                "细化拒绝策略分类 (可回答/需澄清/坚决拒绝)".to_string(),
                "添加可回答场景的豁免规则".to_string(),
            ],
        ),
        ];
        let ghost models = r@.map_values(|e: RcaKnowledgeBaseEntry| e@);
        assert forall|i: int| 0 <= i < seeded().len() implies models[i] == seeded()[i] by {
            assert(models[i].fixes =~= seeded()[i].fixes);
        }
        assert(models =~= seeded());
        r
    }

    fn position(&self, enumeration: &str, module: &CandidateModule) -> (r: Option<usize>)
        ensures
            match r {
                Some(i) => known_at(self@, enumeration@, *module) == Some(i as int) && i
                    < self.entries@.len(),
                None => known_at(self@, enumeration@, *module) is None,
            },
    {
        let mut i: usize = 0;
        while i < self.entries.len()
            invariant
                i <= self.entries@.len(),
                known_at(self@, enumeration@, *module) == known_from(
                    self@,
                    enumeration@,
                    *module,
                    i as int,
                ),
            decreases self.entries.len() - i,
        {
            assert(self@[i as int] == self.entries@[i as int]@);
            if same(&self.entries[i].problem_enumeration, enumeration)
                && self.entries[i].responsibility_module == *module {
                return Some(i);
            }
            i += 1;
        }
        None
    }

    /// Look up known fixes for a given problem enumeration + module.
    pub fn lookup(&self, enumeration: &str, module: &CandidateModule) -> (r: Option<
        &RcaKnowledgeBaseEntry,
    >)
        ensures
            match known_at(self@, enumeration@, *module) {
                Some(i) => r matches Some(e) && e@ == self@[i],
                None => r is None,
            },
    {
        match self.position(enumeration, module) {
            Some(i) => Some(&self.entries[i]),
            None => None,
        }
    }

    /// Add or update an entry.
    pub fn record(&mut self, entry: RcaKnowledgeBaseEntry)
        requires
            known_at(old(self)@, entry@.problem, entry@.module) matches Some(i) ==> old(self)@[i].hits
                < u32::MAX,
        ensures
            final(self)@ == recorded(old(self)@, entry@),
    {
        let ghost before = self@;
        match self.position(&entry.problem_enumeration, &entry.responsibility_module) {
            Some(i) => {
                let existing = &self.entries[i];
                assert(before[i as int] == existing@);
                let updated = RcaKnowledgeBaseEntry {
                    problem_enumeration: existing.problem_enumeration.clone(),
                    responsibility_module: existing.responsibility_module,
                    hit_count: existing.hit_count + 1,
                    known_fixes: entry.known_fixes,
                    last_resolution: entry.last_resolution,
                };
                self.entries.set(i, updated);
                assert(self@ =~= before.update(i as int, updated@));
            },
            None => {
                self.entries.push(entry);
                assert(self@ =~= before.push(entry@));
            },
        }
    }
}

/// A recorded resolution is found again, with its fixes: met once more if the
/// problem was known, else as it was recorded.
pub proof fn law_recorded_resolution_is_found(entries: Seq<KnownModel>, e: KnownModel)
    requires
        known_at(entries, e.problem, e.module) matches Some(i) ==> entries[i].hits < u32::MAX,
    ensures
        known_at(recorded(entries, e), e.problem, e.module) matches Some(j) && recorded(
            entries,
            e,
        )[j].fixes == e.fixes && recorded(entries, e)[j].resolution == e.resolution && recorded(
            entries,
            e,
        )[j].hits == (match known_at(entries, e.problem, e.module) {
            Some(i) => entries[i].hits + 1,
            None => e.hits as int,
        }),
{
    lemma_known_from(entries, e.problem, e.module, 0);
    lemma_recorded_position(entries, e, 0);
}

proof fn lemma_recorded_position(entries: Seq<KnownModel>, e: KnownModel, i: int)
    requires
        0 <= i <= entries.len(),
        known_at(entries, e.problem, e.module) == known_from(entries, e.problem, e.module, i),
    ensures
        known_from(recorded(entries, e), e.problem, e.module, i) == Some(
            match known_at(entries, e.problem, e.module) {
                Some(j) => j,
                None => entries.len() as int,
            },
        ),
    decreases entries.len() - i,
{
    let after = recorded(entries, e);
    lemma_known_from(entries, e.problem, e.module, i);
    if i < entries.len() {
        if entries[i].problem == e.problem && entries[i].module == e.module {
            assert(after[i].problem == e.problem && after[i].module == e.module);
        } else {
            assert(after[i] == entries[i]);
            lemma_recorded_position(entries, e, i + 1);
        }
    }
}

// ---------------------------------------------------------------------------
// Evidence and phenomenon
// ---------------------------------------------------------------------------

/// A truth value in words.
pub open spec fn truth(b: bool) -> Seq<char> {
    if b {
        "true"@
    } else {
        "false"@
    }
}

/// What is said of a tool call.
pub open spec fn call_line(tc: ToolCallRecord) -> Seq<char> {
    "Tool call: "@ + tc.name@ + "("@ + tc.args@ + ") → success="@ + truth(tc.success) + " in "@
        + decimal(tc.duration_ms as nat) + "ms"@
}

/// A turn of the conversation that was analyzed.
#[derive(Debug)]
pub struct TurnRecord {
    pub index: usize,
    pub assistant_response: String,
}

/// What is said of the turns that were answered.
pub open spec fn turn_lines(turns: Seq<TurnRecord>) -> Seq<Seq<char>>
    decreases turns.len(),
{
    if turns.len() == 0 {
        Seq::empty()
    } else {
        let t = turns.last();
        if t.assistant_response@.len() > 0 {
            turn_lines(turns.drop_last()).push(
                "Turn "@ + decimal(t.index as nat) + " response: "@ + t.assistant_response@,
            )
        } else {
            turn_lines(turns.drop_last())
        }
    }
}

/// The evidence: the input, the response, the tool calls and the turns.
pub open spec fn evidence(input: RcaInput, turns: Seq<TurnRecord>) -> Seq<Seq<char>> {
    seq!["User input: "@ + input.user_input@, "Agent response: "@ + input.response@]
        + input.tool_calls@.map_values(|tc: ToolCallRecord| call_line(tc)) + turn_lines(turns)
}

fn call_text(tc: &ToolCallRecord) -> (r: String)
    ensures
        r@ == call_line(*tc),
{
    let mut s = cat("Tool call: ", &tc.name);
    s.append("(");
    s.append(&tc.args);
    s.append(") → success=");
    if tc.success {
        s.append("true");
    } else {
        s.append("false");
    }
    s.append(" in ");
    s.append(&decimal_of(tc.duration_ms));
    s.append("ms");
    s
}

/// The conversation in which an input was answered.
pub fn conversation_id(input: &RcaInput) -> (r: String)
    ensures
        r@ == "eval_"@ + input.task_id@ + "_"@ + input.run_id@,
{
    let mut s = cat("eval_", &input.task_id);
    s.append("_");
    s.append(&input.run_id);
    s
}

/// The evidence: the input, the response, the tool calls and the turns.
pub fn collect_evidence(input: &RcaInput, turns: &[TurnRecord]) -> (r: Vec<String>)
    ensures
        texts(r@) == evidence(*input, turns@),
{
    let mut ev: Vec<String> = vec![
        cat("User input: ", &input.user_input),
        cat("Agent response: ", &input.response),
    ];
    let ghost head = texts(ev@);
    let ghost f = |tc: ToolCallRecord| call_line(tc);
    let mut i: usize = 0;
    assert(head + input.tool_calls@.take(0).map_values(f) =~= head);
    while i < input.tool_calls.len()
        invariant
            i <= input.tool_calls@.len(),
            f == (|tc: ToolCallRecord| call_line(tc)),
            texts(ev@) == head + input.tool_calls@.take(i as int).map_values(f),
        decreases input.tool_calls.len() - i,
    {
        let ghost mid = ev@;
        let line = call_text(&input.tool_calls[i]);
        ev.push(line);
        proof {
            let tc = input.tool_calls@[i as int];
            assert(texts(ev@) =~= texts(mid).push(call_line(tc)));
            assert(input.tool_calls@.take(i + 1).map_values(f) =~= input.tool_calls@.take(
                i as int,
            ).map_values(f).push(call_line(tc)));
            assert(texts(ev@) =~= head + input.tool_calls@.take(i + 1).map_values(f));
        }
        i += 1;
    }
    assert(input.tool_calls@.take(input.tool_calls@.len() as int) =~= input.tool_calls@);
    let ghost base = texts(ev@);
    let mut k: usize = 0;
    assert(base + turn_lines(turns@.take(0)) =~= base);
    while k < turns.len()
        invariant
            k <= turns@.len(),
            texts(ev@) == base + turn_lines(turns@.take(k as int)),
        decreases turns.len() - k,
    {
        let ghost mid = ev@;
        proof {
            assert(turns@.take(k + 1).drop_last() =~= turns@.take(k as int));
            assert(turns@.take(k + 1).last() == turns@[k as int]);
        }
        if !turns[k].assistant_response.as_str().is_empty() {
            let mut s = cat("Turn ", &decimal_of_usize(turns[k].index));
            s.append(" response: ");
            s.append(&turns[k].assistant_response);
            let ghost line = s@;
            ev.push(s);
            proof {
                let shown = turn_lines(turns@.take(k as int));
                assert(texts(ev@) =~= texts(mid).push(line));
                assert(turn_lines(turns@.take(k + 1)) == shown.push(line));
                assert(texts(ev@) =~= base + shown.push(line));
            }
        }
        k += 1;
    }
    assert(turns@.take(turns@.len() as int) =~= turns@);
    assert(texts(ev@) =~= evidence(*input, turns@));
    ev
}

/// The phenomenon that a weakness points to, in lower case.
pub open spec fn weakness_points_to(w: Seq<char>) -> Option<ProblemPhenomenon> {
    if occurs(w, "承诺"@) || occurs(w, "overpromise"@) {
        Some(ProblemPhenomenon::OverPromise)
    } else if occurs(w, "幻觉"@) || occurs(w, "hallucination"@) || occurs(w, "编造"@) {
        Some(ProblemPhenomenon::Hallucination)
    } else if occurs(w, "事实"@) || occurs(w, "factual"@) || occurs(w, "错误"@) {
        Some(ProblemPhenomenon::FactualError)
    } else if occurs(w, "拒绝"@) || occurs(w, "refus"@) {
        Some(ProblemPhenomenon::RefusalError)
    } else if occurs(w, "偏题"@) || occurs(w, "off-topic"@) {
        Some(ProblemPhenomenon::NonResponsive)
    } else {
        None
    }
}

/// The phenomenon that a weakness points to, in lower case.
pub fn phenomenon_of_weakness(w: &str) -> (r: Option<ProblemPhenomenon>)
    ensures
        r == weakness_points_to(w@),
{
    if contains_text(w, "承诺") || contains_text(w, "overpromise") {
        Some(ProblemPhenomenon::OverPromise)
    } else if contains_text(w, "幻觉") || contains_text(w, "hallucination") || contains_text(
        w,
        "编造",
    ) {
        Some(ProblemPhenomenon::Hallucination)
    } else if contains_text(w, "事实") || contains_text(w, "factual") || contains_text(
        w,
        "错误",
    ) {
        Some(ProblemPhenomenon::FactualError)
    } else if contains_text(w, "拒绝") || contains_text(w, "refus") {
        Some(ProblemPhenomenon::RefusalError)
    } else if contains_text(w, "偏题") || contains_text(w, "off-topic") {
        Some(ProblemPhenomenon::NonResponsive)
    } else {
        None
    }
}

/// The phenomenon that the first telling weakness from `i` on points to.
pub open spec fn told_by(weaknesses: Seq<Seq<char>>, i: int) -> Option<ProblemPhenomenon>
    decreases weaknesses.len() - i,
{
    if i < 0 || i >= weaknesses.len() {
        None
    } else {
        match weakness_points_to(lowercase(weaknesses[i])) {
            Some(p) => Some(p),
            None => told_by(weaknesses, i + 1),
        }
    }
}

/// The weaknesses that the critique of a trial names.
pub open spec fn named_weaknesses(scoring: Option<TrialResult>) -> Seq<Seq<char>> {
    match scoring {
        Some(s) => match s.critique {
            Some(c) => texts(c.weaknesses@),
            None => Seq::empty(),
        },
        None => Seq::empty(),
    }
}

/// The phenomenon of a failure: a response without any tool call first, then
/// what the critique tells, and a factual error when nothing tells more. (A
/// failed condition tells of a factual error too.)
pub open spec fn phenomenon_of(input: RcaInput) -> ProblemPhenomenon {
    if input.tool_calls@.len() == 0 && input.response@.len() > 0 {
        ProblemPhenomenon::ToolNotCalled
    } else {
        match told_by(named_weaknesses(input.scoring), 0) {
            Some(p) => p,
            None => ProblemPhenomenon::FactualError,
        }
    }
}

fn tell(critique: &Critique) -> (r: Option<ProblemPhenomenon>)
    ensures
        r == told_by(texts(critique.weaknesses@), 0),
{
    let ghost all = texts(critique.weaknesses@);
    let mut i: usize = 0;
    while i < critique.weaknesses.len()
        invariant
            i <= critique.weaknesses@.len(),
            all == texts(critique.weaknesses@),
            told_by(all, 0) == told_by(all, i as int),
        decreases critique.weaknesses.len() - i,
    {
        assert(all[i as int] == critique.weaknesses@[i as int]@);
        let lower = critique.weaknesses[i].as_str().to_lowercase();
        match phenomenon_of_weakness(&lower) {
            Some(p) => {
                return Some(p);
            },
            None => {},
        }
        i += 1;
    }
    None
}

/// The phenomenon of a failure.
pub fn detect_phenomenon(input: &RcaInput) -> (r: ProblemPhenomenon)
    ensures
        r == phenomenon_of(*input),
{
    if input.tool_calls.is_empty() && !input.response.as_str().is_empty() {
        return ProblemPhenomenon::ToolNotCalled;
    }
    if let Some(scoring) = &input.scoring {
        if let Some(critique) = &scoring.critique {
            if let Some(p) = tell(critique) {
                return p;
            }
        }
    }
    ProblemPhenomenon::FactualError
}

// ---------------------------------------------------------------------------
// Diagnosis
// ---------------------------------------------------------------------------

/// Whether a tool searches.
pub open spec fn is_search(name: Seq<char>) -> bool {
    occurs(name, "search"@) || occurs(name, "fetch"@) || occurs(name, "memory"@)
}

/// Whether a tool that searches was called.
pub open spec fn has_search(calls: Seq<ToolCallRecord>) -> bool {
    exists|i: int| 0 <= i < calls.len() && is_search((#[trigger] calls[i]).name@)
}

/// The first word of over-promising in a response, in lower case.
pub open spec fn promise_in(response: Seq<char>) -> Option<Seq<char>> {
    if occurs(response, "一定"@) {
        Some("一定"@)
    } else if occurs(response, "保证"@) {
        Some("保证"@)
    } else if occurs(response, "肯定"@) {
        Some("肯定"@)
    } else if occurs(response, "承诺"@) {
        Some("承诺"@)
    } else if occurs(response, "绝对"@) {
        Some("绝对"@)
    } else {
        None
    }
}

/// The first word of over-promising in a response, in lower case.
pub fn find_promise(response: &str) -> (r: Option<String>)
    ensures
        opt_text(r) == promise_in(response@),
{
    if contains_text(response, "一定") {
        Some("一定".to_string())
    } else if contains_text(response, "保证") {
        Some("保证".to_string())
    } else if contains_text(response, "肯定") {
        Some("肯定".to_string())
    } else if contains_text(response, "承诺") {
        Some("承诺".to_string())
    } else if contains_text(response, "绝对") {
        Some("绝对".to_string())
    } else {
        None
    }
}

/// The diagnosis of a module. `critic` is whether the critic passed the response
/// as faithful to the evidence, where it was asked and answered.
pub open spec fn diagnosis(module: CandidateModule, input: RcaInput, critic: Option<bool>) ->
    VerdictModel {
    match module {
        CandidateModule::ToolSelection => if input.tool_calls@.len() == 0 && input.response@.len()
            > 0 {
            VerdictModel::Fail("工具未被调用"@)
        } else {
            VerdictModel::Pass
        },
        CandidateModule::IntentRecognition => if input.user_input@.len() == 0
            && input.response@.len() > 0 {
            VerdictModel::Fail("空输入但产生了回复"@)
        } else {
            VerdictModel::Pass
        },
        CandidateModule::Retrieval => if !has_search(input.tool_calls@) && bytes_of(
            input.response@,
        ).len() > 50 {
            VerdictModel::SoftPass("May need retrieval but no search tool was called"@)
        } else {
            VerdictModel::Pass
        },
        CandidateModule::ResponseGeneration => if critic == Some(false) {
            VerdictModel::Fail("Response does not faithfully reflect tool results"@)
        } else {
            VerdictModel::Pass
        },
        CandidateModule::PolicyEnforcement => match promise_in(lowercase(input.response@)) {
            Some(word) => VerdictModel::Fail("包含过度承诺关键词 '"@ + word + "'"@),
            None => VerdictModel::Pass,
        },
        _ => VerdictModel::Pass,
    }
}

fn searches(calls: &Vec<ToolCallRecord>) -> (r: bool)
    ensures
        r == has_search(calls@),
{
    let mut i: usize = 0;
    while i < calls.len()
        invariant
            i <= calls@.len(),
            forall|j: int| 0 <= j < i ==> !is_search((#[trigger] calls@[j]).name@),
        decreases calls.len() - i,
    {
        let name = &calls[i].name;
        if contains_text(name, "search") || contains_text(name, "fetch") || contains_text(
            name,
            "memory",
        ) {
            assert(is_search(calls@[i as int].name@));
            return true;
        }
        i += 1;
    }
    false
}

/// The diagnosis of a module.
pub fn diagnose_module(module: &CandidateModule, input: &RcaInput, critic: Option<bool>) -> (r:
    ModuleVerdict)
    ensures
        r@ == diagnosis(*module, *input, critic),
{
    match module {
        CandidateModule::ToolSelection => {
            if input.tool_calls.is_empty() && !input.response.as_str().is_empty() {
                return ModuleVerdict::Fail("工具未被调用".to_string());
            }
            ModuleVerdict::Pass
        },
        CandidateModule::IntentRecognition => {
            if input.user_input.as_str().is_empty() && !input.response.as_str().is_empty() {
                return ModuleVerdict::Fail("空输入但产生了回复".to_string());
            }
            ModuleVerdict::Pass
        },
        CandidateModule::Retrieval => {
            if !searches(&input.tool_calls) && byte_len(&input.response) > 50 {
                return ModuleVerdict::SoftPass(
                    "May need retrieval but no search tool was called".to_string(),
                );
            }
            ModuleVerdict::Pass
        },
        CandidateModule::ResponseGeneration => {
            if let Some(passed) = critic {
                if !passed {
                    return ModuleVerdict::Fail(
                        "Response does not faithfully reflect tool results".to_string(),
                    );
                }
            }
            ModuleVerdict::Pass
        },
        CandidateModule::PolicyEnforcement => {
            let lower = input.response.as_str().to_lowercase();
            match find_promise(&lower) {
                Some(word) => {
                    let mut s = cat("包含过度承诺关键词 '", &word);
                    s.append("'");
                    ModuleVerdict::Fail(s)
                },
                None => ModuleVerdict::Pass,
            }
        },
        _ => ModuleVerdict::Pass,
    }
}

/// What the critic is asked about a response.
pub open spec fn critic_question(input: RcaInput) -> Seq<char> {
    "Evaluate whether the response faithfully reflects available evidence.\nEvidence (tool calls): "@
        + debug_list(input.tool_calls@.map_values(|t: ToolCallRecord| t.name@)) + "\nResponse: "@
        + input.response@
        + "\nDoes the response accurately use the evidence? Answer PASS or FAIL with reason."@
}

/// What the critic is asked about a response.
pub fn critic_prompt(input: &RcaInput) -> (r: String)
    ensures
        r@ == critic_question(*input),
{
    let mut names: Vec<String> = Vec::new();
    let mut i: usize = 0;
    while i < input.tool_calls.len()
        invariant
            i <= input.tool_calls@.len(),
            names@.len() == i,
            forall|k: int| 0 <= k < i ==> (#[trigger] names@[k])@ == input.tool_calls@[k].name@,
        decreases input.tool_calls.len() - i,
    {
        names.push(input.tool_calls[i].name.clone());
        i += 1;
    }
    assert(texts(names@) =~= input.tool_calls@.map_values(|t: ToolCallRecord| t.name@));
    let mut s = "Evaluate whether the response faithfully reflects available evidence.\nEvidence (tool calls): ".to_string();
    s.append(&debug_list_of(names.as_slice()));
    s.append("\nResponse: ");
    s.append(&input.response);
    s.append("\nDoes the response accurately use the evidence? Answer PASS or FAIL with reason.");
    s
}

// ---------------------------------------------------------------------------
// Responsibility
// ---------------------------------------------------------------------------

/// The diagnoses of some modules, in their order.
pub open spec fn diagnoses_of(
    modules: Seq<CandidateModule>,
    input: RcaInput,
    critic: Option<bool>,
) -> Seq<(CandidateModule, VerdictModel)> {
    modules.map_values(|m: CandidateModule| (m, diagnosis(m, input, critic)))
}

/// The modules that failed, in their order.
pub open spec fn failed_modules(d: Seq<(CandidateModule, VerdictModel)>) -> Seq<CandidateModule>
    decreases d.len(),
{
    if d.len() == 0 {
        Seq::empty()
    } else if d.last().1 is Fail {
        failed_modules(d.drop_last()).push(d.last().0)
    } else {
        failed_modules(d.drop_last())
    }
}

/// Whether some module passed softly.
pub open spec fn has_soft(d: Seq<(CandidateModule, VerdictModel)>) -> bool {
    exists|i: int| 0 <= i < d.len() && (#[trigger] d[i]).1 is SoftPass
}

/// How sure the attribution is: 0.85 where a single module failed, 0.70 where
/// several did, 0.50 where there are only soft signals, 0.30 without any.
pub open spec fn confidence(d: Seq<(CandidateModule, VerdictModel)>) -> Double {
    if failed_modules(d).len() == 1 {
        Double { bits: 0x3feb_3333_3333_3333 }
    } else if failed_modules(d).len() > 0 {
        Double { bits: 0x3fe6_6666_6666_6666 }
    } else if has_soft(d) {
        Double { bits: 0x3fe0_0000_0000_0000 }
    } else {
        Double { bits: 0x3fd3_3333_3333_3333 }
    }
}

/// Who is responsible, in words.
pub open spec fn responsibility(d: Seq<(CandidateModule, VerdictModel)>) -> Seq<char> {
    let f = failed_modules(d);
    if f.len() == 0 {
        "无法明确归因 — 需要人工分析"@
    } else if f.len() == 1 {
        f[0].named()
    } else {
        f[0].named() + " (主导), "@ + f[1].named() + " (协同)"@
    }
}

/// The models of some diagnoses.
pub open spec fn verdicts(d: Seq<(CandidateModule, ModuleVerdict)>) -> Seq<
    (CandidateModule, VerdictModel),
> {
    d.map_values(|p: (CandidateModule, ModuleVerdict)| (p.0, p.1@))
}

fn failures(d: &Vec<(CandidateModule, ModuleVerdict)>) -> (r: (Vec<CandidateModule>, bool))
    ensures
        r.0@ == failed_modules(verdicts(d@)),
        r.1 == has_soft(verdicts(d@)),
{
    let ghost all = verdicts(d@);
    let mut failed: Vec<CandidateModule> = Vec::new();
    let mut soft = false;
    let mut i: usize = 0;
    assert(all.take(0) =~= Seq::empty());
    while i < d.len()
        invariant
            i <= d@.len(),
            all == verdicts(d@),
            failed@ == failed_modules(all.take(i as int)),
            soft == has_soft(all.take(i as int)),
        decreases d.len() - i,
    {
        proof {
            assert(all.take(i + 1).drop_last() =~= all.take(i as int));
            assert(all.take(i + 1).last() == all[i as int]);
            assert(all[i as int] == (d@[i as int].0, d@[i as int].1@));
            lemma_has_soft_step(all, i as int);
        }
        match &d[i].1 {
            ModuleVerdict::Fail(_) => {
                failed.push(d[i].0);
            },
            ModuleVerdict::SoftPass(_) => {
                soft = true;
            },
            _ => {},
        }
        i += 1;
    }
    assert(all.take(d@.len() as int) =~= all);
    (failed, soft)
}

proof fn lemma_has_soft_step(d: Seq<(CandidateModule, VerdictModel)>, i: int)
    requires
        0 <= i < d.len(),
    ensures
        has_soft(d.take(i + 1)) == (has_soft(d.take(i)) || d[i].1 is SoftPass),
{
    if has_soft(d.take(i)) {
        let k = choose|k: int| 0 <= k < i && (#[trigger] d.take(i)[k]).1 is SoftPass;
        assert(d.take(i + 1)[k].1 is SoftPass);
    }
    if d[i].1 is SoftPass {
        assert(d.take(i + 1)[i].1 is SoftPass);
    }
    if has_soft(d.take(i + 1)) {
        let k = choose|k: int| 0 <= k < i + 1 && (#[trigger] d.take(i + 1)[k]).1 is SoftPass;
        if k < i {
            assert(d.take(i)[k].1 is SoftPass);
        }
    }
}

/// Who is responsible, in words.
pub fn determine_responsibility(d: &Vec<(CandidateModule, ModuleVerdict)>) -> (r: String)
    ensures
        r@ == responsibility(verdicts(d@)),
{
    let (failed, _) = failures(d);
    if failed.is_empty() {
        "无法明确归因 — 需要人工分析".to_string()
    } else if failed.len() == 1 {
        failed[0].name()
    } else {
        let mut s = failed[0].name();
        s.append(" (主导), ");
        s.append(&failed[1].name());
        s.append(" (协同)");
        s
    }
}

/// How sure the attribution is, from 0.0 to 1.0.
pub fn compute_confidence(d: &Vec<(CandidateModule, ModuleVerdict)>) -> (r: Double)
    ensures
        r == confidence(verdicts(d@)),
{
    let (failed, soft) = failures(d);
    if failed.len() == 1 {
        Double { bits: 0x3feb_3333_3333_3333 }
    } else if !failed.is_empty() {
        Double { bits: 0x3fe6_6666_6666_6666 }
    } else if soft {
        Double { bits: 0x3fe0_0000_0000_0000 }
    } else {
        Double { bits: 0x3fd3_3333_3333_3333 }
    }
}

/// The problem that a failed module stands for.
pub open spec fn problem_of(module: CandidateModule) -> Seq<char> {
    match module {
        CandidateModule::ToolSelection => "关键工具未调用"@,
        CandidateModule::IntentRecognition => "意图识别错误"@,
        CandidateModule::Retrieval => "知识召回不足"@,
        CandidateModule::ResponseGeneration => "回复质量缺陷"@,
        CandidateModule::PolicyEnforcement => "策略违规"@,
        _ => "未分类错误"@,
    }
}

/// The fix for a failed module: what is known to help, with the reason of the
/// failure, else a general hint.
pub open spec fn fix_for(entries: Seq<KnownModel>, module: CandidateModule, reason: Seq<char>) ->
    Seq<char> {
    match known_at(entries, problem_of(module), module) {
        Some(i) => if entries[i].fixes.len() == 0 {
            "模块 "@ + module.named() + " 诊断失败: "@ + reason
                + ". 请检查配置、Prompt 或实现。"@
        } else {
            "建议修复: "@ + joined(entries[i].fixes, "; "@) + "。诊断详情: "@ + reason
        },
        None => "模块 "@ + module.named() + " 诊断失败: "@ + reason
            + "。请检查模块配置、Prompt 或实现。"@,
    }
}

/// What happened on the way, as far as it went wrong.
pub open spec fn deviation_details(input: RcaInput, n: int) -> Seq<Seq<char>>
    decreases n,
{
    if n <= 0 || n > input.tool_calls@.len() {
        Seq::empty()
    } else {
        let tc = input.tool_calls@[n - 1];
        if tc.success {
            deviation_details(input, n - 1)
        } else {
            deviation_details(input, n - 1).push(
                "工具调用失败: "@ + tc.name@ + "(参数: "@ + tc.args@ + ") - 耗时 "@ + decimal(
                    tc.duration_ms as nat,
                ) + "ms"@,
            )
        }
    }
}

/// Where the execution first diverged, in words.
pub open spec fn process_deviation(input: RcaInput) -> Seq<char> {
    if input.tool_calls@.len() == 0 && input.response@.len() > 0 {
        "过程偏离: 未调用任何工具就直接生成回复"@
    } else {
        let failed = deviation_details(input, input.tool_calls@.len() as int);
        let all = if input.tool_calls@.len() > 0 && bytes_of(input.response@).len() < 10 {
            failed.push("过程偏离: 调用了工具但回复过短"@)
        } else {
            failed
        };
        if all.len() == 0 {
            "未检测到明显过程偏离"@
        } else {
            joined(all, "; "@)
        }
    }
}

/// Where the execution first diverged, in words.
pub fn describe_process_deviation(input: &RcaInput) -> (r: String)
    ensures
        r@ == process_deviation(*input),
{
    if input.tool_calls.is_empty() && !input.response.as_str().is_empty() {
        return "过程偏离: 未调用任何工具就直接生成回复".to_string();
    }
    let mut details: Vec<String> = Vec::new();
    let mut i: usize = 0;
    assert(texts(details@) =~= deviation_details(*input, 0));
    while i < input.tool_calls.len()
        invariant
            i <= input.tool_calls@.len(),
            texts(details@) == deviation_details(*input, i as int),
        decreases input.tool_calls.len() - i,
    {
        let tc = &input.tool_calls[i];
        let ghost mid = details@;
        if !tc.success {
            let mut s = cat("工具调用失败: ", &tc.name);
            s.append("(参数: ");
            s.append(&tc.args);
            s.append(") - 耗时 ");
            s.append(&decimal_of(tc.duration_ms));
            s.append("ms");
            let ghost line = s@;
            details.push(s);
            assert(texts(details@) =~= texts(mid).push(line));
        }
        i += 1;
    }
    let ghost mid = details@;
    if !input.tool_calls.is_empty() && byte_len(&input.response) < 10 {
        details.push("过程偏离: 调用了工具但回复过短".to_string());
        assert(texts(details@) =~= texts(mid).push("过程偏离: 调用了工具但回复过短"@));
    }
    if details.is_empty() {
        "未检测到明显过程偏离".to_string()
    } else {
        join(details.as_slice(), "; ")
    }
}

// ---------------------------------------------------------------------------
// The pipeline
// ---------------------------------------------------------------------------

/// The analysis, with what it knows.
#[derive(Debug)]
pub struct RcaPipeline {
    pub module_mapping: ModuleMapping,
    pub knowledge_base: RcaKnowledgeBase,
}

/// What is attributed to whom, and what would help.
pub struct Attribution {
    pub module: CandidateModule,
    pub category: Seq<char>,
    pub problem: Seq<char>,
    pub fix: Seq<char>,
}

/// The first diagnosis at or after `i` that failed.
pub open spec fn first_failure(d: Seq<(CandidateModule, VerdictModel)>, i: int) -> Option<int>
    decreases d.len() - i,
{
    if i < 0 || i >= d.len() {
        None
    } else if d[i].1 is Fail {
        Some(i)
    } else {
        first_failure(d, i + 1)
    }
}

/// Whether a short response came without any tool call.
pub open spec fn is_bare_refusal(input: RcaInput) -> bool {
    input.tool_calls@.len() == 0 && bytes_of(input.response@).len() < 20
}

/// What is attributed where no module failed: a short response without any tool
/// call is likely an issue of the policy. The parts are the module, a second
/// module, the category, the problem and the fix.
pub fn match_rules(input: &RcaInput) -> (r: Option<
    (CandidateModule, Option<CandidateModule>, String, String, String),
>)
    ensures
        r is Some == is_bare_refusal(*input),
        r matches Some(m) ==> m.0 == CandidateModule::PolicyEnforcement && m.1 is None && m.2@
            == "风险防控"@ && m.3@ == "不当拒答"@ && m.4@ == "检查拒答策略和 Guardrail 规则"@,
{
    if input.tool_calls.is_empty() && byte_len(&input.response) < 20 {
        return Some(
            (
                CandidateModule::PolicyEnforcement,
                None,
                "风险防控".to_string(),
                "不当拒答".to_string(),
                "检查拒答策略和 Guardrail 规则".to_string(),
            ),
        );
    }
    None
}

/// The attribution of a failure: to the first module that failed; else to the
/// policy when a short response came without any tool call; else to the first
/// candidate, for a person to analyze.
pub open spec fn attribution(
    d: Seq<(CandidateModule, VerdictModel)>,
    input: RcaInput,
    entries: Seq<KnownModel>,
) -> Attribution {
    match first_failure(d, 0) {
        Some(i) => Attribution {
            module: d[i].0,
            category: category_of(d[i].0),
            problem: problem_of(d[i].0),
            fix: fix_for(entries, d[i].0, d[i].1->Fail_0),
        },
        None => if is_bare_refusal(input) {
            Attribution {
                module: CandidateModule::PolicyEnforcement,
                category: "风险防控"@,
                problem: "不当拒答"@,
                fix: "检查拒答策略和 Guardrail 规则"@,
            }
        } else {
            Attribution {
                module: if d.len() > 0 {
                    d[0].0
                } else {
                    CandidateModule::ResponseGeneration
                },
                category: "语义理解"@,
                problem: "无法明确归因"@,
                fix: "请人工分析此案例"@,
            }
        },
    }
}

/// The modules under a phenomenon in a mapping; all of them where it has none.
pub open spec fn scope_of(mapping: ModuleMapping, phenomenon: ProblemPhenomenon) -> Seq<
    CandidateModule,
> {
    match mapping.find_from(phenomenon, 0) {
        Some(modules) => modules,
        None => all_modules(),
    }
}

impl RcaPipeline {
    /// Build the mapping table of phenomena to candidate modules.
    pub fn build_module_mapping() -> (r: ModuleMapping)
        ensures
            forall|p: ProblemPhenomenon| #[trigger]
                r.find_from(p, 0) == Some(candidates_of(p)),
    {
        let r = ModuleMapping {
            entries: vec![
                (
                    ProblemPhenomenon::NonResponsive,
                    vec![
                        CandidateModule::IntentRecognition,
                        CandidateModule::ContextMemory,
                    ],
                ),
                (
                    ProblemPhenomenon::OrderNotClarified,
                    vec![
                        CandidateModule::SlotFilling,
                        CandidateModule::ContextMemory,
                    ],
                ),
                (
                    ProblemPhenomenon::FactualError,
                    vec![
                        CandidateModule::Retrieval,
                        CandidateModule::Reasoning,
                        CandidateModule::ResponseGeneration,
                    ],
                ),
                (
                    ProblemPhenomenon::OverPromise,
                    vec![
                        CandidateModule::PolicyEnforcement,
                        CandidateModule::ResponseGeneration,
                    ],
                ),
                (
                    ProblemPhenomenon::ToolNotCalled,
                    vec![
                        CandidateModule::ToolSelection,
                        CandidateModule::IntentRecognition,
                    ],
                ),
                (
                    ProblemPhenomenon::ToolWrongOrder,
                    vec![
                        CandidateModule::ToolSelection,
                        CandidateModule::Reasoning,
                    ],
                ),
                (
                    ProblemPhenomenon::Hallucination,
                    vec![
                        CandidateModule::Retrieval,
                        CandidateModule::ResponseGeneration,
                    ],
                ),
                (
                    ProblemPhenomenon::RefusalError,
                    vec![
                        CandidateModule::PolicyEnforcement,
                        CandidateModule::IntentRecognition,
                    ],
                ),
            ],
        };
        assert forall|p: ProblemPhenomenon| #[trigger] r.find_from(p, 0) == Some(
            candidates_of(p),
        ) by {
            reveal_with_fuel(ModuleMapping::find_from, 9);
            match p {
                ProblemPhenomenon::NonResponsive => {
                    assert(r.entries@[0].1@ =~= candidates_of(p));
                },
                ProblemPhenomenon::OrderNotClarified => {
                    assert(r.entries@[1].1@ =~= candidates_of(p));
                },
                ProblemPhenomenon::FactualError => {
                    assert(r.entries@[2].1@ =~= candidates_of(p));
                },
                ProblemPhenomenon::OverPromise => {
                    assert(r.entries@[3].1@ =~= candidates_of(p));
                },
                ProblemPhenomenon::ToolNotCalled => {
                    assert(r.entries@[4].1@ =~= candidates_of(p));
                },
                ProblemPhenomenon::ToolWrongOrder => {
                    assert(r.entries@[5].1@ =~= candidates_of(p));
                },
                ProblemPhenomenon::Hallucination => {
                    assert(r.entries@[6].1@ =~= candidates_of(p));
                },
                ProblemPhenomenon::RefusalError => {
                    assert(r.entries@[7].1@ =~= candidates_of(p));
                },
            }
        }
        r
    }

    /// The analysis with the built-in mapping and knowledge.
    pub fn new() -> (r: Self)
        ensures
            forall|p: ProblemPhenomenon| #[trigger]
                r.module_mapping.find_from(p, 0) == Some(candidates_of(p)),
            r.knowledge_base@ == seeded(),
    {
        RcaPipeline {
            module_mapping: RcaPipeline::build_module_mapping(),
            knowledge_base: RcaKnowledgeBase::new(),
        }
    }

    /// The category, the problem and the fix for a module that failed.
    pub fn lookup_fix(&self, module: &CandidateModule, reason: &str) -> (r: (
        String,
        String,
        String,
    ))
        ensures
            r.0@ == category_of(*module),
            r.1@ == problem_of(*module),
            r.2@ == fix_for(self.knowledge_base@, *module, reason@),
    {
        let enumeration = match module {
            CandidateModule::ToolSelection => "关键工具未调用",
            CandidateModule::IntentRecognition => "意图识别错误",
            CandidateModule::Retrieval => "知识召回不足",
            CandidateModule::ResponseGeneration => "回复质量缺陷",
            CandidateModule::PolicyEnforcement => "策略违规",
            _ => "未分类错误",
        };
        assert(enumeration@ == problem_of(*module));
        let category = module_category(module).to_string();
        let fix = match self.knowledge_base.lookup(enumeration, module) {
            Some(entry) => {
                if entry.known_fixes.is_empty() {
                    let mut s = cat("模块 ", &module.name());
                    s.append(" 诊断失败: ");
                    s.append(reason);
                    s.append(". 请检查配置、Prompt 或实现。");
                    s
                } else {
                    let mut s = cat("建议修复: ", &join(entry.known_fixes.as_slice(), "; "));
                    s.append("。诊断详情: ");
                    s.append(reason);
                    s
                }
            },
            None => {
                let mut s = cat("模块 ", &module.name());
                s.append(" 诊断失败: ");
                s.append(reason);
                s.append("。请检查模块配置、Prompt 或实现。");
                s
            },
        };
        (category, enumeration.to_string(), fix)
    }

    /// What to ask the critic for the analysis of an input: nothing unless the
    /// generation of the response is among the candidates.
    pub fn critic_request(&self, input: &RcaInput) -> (r: Option<String>)
        ensures
            opt_text(r) == (if scope_of(self.module_mapping, phenomenon_of(*input)).contains(
                CandidateModule::ResponseGeneration,
            ) {
                Some(critic_question(*input))
            } else {
                None
            }),
    {
        let phenomenon = detect_phenomenon(input);
        let fallback = CandidateModule::all();
        let candidates = match self.module_mapping.get(&phenomenon) {
            Some(v) => v,
            None => &fallback,
        };
        let mut i: usize = 0;
        while i < candidates.len()
            invariant
                i <= candidates@.len(),
                candidates@ == scope_of(self.module_mapping, phenomenon_of(*input)),
                !candidates@.take(i as int).contains(CandidateModule::ResponseGeneration),
            decreases candidates.len() - i,
        {
            if candidates[i] == CandidateModule::ResponseGeneration {
                assert(candidates@.contains(CandidateModule::ResponseGeneration));
                return Some(critic_prompt(input));
            }
            assert(candidates@.take(i + 1) =~= candidates@.take(i as int).push(
                candidates@[i as int],
            ));
            i += 1;
        }
        assert(candidates@.take(candidates@.len() as int) =~= candidates@);
        None
    }

    /// Run the full analysis, given the turns of the conversation, whether the
    /// critic passed the response, how long the analysis took, and the time.
    pub fn analyze(
        &self,
        input: RcaInput,
        turns: &[TurnRecord],
        critic: Option<bool>,
        duration_ms: u64,
        now: Timestamp,
    ) -> (r: RcaResult)
        ensures
            ({
                let p = phenomenon_of(input);
                let d = diagnoses_of(scope_of(self.module_mapping, p), input, critic);
                let a = attribution(d, input, self.knowledge_base@);
                &&& r.phenomenon@ == p.named()
                &&& r.process_deviation@ == process_deviation(input)
                &&& r.responsibility@ == responsibility(d)
                &&& r.problem_category@ == a.category
                &&& r.problem_enumeration@ == a.problem
                &&& r.responsibility_module == a.module
                &&& r.sub_responsibility is None
                &&& texts(r.evidence_chain@) == evidence(input, turns@)
                &&& r.fix_suggestion@ == a.fix
                &&& r.confidence == confidence(d)
                &&& r.analysis_duration_ms == duration_ms
                &&& r.entry == input.entry
                &&& r.completed_at == now
            }),
    {
        let evidence_chain = collect_evidence(&input, turns);
        let phenomenon = detect_phenomenon(&input);
        let fallback = CandidateModule::all();
        let candidates = match self.module_mapping.get(&phenomenon) {
            Some(v) => v,
            None => &fallback,
        };
        let ghost scope = scope_of(self.module_mapping, phenomenon);
        assert(candidates@ == scope);
        let mut diagnoses: Vec<(CandidateModule, ModuleVerdict)> = Vec::new();
        let ghost d = diagnoses_of(scope, input, critic);
        let mut i: usize = 0;
        while i < candidates.len()
            invariant
                i <= candidates@.len(),
                candidates@ == scope,
                d == diagnoses_of(scope, input, critic),
                verdicts(diagnoses@) == d.take(i as int),
            decreases candidates.len() - i,
        {
            let ghost mid = diagnoses@;
            let module = candidates[i];
            let verdict = diagnose_module(&module, &input, critic);
            diagnoses.push((module, verdict));
            proof {
                assert(verdicts(diagnoses@) =~= verdicts(mid).push((module, verdict@)));
                assert(d.take(i + 1) =~= d.take(i as int).push(d[i as int]));
            }
            i += 1;
        }
        assert(d.take(candidates@.len() as int) =~= d);
        let mut main: Option<(CandidateModule, String, String, String)> = None;
        let mut k: usize = 0;
        while k < diagnoses.len()
            invariant_except_break
                k <= diagnoses@.len(),
                verdicts(diagnoses@) == d,
                main is None,
                first_failure(d, 0) == first_failure(d, k as int),
            ensures
                match main {
                    Some(m) => first_failure(d, 0) is Some && {
                        let j = first_failure(d, 0)->0;
                        &&& 0 <= j < d.len()
                        &&& m.0 == d[j].0
                        &&& m.1@ == category_of(m.0)
                        &&& m.2@ == problem_of(m.0)
                        &&& m.3@ == fix_for(self.knowledge_base@, m.0, d[j].1->Fail_0)
                    },
                    None => first_failure(d, 0) is None,
                },
            decreases diagnoses.len() - k,
        {
            assert(d[k as int] == (diagnoses@[k as int].0, diagnoses@[k as int].1@));
            if let ModuleVerdict::Fail(reason) = &diagnoses[k].1 {
                let module = diagnoses[k].0;
                let (category, problem, fix) = self.lookup_fix(&module, reason);
                main = Some((module, category, problem, fix));
                break;
            }
            k += 1;
        }
        let (module, category, problem, fix) = match main {
            Some(m) => m,
            None => match match_rules(&input) {
                Some(m) => (m.0, m.2, m.3, m.4),
                None => {
                    let first = if diagnoses.is_empty() {
                        CandidateModule::ResponseGeneration
                    } else {
                        assert(d[0] == (diagnoses@[0].0, diagnoses@[0].1@));
                        diagnoses[0].0
                    };
                    (
                        first,
                        "语义理解".to_string(),
                        "无法明确归因".to_string(),
                        "请人工分析此案例".to_string(),
                    )
                },
            },
        };
        RcaResult {
            phenomenon: phenomenon.name(),
            process_deviation: describe_process_deviation(&input),
            responsibility: determine_responsibility(&diagnoses),
            problem_category: category,
            problem_enumeration: problem,
            responsibility_module: module,
            sub_responsibility: None,
            evidence_chain,
            fix_suggestion: fix,
            confidence: compute_confidence(&diagnoses),
            analysis_duration_ms: duration_ms,
            entry: input.entry,
            completed_at: now,
        }
    }
}

/// The input of the analysis of a failed trial.
pub fn rca_input_from_trial(task_id: &str, trial: TrialResult, task_input: &str) -> (r: RcaInput)
    ensures
        r.run_id@ == task_id@,
        r.task_id@ == task_id@,
        r.user_input@ == task_input@,
        r.response@ == trial.response@,
        r.tool_calls@ == trial.tool_calls@,
        r.scoring == Some(trial),
        r.entry is AutoDetected,
{
    let mut tool_calls: Vec<ToolCallRecord> = Vec::new();
    let mut i: usize = 0;
    while i < trial.tool_calls.len()
        invariant
            i <= trial.tool_calls@.len(),
            tool_calls@ == trial.tool_calls@.take(i as int),
        decreases trial.tool_calls.len() - i,
    {
        tool_calls.push(trial.tool_calls[i].clone());
        i += 1;
    }
    RcaInput {
        run_id: task_id.to_string(),
        task_id: task_id.to_string(),
        user_input: task_input.to_string(),
        response: trial.response.clone(),
        tool_calls,
        scoring: Some(trial),
        entry: BadcaseEntry::AutoDetected,
    }
}

// ---------------------------------------------------------------------------
// Laws
// ---------------------------------------------------------------------------

/// Every phenomenon has candidate modules, all different.
pub proof fn law_every_phenomenon_has_candidates(p: ProblemPhenomenon)
    ensures
        candidates_of(p).len() > 0,
        candidates_of(p).no_duplicates(),
{
}

/// Every module has an owner.
pub proof fn law_every_module_has_an_owner(m: CandidateModule)
    ensures
        all_modules().contains(m),
        owner_of(m).len() > 0,
{
    reveal_strlit("nlp_team");
    reveal_strlit("memory_team");
    reveal_strlit("knowledge_team");
    reveal_strlit("tool_team");
    reveal_strlit("reasoning_team");
    reveal_strlit("generation_team");
    reveal_strlit("policy_team");
    reveal_strlit("infra_team");
    let i: int = match m {
        CandidateModule::IntentRecognition => 0,
        CandidateModule::SlotFilling => 1,
        CandidateModule::ContextMemory => 2,
        CandidateModule::Retrieval => 3,
        CandidateModule::ToolSelection => 4,
        CandidateModule::ToolExecution => 5,
        CandidateModule::ParameterConstruction => 6,
        CandidateModule::Reasoning => 7,
        CandidateModule::ResponseGeneration => 8,
        CandidateModule::PolicyEnforcement => 9,
        CandidateModule::SystemInfra => 10,
    };
    assert(all_modules()[i] == m);
}

} // verus!
