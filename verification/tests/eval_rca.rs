//! Root cause analysis.
use syscity::eval::rca::{
    collect_evidence, compute_confidence, conversation_id, critic_prompt,
    describe_process_deviation, detect_phenomenon, determine_responsibility, diagnose_module,
    match_rules, module_category, module_to_owner, rca_input_from_trial, BadcaseEntry,
    CandidateModule, ModuleVerdict, ProblemPhenomenon, RcaInput, RcaKnowledgeBase,
    RcaKnowledgeBaseEntry, RcaPipeline, TurnRecord,
};
use syscity::eval::types::{Critique, Timestamp, ToolCallRecord, TrialResult};

fn call(name: &str, success: bool) -> ToolCallRecord {
    ToolCallRecord {
        name: name.to_string(),
        args: "{}".to_string(),
        result: String::new(),
        success,
        duration_ms: 7,
    }
}

fn input(user: &str, response: &str, tool_calls: Vec<ToolCallRecord>) -> RcaInput {
    RcaInput {
        run_id: "run".to_string(),
        task_id: "task".to_string(),
        user_input: user.to_string(),
        response: response.to_string(),
        tool_calls,
        scoring: None,
        entry: BadcaseEntry::AutoDetected,
    }
}

fn trial(response: &str, weaknesses: &[&str]) -> TrialResult {
    TrialResult {
        trial_index: 0,
        response: response.to_string(),
        tool_calls: vec![call("web_search", true)],
        token_usage: None,
        duration_ms: 0,
        condition_results: vec![],
        conditions_passed: true,
        critique: Some(Critique {
            passed: false,
            weaknesses: weaknesses.iter().map(|w| w.to_string()).collect(),
        }),
        critique_passed: false,
        skill_results: None,
        skill_passed: true,
        turn_results: vec![],
        session_condition_results: vec![],
        session_conditions_passed: true,
        passed: false,
    }
}

fn at(secs: u64) -> Timestamp {
    Timestamp { secs, nanos: 0 }
}

#[test]
fn test_module_mapping_coverage() {
    let map = RcaPipeline::build_module_mapping();
    // All phenomena should map to at least one module
    let phenomena = vec![
        ProblemPhenomenon::NonResponsive,
        ProblemPhenomenon::OrderNotClarified,
        ProblemPhenomenon::FactualError,
        ProblemPhenomenon::OverPromise,
        ProblemPhenomenon::ToolNotCalled,
        ProblemPhenomenon::ToolWrongOrder,
        ProblemPhenomenon::Hallucination,
        ProblemPhenomenon::RefusalError,
    ];
    for p in phenomena {
        assert!(map.contains_key(&p), "Missing mapping for {:?}", p);
        assert!(!map.get(&p).unwrap().is_empty(), "Empty candidate list for {:?}", p);
    }
}

#[test]
fn test_knowledge_base_seeded() {
    let kb = RcaKnowledgeBase::new();
    // KB should have default entries
    assert!(kb.lookup("关键工具未调用", &CandidateModule::ToolSelection).is_some());
    assert!(kb.lookup("意图识别错误", &CandidateModule::IntentRecognition).is_some());
    assert!(kb.lookup("知识召回不足", &CandidateModule::Retrieval).is_some());
    assert!(kb.lookup("回复质量缺陷", &CandidateModule::ResponseGeneration).is_some());
    assert!(kb.lookup("策略违规", &CandidateModule::PolicyEnforcement).is_some());
    // Unknown pair should return None
    assert!(kb.lookup("不存在的问题", &CandidateModule::SystemInfra).is_none());
}

#[test]
fn test_knowledge_base_record_updates_hit_count() {
    let mut kb = RcaKnowledgeBase::new();
    let existing = kb.lookup("关键工具未调用", &CandidateModule::ToolSelection);
    let initial_hits = existing.map(|e| e.hit_count).unwrap_or(0);

    kb.record(RcaKnowledgeBaseEntry {
        problem_enumeration: "关键工具未调用".into(),
        responsibility_module: CandidateModule::ToolSelection,
        known_fixes: vec!["测试修复".into()],
        hit_count: 0,
        last_resolution: None,
    });

    let updated = kb.lookup("关键工具未调用", &CandidateModule::ToolSelection);
    assert_eq!(updated.unwrap().hit_count, initial_hits + 1);
}

#[test]
fn test_knowledge_base() {
    let mut kb = RcaKnowledgeBase::new();
    kb.record(RcaKnowledgeBaseEntry {
        problem_enumeration: "关键工具未调用".into(),
        responsibility_module: CandidateModule::ToolSelection,
        known_fixes: vec!["修改工具选择 Prompt".into()],
        hit_count: 1,
        last_resolution: None,
    });

    let result = kb.lookup("关键工具未调用", &CandidateModule::ToolSelection);
    assert!(result.is_some());
    assert_eq!(result.unwrap().known_fixes[0], "修改工具选择 Prompt");
}

#[test]
fn test_module_to_owner_all_modules() {
    for m in CandidateModule::all() {
        let owner = module_to_owner(&m);
        assert!(!owner.is_empty(), "No owner for {:?}", m);
    }
}

#[test]
fn test_module_to_owner_consistency() {
    // module_to_owner should return stable, consistent results
    assert_eq!(module_to_owner(&CandidateModule::ToolSelection), "tool_team");
    assert_eq!(module_to_owner(&CandidateModule::ToolExecution), "tool_team");
    assert_eq!(module_to_owner(&CandidateModule::ParameterConstruction), "tool_team");
    assert_eq!(module_to_owner(&CandidateModule::IntentRecognition), "nlp_team");
    assert_eq!(module_to_owner(&CandidateModule::SlotFilling), "nlp_team");
    assert_eq!(module_to_owner(&CandidateModule::ContextMemory), "memory_team");
    assert_eq!(module_to_owner(&CandidateModule::Retrieval), "knowledge_team");
    assert_eq!(module_to_owner(&CandidateModule::Reasoning), "reasoning_team");
    assert_eq!(module_to_owner(&CandidateModule::ResponseGeneration), "generation_team");
    assert_eq!(module_to_owner(&CandidateModule::PolicyEnforcement), "policy_team");
    assert_eq!(module_to_owner(&CandidateModule::SystemInfra), "infra_team");
}

#[test]
fn an_unknown_problem_is_added_to_the_knowledge() {
    let mut kb = RcaKnowledgeBase::new();
    kb.record(RcaKnowledgeBaseEntry {
        problem_enumeration: "新问题".into(),
        responsibility_module: CandidateModule::Reasoning,
        known_fixes: vec!["a".into(), "b".into()],
        hit_count: 4,
        last_resolution: Some("done".into()),
    });
    let e = kb.lookup("新问题", &CandidateModule::Reasoning).unwrap();
    assert_eq!(e.hit_count, 4);
    assert_eq!(e.known_fixes, vec!["a", "b"]);
    assert_eq!(e.last_resolution.as_deref(), Some("done"));
    assert!(kb.lookup("新问题", &CandidateModule::Retrieval).is_none());
}

#[test]
fn names_and_categories() {
    assert_eq!(CandidateModule::all().len(), 11);
    assert_eq!(CandidateModule::SystemInfra.name(), "SystemInfra");
    assert_eq!(module_category(&CandidateModule::SystemInfra), "系统基础设施");
    assert_eq!(module_category(&CandidateModule::ToolSelection), "工具执行");
    assert_eq!(ProblemPhenomenon::Hallucination.name(), "Hallucination");
    assert_eq!(
        ProblemPhenomenon::from_name("OverPromise"),
        Some(ProblemPhenomenon::OverPromise)
    );
    assert_eq!(ProblemPhenomenon::from_name("overpromise"), None);
}

#[test]
fn phenomena_are_told_by_the_first_telling_weakness() {
    // A response without any tool call comes first.
    assert_eq!(detect_phenomenon(&input("q", "a", vec![])), ProblemPhenomenon::ToolNotCalled);
    // Nothing tells more.
    assert_eq!(detect_phenomenon(&input("q", "", vec![])), ProblemPhenomenon::FactualError);
    let cases = [
        (vec!["It makes an OVERPROMISE"], ProblemPhenomenon::OverPromise),
        (vec!["too long", "Hallucination of a source"], ProblemPhenomenon::Hallucination),
        (vec!["编造"], ProblemPhenomenon::Hallucination),
        (vec!["factual slip", "refusal"], ProblemPhenomenon::FactualError),
        (vec!["Refused to answer"], ProblemPhenomenon::RefusalError),
        (vec!["Off-Topic"], ProblemPhenomenon::NonResponsive),
        (vec!["slow"], ProblemPhenomenon::FactualError),
    ];
    for (weaknesses, expected) in cases {
        let i = rca_input_from_trial("t", trial("answer", &weaknesses), "q");
        assert_eq!(detect_phenomenon(&i), expected, "{:?}", weaknesses);
    }
}

#[test]
fn a_trial_becomes_an_input() {
    let i = rca_input_from_trial("task-9", trial("answer", &["slow"]), "question");
    assert_eq!(i.run_id, "task-9");
    assert_eq!(i.task_id, "task-9");
    assert_eq!(i.user_input, "question");
    assert_eq!(i.response, "answer");
    assert_eq!(i.tool_calls.len(), 1);
    assert_eq!(i.tool_calls[0].name, "web_search");
    assert!(i.scoring.is_some());
    assert!(matches!(i.entry, BadcaseEntry::AutoDetected));
    assert_eq!(conversation_id(&i), "eval_task-9_task-9");
}

#[test]
fn evidence_lists_the_calls_and_the_answered_turns() {
    let i = input("q", "a", vec![call("grep", false)]);
    let turns = [
        TurnRecord { index: 0, assistant_response: String::new() },
        TurnRecord { index: 1, assistant_response: "hello".to_string() },
    ];
    assert_eq!(
        collect_evidence(&i, &turns),
        vec![
            "User input: q",
            "Agent response: a",
            "Tool call: grep({}) → success=false in 7ms",
            "Turn 1 response: hello",
        ]
    );
}

#[test]
fn modules_are_diagnosed_by_their_rules() {
    let no_tools = input("", "something", vec![]);
    assert!(matches!(
        diagnose_module(&CandidateModule::ToolSelection, &no_tools, None),
        ModuleVerdict::Fail(r) if r == "工具未被调用"
    ));
    assert!(matches!(
        diagnose_module(&CandidateModule::IntentRecognition, &no_tools, None),
        ModuleVerdict::Fail(r) if r == "空输入但产生了回复"
    ));
    let long = input("q", &"x".repeat(51), vec![call("shell", true)]);
    assert!(matches!(
        diagnose_module(&CandidateModule::Retrieval, &long, None),
        ModuleVerdict::SoftPass(_)
    ));
    let searched = input("q", &"x".repeat(51), vec![call("web_fetch", true)]);
    assert!(matches!(
        diagnose_module(&CandidateModule::Retrieval, &searched, None),
        ModuleVerdict::Pass
    ));
    assert!(matches!(
        diagnose_module(&CandidateModule::ResponseGeneration, &long, Some(false)),
        ModuleVerdict::Fail(_)
    ));
    assert!(matches!(
        diagnose_module(&CandidateModule::ResponseGeneration, &long, Some(true)),
        ModuleVerdict::Pass
    ));
    let promise = input("q", "我们保证一定退款", vec![]);
    assert!(matches!(
        diagnose_module(&CandidateModule::PolicyEnforcement, &promise, None),
        ModuleVerdict::Fail(r) if r == "包含过度承诺关键词 '一定'"
    ));
    assert!(matches!(
        diagnose_module(&CandidateModule::Reasoning, &promise, None),
        ModuleVerdict::Pass
    ));
}

#[test]
fn the_critic_is_asked_only_where_the_response_is_in_question() {
    let pipeline = RcaPipeline::new();
    let i = rca_input_from_trial("t", trial("answer", &["factual"]), "q");
    assert_eq!(
        critic_prompt(&i),
        "Evaluate whether the response faithfully reflects available evidence.\n\
         Evidence (tool calls): [\"web_search\"]\nResponse: answer\n\
         Does the response accurately use the evidence? Answer PASS or FAIL with reason."
    );
    assert_eq!(pipeline.critic_request(&i), Some(critic_prompt(&i)));
    assert_eq!(pipeline.critic_request(&input("q", "a", vec![])), None);
}

#[test]
fn an_analysis_blames_the_first_module_that_failed() {
    let pipeline = RcaPipeline::new();
    let r = pipeline.analyze(input("q", "a", vec![]), &[], None, 12, at(1000));
    assert_eq!(r.phenomenon, "ToolNotCalled");
    assert_eq!(r.process_deviation, "过程偏离: 未调用任何工具就直接生成回复");
    assert_eq!(r.responsibility, "ToolSelection");
    assert_eq!(r.problem_category, "工具执行");
    assert_eq!(r.problem_enumeration, "关键工具未调用");
    assert_eq!(r.responsibility_module, CandidateModule::ToolSelection);
    assert_eq!(r.sub_responsibility, None);
    assert_eq!(r.evidence_chain, vec!["User input: q", "Agent response: a"]);
    assert_eq!(
        r.fix_suggestion,
        "建议修复: 检查工具选择 prompt 中是否包含所有必需工具; 确认工具注册列表包含目标工具; \
         添加工具选择约束词 (必须/应当调用)。诊断详情: 工具未被调用"
    );
    assert_eq!(f64::from_bits(r.confidence.bits), 0.85);
    assert_eq!(r.analysis_duration_ms, 12);
    assert_eq!(r.completed_at, at(1000));
}

#[test]
fn two_failed_modules_share_the_responsibility() {
    let pipeline = RcaPipeline::new();
    let r = pipeline.analyze(input("", "a", vec![]), &[], None, 0, at(0));
    assert_eq!(r.responsibility, "ToolSelection (主导), IntentRecognition (协同)");
    assert_eq!(f64::from_bits(r.confidence.bits), 0.70);
}

#[test]
fn without_a_failed_module_rules_and_then_people_decide() {
    let pipeline = RcaPipeline::new();
    // No tools and a short (here: no) response: likely a refusal.
    let refusal = pipeline.analyze(input("q", "", vec![]), &[], None, 0, at(0));
    assert_eq!(refusal.responsibility_module, CandidateModule::PolicyEnforcement);
    assert_eq!(refusal.problem_category, "风险防控");
    assert_eq!(refusal.problem_enumeration, "不当拒答");
    assert_eq!(refusal.fix_suggestion, "检查拒答策略和 Guardrail 规则");
    assert_eq!(refusal.responsibility, "无法明确归因 — 需要人工分析");
    assert_eq!(f64::from_bits(refusal.confidence.bits), 0.30);
    assert!(match_rules(&input("q", "", vec![])).is_some());

    let soft = input("q", &"x".repeat(60), vec![call("shell", true)]);
    assert!(match_rules(&soft).is_none());
    let r = pipeline.analyze(soft, &[], None, 0, at(0));
    assert_eq!(r.responsibility_module, CandidateModule::Retrieval);
    assert_eq!(r.problem_category, "语义理解");
    assert_eq!(r.problem_enumeration, "无法明确归因");
    assert_eq!(r.fix_suggestion, "请人工分析此案例");
    assert_eq!(r.process_deviation, "未检测到明显过程偏离");
    assert_eq!(f64::from_bits(r.confidence.bits), 0.50);
}

#[test]
fn failed_calls_and_short_answers_are_deviations() {
    let i = input("q", "ok", vec![call("grep", false), call("shell", true)]);
    assert_eq!(
        describe_process_deviation(&i),
        "工具调用失败: grep(参数: {}) - 耗时 7ms; 过程偏离: 调用了工具但回复过短"
    );
}

#[test]
fn a_module_without_known_fixes_gets_a_general_hint() {
    let mut pipeline = RcaPipeline::new();
    let (category, problem, fix) = pipeline.lookup_fix(&CandidateModule::Reasoning, "why");
    assert_eq!(category, "推理决策");
    assert_eq!(problem, "未分类错误");
    assert_eq!(fix, "模块 Reasoning 诊断失败: why。请检查模块配置、Prompt 或实现。");

    pipeline.knowledge_base.record(RcaKnowledgeBaseEntry {
        problem_enumeration: "未分类错误".into(),
        responsibility_module: CandidateModule::Reasoning,
        known_fixes: vec![],
        hit_count: 0,
        last_resolution: None,
    });
    let (_, _, fix) = pipeline.lookup_fix(&CandidateModule::Reasoning, "why");
    assert_eq!(fix, "模块 Reasoning 诊断失败: why. 请检查配置、Prompt 或实现。");
}

#[test]
fn confidence_and_responsibility_of_no_diagnosis() {
    assert_eq!(f64::from_bits(compute_confidence(&vec![]).bits), 0.30);
    assert_eq!(determine_responsibility(&vec![]), "无法明确归因 — 需要人工分析");
    let soft = vec![(CandidateModule::Retrieval, ModuleVerdict::SoftPass("s".to_string()))];
    assert_eq!(f64::from_bits(compute_confidence(&soft).bits), 0.50);
    let unknown = vec![(CandidateModule::Retrieval, ModuleVerdict::Unknown)];
    assert_eq!(f64::from_bits(compute_confidence(&unknown).bits), 0.30);
}
