//! Standalone runs and the calibration of the judge.
use syscity::agent::AgentConfig;
use syscity::error::SyscityError;
use syscity::eval::calibration::{
    calibrate, calibration_parse_error, compared_reports, default_deviation, detect_drift, evaluate_case,
    history_lines, load_calibration_cases, matching_verdicts, Averages, CalibrationCase,
    CalibrationCaseYaml, Change, ExpectedCalibration, Judgement,
};
use syscity::eval::dataset::{
    EvalSuite, EvalTask, EvalTaskSource, QualityCriteria, QualityDimension, SuiteCategory,
};
use syscity::eval::loader::YamlCriteria;
use syscity::eval::recycle::BadcaseGovernance;
use syscity::eval::standalone::{
    analyzes_failures, append_eval_ledger, config_candidates, create_eval_tool_registry,
    early_stop, end_suite, eval_agent_config, eval_search_providers, eval_subagent_config, executor_label,
    governance_of, governed_header, has_criteria, judge_failed, judge_label, judge_plan, keep_only,
    ledger_addition, ledger_header, no_governed_tasks, only_report, pick_tasks, provider_failed, provider_type,
    resolve_run, reviews, run_mode, run_suite, sample_tasks, samples, search_env_keys, skill_details,
    suite_header, suite_manifest_path, suite_not_found, suite_result, summary_lines, task_trials,
    JudgePlan, LedgerEntry, ProviderEnvironment, ProviderSelection, ResolvedProvider, RunFigures,
    SuiteRunOptions, SuiteTotals, TaskOutcome,
};
use syscity::eval::types::{SkillCheck, SkillResults, Timestamp};
use syscity::gateway::agent_spawn::BuiltinTool;
use syscity::gateway::config::memory::{SearchConfig, SearchProvider};
use syscity::gateway::config::optimizer::BadcaseGovernanceConfig;
use syscity::gateway::events::TokenUsage;
use syscity::scalar::{Double, Single};
use syscity::strmap::StrMap;

fn double(x: f64) -> Double {
    Double { bits: x.to_bits() }
}

fn task(id: &str) -> EvalTask {
    EvalTask {
        id: id.to_string(),
        description: String::new(),
        input: String::new(),
        user_id: "eval_user".to_string(),
        conditions: vec![],
        criteria: None,
        expected_behavior: String::new(),
        source: EvalTaskSource::ExpertDesign,
        failure_reason: None,
        setup: vec![],
        cleanup: vec![],
        agent_type: None,
        turns: vec![],
        session_conditions: vec![],
        difficulty: "medium".to_string(),
        coverage: vec![],
        trials: None,
        min_pass_rate: None,
    }
}

fn ids(tasks: &[EvalTask]) -> Vec<&str> {
    tasks.iter().map(|t| t.id.as_str()).collect()
}

fn env(anthropic: Option<&str>, openai: Option<&str>, url: Option<&str>) -> ProviderEnvironment {
    ProviderEnvironment {
        anthropic_key: anthropic.map(|s| s.to_string()),
        openai_key: openai.map(|s| s.to_string()),
        base_url: url.map(|s| s.to_string()),
    }
}

fn ledger_entry() -> LedgerEntry {
    LedgerEntry {
        date: "2026-01-02 03:04".to_string(),
        commit: "abc1234\n".to_string(),
        suite: "unit_suite".to_string(),
        executor: "deepseek/deepseek-v4-pro".to_string(),
        judge: "deepseek/deepseek-v4-flash".to_string(),
        mode: "full".to_string(),
        passed: 8,
        total: 10,
        rate: "80.0%".to_string(),
        gate_passed: true,
        failed_tasks: vec!["task_a".to_string(), "task_b".to_string()],
    }
}

#[test]
fn test_append_eval_ledger_creates_and_appends() {
    let mut content = ledger_addition(false, &ledger_entry());
    assert!(content.starts_with(&ledger_header()));
    content.push_str(&ledger_addition(true, &LedgerEntry {
        judge: "self".to_string(),
        mode: "only:2".to_string(),
        passed: 2,
        total: 2,
        rate: "100.0%".to_string(),
        failed_tasks: vec![],
        ..ledger_entry()
    }));

    assert_eq!(
        content.matches("# Eval Ledger").count(),
        1,
        "header must be written exactly once"
    );
    // Header/separator rows never mention the suite name, so this selects
    // exactly the appended data rows.
    let data_rows: Vec<&str> = content.lines().filter(|l| l.contains("unit_suite")).collect();
    assert_eq!(data_rows.len(), 2, "one row per run: {content}");
    assert!(data_rows[0].contains("unit_suite"));
    assert!(data_rows[0].contains("deepseek/deepseek-v4-pro"));
    assert!(data_rows[0].contains("full"));
    assert!(data_rows[0].contains("8/10"));
    assert!(data_rows[0].contains("80.0%"));
    assert!(data_rows[0].contains("PASS"));
    assert!(data_rows[0].contains("task_a, task_b"));
    assert!(data_rows[1].contains("only:2"));
    assert!(data_rows[1].contains("2/2"));
    assert!(data_rows[1].contains("100.0%"));
}

#[test]
fn a_ledger_row_is_complete() {
    assert_eq!(
        append_eval_ledger(&ledger_entry()),
        "| 2026-01-02 03:04 | abc1234 | unit_suite | deepseek/deepseek-v4-pro | \
         deepseek/deepseek-v4-flash | full | 8/10 | 80.0% | PASS | task_a, task_b |\n"
    );
    let bad = append_eval_ledger(&LedgerEntry {
        commit: " \n".to_string(),
        gate_passed: false,
        failed_tasks: vec![],
        ..ledger_entry()
    });
    assert!(bad.contains("| - | unit_suite |"));
    assert!(bad.ends_with("| FAIL | - |\n"));
}

#[test]
fn long_lists_of_failed_tasks_are_cut() {
    let cell = |failed: Vec<String>| -> String {
        let row = append_eval_ledger(&LedgerEntry { failed_tasks: failed, ..ledger_entry() });
        let end = row.strip_suffix(" |\n").unwrap();
        end.rsplit(" | ").next().unwrap().to_string()
    };
    assert_eq!(cell(vec!["é".repeat(160)]), "é".repeat(160));
    assert_eq!(cell(vec!["é".repeat(161)]), "é".repeat(159) + "…");
}

#[test]
fn options_are_open_by_default() {
    let o = SuiteRunOptions::default();
    assert!(o.evals_dir.is_none() && o.trials_override.is_none() && o.only_tasks.is_none());
    assert!(!o.skill_breakdown && !o.collect_badcases);
    assert!(ProviderSelection::default().provider.is_none());
    assert_eq!(suite_manifest_path("evals", "ci_smoke"), "evals/suites/ci_smoke.yaml");
    assert!(matches!(
        suite_not_found("x", "\"evals/suites/x.yaml\""),
        SyscityError::Validation(m) if m == "Suite 'x' not found at \"evals/suites/x.yaml\""
    ));
}

#[test]
fn only_the_wanted_tasks_run() {
    let tasks = || vec![task("a"), task("b"), task("c"), task("a")];
    let only = |v: &[&str]| Some(v.iter().map(|s| s.to_string()).collect::<Vec<String>>());
    assert_eq!(ids(&keep_only(tasks(), &None).unwrap()), vec!["a", "b", "c", "a"]);
    assert_eq!(ids(&keep_only(tasks(), &only(&[])).unwrap()), vec!["a", "b", "c", "a"]);
    assert_eq!(ids(&keep_only(tasks(), &only(&["c", "a"])).unwrap()), vec!["a", "c", "a"]);
    assert!(matches!(
        keep_only(tasks(), &only(&["x"])),
        Err(SyscityError::Validation(m)) if m == "--only matched no tasks in the suite"
    ));
    assert_eq!(only_report(2, 5), "--only: kept 2 / dropped 3 of 5 tasks");
}

#[test]
fn trials_come_from_the_task_then_the_run_then_the_suite() {
    assert_eq!(task_trials(Some(2), Some(3), 4), 2);
    assert_eq!(task_trials(None, Some(3), 4), 3);
    assert_eq!(task_trials(None, None, 4), 4);
    assert_eq!(early_stop(true).min_trials, 3);
    assert!(early_stop(true).continuous_success_required);
}

#[test]
fn rates_decide_on_samples_and_reviews() {
    for x in [-1.0, -0.0, 0.0, 0.5, 0.999, 1.0, 1.5, f64::NAN, f64::INFINITY, f64::NEG_INFINITY] {
        assert_eq!(samples(double(x)), x < 1.0, "{x}");
        assert_eq!(reviews(Some(double(x))), x > 0.0, "{x}");
    }
    assert!(!reviews(None));
}

#[test]
fn a_sample_has_its_size_and_is_sorted() {
    let names = ["d", "b", "a", "c", "e"];
    for (asked, size) in [(0, 1), (1, 1), (3, 3), (5, 5), (9, 5)] {
        let sample = sample_tasks(names.iter().map(|n| task(n)).collect(), asked);
        assert_eq!(sample.len(), size);
        let got = ids(&sample);
        let mut sorted = got.clone();
        sorted.sort();
        sorted.dedup();
        assert_eq!(got, sorted);
        assert!(got.iter().all(|n| names.contains(n)));
    }
    assert!(sample_tasks(vec![], 3).is_empty());
}

#[test]
fn samples_differ_from_run_to_run() {
    // The generator must be asked: fifty draws of one of twenty tasks are not all
    // the same but by a chance that never comes.
    let mut seen = std::collections::HashSet::new();
    for _ in 0..50 {
        let tasks: Vec<EvalTask> = (0..20).map(|i| task(&format!("t{i:02}"))).collect();
        seen.insert(sample_tasks(tasks, 1)[0].id.clone());
    }
    assert!(seen.len() > 1);
}

#[test]
fn picked_tasks_come_in_the_order_of_their_ids() {
    let tasks = vec![task("d"), task("b"), task("a"), task("c")];
    assert_eq!(ids(&pick_tasks(tasks, &vec![3, 0, 2])), vec!["a", "c", "d"]);
}

#[test]
fn the_selection_wins_over_the_environment() {
    let open = ProviderSelection::default();
    assert_eq!(provider_type(&open, &None), "anthropic");
    let r = resolve_run(&open, &None, None, &env(None, Some("o"), Some("http://x")));
    assert_eq!(r.provider_type, "anthropic");
    assert_eq!(r.model, None);
    assert_eq!(r.api_key.as_deref(), Some("o"));
    assert_eq!(r.base_url.as_deref(), Some("http://x"));
    // An empty configured key does not count.
    let r = resolve_run(&open, &None, Some(String::new()), &env(Some("a"), Some("o"), None));
    assert_eq!(r.api_key.as_deref(), Some("a"));
    let r = resolve_run(&open, &None, Some("c".to_string()), &env(Some("a"), None, None));
    assert_eq!(r.api_key.as_deref(), Some("c"));
    let selected = ProviderSelection {
        provider: Some("openai".to_string()),
        model: Some("m".to_string()),
        api_key: Some("k".to_string()),
        base_url: Some("u".to_string()),
    };
    let r = resolve_run(&selected, &None, Some("c".to_string()), &env(Some("a"), None, Some("x")));
    assert_eq!(r.provider_type, "openai");
    assert_eq!(executor_label(&r), "openai/m");
    assert_eq!(r.api_key.as_deref(), Some("k"));
    assert_eq!(r.base_url.as_deref(), Some("u"));
}

fn run() -> ResolvedProvider {
    ResolvedProvider {
        provider_type: "openai".to_string(),
        model: None,
        api_key: Some("run-key".to_string()),
        base_url: Some("run-url".to_string()),
    }
}

#[test]
fn a_judge_of_the_same_provider_takes_over_what_is_open() {
    let e = env(Some("env-key"), None, None);
    assert!(matches!(
        judge_plan(&ProviderSelection::default(), false, &run(), &e),
        JudgePlan::Absent
    ));
    let model_only =
        ProviderSelection { model: Some("j".to_string()), ..ProviderSelection::default() };
    assert!(matches!(
        judge_plan(&model_only, true, &run(), &e),
        JudgePlan::Shared { model: Some(m) } if m == "j"
    ));
    let same = ProviderSelection { provider: Some("openai".to_string()), ..model_only.clone() };
    match judge_plan(&same, true, &run(), &e) {
        JudgePlan::Separate(p) => {
            assert_eq!(p.api_key.as_deref(), Some("run-key"));
            assert_eq!(p.base_url.as_deref(), Some("run-url"));
            assert_eq!(p.model.as_deref(), Some("j"));
        }
        _ => panic!("not separate"),
    }
    let other = ProviderSelection { provider: Some("deepseek".to_string()), ..model_only };
    match judge_plan(&other, true, &run(), &e) {
        JudgePlan::Separate(p) => {
            assert_eq!(p.provider_type, "deepseek");
            assert_eq!(p.api_key.as_deref(), Some("env-key"));
            assert_eq!(p.base_url, None);
        }
        _ => panic!("not separate"),
    }
}

#[test]
fn labels_of_the_ledger() {
    let judge = |provider: Option<&str>, model: Option<&str>| ProviderSelection {
        provider: provider.map(|s| s.to_string()),
        model: model.map(|s| s.to_string()),
        ..ProviderSelection::default()
    };
    assert_eq!(executor_label(&run()), "openai/default");
    assert_eq!(judge_label(&judge(Some("p"), Some("m")), true), "p/m");
    assert_eq!(judge_label(&judge(None, Some("m")), true), "m");
    assert_eq!(judge_label(&judge(Some("p"), None), true), "self");
    assert_eq!(judge_label(&judge(Some("p"), Some("m")), false), "none");
    assert_eq!(run_mode(2, &Some("50%".to_string())), "only:2");
    assert_eq!(run_mode(0, &Some("50%".to_string())), "sampled:50%");
    assert_eq!(run_mode(0, &None), "full");
    assert!(analyzes_failures(true, &JudgePlan::Shared { model: None }));
    assert!(!analyzes_failures(true, &JudgePlan::Absent));
    assert!(!analyzes_failures(false, &JudgePlan::Shared { model: None }));
}

#[test]
fn providers_that_cannot_be_made_are_errors() {
    assert!(matches!(
        provider_failed("p", "no key"),
        SyscityError::Validation(m) if m == "Failed to create provider 'p': no key\nSet \
            ANTHROPIC_API_KEY or OPENAI_API_KEY env var, or provide --api-key"
    ));
    assert!(matches!(
        judge_failed("p", "no key"),
        SyscityError::Validation(m) if m == "Failed to create judge provider 'p': no key"
    ));
}

#[test]
fn evaluated_agents_have_room_and_guidelines() {
    let base = || AgentConfig {
        agent_id: None,
        temperature: Single { bits: 0 },
        max_tokens: 2048,
        max_turns: Some(3),
        max_concurrent_tools: 4,
        workspace_only: true,
        system_prompt: "Be good.".to_string(),
        max_context_tokens: 5,
    };
    let a = eval_agent_config(base());
    assert_eq!(a.max_tokens, 8192);
    assert!(a.system_prompt.starts_with("Be good.\n\n## Tool Usage Guidelines\n\nAlways prefer"));
    assert!(a.system_prompt.ends_with("and 'browser' for web automation."));
    assert_eq!(a.max_turns, Some(3));
    let s = eval_subagent_config(base(), "sub");
    assert_eq!(s.agent_id.as_deref(), Some("sub"));
    assert_eq!(s.max_tokens, 8192);
    assert_eq!(s.system_prompt, "Be good.");
}

#[test]
fn a_judge_is_needed_where_a_task_has_criteria() {
    let mut judged = task("j");
    judged.criteria = Some(QualityCriteria { dimensions: vec![], thresholds: StrMap::new() });
    assert!(!has_criteria(&vec![task("a")]));
    assert!(has_criteria(&vec![task("a"), judged]));
}

fn ran(total: usize, passed: usize, usage: Vec<Option<TokenUsage>>) -> TaskOutcome {
    TaskOutcome::Ran {
        total_trials: total,
        passed_trials: passed,
        all_passed: total == passed,
        usage,
    }
}

#[test]
fn outcomes_add_up() {
    let usage = Some(TokenUsage { prompt_tokens: 10, completion_tokens: 5 });
    let t = SuiteTotals::new()
        .add_outcome("a", &ran(3, 3, vec![usage, None, usage]))
        .add_outcome("b", &ran(3, 1, vec![usage]));
    assert!(t.all_ran);
    assert_eq!(t.total_trials, 6);
    assert_eq!(t.total_passed, 4);
    assert_eq!(t.prompt_tokens, 30);
    assert_eq!(t.completion_tokens, 15);
    assert_eq!(t.trials_with_usage, 3);
    assert_eq!(t.failed_tasks, vec!["b"]);
    assert!(t.gate_passed(true));
    assert!(!t.gate_passed(false));
    assert_eq!(
        summary_lines("S", "66.7%", "80%", &t, false),
        vec![
            "═══ Suite Summary: S ═══",
            "  Overall pass rate: 66.7%",
            "  Total trials:      6",
            "  Total passed:      4",
            "  Min required:      80%",
            "  Result:            FAIL",
            "  Total tokens:      45 (30 prompt + 15 completion, 3 trials)",
            "  Avg tokens/trial:  15",
        ]
    );
}

#[test]
fn a_task_that_cannot_run_fails_the_run() {
    let t = SuiteTotals::new()
        .add_outcome("a", &TaskOutcome::Failed)
        .add_outcome("b", &ran(1, 1, vec![]));
    assert!(!t.all_ran);
    assert!(!t.gate_passed(true));
    assert_eq!(t.failed_tasks, vec!["a"]);
    assert_eq!(summary_lines("S", "100.0%", "80%", &t, true).len(), 6);
    assert!(suite_result(true).is_ok());
    assert!(matches!(
        suite_result(false),
        Err(SyscityError::Validation(m)) if m == "Suite did not meet minimum pass rate"
    ));
}

fn suite(tasks: Vec<EvalTask>) -> EvalSuite {
    EvalSuite {
        id: "s".to_string(),
        name: "Smoke".to_string(),
        category: SuiteCategory::Capability,
        tasks,
        min_pass_rate: double(0.8),
        trials: 5,
        continuous_success_required: true,
        sampling_rate: double(0.5),
        tags: vec![],
        agent_type: None,
        skill_designs: vec![],
    }
}

#[test]
fn a_run_is_settled_and_ended() {
    let mut judged = task("b");
    judged.criteria = Some(QualityCriteria { dimensions: vec![], thresholds: StrMap::new() });
    let opts = SuiteRunOptions {
        collect_badcases: true,
        only_tasks: Some(vec!["b".to_string()]),
        ..SuiteRunOptions::default()
    };
    let open = ProviderSelection::default();
    let e = env(Some("key"), None, None);
    let plan =
        run_suite(suite(vec![task("a"), judged]), &opts, &open, &None, None, &e).unwrap();
    assert_eq!(ids(&plan.tasks), vec!["b"]);
    assert_eq!(plan.only_count, 1);
    assert_eq!(plan.executor_label, "anthropic/default");
    assert_eq!(plan.judge_label, "self");
    assert!(plan.analyzes_failures);
    assert_eq!(plan.trials, 5);
    assert!(plan.samples);
    assert!(plan.early_stop.continuous_success_required);
    assert_eq!(plan.tools.len(), 13);
    assert_eq!(plan.review_rate, None);

    let totals = SuiteTotals::new().add_outcome("b", &ran(2, 1, vec![]));
    let figures = RunFigures {
        rate_reached: false,
        rate: "50.0%".to_string(),
        min_pass: "80%".to_string(),
        sampling: "50%".to_string(),
        date: "d".to_string(),
        commit: "c".to_string(),
    };
    let end = end_suite(&plan, totals, figures);
    assert!(end.result.is_err());
    assert_eq!(
        append_eval_ledger(&end.row),
        "| d | c | Smoke | anthropic/default | self | only:1 | 1/2 | 50.0% | FAIL | b |\n"
    );
    assert_eq!(end.summary[5], "  Result:            FAIL");

    let opts = SuiteRunOptions { only_tasks: Some(vec!["x".to_string()]), ..opts };
    assert!(run_suite(suite(vec![task("a")]), &opts, &open, &None, None, &e).is_err());
}

#[test]
fn headers_are_printed() {
    assert_eq!(
        suite_header("Smoke", 3, "80%", 5),
        vec!["\n═══ Eval Suite: Smoke ═══", "  Tasks:    3", "  Min pass: 80%", "  Trials:   5\n"]
    );
    assert_eq!(
        governed_header(2, "100%", false, &BadcaseGovernance::default(), "70%"),
        vec![
            "\n═══ Badcase Regression Suite ═══",
            "  Tasks:      2",
            "  Min pass:   100%",
            "  Governance: defaults (max_age=90d, dup_limit=3, downgrade>=10 -> 70%)",
        ]
    );
    assert!(governed_header(2, "100%", true, &BadcaseGovernance::default(), "70%")[3]
        .starts_with("  Governance: config (max_age"));
    assert_eq!(
        no_governed_tasks("\"d\""),
        vec![
            "No governed badcase tasks in \"d\"",
            "  Collect badcases first: `syscity eval run <suite> --full --collect-badcases`",
        ]
    );
    assert_eq!(governance_of(&None).default_weight, double(1.0));
    let config = BadcaseGovernanceConfig {
        difficulty_weights: StrMap::new(),
        default_weight: double(2.0),
    };
    assert_eq!(governance_of(&Some(config)).default_weight, double(2.0));
    assert_eq!(
        config_candidates("/home/u/.syscity/config.toml"),
        vec!["config.toml", ".config/config.toml", "/home/u/.syscity/config.toml"]
    );
}

#[test]
fn skills_are_broken_down() {
    let check = |passed: bool, label: &str| SkillCheck {
        passed,
        label: label.to_string(),
        detail: "d".to_string(),
    };
    let none = SkillResults {
        trigger_results: vec![],
        execution_results: vec![],
        quality_results: vec![],
        resilience_results: vec![],
    };
    assert!(skill_details(1, &none).is_empty());
    let all = SkillResults {
        trigger_results: vec![check(true, "t")],
        execution_results: vec![check(false, "e")],
        quality_results: vec![check(true, "q")],
        resilience_results: vec![check(false, "")],
    };
    assert_eq!(
        skill_details(2, &all),
        vec![
            "  Trial #2 skill details:",
            "    ✓ Trigger [t]: d",
            "    ✗ Execution [e]: d",
            "    ✓ Quality [q]: d",
            "    ✗ Resilience: d",
        ]
    );
}

#[test]
fn evaluated_agents_have_their_tools() {
    assert_eq!(create_eval_tool_registry(false).len(), 10);
    let with_acp = create_eval_tool_registry(true);
    assert_eq!(with_acp[0], BuiltinTool::Shell);
    assert_eq!(
        with_acp[10..],
        [BuiltinTool::AcpSpawn, BuiltinTool::AcpSession, BuiltinTool::SessionsSend]
    );
}

fn resolve(name: String, api_key: Option<String>) -> Option<SearchProvider> {
    if name == "exa" {
        None
    } else {
        Some(SearchProvider::Named { name, api_key })
    }
}

#[test]
fn search_providers_come_from_the_configuration_or_the_environment() {
    let keys = search_env_keys();
    assert_eq!(keys.len(), 7);
    assert_eq!(keys[6], ("serpapi".to_string(), "SERPAPI_API_KEY".to_string()));
    let mut values: Vec<Option<String>> = vec![None; 7];
    assert!(matches!(
        eval_search_providers(None, &values, resolve)[..],
        [SearchProvider::DuckDuckGo]
    ));
    values[1] = Some("key".to_string());
    values[2] = Some("  ".to_string());
    values[3] = Some("key".to_string());
    let found = eval_search_providers(None, &values, resolve);
    assert_eq!(found.len(), 2);
    assert!(matches!(
        &found[0],
        SearchProvider::Named { name, api_key: Some(k) } if name == "brave" && k == "key"
    ));
    assert!(matches!(found[1], SearchProvider::DuckDuckGo));
    let configured = eval_search_providers(Some(&SearchConfig::default()), &values, resolve);
    assert!(matches!(&configured[..], [SearchProvider::Named { name, .. }] if name == "duckduckgo"));
}

fn calibration_case(verdict: &str) -> CalibrationCase {
    CalibrationCase {
        id: "factual_001".to_string(),
        input: "What is the capital of France?".to_string(),
        trajectory: "user: ...".to_string(),
        criteria: None,
        expected: ExpectedCalibration {
            verdict: verdict.to_string(),
            dimension_scores: StrMap::new(),
        },
        acceptable_deviation: default_deviation(),
    }
}

fn given(passed: bool) -> Judgement {
    Judgement::Given {
        passed,
        dimension_accuracy: double(0.75),
        overall_score_deviation: double(0.25),
        details: "d".to_string(),
    }
}

#[test]
fn cases_are_held_against_the_judge() {
    let good = evaluate_case(&calibration_case("Pass"), given(true));
    assert!(good.verdict_match);
    assert_eq!(good.actual_verdict, "Pass");
    assert_eq!(good.dimension_accuracy, double(0.75));
    let bad = evaluate_case(&calibration_case("Pass"), given(false));
    assert!(!bad.verdict_match);
    assert_eq!(bad.actual_verdict, "Fail");
    // The word must be the same, letter for letter.
    assert!(!evaluate_case(&calibration_case("pass"), given(true)).verdict_match);
    let failed = evaluate_case(&calibration_case("error"), Judgement::Failed("down".to_string()));
    assert!(!failed.verdict_match);
    assert_eq!(failed.actual_verdict, "error");
    assert_eq!(failed.overall_score_deviation, double(1.0));
    assert_eq!(failed.dimension_accuracy, double(0.0));
    assert_eq!(failed.details, "Critic error: down");

    let results = vec![good, bad, failed];
    assert_eq!(matching_verdicts(&results), 1);
    let averages = Averages {
        verdict_accuracy: double(0.5),
        dimension_accuracy: double(0.5),
        score_deviation: double(0.5),
    };
    let at = Timestamp { secs: 1, nanos: 0 };
    let report = calibrate(results, averages, at);
    assert_eq!(report.total_cases, 3);
    assert_eq!(report.matching_verdicts, 1);
    assert_eq!(report.verdict_accuracy, double(0.5));
    let empty = calibrate(vec![], averages, at);
    assert_eq!(empty.verdict_accuracy, double(1.0));
    assert_eq!(empty.avg_dimension_accuracy, double(1.0));
    assert_eq!(empty.avg_score_deviation, double(0.0));
}

#[test]
fn calibration_cases_are_loaded() {
    assert_eq!(f64::from_bits(default_deviation().bits), 0.2);
    let cases = load_calibration_cases(vec![CalibrationCaseYaml {
        id: "a".to_string(),
        input: "i".to_string(),
        trajectory: "t".to_string(),
        criteria: Some(YamlCriteria {
            dimensions: vec!["clarity".to_string()],
            thresholds: StrMap::new(),
        }),
        expected: calibration_case("Fail").expected,
        acceptable_deviation: double(0.3),
    }]);
    assert_eq!(cases.len(), 1);
    assert_eq!(
        cases[0].criteria.as_ref().unwrap().dimensions,
        vec![QualityDimension::Clarity]
    );
    assert_eq!(cases[0].expected.verdict, "Fail");
    assert_eq!(cases[0].acceptable_deviation, double(0.3));
    assert!(matches!(
        calibration_parse_error("\"c.yaml\"", "bad"),
        SyscityError::Validation(m) if m == "Cannot parse calibration file \"c.yaml\": bad"
    ));
}

#[test]
fn blank_lines_of_the_history_are_skipped() {
    for content in ["", "{}", "{}\n", "{}\r\n\n \t\r\n[1]\n", "a\r", "\n\nx\r\r\n"] {
        let expected: Vec<&str> =
            content.lines().filter(|l| !l.trim().is_empty()).collect();
        assert_eq!(history_lines(content), expected, "{content:?}");
    }
}

/// The change between two accuracies.
fn change(was: f64, now: f64) -> Change {
    let delta = now - was;
    Change {
        dropped: delta < -0.05,
        by: format!("{:.1}", delta.abs() * 100.0),
        was: format!("{:.1}", was * 100.0),
        is_now: format!("{:.1}", now * 100.0),
    }
}

#[test]
fn test_detect_drift_not_enough_data() {
    assert!(detect_drift(1, &change(1.0, 1.0), &change(1.0, 1.0)).is_none());
    assert!(detect_drift(1, &change(1.0, 0.0), &change(1.0, 0.0)).is_none());
    assert_eq!(compared_reports(1), None);
    assert_eq!(compared_reports(5), Some((3, 4)));
}

#[test]
fn test_detect_drift_no_drift() {
    assert!(detect_drift(2, &change(0.9, 0.9), &change(0.85, 0.85)).is_none());
}

#[test]
fn test_detect_drift_verdict_drop() {
    let drift = detect_drift(2, &change(1.0, 0.8), &change(0.9, 0.9));
    assert!(drift.is_some());
    let text = drift.unwrap();
    assert!(text.contains("dropped"));
    assert_eq!(text, "Verdict accuracy dropped 20.0% (was 100.0%, now 80.0%)");
}

#[test]
fn a_drop_of_the_dimensions_is_drift_too() {
    assert_eq!(
        detect_drift(3, &change(0.9, 0.9), &change(0.8, 0.7)).unwrap(),
        "Dimension accuracy dropped 10.0% (was 80.0%, now 70.0%)"
    );
}
