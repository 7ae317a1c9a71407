//! Badcases, their governance, their clusters and their files.
use std::time::{Duration, SystemTime};

use syscity::eval::dataset::{
    Comparison, EvalTask, EvalTaskSource, GoalCondition, QualityCriteria, QualityDimension,
    SuiteCategory,
};
use syscity::eval::document::{parse_yaml, take_items, take_under, Tree};
use syscity::eval::loader::{convert_condition, parse_dimension, YamlCondition, YamlScalar};
use syscity::eval::rca::{BadcaseEntry, CandidateModule, ProblemPhenomenon, RcaPipeline, RcaResult};
use syscity::eval::recycle::{
    badcase_file_name, badcase_record, build_badcase_yaml_task, cluster_badcases, count_written_inputs,
    default_badcase_difficulty, determine_failure_reason, extract_rca_results_from_badcases,
    goal_condition_to_yaml, load_all_badcase_records, load_badcase_suite,
    load_governed_badcase_suite, sanitize_id, short_timestamp, timestamp_text, write_badcase_yaml,
    BadcaseCollector, BadcaseFixStatus, BadcaseGovernance, BadcaseRecord, BadcaseTask,
};
use syscity::eval::types::{ConditionResult, Critique, Timestamp, TrialResult};
use syscity::eval::yaml::YamlValue;
use syscity::gateway::config::optimizer::BadcaseGovernanceConfig;
use syscity::scalar::Double;
use syscity::strmap::StrMap;

fn double(x: f64) -> Double {
    Double { bits: x.to_bits() }
}

fn number(x: Double) -> f64 {
    f64::from_bits(x.bits)
}

fn stamp(t: SystemTime) -> Timestamp {
    let d = t.duration_since(SystemTime::UNIX_EPOCH).unwrap();
    Timestamp { secs: d.as_secs(), nanos: d.subsec_nanos() }
}

fn now() -> Timestamp {
    stamp(SystemTime::now())
}

/// Minimal record for tests.
fn make_record() -> BadcaseRecord {
    BadcaseRecord {
        id: String::new(),
        task_id: String::new(),
        input: String::new(),
        description: String::new(),
        failure_reason: String::new(),
        response: String::new(),
        rca_performed: false,
        rca_result: None,
        collected_at: now(),
        fix_status: BadcaseFixStatus::Unconfirmed,
        entry: BadcaseEntry::AutoDetected,
        difficulty: "medium".into(),
        coverage: Vec::new(),
    }
}

fn make_rca(phenomenon: &str, module: CandidateModule) -> RcaResult {
    RcaResult {
        phenomenon: phenomenon.into(),
        process_deviation: "test".into(),
        responsibility: format!("{:?}", module),
        problem_category: "category".into(),
        problem_enumeration: "enum".into(),
        responsibility_module: module,
        sub_responsibility: None,
        evidence_chain: vec![],
        fix_suggestion: "fix".into(),
        confidence: double(0.8),
        analysis_duration_ms: 0,
        entry: BadcaseEntry::AutoDetected,
        completed_at: now(),
    }
}

fn make_task(id: &str) -> EvalTask {
    EvalTask {
        id: id.to_string(),
        description: "what it does".to_string(),
        input: "question".to_string(),
        user_id: "eval_user".to_string(),
        conditions: vec![],
        criteria: None,
        expected_behavior: String::new(),
        source: EvalTaskSource::ExpertDesign,
        failure_reason: None,
        setup: vec![],
        cleanup: vec![],
        agent_type: None,
        turns: vec![],
        session_conditions: vec![],
        difficulty: "hard".to_string(),
        coverage: vec!["tools".to_string()],
        trials: None,
        min_pass_rate: None,
    }
}

fn make_trial(passed: bool) -> TrialResult {
    TrialResult {
        trial_index: 0,
        response: "hello".into(),
        tool_calls: vec![],
        token_usage: None,
        duration_ms: 0,
        condition_results: vec![],
        conditions_passed: true,
        critique: None,
        critique_passed: true,
        skill_results: None,
        skill_passed: true,
        turn_results: vec![],
        session_condition_results: vec![],
        session_conditions_passed: true,
        passed,
    }
}

fn text(v: Option<&YamlValue>) -> &str {
    match v {
        Some(YamlValue::Text(s)) => s,
        _ => panic!("no text"),
    }
}

#[test]
fn test_sanitize_id() {
    assert_eq!(sanitize_id("hello_world"), "hello_world");
    assert_eq!(sanitize_id("test/123"), "test_123");
    assert_eq!(sanitize_id("___abc___"), "abc");
}

#[test]
fn sanitized_ids_stay_as_they_are() {
    for id in ["/a b/", "任务-1", "___", "", "x.yaml", "é_ü"] {
        let once = sanitize_id(id);
        assert_eq!(sanitize_id(&once), once);
        assert!(!once.starts_with('_') && !once.ends_with('_'));
    }
    assert_eq!(sanitize_id("任务/1"), "任务_1");
    assert_eq!(badcase_file_name("a/b"), "a_b.yaml");
}

#[test]
fn test_short_timestamp_not_empty() {
    let ts = short_timestamp();
    assert!(!ts.is_empty());
    assert!(ts.chars().all(|c| c.is_ascii_hexdigit()));
}

#[test]
fn a_short_timestamp_is_the_seconds_in_hexadecimal() {
    assert_eq!(timestamp_text(Timestamp { secs: 0x6a55_0f00, nanos: 17 }), "6a550f00");
    assert_eq!(timestamp_text(Timestamp { secs: 0, nanos: 0 }), "0");
    let before = now().secs;
    let read = u64::from_str_radix(&short_timestamp(), 16).unwrap();
    let after = now().secs;
    assert!(before <= read && read <= after);
}

#[test]
fn test_determine_failure_reason_unknown() {
    // A trial with no clear failure indicators
    let trial = TrialResult {
        trial_index: 0,
        response: "hello".into(),
        tool_calls: vec![],
        token_usage: None,
        duration_ms: 0,
        condition_results: vec![],
        conditions_passed: true,
        critique: None,
        critique_passed: true,
        skill_results: None,
        skill_passed: true,
        turn_results: vec![],
        session_condition_results: vec![],
        session_conditions_passed: true,
        passed: false,
    };
    let reason = determine_failure_reason(&trial);
    assert!(reason.contains("unknown"), "got: {}", reason);
}

#[test]
fn failure_reasons_are_listed_in_order() {
    let mut trial = make_trial(false);
    trial.conditions_passed = false;
    trial.condition_results = vec![
        ConditionResult { passed: false, actual: "2".into(), detail: String::new() },
        ConditionResult { passed: true, actual: "ok".into(), detail: "fine".into() },
        ConditionResult { passed: false, actual: "x".into(), detail: "no file".into() },
    ];
    trial.critique_passed = false;
    trial.critique = Some(Critique { passed: false, weaknesses: vec!["a".into(), "b".into()] });
    trial.skill_passed = false;
    trial.session_conditions_passed = false;
    assert_eq!(
        determine_failure_reason(&trial),
        "conditions: condition failed: actual '2'; condition failed: no file; critique: a; b; \
         skill evaluation failed; session conditions failed"
    );
    trial.critique = Some(Critique { passed: false, weaknesses: vec![] });
    trial.skill_passed = true;
    trial.session_conditions_passed = true;
    trial.condition_results = vec![];
    assert_eq!(determine_failure_reason(&trial), "critique threshold not met");
    trial.critique = None;
    assert_eq!(determine_failure_reason(&trial), "critique failed");
}

#[test]
fn test_goal_condition_to_yaml_roundtrip() {
    let cond = GoalCondition::Pattern {
        command: "grep -c 'web_search' ${trial_dir}/trace.log".into(),
        must_contain: "1".into(),
    };
    let mapping = goal_condition_to_yaml(&cond);
    assert_eq!(text(mapping.get("type")), "pattern");
    assert_eq!(text(mapping.get("command")), "grep -c 'web_search' ${trial_dir}/trace.log");
    assert_eq!(text(mapping.get("must_contain")), "1");

    // Numeric variant
    let cond2 = GoalCondition::Numeric {
        command: "wc -l output.txt".into(),
        operator: Comparison::Ge,
        threshold: double(3.0),
    };
    let m2 = goal_condition_to_yaml(&cond2);
    assert_eq!(text(m2.get("type")), "numeric");
    assert_eq!(text(m2.get("operator")), "Ge");
    assert!(matches!(m2.get("threshold"), Some(YamlValue::Float(x)) if number(*x) == 3.0));

    // ExitCode variant
    let cond3 = GoalCondition::ExitCode { command: "ls /tmp".into(), expected: Some(0) };
    let m3 = goal_condition_to_yaml(&cond3);
    assert_eq!(text(m3.get("type")), "exit_code");
    assert!(matches!(m3.get("expected"), Some(YamlValue::Int(0))));

    // FileExists variant
    let cond4 = GoalCondition::FileExists { path: "/tmp/result.json".into() };
    let m4 = goal_condition_to_yaml(&cond4);
    assert_eq!(text(m4.get("type")), "file_exists");
    assert_eq!(text(m4.get("path")), "/tmp/result.json");
}

#[test]
fn the_other_conditions_are_written_too() {
    let forbidden = goal_condition_to_yaml(&GoalCondition::MustNotContain {
        command: "cat x".into(),
        must_not_contain: "secret".into(),
    });
    assert_eq!(text(forbidden.get("type")), "must_not_contain");
    assert_eq!(text(forbidden.get("must_not_contain")), "secret");
    assert!(forbidden.get("must_contain").is_none());
    let analysis = goal_condition_to_yaml(&GoalCondition::StaticAnalysis { command: "lint".into() });
    assert_eq!(text(analysis.get("type")), "static_analysis");
    assert_eq!(text(analysis.get("command")), "lint");
    let open = goal_condition_to_yaml(&GoalCondition::ExitCode {
        command: "ls".into(),
        expected: None,
    });
    assert!(open.get("expected").is_none());
}

#[test]
fn a_written_condition_is_read_back() {
    let under = |y: &YamlValue, key: &str| -> String {
        match y.get(key) {
            Some(YamlValue::Text(s)) => s.clone(),
            _ => String::new(),
        }
    };
    let read = |y: YamlValue| -> Option<GoalCondition> {
        convert_condition(YamlCondition {
            cond_type: under(&y, "type"),
            command: under(&y, "command"),
            must_contain: match y.get("must_contain") {
                Some(YamlValue::Text(s)) => Some(YamlScalar::Text(s.clone())),
                _ => None,
            },
            must_not_contain: match y.get("must_not_contain") {
                Some(YamlValue::Text(s)) => Some(YamlScalar::Text(s.clone())),
                _ => None,
            },
            expected: match y.get("expected") {
                Some(YamlValue::Int(n)) => Some(*n),
                _ => None,
            },
            path: under(&y, "path"),
            operator: under(&y, "operator"),
            threshold: match y.get("threshold") {
                Some(YamlValue::Float(x)) => Some(*x),
                _ => None,
            },
        })
    };
    let conditions = [
        GoalCondition::ExitCode { command: "ls".into(), expected: Some(-1) },
        GoalCondition::ExitCode { command: "ls".into(), expected: None },
        GoalCondition::Pattern { command: "cat".into(), must_contain: "x".into() },
        GoalCondition::FileExists { path: "p".into() },
        GoalCondition::Numeric {
            command: "wc".into(),
            operator: Comparison::Eq,
            threshold: double(2.0),
        },
        GoalCondition::Numeric {
            command: "wc".into(),
            operator: Comparison::Ge,
            threshold: double(3.0),
        },
        GoalCondition::Numeric {
            command: "wc".into(),
            operator: Comparison::Lt,
            threshold: double(3.0),
        },
        GoalCondition::MustNotContain { command: "cat".into(), must_not_contain: "x".into() },
        GoalCondition::StaticAnalysis { command: "lint".into() },
    ];
    for c in conditions {
        let back = read(goal_condition_to_yaml(&c)).unwrap();
        assert_eq!(format!("{:?}", back), format!("{:?}", c));
    }
}

#[test]
fn test_load_badcase_suite_no_dir() {
    let suite = load_badcase_suite(vec![]);
    assert_eq!(suite.id, "badcases");
    assert!(suite.tasks.is_empty());
}

#[test]
fn a_badcase_suite_recycles_its_tasks() {
    let suite = load_badcase_suite(vec![make_task("a"), make_task("b")]);
    assert_eq!(suite.name, "Badcase Regression Suite");
    assert_eq!(suite.category, SuiteCategory::Regression);
    assert_eq!(suite.tasks[1].id, "b");
    assert!(suite.tasks.iter().all(|t| t.source == EvalTaskSource::BadcaseRecycle));
    assert_eq!(number(suite.min_pass_rate), 1.0);
    assert_eq!(suite.trials, 3);
    assert_eq!(number(suite.sampling_rate), 1.0);

    let governance = BadcaseGovernance { downgrade_threshold: 1, ..Default::default() };
    let of = |task: &str| Some(BadcaseRecord { task_id: task.into(), ..make_record() });
    let entries = |first: Option<BadcaseRecord>| {
        vec![
            BadcaseTask { task: make_task("a"), record: first },
            BadcaseTask { task: make_task("b"), record: None },
        ]
    };
    let governed = load_governed_badcase_suite(entries(of("a")), &governance, now(), &vec![6, 1]);
    assert_eq!(governed.id, "badcases");
    assert_eq!(governed.name, "Badcase Regression Suite");
    assert_eq!(governed.tasks[0].trials, Some(6));
    assert_eq!(governed.tasks[1].trials, Some(1));
    assert!(governed.tasks.iter().all(|t| t.source == EvalTaskSource::BadcaseRecycle));
    assert_eq!(governed.trials, 3);
    // A task that fails often is asked a lowered pass rate, the suite is not.
    assert_eq!(governed.tasks[0].min_pass_rate.map(number), Some(0.7));
    assert_eq!(governed.tasks[1].min_pass_rate, None);
    assert_eq!(number(governed.min_pass_rate), 1.0);
    let records = [of("a").unwrap()];
    let asked = |id: &str| number(governance.effective_pass_rate(id, &records, double(1.0)));
    assert_eq!(asked("a"), 0.7);
    assert_eq!(asked("b"), 1.0);
    // The suite's own rate goes by its own key.
    let governed =
        load_governed_badcase_suite(entries(of("__suite__")), &governance, now(), &vec![6, 1]);
    assert_eq!(number(governed.min_pass_rate), 0.7);
}

#[test]
fn expired_tasks_leave_the_suite() {
    let governance = BadcaseGovernance { downgrade_threshold: 1, ..Default::default() };
    let entry = |id: &str, task_id: &str, days: u64| BadcaseTask {
        task: make_task(id),
        record: Some(BadcaseRecord {
            id: id.into(),
            task_id: task_id.into(),
            collected_at: stamp(SystemTime::now() - Duration::from_secs(days * 86400)),
            ..make_record()
        }),
    };
    let entries = vec![
        entry("legacy_bc", "legacy_task", 91),
        // Of two entries with one id the old one leaves.
        entry("mixed_bc", "mixed", 100),
        entry("mixed_bc", "mixed", 1),
        entry("last_day", "t", 89),
        // Expired badcases lower no pass rate.
        entry("s_bc", "__suite__", 200),
        BadcaseTask { task: make_task("undated"), record: None },
    ];
    let governed =
        load_governed_badcase_suite(entries, &governance, now(), &vec![1, 2, 3, 4, 5, 6]);
    let kept: Vec<(&str, Option<usize>)> =
        governed.tasks.iter().map(|t| (t.id.as_str(), t.trials)).collect();
    assert_eq!(kept, vec![("mixed_bc", Some(3)), ("last_day", Some(4)), ("undated", Some(6))]);
    assert_eq!(number(governed.min_pass_rate), 1.0);
}

#[test]
fn test_cluster_badcases_empty() {
    let clusters = cluster_badcases(&[]);
    assert!(clusters.is_empty());
}

#[test]
fn test_cluster_badcases_no_rca() {
    let records = vec![
        BadcaseRecord {
            id: "test_1".into(),
            task_id: "task_a".into(),
            input: "hello".into(),
            description: String::new(),
            failure_reason: "condition failed".into(),
            response: "response".into(),
            rca_performed: false,
            rca_result: None,
            collected_at: now(),
            fix_status: BadcaseFixStatus::Unconfirmed,
            entry: BadcaseEntry::AutoDetected,
            difficulty: "medium".into(),
            coverage: Vec::new(),
        },
        BadcaseRecord {
            id: "test_2".into(),
            task_id: "task_b".into(),
            input: "world".into(),
            description: String::new(),
            failure_reason: "critique failed".into(),
            response: "response".into(),
            rca_performed: false,
            rca_result: None,
            collected_at: now(),
            fix_status: BadcaseFixStatus::Unconfirmed,
            entry: BadcaseEntry::AutoDetected,
            difficulty: "medium".into(),
            coverage: Vec::new(),
        },
    ];
    // Without RCA results, all cluster as "unknown/unknown"
    let clusters = cluster_badcases(&records);
    assert_eq!(clusters.len(), 1);
    assert_eq!(clusters[0].count, 2);
}

#[test]
fn test_cluster_by_size_descending() {
    // Records with RCA results to test proper clustering
    let records = vec![
        BadcaseRecord {
            id: "r1".into(),
            task_id: "t1".into(),
            input: "".into(),
            description: "".into(),
            failure_reason: "cond fail".into(),
            response: "".into(),
            rca_performed: true,
            rca_result: Some(make_rca("FactualError", CandidateModule::Retrieval)),
            collected_at: now(),
            fix_status: BadcaseFixStatus::Unconfirmed,
            entry: BadcaseEntry::AutoDetected,
            difficulty: "medium".into(),
            coverage: Vec::new(),
        },
        BadcaseRecord {
            id: "r2".into(),
            task_id: "t2".into(),
            input: "".into(),
            description: "".into(),
            failure_reason: "cond fail".into(),
            response: "".into(),
            rca_performed: true,
            rca_result: Some(make_rca("FactualError", CandidateModule::Retrieval)),
            collected_at: now(),
            fix_status: BadcaseFixStatus::Unconfirmed,
            entry: BadcaseEntry::AutoDetected,
            difficulty: "medium".into(),
            coverage: Vec::new(),
        },
        BadcaseRecord {
            id: "r3".into(),
            task_id: "t3".into(),
            input: "".into(),
            description: "".into(),
            failure_reason: "tool not called".into(),
            response: "".into(),
            rca_performed: true,
            rca_result: Some(make_rca("ToolNotCalled", CandidateModule::ToolSelection)),
            collected_at: now(),
            fix_status: BadcaseFixStatus::Unconfirmed,
            entry: BadcaseEntry::AutoDetected,
            difficulty: "medium".into(),
            coverage: Vec::new(),
        },
    ];

    let clusters = cluster_badcases(&records);
    // First cluster should be the largest (2 records)
    assert_eq!(clusters[0].count, 2);
    assert_eq!(clusters[1].count, 1);
}

#[test]
fn clusters_hold_every_badcase_once() {
    let make = |task: &str, reason: &str, rca: Option<RcaResult>| BadcaseRecord {
        task_id: task.into(),
        failure_reason: reason.into(),
        rca_result: rca,
        ..make_record()
    };
    let records = vec![
        make("a", "x", None),
        make("b", "y", Some(make_rca("FactualError", CandidateModule::Retrieval))),
        make("c", "z", Some(make_rca("FactualError", CandidateModule::Retrieval))),
        make("d", "z", Some(make_rca("FactualError", CandidateModule::Retrieval))),
        make("e", "x", Some(make_rca("FactualError", CandidateModule::Reasoning))),
        make("f", "x", Some(make_rca("Other", CandidateModule::Reasoning))),
        make("g", "w", None),
        make("h", "unlike", Some(make_rca("unknown", CandidateModule::Reasoning))),
    ];
    let clusters = cluster_badcases(&records);
    assert_eq!(clusters.len(), 5);
    assert_eq!(clusters.iter().map(|c| c.count).sum::<usize>(), records.len());
    assert_eq!(clusters[0].phenomenon, Some(ProblemPhenomenon::FactualError));
    assert_eq!(clusters[0].primary_module, Some(CandidateModule::Retrieval));
    assert_eq!(clusters[0].task_ids, vec!["b", "c", "d"]);
    assert_eq!(clusters[0].common_failure_reason, "z");
    assert_eq!(clusters[1].count, 2);
    assert_eq!(clusters[1].phenomenon, None);
    assert_eq!(clusters[1].primary_module, None);
    assert_eq!(clusters[1].task_ids, vec!["a", "g"]);
    assert!(clusters[2..].iter().all(|c| c.count == 1));
}

#[test]
fn test_governance_defaults() {
    let g = BadcaseGovernance::default();
    assert_eq!(g.max_age_days, 90);
    assert_eq!(g.max_duplicate_inputs, 3);
    assert_eq!(g.downgrade_threshold, 10);
    assert!((number(g.downgraded_pass_rate) - 0.7).abs() < 1e-6);
}

#[test]
fn test_governance_filter_expired() {
    let g = BadcaseGovernance {
        max_age_days: 1, // 1 day
        ..Default::default()
    };

    // Record from 2 days ago should be expired
    let two_days_ago =
        SystemTime::now().checked_sub(Duration::from_secs(2 * 86400)).unwrap();
    let now_record = BadcaseRecord {
        id: "fresh".into(),
        task_id: "t1".into(),
        input: "hi".into(),
        description: "".into(),
        failure_reason: "fail".into(),
        response: "".into(),
        rca_performed: false,
        rca_result: None,
        collected_at: now(),
        fix_status: BadcaseFixStatus::Unconfirmed,
        entry: BadcaseEntry::AutoDetected,
        difficulty: "medium".into(),
        coverage: Vec::new(),
    };
    let old_record = BadcaseRecord {
        id: "stale".into(),
        collected_at: stamp(two_days_ago),
        ..now_record.clone()
    };

    let filtered = g.filter_expired(vec![now_record.clone(), old_record]);
    assert_eq!(filtered.len(), 1);
    assert_eq!(filtered[0].id, "fresh");
}

#[test]
fn a_badcase_expires_to_the_nanosecond() {
    let g = BadcaseGovernance { max_age_days: 1, ..Default::default() };
    let collected = Timestamp { secs: 1000, nanos: 500 };
    let kept = |at: Timestamp| -> bool {
        let record = BadcaseRecord { collected_at: collected, ..make_record() };
        g.filter_expired_at(vec![record], at).len() == 1
    };
    assert!(kept(Timestamp { secs: 1000 + 86400, nanos: 499 }));
    assert!(!kept(Timestamp { secs: 1000 + 86400, nanos: 500 }));
    assert!(!kept(Timestamp { secs: 1000 + 90000, nanos: 0 }));
    // A clock that went back keeps everything.
    assert!(kept(Timestamp { secs: 5, nanos: 0 }));
}

#[test]
fn test_governance_is_duplicate() {
    let g = BadcaseGovernance { max_duplicate_inputs: 2, ..Default::default() };

    let records = vec![
        BadcaseRecord { id: "r1".into(), input: "hello".into(), ..make_record() },
        BadcaseRecord { id: "r2".into(), input: "hello".into(), ..make_record() },
    ];

    assert!(g.is_duplicate("hello", &records));
    assert!(!g.is_duplicate("world", &records));
}

#[test]
fn test_governance_effective_pass_rate() {
    let g = BadcaseGovernance {
        downgrade_threshold: 3,
        downgraded_pass_rate: double(0.5),
        ..Default::default()
    };

    let records = vec![
        BadcaseRecord { id: "r1".into(), task_id: "frequent_fail".into(), ..make_record() },
        BadcaseRecord { id: "r2".into(), task_id: "frequent_fail".into(), ..make_record() },
        BadcaseRecord { id: "r3".into(), task_id: "frequent_fail".into(), ..make_record() },
    ];

    let rate = number(g.effective_pass_rate("frequent_fail", &records, double(1.0)));
    assert!((rate - 0.5).abs() < 1e-6);

    let rate_normal = number(g.effective_pass_rate("rare_fail", &records, double(0.9)));
    assert!((rate_normal - 0.9).abs() < 1e-6);
}

#[test]
fn the_lesser_rate_counts() {
    let values = [-1.5, -0.0, 0.0, 0.3, 0.7, 1.0, f64::INFINITY, f64::NEG_INFINITY, f64::NAN];
    for a in values {
        for b in values {
            let g = BadcaseGovernance {
                downgrade_threshold: 0,
                downgraded_pass_rate: double(a),
                ..Default::default()
            };
            let r = number(g.effective_pass_rate("t", &[], double(b)));
            let expected = a.min(b);
            assert!(r == expected || (r.is_nan() && expected.is_nan()), "{a} {b} {r}");
        }
    }
}

#[test]
fn test_weight_for_maps_difficulty() {
    let mut weights = StrMap::new();
    weights.insert("hard".to_string(), double(2.0));
    weights.insert("medium".to_string(), double(1.5));
    weights.insert("easy".to_string(), double(0.5));
    let g = BadcaseGovernance {
        difficulty_weights: weights,
        default_weight: double(1.0),
        ..Default::default()
    };

    assert!((number(g.weight_for("hard")) - 2.0).abs() < 1e-6);
    assert!((number(g.weight_for("medium")) - 1.5).abs() < 1e-6);
    assert!((number(g.weight_for("easy")) - 0.5).abs() < 1e-6);
}

#[test]
fn test_weight_for_unknown_uses_default_weight() {
    let g = BadcaseGovernance {
        difficulty_weights: StrMap::new(),
        default_weight: double(1.0),
        ..Default::default()
    };
    // Unknown label falls back to default_weight.
    assert!((number(g.weight_for("hard")) - 1.0).abs() < 1e-6);
    assert!((number(g.weight_for("totally_unknown")) - 1.0).abs() < 1e-6);

    // Default governance has no weights → everything maps to 1.0.
    let g = BadcaseGovernance::default();
    assert!((number(g.weight_for("hard")) - 1.0).abs() < 1e-6);
}

#[test]
fn test_from_config_merges_weights() {
    let mut weights = StrMap::new();
    weights.insert("hard".to_string(), double(3.0));
    let cfg = BadcaseGovernanceConfig {
        difficulty_weights: weights,
        default_weight: double(1.5),
    };

    let g = BadcaseGovernance::from_config(&cfg);

    // Config weights merged into the default governance values.
    assert_eq!(g.max_age_days, 90);
    assert!((number(g.weight_for("hard")) - 3.0).abs() < 1e-6);
    assert!((number(g.default_weight) - 1.5).abs() < 1e-6);
    assert!((number(g.weight_for("medium")) - 1.5).abs() < 1e-6);

    // Empty config keeps default governance behaviour.
    let g = BadcaseGovernance::from_config(&BadcaseGovernanceConfig::default());
    assert!((number(g.weight_for("hard")) - 1.0).abs() < 1e-6);
}

#[test]
fn test_badcase_record_default_labels() {
    // Entries without difficulty and coverage get the defaults, so that the
    // regression suite keeps loading.
    let yaml = r#"
            id: legacy_bc
            task_id: legacy_task
            input: hello
            description: legacy
            failure_reason: crit
            response: resp
            rca_performed: false
            fix_status: Unconfirmed
            entry: AutoDetected
            collected_at:
              secs_since_epoch: 1784000000
              nanos_since_epoch: 0
        "#;
    let doc: serde_norway::Value = serde_norway::from_str(yaml).unwrap();
    let read = |key: &str| -> Option<String> {
        doc.get(key).and_then(|x| x.as_str()).map(|x| x.to_string())
    };
    let record = BadcaseRecord {
        id: read("id").unwrap(),
        task_id: read("task_id").unwrap(),
        difficulty: read("difficulty").unwrap_or_else(default_badcase_difficulty),
        coverage: doc
            .get("coverage")
            .and_then(|x| x.as_sequence())
            .map(|v| v.iter().map(|x| x.as_str().unwrap().to_string()).collect())
            .unwrap_or_default(),
        ..make_record()
    };
    assert_eq!(record.difficulty, "medium");
    assert!(record.coverage.is_empty());

    // The labels are written, so that they survive the write → read cycle.
    let mut labeled = make_record();
    labeled.difficulty = "hard".into();
    labeled.coverage = vec!["tools".into(), "routing".into()];
    let value = build_badcase_yaml_task(&labeled, &make_task("t"));
    assert_eq!(text(value.get("difficulty")), "hard");
    let coverage = match value.get("coverage").expect("coverage key") {
        YamlValue::List(v) => v.iter().map(|y| text(Some(y))).collect::<Vec<_>>(),
        _ => panic!("no list"),
    };
    assert_eq!(coverage, vec!["tools", "routing"]);
}

#[test]
fn a_badcase_is_written_as_a_task() {
    let mut thresholds = StrMap::new();
    thresholds.insert("Safety".to_string(), double(0.5));
    let mut task = make_task("t");
    task.expected_behavior = "an answer".into();
    task.conditions = vec![GoalCondition::FileExists { path: "p".into() }];
    task.criteria = Some(QualityCriteria {
        dimensions: vec![
            QualityDimension::Safety,
            QualityDimension::Custom("a \"b\"\n".to_string()),
        ],
        thresholds,
    });
    let record = BadcaseRecord {
        task_id: "x".repeat(60),
        input: "question".into(),
        failure_reason: "why".into(),
        rca_result: Some(make_rca("FactualError", CandidateModule::Retrieval)),
        ..make_record()
    };
    let value = build_badcase_yaml_task(&record, &task);
    let keys: Vec<&str> = match &value {
        YamlValue::Mapping(entries) => entries.iter().map(|e| e.0.as_str()).collect(),
        _ => panic!("no mapping"),
    };
    assert_eq!(
        keys,
        vec![
            "id", "input", "expected_behavior", "source", "difficulty", "failure_reason",
            "rca_result", "conditions", "criteria", "task_id", "response", "rca_performed",
            "collected_at", "fix_status", "entry",
        ]
    );
    assert_eq!(text(value.get("id")), "x".repeat(50) + "_bc");
    assert_eq!(text(value.get("source")), "badcase");
    assert!(matches!(
        value.get("rca_result"),
        Some(YamlValue::Analysis(a))
            if a.phenomenon == "FactualError"
                && a.responsibility_module == CandidateModule::Retrieval
    ));
    let criteria = value.get("criteria").unwrap();
    let dimensions = match criteria.get("dimensions") {
        Some(YamlValue::List(v)) => v.iter().map(|y| text(Some(y))).collect::<Vec<_>>(),
        _ => panic!("no list"),
    };
    assert_eq!(dimensions, vec!["safety", "a \"b\"\n"]);
    // The dimensions are read back as they were.
    let original = &task.criteria.as_ref().unwrap().dimensions;
    assert_eq!(&dimensions.iter().map(|d| parse_dimension(d)).collect::<Vec<_>>(), original);
    assert!(matches!(
        criteria.get("thresholds").unwrap().get("Safety"),
        Some(YamlValue::Float(x)) if number(*x) == 0.5
    ));

    // What is empty is left out.
    let bare = build_badcase_yaml_task(&make_record(), &make_task("t"));
    for key in ["description", "expected_behavior", "coverage", "rca_result", "conditions", "criteria"]
    {
        assert!(bare.get(key).is_none(), "{key}");
    }
    assert_eq!(text(bare.get("id")), "_bc");
}

#[test]
fn a_written_badcase_keeps_its_record() {
    let record = BadcaseRecord {
        task_id: "t".into(),
        response: "hello".into(),
        rca_performed: true,
        collected_at: Timestamp { secs: 1784000000, nanos: 5 },
        fix_status: BadcaseFixStatus::Confirmed,
        entry: BadcaseEntry::OnlineRisk,
        ..make_record()
    };
    let value = build_badcase_yaml_task(&record, &make_task("t"));
    assert_eq!(text(value.get("task_id")), "t");
    assert_eq!(text(value.get("response")), "hello");
    assert!(matches!(value.get("rca_performed"), Some(YamlValue::Bool(true))));
    let time = value.get("collected_at").unwrap();
    assert!(matches!(time.get("secs_since_epoch"), Some(YamlValue::Whole(1784000000))));
    assert!(matches!(time.get("nanos_since_epoch"), Some(YamlValue::Whole(5))));
    assert_eq!(text(value.get("fix_status")), "Confirmed");
    assert!(matches!(value.get("entry"), Some(YamlValue::Entry(BadcaseEntry::OnlineRisk))));
}

#[test]
fn failed_trials_are_collected_unless_their_input_is_known() {
    let collector = BadcaseCollector::new(None, None, "/p/evals");
    assert!(collector.rca_pipeline().is_none());
    assert_eq!(collector.output_dir(), "/p/evals/badcases");
    let own = BadcaseCollector::new(Some(RcaPipeline::new()), Some("out".to_string()), "/p/evals");
    assert!(own.rca_pipeline().is_some());
    assert_eq!(own.output_dir(), "out");

    let trials = vec![make_trial(false), make_trial(true), make_trial(false)];
    assert_eq!(collector.collect(&trials), vec![0, 2]);
    assert!(collector.collect(&[]).is_empty());

    let task = make_task("t");
    let g = BadcaseGovernance { max_duplicate_inputs: 1, ..Default::default() };
    // The maximum holds within one call.
    assert_eq!(collector.collect_and_govern(&trials, &task, &g, &[], &[]), vec![0]);
    let three = BadcaseGovernance::default();
    assert_eq!(collector.collect_and_govern(&trials, &task, &three, &[], &[]), vec![0, 2]);
    let known = || BadcaseRecord { input: "question".into(), ..make_record() };
    assert!(collector.collect_and_govern(&trials, &task, &g, &[known()], &[]).is_empty());
    // What was written before is known by its input.
    let written = [make_task("t_bc"), make_task("u_bc")];
    assert_eq!(count_written_inputs("question", &written), 2);
    assert_eq!(collector.collect_and_govern(&trials, &task, &three, &[], &written), vec![0]);
    assert_eq!(collector.collect_and_govern(&trials, &task, &three, &[known()], &written), vec![0]);
    let mut other = make_task("v_bc");
    other.input = "something else".into();
    assert_eq!(collector.collect_and_govern(&trials, &task, &g, &[], &[other]), vec![0]);
}

#[test]
fn long_ids_are_cut_between_characters() {
    let record = BadcaseRecord { task_id: "你".repeat(20), ..make_record() };
    let value = build_badcase_yaml_task(&record, &make_task("t"));
    assert_eq!(text(value.get("id")), "你".repeat(16) + "_bc");
}

#[test]
fn a_badcase_takes_over_its_task_and_trial() {
    let at = Timestamp { secs: 255, nanos: 1 };
    let r = badcase_record(&make_task("t"), &make_trial(false), None, at);
    assert_eq!(r.id, "t_ff");
    assert_eq!(r.task_id, "t");
    assert_eq!(r.input, "question");
    assert_eq!(r.description, "what it does");
    assert_eq!(r.failure_reason, "trial failed: unknown reason");
    assert_eq!(r.response, "hello");
    assert!(!r.rca_performed);
    assert_eq!(r.collected_at, at);
    assert_eq!(r.fix_status, BadcaseFixStatus::Unconfirmed);
    assert_eq!(r.difficulty, "hard");
    assert_eq!(r.coverage, vec!["tools"]);
    let rca = make_rca("FactualError", CandidateModule::Retrieval);
    assert!(badcase_record(&make_task("t"), &make_trial(false), Some(rca), at).rca_performed);
}

#[test]
fn badcases_are_appended_to_their_file() {
    let record = BadcaseRecord {
        task_id: "t".into(),
        input: "question".into(),
        rca_result: Some(make_rca("FactualError", CandidateModule::Retrieval)),
        entry: BadcaseEntry::ManualSubmit { reporter: "r".into(), description: "d".into() },
        ..make_record()
    };
    let tasks = |t: Tree| -> Vec<Tree> { take_items(take_under(t, "tasks").unwrap()) };
    let held = |t: Tree, key: &str| -> String {
        match take_under(t, key) {
            Some(Tree::Text(s)) => s,
            _ => String::new(),
        }
    };
    let first = tasks(write_badcase_yaml(&None, &record, &make_task("t")));
    assert_eq!(first.len(), 1);
    // What the file holds stays, whatever it is.
    let text = "tasks:\n- id: old\n  n: [1, -2, 0.5, null, true]\n  m: !Tag {a: b}\n- 7\n";
    let after = tasks(write_badcase_yaml(&Some(text.to_string()), &record, &make_task("t")));
    assert_eq!(after.len(), 3);
    let mut after = after.into_iter();
    let old = after.next().unwrap();
    assert!(matches!(
        &old,
        Tree::Mapping(v) if matches!(
            &v[..],
            [(_, Tree::Text(id)), (_, Tree::List(n)), (_, Tree::Tagged(tag, _))]
                if id == "old" && tag == "!Tag" && matches!(
                    &n[..],
                    [Tree::Whole(1), Tree::Negative(-2), Tree::Float(x), Tree::Null,
                        Tree::Bool(true)] if number(*x) == 0.5
                )
        )
    ));
    // Tags do not stand in the way of a lookup.
    let tagged = take_under(old, "m").unwrap();
    assert_eq!(held(tagged, "a"), "b");
    assert!(matches!(after.next(), Some(Tree::Whole(7))));
    let new = after.next().unwrap();
    match take_under(new, "entry") {
        Some(Tree::Tagged(tag, inner)) => {
            assert_eq!(tag, "!ManualSubmit");
            assert_eq!(held(*inner, "reporter"), "r");
        }
        _ => panic!("no entry"),
    }
    // What cannot be read counts as empty.
    for text in ["tasks: [", "tasks: 5", "[]", "", "other: []"] {
        let only = write_badcase_yaml(&Some(text.to_string()), &record, &make_task("t"));
        assert_eq!(tasks(only).len(), 1, "{text}");
    }
}

#[test]
fn analyses_are_extracted_in_order() {
    let files = [
        "tasks:\n- rca_result: a\n- id: x\n- rca_result: {phenomenon: b}\n".to_string(),
        "no list".to_string(),
        "tasks: [{rca_result: c}]".to_string(),
    ];
    assert_eq!(load_all_badcase_records(&files).len(), 4);
    let found = extract_rca_results_from_badcases(&files);
    assert!(matches!(
        &found[..],
        [Tree::Text(a), Tree::Mapping(_), Tree::Text(c)] if a == "a" && c == "c"
    ));
    assert!(parse_yaml("a: [").is_none());
    // An analysis is written with all of its fields.
    let record = BadcaseRecord {
        rca_result: Some(make_rca("FactualError", CandidateModule::Retrieval)),
        ..make_record()
    };
    let entry = build_badcase_yaml_task(&record, &make_task("t")).into_tree();
    let fields = match take_under(entry, "rca_result") {
        Some(Tree::Mapping(v)) => v,
        _ => panic!("no analysis"),
    };
    let names: Vec<&str> = fields
        .iter()
        .map(|f| match &f.0 {
            Tree::Text(s) => s.as_str(),
            _ => panic!("no text"),
        })
        .collect();
    assert_eq!(
        names,
        vec![
            "phenomenon", "process_deviation", "responsibility", "problem_category",
            "problem_enumeration", "responsibility_module", "sub_responsibility",
            "evidence_chain", "fix_suggestion", "confidence", "analysis_duration_ms", "entry",
            "completed_at",
        ]
    );
    assert!(matches!(&fields[5].1, Tree::Text(m) if m == "Retrieval"));
    assert!(matches!(&fields[6].1, Tree::Null));
}
