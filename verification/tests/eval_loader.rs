//! Task files, suite manifests and the suites made of them.
use syscity::error::SyscityError;
use syscity::eval::dataset::{
    AgentType, Comparison, EvalTask, EvalTaskSource, GoalCondition, QualityDimension,
    SuiteCategory,
};
use syscity::eval::loader::{
    category_entries, convert_condition, convert_task, default_evals_dir, default_task_difficulty,
    flat_entries, included_entries, included_parse_error, load_tasks, manifest_entries,
    parse_agent_type, parse_category, parse_dimension, parse_error, parse_operator,
    resolve_entries, resolve_path, yaml_value_to_string, LoadedTaskFile, ResolvedEntry,
    YamlCategory, YamlCommand, YamlCondition, YamlCriteria, YamlInclude, YamlManifest, YamlScalar,
    YamlSuiteEntry, YamlTask, YamlTaskFile, YamlTaskRef, YamlTurnInput,
};
use syscity::eval::suites::{display_name, gather_tasks, load_suite, matching_tasks, sort_entries};
use syscity::json::Json;
use syscity::path::{join_path, path_components};
use syscity::scalar::Double;
use syscity::strmap::StrMap;

fn double(x: f64) -> Double {
    Double { bits: x.to_bits() }
}

/// A scalar of a parsed YAML document.
fn scalar(v: &serde_norway::Value) -> YamlScalar {
    match v {
        serde_norway::Value::String(s) => YamlScalar::Text(s.clone()),
        serde_norway::Value::Number(n) => match (n.as_u64(), n.as_i64()) {
            (Some(u), _) => YamlScalar::Whole(u),
            (_, Some(i)) => YamlScalar::Int(i),
            _ => YamlScalar::Float(n.to_string()),
        },
        serde_norway::Value::Bool(b) => YamlScalar::Bool(*b),
        other => YamlScalar::Other(format!("{:?}", other)),
    }
}

fn condition(cond_type: &str) -> YamlCondition {
    YamlCondition {
        cond_type: cond_type.to_string(),
        command: "cmd".to_string(),
        must_contain: None,
        must_not_contain: None,
        expected: None,
        path: "some/path".to_string(),
        operator: String::new(),
        threshold: None,
    }
}

fn yaml_task(id: &str) -> YamlTask {
    YamlTask {
        id: id.to_string(),
        description: String::new(),
        input: "hello".to_string(),
        expected_behavior: String::new(),
        conditions: vec![],
        criteria: None,
        setup: vec![],
        cleanup: vec![],
        source: None,
        failure_reason: None,
        agent_type: None,
        turns: vec![],
        session_conditions: vec![],
        difficulty: default_task_difficulty(),
        coverage: vec![],
    }
}

fn task(id: &str) -> EvalTask {
    convert_task(yaml_task(id)).unwrap()
}

fn entry(path: &str, filter: Option<&str>, trials: usize) -> ResolvedEntry {
    ResolvedEntry {
        task_path: path.to_string(),
        task_filter: filter.map(|f| f.to_string()),
        min_pass_rate: double(0.8),
        trials,
        sampling_rate: None,
    }
}

fn suite_entry(path: &str) -> YamlSuiteEntry {
    YamlSuiteEntry {
        id: "s".to_string(),
        path: path.to_string(),
        weight: None,
        min_pass_rate: None,
        trials: None,
        sampling_rate: None,
        continuous_success_required: None,
        task_filter: None,
    }
}

fn category(label: Option<&str>, paths: &[&str]) -> YamlCategory {
    YamlCategory {
        name: String::new(),
        category: label.map(|l| l.to_string()),
        description: String::new(),
        schedule: None,
        suites: paths.iter().map(|p| suite_entry(p)).collect(),
    }
}

fn manifest(name: Option<&str>) -> YamlManifest {
    YamlManifest {
        name: name.map(|n| n.to_string()),
        description: String::new(),
        category: None,
        trials: None,
        min_pass_rate: None,
        continuous_success_required: None,
        sampling_rate: None,
        agent_type: None,
        tasks: vec![],
        categories: StrMap::new(),
        includes: vec![],
    }
}

/// The tasks of a task file: what is not said is left at its default.
fn tasks_of(yaml: &str) -> Vec<EvalTask> {
    let doc: serde_norway::Value = serde_norway::from_str(yaml).unwrap();
    let text = |v: &serde_norway::Value, key: &str| -> Option<String> {
        v.get(key).and_then(|x| x.as_str()).map(|x| x.to_string())
    };
    let mut tasks = Vec::new();
    for v in doc.get("tasks").unwrap().as_sequence().unwrap() {
        let mut yt = yaml_task(&text(v, "id").unwrap());
        yt.input = text(v, "input").unwrap();
        yt.source = text(v, "source");
        yt.failure_reason = text(v, "failure_reason");
        if let Some(difficulty) = text(v, "difficulty") {
            yt.difficulty = difficulty;
        }
        if let Some(coverage) = v.get("coverage").and_then(|x| x.as_sequence()) {
            yt.coverage = coverage.iter().map(|x| x.as_str().unwrap().to_string()).collect();
        }
        tasks.push(yt);
    }
    load_tasks(YamlTaskFile { tasks, skill_eval_design: None }).unwrap().tasks
}

#[test]
fn test_old_badcase_yaml_without_labels_parses_with_defaults() {
    // A task without labels gets the defaults, so that the regression suite
    // keeps loading.
    let yaml = r#"
            tasks:
            - id: legacy_bc
              input: hello
              source: badcase
              failure_reason: crit
        "#;
    let tasks = tasks_of(yaml);
    assert_eq!(tasks.len(), 1);
    assert_eq!(tasks[0].difficulty, "medium");
    assert!(tasks[0].coverage.is_empty());
    assert_eq!(tasks[0].source, EvalTaskSource::BadcaseRecycle);
}

#[test]
fn test_labeled_badcase_yaml_roundtrips_through_loader() {
    let yaml = r#"
            tasks:
            - id: labeled_bc
              input: hello
              source: badcase
              difficulty: hard
              coverage: [tools, routing]
        "#;
    let tasks = tasks_of(yaml);
    assert_eq!(tasks[0].difficulty, "hard");
    assert_eq!(tasks[0].coverage, vec!["tools", "routing"]);
}

#[test]
fn test_eval_task_default_labels() {
    // A task without the labels gets the defaults.
    let yaml = r#"
            tasks:
            - id: legacy
              input: hi
        "#;
    let tasks = tasks_of(yaml);
    assert_eq!(tasks[0].difficulty, "medium");
    assert!(tasks[0].coverage.is_empty());
    assert!(tasks[0].trials.is_none());
}

#[test]
fn test_convert_yaml_value_to_string() {
    let yaml: serde_norway::Value = serde_norway::from_str("42").unwrap();
    assert_eq!(yaml_value_to_string(&scalar(&yaml)), "42");

    let yaml: serde_norway::Value = serde_norway::from_str("\"hello\"").unwrap();
    assert_eq!(yaml_value_to_string(&scalar(&yaml)), "hello");

    let yaml: serde_norway::Value = serde_norway::from_str("true").unwrap();
    assert_eq!(yaml_value_to_string(&scalar(&yaml)), "true");
    assert_eq!(yaml_value_to_string(&YamlScalar::Whole(u64::MAX)), u64::MAX.to_string());
    assert_eq!(yaml_value_to_string(&YamlScalar::Int(-7)), "-7");
    assert_eq!(yaml_value_to_string(&YamlScalar::Int(i64::MIN)), i64::MIN.to_string());
    assert_eq!(yaml_value_to_string(&YamlScalar::Float("0.5".to_string())), "0.5");
}

#[test]
fn test_convert_condition_pattern() {
    let yc = YamlCondition {
        cond_type: "pattern".into(),
        command: "grep -c 'web_search' /tmp/log".into(),
        must_contain: Some(scalar(&serde_norway::Value::Number(1.into()))),
        must_not_contain: None,
        expected: None,
        path: String::new(),
        operator: String::new(),
        threshold: None,
    };
    let gc = convert_condition(yc).unwrap();
    match gc {
        GoalCondition::Pattern { must_contain, .. } => {
            assert_eq!(must_contain, "1");
        }
        _ => panic!("Expected Pattern condition"),
    }
}

#[test]
fn test_convert_condition_exit_code() {
    let yc = YamlCondition {
        cond_type: "exit_code".into(),
        command: "grep -c 'test' /tmp/response.txt".into(),
        must_contain: None,
        must_not_contain: None,
        expected: Some(0),
        path: String::new(),
        operator: String::new(),
        threshold: None,
    };
    let gc = convert_condition(yc).unwrap();
    match gc {
        GoalCondition::ExitCode { expected, .. } => {
            assert_eq!(expected, Some(0));
        }
        _ => panic!("Expected ExitCode condition"),
    }
}

#[test]
fn test_parse_dimension_known() {
    assert_eq!(parse_dimension("factual_accuracy"), QualityDimension::FactualAccuracy);
    assert_eq!(parse_dimension("safety"), QualityDimension::Safety);
    assert_eq!(
        parse_dimension("instruction_following"),
        QualityDimension::InstructionFollowing
    );
}

#[test]
fn test_parse_dimension_custom() {
    let d = parse_dimension("custom_metric");
    assert_eq!(d, QualityDimension::Custom("custom_metric".to_string()));
    // No two labels name the same dimension.
    for other in ["FactualAccuracy", "Safety", "factual accuracy", ""] {
        assert_eq!(parse_dimension(other), QualityDimension::Custom(other.to_string()));
    }
}

#[test]
fn every_known_dimension_has_its_label() {
    let known = [
        ("factual_accuracy", QualityDimension::FactualAccuracy),
        ("completeness", QualityDimension::Completeness),
        ("consistency", QualityDimension::Consistency),
        ("clarity", QualityDimension::Clarity),
        ("actionable", QualityDimension::Actionable),
        ("safety", QualityDimension::Safety),
        ("instruction_following", QualityDimension::InstructionFollowing),
        ("context_retention", QualityDimension::ContextRetention),
        ("goal_switch", QualityDimension::GoalSwitch),
        ("emotion_handling", QualityDimension::EmotionHandling),
        ("evidence_consistency", QualityDimension::EvidenceConsistency),
    ];
    for (label, dimension) in known {
        assert_eq!(parse_dimension(label), dimension);
    }
}

#[test]
fn operators_categories_and_agent_types() {
    assert_eq!(parse_operator(">"), Comparison::Gt);
    assert_eq!(parse_operator("lt"), Comparison::Lt);
    assert_eq!(parse_operator("ge"), Comparison::Ge);
    assert_eq!(parse_operator(">="), Comparison::Ge);
    assert_eq!(parse_operator("lte"), Comparison::Le);
    assert_eq!(parse_operator("=="), Comparison::Eq);
    assert_eq!(parse_category("multi_turn"), SuiteCategory::MultiTurnHard);
    assert_eq!(parse_category("regression"), SuiteCategory::Regression);
    assert_eq!(parse_category("adversarial"), SuiteCategory::Adversarial);
    assert_eq!(parse_category("whatever"), SuiteCategory::Capability);
    assert_eq!(parse_agent_type("multi_agent"), AgentType::MultiAgent);
    assert_eq!(parse_agent_type("creative_generation"), AgentType::CreativeGeneration);
    assert_eq!(parse_agent_type("whatever"), AgentType::KnowledgeQA);
}

#[test]
fn conditions_of_each_type() {
    assert!(matches!(
        convert_condition(condition("file_exists")),
        Some(GoalCondition::FileExists { path }) if path == "some/path"
    ));
    assert!(matches!(
        convert_condition(condition("must_not_contain")),
        Some(GoalCondition::MustNotContain { must_not_contain, .. }) if must_not_contain.is_empty()
    ));
    let mut numeric = condition("numeric");
    numeric.operator = "gte".to_string();
    numeric.threshold = Some(double(2.5));
    assert!(matches!(
        convert_condition(numeric),
        Some(GoalCondition::Numeric { operator: Comparison::Ge, threshold, .. })
            if threshold == double(2.5)
    ));
    assert!(matches!(
        convert_condition(condition("numeric")),
        Some(GoalCondition::Numeric { operator: Comparison::Eq, threshold, .. })
            if threshold == double(0.0)
    ));
    let mut forbidden = condition("must_not_contain");
    forbidden.must_contain = Some(YamlScalar::Text("old".to_string()));
    assert!(matches!(
        convert_condition(forbidden),
        Some(GoalCondition::MustNotContain { must_not_contain, .. }) if must_not_contain == "old"
    ));
    let mut forbidden = condition("must_not_contain");
    forbidden.must_contain = Some(YamlScalar::Text("old".to_string()));
    forbidden.must_not_contain = Some(YamlScalar::Text("secret".to_string()));
    assert!(matches!(
        convert_condition(forbidden),
        Some(GoalCondition::MustNotContain { must_not_contain, .. }) if must_not_contain == "secret"
    ));
    let mut lint = condition("static_analysis");
    lint.command = "lint".to_string();
    assert!(matches!(
        convert_condition(lint),
        Some(GoalCondition::StaticAnalysis { command }) if command == "lint"
    ));
    // An unknown type makes no condition.
    assert!(convert_condition(condition("nonsense")).is_none());
}

#[test]
fn a_task_takes_over_its_entry() {
    let mut thresholds = StrMap::new();
    thresholds.insert("Safety".to_string(), double(0.9));
    let mut yt = yaml_task("t1");
    yt.conditions = vec![condition("exit_code"), condition("nonsense"), condition("pattern")];
    yt.criteria = Some(YamlCriteria {
        dimensions: vec!["safety".to_string(), "style".to_string()],
        thresholds,
    });
    yt.setup = vec![YamlCommand { command: "mkdir x".to_string() }];
    yt.cleanup = vec![YamlCommand { command: "rm -r x".to_string() }];
    yt.source = Some("online".to_string());
    yt.agent_type = Some("task_execution".to_string());
    yt.turns = vec![YamlTurnInput {
        user_message: "hi".to_string(),
        conditions: vec![condition("file_exists")],
    }];
    yt.session_conditions = vec![condition("bad")];
    let t = convert_task(yt).unwrap();
    assert_eq!(t.user_id, "eval_user");
    assert_eq!(t.conditions.len(), 2);
    let criteria = t.criteria.unwrap();
    assert_eq!(
        criteria.dimensions,
        vec![QualityDimension::Safety, QualityDimension::Custom("style".to_string())]
    );
    assert_eq!(criteria.thresholds.get("Safety"), Some(&double(0.9)));
    assert_eq!(t.setup[0].command, "mkdir x");
    assert_eq!(t.cleanup[0].command, "rm -r x");
    assert_eq!(t.source, EvalTaskSource::Online);
    assert_eq!(t.agent_type, Some(AgentType::TaskExecution));
    assert_eq!(t.turns[0].user_message, "hi");
    assert_eq!(t.turns[0].conditions.len(), 1);
    assert!(t.session_conditions.is_empty());
    assert_eq!(t.trials, None);
    assert_eq!(task("t2").source, EvalTaskSource::ExpertDesign);
}

#[test]
fn errors_name_the_file() {
    assert!(matches!(
        parse_error("a.yaml", "bad"),
        SyscityError::Validation(m) if m == "Cannot parse a.yaml: bad"
    ));
    assert!(matches!(
        included_parse_error("b.yaml", "bad"),
        SyscityError::Validation(m) if m == "Cannot parse included b.yaml: bad"
    ));
}

#[test]
fn paths_are_joined_like_the_standard_library_does() {
    for dir in ["", "/", "evals", "evals/", "/root"] {
        for rel in ["a.yaml", "../a", "/abs/x", "sub/dir"] {
            let expected = std::path::Path::new(dir).join(rel);
            assert_eq!(join_path(dir, rel), expected.to_str().unwrap(), "{dir} {rel}");
        }
    }
    assert_eq!(default_evals_dir("/project"), "/project/evals");
    assert_eq!(resolve_path("evals/suites", "../a.yaml", true, "/p"), "evals/suites/../a.yaml");
    assert_eq!(resolve_path("evals/suites", "a.yaml", false, "/p"), "/p/evals/a.yaml");
}

#[test]
fn components_tell_paths_apart_like_the_standard_library_does() {
    let paths = [
        "a", "a/b", "a//b", "a/./b", "./a", "/a", "/./a", "..", "../a", "a/", "a/..", "", ".", "/",
        "b", "A", "a.b", "a-b",
    ];
    for x in paths {
        for y in paths {
            let same = std::path::Path::new(x) == std::path::Path::new(y);
            assert_eq!(path_components(x) == path_components(y), same, "{x:?} {y:?}");
            let less = std::path::Path::new(x) < std::path::Path::new(y);
            assert_eq!(path_components(x) < path_components(y), less, "{x:?} {y:?}");
        }
    }
}

#[test]
fn a_flat_manifest_names_files_once_for_each_task_that_passes() {
    let mut m = manifest(None);
    m.trials = Some(7);
    let r = YamlTaskRef {
        id: "r".to_string(),
        path: "x.yaml".to_string(),
        task_filter: Some("web".to_string()),
        min_pass_rate: None,
        trials: None,
        sampling_rate: Some(double(0.5)),
    };
    let ids = vec!["web_a".to_string(), "shell".to_string(), "b_web".to_string()];
    let entries = flat_entries(&m, &r, &ids);
    assert_eq!(entries.len(), 2);
    assert_eq!(entries[1].task_path, "x.yaml");
    assert_eq!(entries[1].task_filter.as_deref(), Some("web"));
    assert_eq!(entries[1].min_pass_rate, double(0.8));
    assert_eq!(entries[1].trials, 7);
    assert_eq!(entries[1].sampling_rate, Some(double(0.5)));
    assert!(flat_entries(&m, &r, &vec!["shell".to_string()]).is_empty());
}

#[test]
fn categories_are_selected_by_name() {
    let mut m = manifest(None);
    m.min_pass_rate = Some(double(0.9));
    m.categories.insert("capability".to_string(), category(None, &["a.yaml", "b.yaml"]));
    m.categories.insert("regression".to_string(), category(Some("regression"), &["c.yaml"]));
    let paths = |entries: &[ResolvedEntry]| -> Vec<String> {
        entries.iter().map(|e| e.task_path.clone()).collect()
    };
    let all = category_entries(&m, "");
    assert_eq!(paths(&all), vec!["a.yaml", "b.yaml", "c.yaml"]);
    let one = category_entries(&m, "regression");
    assert_eq!(paths(&one), vec!["c.yaml"]);
    assert_eq!(one[0].min_pass_rate, double(0.9));
    assert_eq!(one[0].trials, 5);
    assert!(category_entries(&m, "other").is_empty());

    // What the manifest says as a whole does not reach those who refer to it.
    let included = included_entries(&m, &vec!["capability".to_string(), "other".to_string()]);
    assert_eq!(paths(&included), vec!["a.yaml", "b.yaml"]);
    assert_eq!(included[0].min_pass_rate, double(0.8));
    assert_eq!(paths(&included_entries(&m, &vec![])), vec!["a.yaml", "b.yaml", "c.yaml"]);
}

#[test]
fn entries_are_sorted_and_loaded_once() {
    let sorted = sort_entries(vec![
        entry("b.yaml", None, 1),
        entry("a.yaml", Some("x"), 2),
        entry("./b.yaml", None, 3),
        entry("a.yaml", None, 4),
        entry("d//a.yaml", None, 5),
        entry("d/./a.yaml", None, 6),
        entry("a.yaml", Some("x"), 7),
        entry("a.yaml", Some("w"), 8),
    ]);
    let shown: Vec<(String, Option<String>, usize)> =
        sorted.into_iter().map(|e| (e.task_path, e.task_filter, e.trials)).collect();
    let some = |s: &str| Some(s.to_string());
    assert_eq!(
        shown,
        vec![
            ("./b.yaml".to_string(), None, 3),
            ("a.yaml".to_string(), None, 4),
            ("a.yaml".to_string(), some("w"), 8),
            ("a.yaml".to_string(), some("x"), 2),
            ("b.yaml".to_string(), None, 1),
            ("d//a.yaml".to_string(), None, 5),
        ]
    );
}

#[test]
fn the_order_of_the_entries_does_not_matter() {
    let keys = |v: Vec<ResolvedEntry>| -> Vec<(String, Option<String>)> {
        sort_entries(v).into_iter().map(|e| (e.task_path, e.task_filter)).collect()
    };
    let a = vec![entry("b", None, 1), entry("a", None, 1), entry("a", Some("f"), 1)];
    let b = vec![
        entry("a", Some("f"), 1),
        entry("a", None, 1),
        entry("b", None, 1),
        entry("a", Some("f"), 2),
    ];
    assert_eq!(keys(a), keys(b));
}

#[test]
fn tasks_are_filtered_by_their_ids() {
    let tasks = vec![task("web_a"), task("shell"), task("b_web")];
    let kept = matching_tasks(tasks, &Some("web".to_string()));
    let ids: Vec<&str> = kept.iter().map(|t| t.id.as_str()).collect();
    assert_eq!(ids, vec!["web_a", "b_web"]);
    assert_eq!(matching_tasks(vec![task("a"), task("b")], &None).len(), 2);
}

#[test]
fn the_tasks_of_a_suite_are_those_of_its_files() {
    let file = |ids: &[&str], design: Option<Json>| LoadedTaskFile {
        tasks: ids.iter().map(|id| task(id)).collect(),
        skill_design: design,
    };
    let entries = sort_entries(vec![
        entry("b.yaml", None, 1),
        entry("a.yaml", Some("web"), 1),
        entry("b.yaml", None, 2),
        entry("a.yaml", Some("shell"), 1),
    ]);
    assert_eq!(entries.len(), 3);
    let files = vec![
        file(&["web", "shell"], Some(Json::Bool(true))),
        file(&["web", "shell", "web2"], None),
        file(&["other"], Some(Json::Null)),
    ];
    let (tasks, designs) = gather_tasks(entries, files);
    let ids: Vec<&str> = tasks.iter().map(|t| t.id.as_str()).collect();
    assert_eq!(ids, vec!["shell", "web", "web2", "other"]);
    assert_eq!(designs.len(), 2);
    assert!(matches!(designs[0], Json::Bool(true)));
}

#[test]
fn manifests_of_all_forms_make_one_list() {
    let mut m = manifest(None);
    m.tasks = vec![YamlTaskRef {
        id: "r".to_string(),
        path: "flat.yaml".to_string(),
        task_filter: Some("web".to_string()),
        min_pass_rate: None,
        trials: None,
        sampling_rate: None,
    }];
    m.categories.insert("smoke".to_string(), category(None, &["c.yaml"]));
    m.categories.insert("other".to_string(), category(None, &["o.yaml"]));
    m.includes = vec![YamlInclude {
        path: "more.yaml".to_string(),
        sections: vec!["deep".to_string()],
    }];
    let mut more = manifest(None);
    more.categories.insert("deep".to_string(), category(None, &["d.yaml"]));
    more.categories.insert("left".to_string(), category(None, &["l.yaml"]));
    let ids = vec![vec!["web_a".to_string(), "shell".to_string(), "web_b".to_string()]];
    let placed = manifest_entries(&m, "smoke", &ids, &vec![more]);
    let shown: Vec<(usize, &str)> =
        placed.iter().map(|p| (p.place, p.entry.task_path.as_str())).collect();
    assert_eq!(
        shown,
        vec![(0, "flat.yaml"), (0, "flat.yaml"), (0, "c.yaml"), (1, "d.yaml")]
    );
    let dirs = vec!["/s".to_string(), "/t/u".to_string()];
    let found = vec![true, true, false, true];
    let resolved = resolve_entries(placed, &dirs, &found, "/p");
    let paths: Vec<&str> = resolved.iter().map(|e| e.task_path.as_str()).collect();
    assert_eq!(paths, vec!["/s/flat.yaml", "/s/flat.yaml", "/p/evals/c.yaml", "/t/u/d.yaml"]);
    assert_eq!(sort_entries(resolved).len(), 3);
}

#[test]
fn a_suite_is_named_after_what_was_asked_for() {
    let mut m = manifest(Some("Smoke"));
    m.categories.insert("regression".to_string(), category(Some("regression"), &[]));
    m.agent_type = Some("reasoning_decision".to_string());
    m.continuous_success_required = Some(true);
    let s = load_suite(m, "regression", Some("file".to_string()), vec![task("a")], vec![]);
    assert_eq!(s.id, "regression");
    assert_eq!(s.name, "Smoke");
    assert_eq!(s.category, SuiteCategory::Regression);
    assert_eq!(s.tasks.len(), 1);
    assert_eq!(s.min_pass_rate, double(0.8));
    assert_eq!(s.trials, 5);
    assert!(s.continuous_success_required);
    assert_eq!(s.sampling_rate, double(1.0));
    assert_eq!(s.agent_type, Some(AgentType::ReasoningDecision));
    assert!(s.tags.is_empty());

    let id = |name: Option<&str>, stem: Option<&str>| -> String {
        load_suite(manifest(name), "", stem.map(|s| s.to_string()), vec![], vec![]).id
    };
    assert_eq!(id(Some("Smoke"), Some("file")), "Smoke");
    assert_eq!(id(Some(""), Some("file")), "file");
    assert_eq!(id(None, None), "unknown");
    assert_eq!(load_suite(manifest(None), "x", None, vec![], vec![]).category, SuiteCategory::Capability);
    assert_eq!(display_name(None, "stem"), "stem");
    assert_eq!(display_name(Some("Name".to_string()), "stem"), "Name");
}
