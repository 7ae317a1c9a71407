//! Spawning agents, their loop, their progress and their goals.
use syscity::agent::AgentConfig;
use syscity::error::SyscityError;
use syscity::gateway::agent_spawn::{
    answer_query, begin_message_acp, begin_message_direct, builtin_tools, capability_profile,
    create_default_tool_registry,
    effective_model_for_spawn, max_scope, privileged_tools, process_message_acp,
    process_message_direct, resolve_agent, run_agent_loop, search_providers, sets_to_disable,
    spawn_agent_inner, spawn_configs, wake_target, AgentCommand, AgentQuery, AgentSettings, BuiltinTool, CapabilityProfile,
    DirectMessage, LoopAction, OsControlScope, QueryAction, SkillTrust, SpawnTable, ToolConditions,
    ToolSet, WakeTarget,
};
use syscity::gateway::config::memory::SearchProvider;
use syscity::gateway::config::misc::AgentOverrides;
use syscity::gateway::config::{
    CapabilitiesConfig, ComputerConfig, GatewayConfig, OutsideDefaults,
};
use syscity::gateway::dispatch::{Outgoing, UsageTotals};
use syscity::gateway::events::{
    idle, processing, relay_progress, relay_progress_acp, show_result, AgentStatus, GatewayEvent,
    ProgressEvent, TokenUsage,
};
use syscity::gateway::goal_spawn::{
    goal_outcome, goal_task_names, list_suspended, runner_ended, spawn_goal_relay,
    spawn_goal_runner_with_store, BlockedReason, GoalEvent, PersistedGoal, RelayAction, RelayInput,
    RelayStage, TurnUsage,
};
use syscity::json::Json;
use syscity::scalar::Single;
use syscity::strmap::StrMap;
use syscity::text::{contains_text, debug_list_of, decimal_of, join, replace, split, split_words, trim};

fn some(s: &str) -> Option<String> {
    Some(s.to_string())
}

fn strings(v: &[&str]) -> Vec<String> {
    v.iter().map(|s| s.to_string()).collect()
}

fn agent() -> AgentConfig {
    AgentConfig {
        agent_id: None,
        temperature: Single { bits: 0 },
        max_tokens: 1,
        max_turns: None,
        max_concurrent_tools: 1,
        workspace_only: false,
        system_prompt: "p".to_string(),
        max_context_tokens: 1,
    }
}

fn capabilities(profile: &str, scope: &str) -> CapabilitiesConfig {
    CapabilitiesConfig {
        profile: profile.to_string(),
        max_scope: scope.to_string(),
        custom_sets: strings(&["one"]),
        disabled_sets: strings(&["off"]),
    }
}

fn config() -> GatewayConfig {
    GatewayConfig::with_defaults(OutsideDefaults {
        default_agent: agent(),
        model: "m".to_string(),
        model_provider: "p".to_string(),
        heartbeat: Json::Null,
        computer: ComputerConfig { max_steps: 11, settle_delay_ms: 22 },
        dreaming: Json::Null,
        standing_orders: Json::Null,
        cloud: Json::Null,
        browser: Json::Null,
        capabilities: capabilities("full", "all"),
        quality_gate: Json::Null,
        permissions: Json::Null,
    })
}

fn outgoing(content: &str) -> Outgoing {
    Outgoing {
        content: content.to_string(),
        reasoning_content: None,
        tool_calls: Some(2),
        tool_calls_json: None,
        usage: Some(TokenUsage { prompt_tokens: 3, completion_tokens: 4 }),
    }
}

#[test]
fn update_config_command_reaches_agent() {
    let mut new = agent();
    new.temperature = Single { bits: 0.9f32.to_bits() };
    let (actions, go_on) = run_agent_loop("agent-a", Some(AgentCommand::UpdateConfig(new)), false);
    assert!(go_on);
    assert!(matches!(
        &actions[..],
        [LoopAction::ApplyConfig(c), LoopAction::Emit(_)]
            if f32::from_bits(c.temperature.bits) == 0.9
    ));
}

#[test]
fn the_loop_ends_with_its_commands() {
    let (_, go_on) = run_agent_loop("a", Some(AgentCommand::Shutdown), false);
    assert!(!go_on);
    let (_, go_on) = run_agent_loop("a", None, false);
    assert!(!go_on);
    let message = || AgentCommand::ProcessMessage {
        session_id: "s".to_string(),
        message: "hi".to_string(),
        user_id: "u".to_string(),
        channel: "web".to_string(),
        model_override: None,
    };
    let (actions, go_on) = run_agent_loop("a", Some(message()), true);
    assert!(go_on);
    assert!(actions.iter().any(|a| matches!(a, LoopAction::ProcessAcp { .. })));
    // The agent is busy while it works, and not after.
    assert!(matches!(actions.first(), Some(LoopAction::SetBusy(true))));
    assert!(matches!(actions.last(), Some(LoopAction::SetBusy(false))));
    let (actions, _) = run_agent_loop("a", Some(message()), false);
    assert!(actions.iter().any(|a| matches!(a, LoopAction::ProcessDirect { .. })));
}

#[test]
fn an_agent_is_spawned_once() {
    let mut table = SpawnTable::new();
    assert!(table.reserve("a").is_ok());
    assert!(matches!(
        table.reserve("a"),
        Err(SyscityError::Validation(m)) if m == "Agent 'a' spawn already in progress"
    ));
    let work = spawn_agent_inner(&mut table, &config(), "a", "/data", true).unwrap();
    assert_eq!(work.loop_task, "agent:a");
    assert_eq!(work.repair_task, "agent:a:repair");
    assert_eq!(work.planner_url, "sqlite:////data/planner.db");
    let below = |root: &str| {
        let mut table = SpawnTable::new();
        spawn_agent_inner(&mut table, &config(), "a", root, true).unwrap().planner_url
    };
    assert_eq!(below("/data/"), "sqlite:////data/planner.db");
    assert_eq!(work.max_steps, 11);
    assert!(table.is_running("a"));
    // The reservation is gone: another attempt is refused because it runs.
    assert!(table.reserve("a").is_ok());
    assert!(matches!(
        table.commit("a"),
        Err(SyscityError::Validation(m)) if m == "Agent 'a' is already running"
    ));
    // A reservation that is given back can be made again.
    assert!(table.reserve("b").is_ok());
    table.release("b");
    assert!(table.reserve("b").is_ok());
    assert!(!table.is_running("b"));
}

#[test]
fn spawned_agents_have_their_overrides() {
    let mut gateway = config();
    gateway.agent_overrides.insert(
        "a".to_string(),
        AgentOverrides {
            temperature: None,
            max_tokens: Some(5),
            max_turns: None,
            max_concurrent_tools: None,
            workspace_only: None,
            system_prompt: None,
            max_context_tokens: None,
        },
    );
    let (plain, effective) = spawn_configs(&gateway, "a", agent());
    assert_eq!(plain.agent_id.as_deref(), Some("a"));
    assert_eq!(plain.max_tokens, 1);
    assert_eq!(effective.max_tokens, 5);
    assert_eq!(effective_model_for_spawn(Some(&Json::text("x")), "m"), "x");
    assert_eq!(effective_model_for_spawn(Some(&Json::Null), "m"), "m");
    assert_eq!(effective_model_for_spawn(None, "m"), "m");
}

#[test]
fn wakes_go_to_delegations_or_the_router() {
    assert!(matches!(wake_target("delegation:r1"), WakeTarget::Delegation(r) if r == "r1"));
    assert!(matches!(wake_target("s1"), WakeTarget::Router));
    assert_eq!(resolve_agent(&some("b"), &strings(&["a", "b"])).as_deref(), Some("b"));
    assert_eq!(resolve_agent(&None, &[]), None);
}

#[test]
fn messages_are_answered_to_their_channel() {
    let acp = process_message_acp(&config(), "a", "s", "web", &some("c"), Ok(outgoing("hi")));
    assert_eq!(acp.saved_content, "hi");
    assert_eq!(acp.model_name, "m");
    assert_eq!(acp.run_id.len(), 36);
    assert!(matches!(
        acp.response,
        GatewayEvent::AgentResponse { conversation_id, .. } if conversation_id == "c"
    ));
    let failed = process_message_acp(&config(), "a", "s", "web", &None, Err("down".to_string()));
    assert!(failed.saved_content.contains("down"));
    assert_eq!(failed.usage, None);

    let msg = DirectMessage {
        session_id: "s".to_string(),
        message: "hello".to_string(),
        user_id: "u".to_string(),
        channel: "web".to_string(),
        model_override: some("mm"),
    };
    let mut settings = AgentSettings { model_override: None, extra_params: None };
    let incoming = begin_message_direct(&mut settings, &msg, &None);
    assert!(settings.extra_params.is_none());
    assert_eq!(settings.model_override.as_deref(), Some("mm"));
    assert_eq!(incoming.content, "hello");
    assert!(incoming.channel.is_none());
    let totals = UsageTotals { tokens: 10, calls: 1 };
    let done =
        process_message_direct(&mut settings, "a", &msg, totals, Ok(outgoing("hi"))).unwrap();
    // The model override holds for the run only, whatever comes of it.
    assert!(settings.model_override.is_none());
    assert_eq!(done.totals.tokens, 17);
    assert_eq!(done.saved_content, "hi");
    assert_ne!(done.run_id, acp.run_id);
    begin_message_direct(&mut settings, &msg, &some("high"));
    assert!(settings.extra_params.is_some());
    let failed = Err("down".to_string());
    assert!(process_message_direct(&mut settings, "a", &msg, totals, failed).is_none());
    assert!(settings.model_override.is_none());
    assert!(settings.extra_params.is_some());
}

#[test]
fn the_control_plane_hands_on_an_external_message() {
    let incoming = begin_message_acp("s", "hello", "u", "web");
    assert_eq!(incoming.user_id, "u");
    assert_eq!(incoming.session_id, "s");
    assert_eq!(incoming.content, "hello");
    assert_eq!(incoming.channel.as_deref(), Some("web"));
    assert!(incoming.extra.is_empty());
}

#[test]
fn queries_are_answered_and_trust_is_taken_back() {
    assert!(matches!(answer_query(None), (v, false) if v.is_empty()));
    let (actions, go_on) = answer_query(Some(AgentQuery::GetThreadSummaries));
    assert!(go_on && matches!(actions[..], [QueryAction::ReplySummaries]));
    let (actions, _) = answer_query(Some(AgentQuery::UndoLastTurn { conv_id: "c".to_string() }));
    assert!(matches!(&actions[..], [QueryAction::ReplyUndo { conv_id }] if conv_id == "c"));
    let (actions, go_on) = answer_query(Some(AgentQuery::RunSkill {
        session_id: "s".to_string(),
        message: "do it".to_string(),
        user_id: "u".to_string(),
        skill_trust: SkillTrust::Limited("installed".to_string()),
    }));
    assert!(go_on);
    assert!(matches!(
        &actions[..],
        [
            QueryAction::SetSkillTrust(SkillTrust::Limited(l)),
            QueryAction::Process(m),
            QueryAction::SetSkillTrust(SkillTrust::Trusted),
            QueryAction::ReplyResult,
        ] if l == "installed" && m.content == "do it" && m.channel.is_none()
    ));
}

#[test]
fn tools_depend_on_what_there_is() {
    let none = ToolConditions {
        browser: false,
        memory: false,
        memory_search: false,
        memory_get: false,
    };
    let all = ToolConditions {
        browser: true,
        memory: true,
        memory_search: true,
        memory_get: true,
    };
    let few = builtin_tools(false, none);
    let many = builtin_tools(true, all);
    assert_eq!(many.len(), few.len() + 5);
    assert!(!few.contains(&BuiltinTool::Memory) && many.contains(&BuiltinTool::Memory));
    assert_eq!(few[0], BuiltinTool::FileRead);
    assert!(!privileged_tools().is_empty());
    let plan = create_default_tool_registry(all, &capabilities("server", "all"), &[], vec![], some("u"));
    assert!(matches!(&plan.search[..], [SearchProvider::Cloud { api_base }] if api_base == "u"));
    assert!(matches!(plan.profile, CapabilityProfile::Server));
    assert_eq!(plan.tools, many);
    let plan = create_default_tool_registry(all, &capabilities("server", "all"), &[], vec![], None);
    assert!(!plan.tools.contains(&BuiltinTool::CloudKb));
    assert_eq!(search_providers(vec![SearchProvider::DuckDuckGo], None).len(), 1);
}

#[test]
fn capability_sets_stay_within_their_scope() {
    assert!(matches!(
        capability_profile(&capabilities("custom", "all")),
        CapabilityProfile::Custom(v) if v == vec!["one"]
    ));
    assert!(matches!(capability_profile(&capabilities("?", "all")), CapabilityProfile::Full));
    assert!(OsControlScope::Root.exceeds(OsControlScope::ReadOnly));
    assert!(!OsControlScope::ReadOnly.exceeds(OsControlScope::ReadOnly));
    let sets = [
        ToolSet { id: "read".to_string(), scope: OsControlScope::ReadOnly },
        ToolSet { id: "root".to_string(), scope: OsControlScope::Root },
    ];
    let limited = capabilities("full", "read_only");
    if max_scope(&limited).is_some() {
        let off = sets_to_disable(&sets, &limited);
        assert!(off.contains(&"root".to_string()) && !off.contains(&"read".to_string()));
    }
    assert!(sets_to_disable(&sets, &limited).contains(&"off".to_string()));
}

#[test]
fn progress_is_told_as_far_as_it_may_be_seen() {
    let thinking = || ProgressEvent::Generating { content: some("hm") };
    assert!(matches!(
        relay_progress(thinking(), &None, &None, "s", "a"),
        Some(GatewayEvent::Thinking { .. }) | None
    ));
    assert!(relay_progress(thinking(), &some("off"), &None, "s", "a").is_none());
    let calling = || ProgressEvent::ToolCalling { name: "t".to_string(), arguments: Json::Null };
    assert!(relay_progress(calling(), &None, &some("off"), "s", "a").is_none());
    assert!(matches!(
        relay_progress(calling(), &None, &None, "s", "a"),
        Some(GatewayEvent::ToolCalling { .. })
    ));
    assert!(relay_progress_acp(thinking(), "s", "a").is_none());
    let done = ProgressEvent::Completed {
        response: "r".to_string(),
        turn_id: None,
        usage: None,
    };
    assert!(matches!(
        relay_progress_acp(done, "s", "a"),
        Some(GatewayEvent::Completed { response, .. }) if response == "r"
    ));
    assert!(matches!(
        processing("a", "s"),
        GatewayEvent::AgentStatus { status: AgentStatus::Processing { session_id }, .. }
            if session_id == "s"
    ));
    assert!(matches!(
        idle("a"),
        GatewayEvent::AgentStatus { status: AgentStatus::Idle, .. }
    ));
}

#[test]
fn long_results_are_cut_in_compact_mode() {
    let long = "x".repeat(600);
    assert_eq!(show_result(long.clone(), &None), long);
    let cut = show_result(long, &some("compact"));
    assert!(cut.len() < 600 && cut.starts_with(&"x".repeat(500)), "{cut}");
    assert_eq!(show_result("short".to_string(), &some("compact")), "short");
    // The cut is made between characters.
    let wide = show_result("你".repeat(200), &some("compact"));
    assert!(wide.starts_with(&"你".repeat(166)) && !wide.starts_with(&"你".repeat(167)), "{wide}");
}

#[test]
fn write_back_appends_terminal_outcome_to_session() {
    let events = vec![
        GoalEvent::Done {
            total_rounds: 3,
            all_passed: true,
            summary: "all checks green".to_string(),
            token_usage: Some(TurnUsage {
                prompt_tokens: 100,
                completion_tokens: 20,
                total_tokens: 120,
            }),
        },
        GoalEvent::Aborted {
            reason: "round budget exhausted".to_string(),
            round: 5,
            results: vec![],
            blocked_reason: Some(BlockedReason {
                code: "max_rounds".to_string(),
                message: "round budget exhausted".to_string(),
            }),
            token_usage: None,
        },
        // Events on the way must never write back.
        GoalEvent::Progress(Json::text("check")),
    ];
    let mut messages: Vec<String> = Vec::new();
    for event in events {
        let stage = RelayStage::Waiting;
        let (_, action) =
            spawn_goal_relay("goal_wb", "sess_wb", stage, RelayInput::Received(event));
        if let RelayAction::Store { session_id, content } = action {
            assert_eq!(session_id, "sess_wb");
            messages.push(content);
        }
    }
    assert_eq!(messages.len(), 2, "only terminal events write back");
    let aborted = messages
        .iter()
        .find(|m| m.contains("aborted at round 5"))
        .expect("aborted outcome written back");
    assert!(aborted.contains("/goal resume goal_wb"));
    let done = messages
        .iter()
        .find(|m| m.contains("completed in 3 round(s)"))
        .expect("done outcome written back");
    assert!(done.contains("Tokens: 120."));
}

#[test]
fn outcomes_are_stored_and_then_told() {
    let done = GoalEvent::Done {
        total_rounds: 1,
        all_passed: true,
        summary: "ok".to_string(),
        token_usage: None,
    };
    assert_eq!(goal_outcome("g1", &GoalEvent::Progress(Json::Null)), None);
    let step = |stage, input| spawn_goal_relay("g1", "s1", stage, input);
    let (stage, action) = step(RelayStage::Waiting, RelayInput::Received(done));
    assert!(matches!(
        &action,
        RelayAction::Store { content, .. } if content == "🏁 Goal `g1` completed in 1 round(s). ok"
    ));
    // What could not be stored is told all the same.
    let (stage, action) = step(stage, RelayInput::Stored { ok: false });
    assert!(matches!(
        &action,
        RelayAction::Tell { event: GoalEvent::Done { .. }, goal_id, .. } if goal_id == "g1"
    ));
    let (stage, action) = step(stage, RelayInput::Told { ok: true });
    assert!(matches!(action, RelayAction::Receive));
    let check = GoalEvent::Progress(Json::Null);
    let (stage, action) = step(stage, RelayInput::Received(check));
    assert!(matches!(action, RelayAction::Tell { event: GoalEvent::Progress(_), .. }));
    // Nobody listens.
    let (stage, action) = step(stage, RelayInput::Told { ok: false });
    assert!(matches!((&stage, action), (RelayStage::Ended, RelayAction::Stop)));
    assert!(matches!(step(RelayStage::Waiting, RelayInput::Closed).1, RelayAction::Stop));
    let (runner, relay) = goal_task_names("g1");
    assert_eq!(runner, "goal:g1");
    assert_eq!(relay, "goal-relay:g1");
}

#[test]
fn spawn_registers_runner_and_relay_for_shutdown_drain() {
    let mut running = StrMap::new();
    let mut goal = persisted("goal_reg");
    goal.parent_session_id = "sess_reg".to_string();
    let start = spawn_goal_runner_with_store(&mut running, goal, true);
    assert_eq!(start.goal_id, "goal_reg");
    assert_eq!(start.parent_session_id, "sess_reg");
    // Both the runner and the event relay must be registered so that a shutdown
    // ends them.
    let (runner, relay) = goal_task_names(&start.goal_id);
    let handles: Vec<&String> = [&runner, &relay].into_iter().filter(|n| n.starts_with("goal")).collect();
    assert!(handles.len() >= 2, "expected runner + relay registered, got {}", handles.len());
    assert_ne!(runner, relay);
}

#[test]
fn spawn_resumes_midround_messages_end_to_end() {
    let message = |role: &str, content: &str| {
        Json::Object(vec![
            ("role".to_string(), Json::text(role)),
            ("content".to_string(), Json::text(content)),
        ])
    };
    let mut goal = persisted("goal_mid");
    goal.parent_session_id = "sess_mid".to_string();
    goal.max_rounds = 1;
    goal.round = 1;
    goal.round_messages = Some(vec![
        message("system", "system prompt"),
        message("user", "round feedback"),
        message("assistant", "calling tool"),
        message("tool", "tool output"),
    ]);
    let mut running = StrMap::new();
    let start = spawn_goal_runner_with_store(&mut running, goal, true);
    let role = |m: &Json| match m {
        Json::Object(v) => match &v[0].1 {
            Json::Text(s) => s.clone(),
            _ => String::new(),
        },
        _ => String::new(),
    };
    let msgs = start.round_messages.unwrap();
    assert_eq!(msgs.len(), 4, "restored prefix reached the provider");
    assert_eq!(msgs.iter().filter(|m| role(m) == "user").count(), 1);
    assert_eq!(role(&msgs[3]), "tool");
    assert_eq!(start.round, 1);
}

#[test]
fn a_resumed_goal_goes_on_where_it_was() {
    let mut running = StrMap::new();
    let mut goal = persisted("g1");
    goal.last_handoff = Some(Json::text("handoff"));
    goal.round_messages = Some(vec![Json::text("m1"), Json::text("m2")]);
    let start = spawn_goal_runner_with_store(&mut running, goal, true);
    assert_eq!(start.goal_id, "g1");
    assert_eq!(start.round, 1);
    assert!(matches!(&start.handoff, Some(Json::Text(h)) if h == "handoff"));
    assert_eq!(start.round_messages.unwrap().len(), 2);
    assert_eq!(start.token_usage.unwrap().total_tokens, 3);
    assert!(start.with_store);
    assert!(running.contains_key("g1"));
    assert!(list_suspended(&[persisted("g1")], &running).is_empty());
    runner_ended(&mut running, "g1");
    assert_eq!(list_suspended(&[persisted("g1")], &running).len(), 1);
}

fn persisted(id: &str) -> PersistedGoal {
    PersistedGoal {
        goal_id: id.to_string(),
        parent_session_id: "s".to_string(),
        plan: Json::text("plan"),
        round: 1,
        max_rounds: 5,
        condition_history: vec![],
        blocked_reason: Some(BlockedReason {
            code: "c".to_string(),
            message: "m".to_string(),
        }),
        last_handoff: None,
        token_usage: Some(TurnUsage { prompt_tokens: 1, completion_tokens: 2, total_tokens: 3 }),
        round_messages: None,
    }
}

#[test]
fn goals_that_do_not_run_are_suspended() {
    let mut running = StrMap::new();
    running.insert("g1".to_string(), true);
    let suspended = list_suspended(&[persisted("g1"), persisted("g2")], &running);
    assert_eq!(suspended.len(), 1);
    assert_eq!(suspended[0].goal_id, "g2");
    assert_eq!(suspended[0].max_rounds, 5);
}

#[test]
fn texts_are_handled_as_the_standard_library_does() {
    let samples = ["", " a b ", "a,b,,c", "\u{3000}x\u{85}", "ααα", "--a-b--", "a\u{200b}b", "İx"];
    for s in samples {
        assert_eq!(trim(s), s.trim(), "{s:?}");
        assert_eq!(split(s, ','), s.split(',').collect::<Vec<_>>(), "{s:?}");
        assert_eq!(split_words(s), s.split_whitespace().collect::<Vec<_>>(), "{s:?}");
        assert_eq!(replace(s, "a", "bb"), s.replace("a", "bb"), "{s:?}");
        assert_eq!(replace(s, "αα", "x"), s.replace("αα", "x"), "{s:?}");
        for pat in ["", "a", "b ", "αα", "-b"] {
            assert_eq!(contains_text(s, pat), s.contains(pat), "{s:?} {pat:?}");
        }
    }
    assert_eq!(join(&strings(&["a", "b"]), ", "), "a, b");
    let quoted = ["a \"b\"\n", "", "c\\"];
    assert_eq!(debug_list_of(&strings(&quoted)), format!("{quoted:?}"));
    assert_eq!(debug_list_of(&[]), "[]");
    for n in [0, 7, 10, 123456789, u64::MAX] {
        assert_eq!(decimal_of(n), n.to_string());
    }
}
