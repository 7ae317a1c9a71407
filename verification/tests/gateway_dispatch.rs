//! Sending messages to agents: queues, names, models and the steps of a turn.
use syscity::error::SyscityError;
use syscity::gateway::dispatch::{
    dispatch_routed_message, extract_error_code, extract_session_name, flush_session_buffer,
    follow_up_timer, resolve_session_model, send_step, send_to_agent,
    thinking_params, AgentDispatch, BufferedMessage, DispatchPlan, GroupStanding, NameState,
    Outgoing, QueueMode, RoutedMessage, SendAction, SendEvent, SendStage, UsageTotals,
    MAX_BUFFERED,
};
use syscity::gateway::events::{GatewayEvent, TokenUsage};
use syscity::json::Json;
use syscity::strmap::StrMap;

fn some(s: &str) -> Option<String> {
    Some(s.to_string())
}

fn models(pairs: &[(&str, &str)]) -> StrMap<String> {
    let mut m = StrMap::new();
    for (k, v) in pairs {
        m.insert(k.to_string(), v.to_string());
    }
    m
}

fn routed_msg(
    agent_id: &str,
    session: &str,
    queue_mode: QueueMode,
    suppress_delivery: bool,
) -> RoutedMessage {
    RoutedMessage {
        agent_id: agent_id.to_string(),
        session_id: session.to_string(),
        user_id: "u1".to_string(),
        content: "hello".to_string(),
        channel: some("web"),
        queue_mode,
        suppress_delivery,
        has_media: false,
        mentions: None,
    }
}

type Buffers = StrMap<Vec<BufferedMessage>>;

fn dispatch(buffers: &mut Buffers, routed: &RoutedMessage) -> DispatchPlan {
    dispatch_routed_message(buffers, routed, None, &None, &None)
}

fn sent() -> AgentDispatch {
    AgentDispatch {
        agent_id: "main".to_string(),
        session_id: "s1".to_string(),
        message: "hello".to_string(),
        user_id: "u1".to_string(),
        channel: "web".to_string(),
        think_level: None,
        queue_mode: None,
        channel_obs: None,
        mentions: None,
    }
}

#[test]
fn resolve_uses_session_pin_over_agent_binding() {
    let bound = models(&[("main", "agent-model")]);
    assert_eq!(resolve_session_model(&some("alt"), &bound, "main").as_deref(), Some("alt"));
}

#[test]
fn resolve_falls_back_to_agent_binding_when_no_pin() {
    let bound = models(&[("main", "agent-model")]);
    assert_eq!(resolve_session_model(&None, &bound, "main").as_deref(), Some("agent-model"));
}

#[test]
fn resolve_ignores_empty_pin_and_falls_back() {
    let bound = models(&[("main", "agent-model")]);
    assert_eq!(resolve_session_model(&some(""), &bound, "main").as_deref(), Some("agent-model"));
}

#[test]
fn resolve_returns_none_when_neither_bound() {
    assert_eq!(resolve_session_model(&None, &models(&[]), "main"), None);
}

#[test]
fn resolve_without_store_uses_agent_binding() {
    let bound = models(&[("main", "agent-model")]);
    assert_eq!(resolve_session_model(&None, &bound, "main").as_deref(), Some("agent-model"));
    assert_eq!(resolve_session_model(&None, &bound, "other"), None);
}

#[test]
fn extract_session_name_strips_markdown() {
    assert_eq!(extract_session_name("# **Hello** `world`"), "Hello world");
}

#[test]
fn extract_session_name_keeps_six_words() {
    assert_eq!(
        extract_session_name("one two three four five six seven"),
        "one two three four five six"
    );
}

#[test]
fn extract_session_name_empty_returns_new_session() {
    assert_eq!(extract_session_name(""), "New Session");
}

#[test]
fn extract_session_name_truncates_long() {
    let long = "a".repeat(60);
    let name = extract_session_name(&long);
    assert!(name.ends_with("..."));
    assert!(name.len() <= 43);
}

#[test]
fn a_name_is_cut_between_characters() {
    // Forty bytes would split the fourteenth character of three bytes.
    let name = extract_session_name(&"任".repeat(60));
    assert_eq!(name, "任".repeat(13) + "...");
    assert_eq!(extract_session_name(&"a".repeat(60)), "a".repeat(40) + "...");
}

#[test]
fn dispatch_suppressed_delivery_returns_early() {
    let mut buffers: Buffers = StrMap::new();
    let plan = dispatch(&mut buffers, &routed_msg("main", "s1", QueueMode::Normal, true));
    assert!(plan.send.is_none());
    assert_eq!(buffers.len(), 0);
}

#[test]
fn dispatch_normal_unknown_agent_noop() {
    let mut buffers: Buffers = StrMap::new();
    let plan = dispatch(&mut buffers, &routed_msg("ghost", "s1", QueueMode::Normal, false));
    let d = plan.send.unwrap();
    // Agent is neither spawned nor registered: the dispatch ends without
    // spawning.
    let (stage, actions) =
        send_to_agent(&d, SendStage::Start, SendEvent::PromptChecked { refusal: None });
    assert!(matches!(actions[..], [SendAction::LookUpAgent]));
    let (stage, actions) =
        send_to_agent(&d, stage, SendEvent::AgentLookedUp { running: false, registered: false });
    assert!(matches!(stage, SendStage::Done));
    assert!(actions.is_empty());
}

#[test]
fn dispatch_interrupt_unknown_agent_noop() {
    let mut buffers: Buffers = StrMap::new();
    let plan = dispatch(&mut buffers, &routed_msg("ghost", "s1", QueueMode::Interrupt, false));
    assert!(plan.clear_timer && plan.send.is_some());
    assert_eq!(buffers.len(), 0);
}

#[test]
fn steering_cancels_the_turn_and_waits_a_moment() {
    let mut buffers: Buffers = StrMap::new();
    let plan = dispatch(&mut buffers, &routed_msg("main", "s1", QueueMode::Steer, false));
    assert!(plan.cancel_agent && plan.clear_timer);
    assert_eq!(plan.delay_ms, 100);
    assert_eq!(plan.send.unwrap().message, "hello");
}

#[test]
fn dispatch_collect_empty_buffer_sends() {
    let mut buffers: Buffers = StrMap::new();
    let plan = dispatch(&mut buffers, &routed_msg("ghost", "s1", QueueMode::Collect, false));
    assert!(plan.send.is_some());
}

#[test]
fn dispatch_follow_up_flushes_after_five_messages() {
    let mut buffers: Buffers = StrMap::new();
    let mut last = None;
    for i in 0..MAX_BUFFERED {
        let plan = dispatch(&mut buffers, &routed_msg("ghost", "s1", QueueMode::FollowUp, false));
        assert_eq!(plan.send.is_some(), i + 1 == MAX_BUFFERED);
        last = plan.send;
    }
    // The fifth message forces a flush; the buffer must be drained.
    assert!(buffers.get("s1").map(|b| b.is_empty()).unwrap_or(true));
    assert_eq!(last.unwrap().message.matches("hello").count(), 5);
    assert_eq!(follow_up_timer("s1"), "followup:s1");
}

#[test]
fn other_sessions_are_left_alone() {
    let mut buffers: Buffers = StrMap::new();
    dispatch(&mut buffers, &routed_msg("main", "s1", QueueMode::FollowUp, false));
    dispatch(&mut buffers, &routed_msg("main", "s2", QueueMode::FollowUp, false));
    let plan = dispatch(&mut buffers, &routed_msg("main", "s2", QueueMode::Collect, false));
    assert_eq!(plan.send.unwrap().session_id, "s2");
    assert_eq!(buffers.get("s1").unwrap().len(), 1);
    assert!(!buffers.contains_key("s2"));
}

#[test]
fn flush_session_buffer_empty_is_noop() {
    let mut buffers: Buffers = StrMap::new();
    assert!(flush_session_buffer(&mut buffers, "main", "s1", &None, &None).is_none());
    assert_eq!(buffers.len(), 0);
}

#[test]
fn a_group_that_an_agent_may_not_speak_in_hears_nothing() {
    let mut buffers: Buffers = StrMap::new();
    let routed = routed_msg("main", "s1", QueueMode::Normal, false);
    let silent = GroupStanding { is_member: true, can_participate: Some(false) };
    let plan = dispatch_routed_message(&mut buffers, &routed, Some(silent), &None, &None);
    assert!(plan.send.is_none());
}

#[test]
fn thinking_has_a_budget_by_level() {
    assert!(thinking_params(&None).is_none());
    assert!(thinking_params(&some("off")).is_none());
    let high = thinking_params(&some("high")).unwrap();
    let budget = high.get("thinking").and_then(|t| t.get("budget_tokens")).and_then(|b| b.as_u64());
    assert_eq!(budget, Some(32000), "{high:?}");
}

#[test]
fn usage_is_counted() {
    let usage = TokenUsage { prompt_tokens: 10, completion_tokens: 5 };
    let t = UsageTotals { tokens: 1, calls: 1 }.count(usage, Some(2));
    assert_eq!(t.tokens, 16);
    assert_eq!(t.calls, 4);
    // The totals are kept among the settings.
    let mut settings = StrMap::new();
    assert_eq!(UsageTotals::read(&settings), UsageTotals { tokens: 0, calls: 0 });
    settings.insert("usage.tokens".to_string(), Json::text("many"));
    settings.insert("other".to_string(), Json::Null);
    assert_eq!(UsageTotals::read(&settings).tokens, 0);
    t.store(&mut settings);
    assert_eq!(UsageTotals::read(&settings), t);
    assert!(matches!(settings.get("other"), Some(Json::Null)));
}

#[test]
fn exhausted_credits_have_a_code_in_the_cloud() {
    let e = SyscityError::ExternalService("403: insufficient_credits".to_string());
    assert_eq!(extract_error_code(&e, true).as_deref(), Some("insufficient_credits"));
    assert_eq!(extract_error_code(&e, false), None);
    let other = SyscityError::ExternalService("500".to_string());
    assert_eq!(extract_error_code(&other, true), None);
    let validation = SyscityError::Validation("insufficient_credits".to_string());
    assert_eq!(extract_error_code(&validation, true), None);
}

#[test]
fn a_refused_prompt_goes_no_further() {
    let (stage, actions) =
        send_to_agent(&sent(), SendStage::Start, SendEvent::PromptChecked { refusal: some("no") });
    assert!(matches!(stage, SendStage::Done));
    assert!(matches!(
        &actions[..],
        [SendAction::Emit(GatewayEvent::ProcessingError { message, code: None, .. })]
            if message == "no"
    ));
}

#[test]
fn a_spawned_agent_is_polled_ten_times() {
    let (mut stage, _) =
        send_to_agent(&sent(), SendStage::Spawning, SendEvent::SpawnFinished { ok: true });
    let mut polls = 0;
    loop {
        let (next, actions) =
            send_to_agent(&sent(), stage, SendEvent::HandlePolled { present: false });
        polls += 1;
        stage = next;
        if actions.is_empty() {
            break;
        }
    }
    assert!(matches!(stage, SendStage::Done));
    assert_eq!(polls, 10);
}

#[test]
fn a_turn_is_saved_named_and_ended() {
    let mut d = sent();
    d.think_level = some("high");
    d.queue_mode = some("interrupt");
    let (stage, actions) =
        send_to_agent(&d, SendStage::Preparing, SendEvent::ModelResolved { model: some("m") });
    assert!(matches!(
        &actions[..],
        [
            SendAction::SetExtraParams(Some(_)),
            SendAction::SetSessionModel(Some(_)),
            SendAction::CancelSession,
            SendAction::Emit(_),
            SendAction::Execute(_),
        ]
    ));
    let usage = TokenUsage { prompt_tokens: 1, completion_tokens: 2 };
    let outgoing = Outgoing {
        content: "# The answer".to_string(),
        reasoning_content: some("because"),
        tool_calls: None,
        tool_calls_json: None,
        usage: Some(usage),
    };
    let event = SendEvent::TurnCompleted { outgoing, reasoning_hidden: true };
    let (stage, actions) = send_step(&d, stage, event, "run-1".to_string());
    assert!(matches!(actions[0], SendAction::CountUsage { .. }));
    assert!(matches!(
        &actions[1],
        SendAction::SaveResponse { content, reasoning_content: None, run_id, .. }
            if content == "# The answer" && run_id == "run-1"
    ));
    let (stage, actions) =
        send_to_agent(&d, stage, SendEvent::NameRead { state: NameState::Unnamed });
    assert!(matches!(&actions[..], [SendAction::SaveSessionName(n)] if n == "The answer"));
    let (stage, actions) = send_to_agent(&d, stage, SendEvent::NameSaved { ok: true });
    assert!(matches!(stage, SendStage::Done));
    assert!(matches!(actions.last(), Some(SendAction::FireStopHook)));
    assert!(actions.iter().any(|a| matches!(
        a,
        SendAction::Emit(GatewayEvent::SessionRenamed { name, .. }) if name == "The answer"
    )));
}

#[test]
fn runs_have_identifiers_of_their_own() {
    let id = || -> String {
        let outgoing = Outgoing {
            content: String::new(),
            reasoning_content: None,
            tool_calls: None,
            tool_calls_json: None,
            usage: None,
        };
        let event = SendEvent::TurnCompleted { outgoing, reasoning_hidden: false };
        let (_, actions) = send_to_agent(&sent(), SendStage::Running, event);
        match &actions[0] {
            SendAction::SaveResponse { run_id, .. } => run_id.clone(),
            _ => panic!("not saved"),
        }
    };
    let first = id();
    assert_eq!(first.len(), 36);
    assert_eq!(first.matches('-').count(), 4);
    assert_eq!(first.chars().nth(14), Some('4'));
    assert!(first.chars().all(|c| c == '-' || matches!(c, '0'..='9' | 'a'..='f')), "{first}");
    assert_ne!(first, id());
}

#[test]
fn a_failed_turn_leaves_the_agent_idle() {
    let event = SendEvent::TurnFailed { error: "down".to_string(), code: some("c") };
    let (stage, actions) = send_to_agent(&sent(), SendStage::Running, event);
    assert!(matches!(stage, SendStage::Done));
    assert!(matches!(
        &actions[0],
        SendAction::Emit(GatewayEvent::ProcessingError { message, code: Some(c), .. })
            if message == "Execution failed: down" && c == "c"
    ));
    assert!(matches!(actions.last(), Some(SendAction::FireStopHook)));
}
