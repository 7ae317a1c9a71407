//! Commands: the catalog, the arguments, who may run what, and the replies.
use syscity::gateway::commands::session::{
    duration_fits, handle_compact, handle_context, handle_export_session, handle_help,
    handle_reset, handle_session, handle_status, handle_stop, handle_usage, handle_whoami,
    help_json, help_page, parse_duration, session_fits, show_usage, Compaction, ContextInfo,
    SessionCommand, UsageCommand, UsageFigures, PAGE_SIZE,
};
use syscity::gateway::commands::tools::{
    allowlist_reply, bash_report, btw_reply, handle_allowlist, handle_approve, handle_bash,
    handle_btw, handle_learn, handle_skill, handle_tools, level_cleared_reply, level_set_reply,
    pending_reply, resolved_reply, skill_list, skill_reply, AllowlistCommand, ApproveCommand,
    CommandOutput, PendingApproval, SkillInfo,
};
use syscity::gateway::commands::{
    answer_json, built_in_commands, decide_command, find_command, handle_commands_execute,
    handle_commands_list, handler_for, parse_params, payload_text, recording_session, result_text, CommandDef, CommandHandler, CommandTier,
    HelpArgs, Reply, UserLevel, Verdict,
};
use syscity::json::Json;
use syscity::strmap::StrMap;

fn text(reply: &Reply) -> &str {
    match reply {
        Reply::Text(t) => t,
        Reply::Error { code, message } => panic!("{code}: {message}"),
    }
}

fn code(reply: &Reply) -> &str {
    match reply {
        Reply::Error { code, .. } => code,
        Reply::Text(t) => panic!("{t}"),
    }
}

fn some(s: &str) -> Option<String> {
    Some(s.to_string())
}

fn figures() -> UsageFigures {
    UsageFigures {
        tokens: 12,
        calls: 3,
        spend: "0.05".to_string(),
        spend_cents: 5,
        hourly_actions: 7,
        limit: None,
        hourly_limit: 0,
        exceeded: false,
    }
}

#[test]
fn test_help_args_default() {
    let args = HelpArgs::parse("");
    assert_eq!(args.page, 1);
    assert!(args.tier.is_none());
}

#[test]
fn test_help_args_page_number() {
    let args = HelpArgs::parse("3");
    assert_eq!(args.page, 3);
}

#[test]
fn test_help_args_page_zero_clamped() {
    let args = HelpArgs::parse("0");
    assert_eq!(args.page, 1);
}

#[test]
fn test_help_args_tier_flag() {
    let args = HelpArgs::parse("--tier essential");
    assert_eq!(args.page, 1);
    assert_eq!(args.tier, Some(CommandTier::Essential));
}

#[test]
fn test_help_args_tier_equals() {
    let args = HelpArgs::parse("--tier=power");
    assert_eq!(args.page, 1);
    assert_eq!(args.tier, Some(CommandTier::Power));
}

#[test]
fn test_help_args_page_and_tier() {
    let args = HelpArgs::parse("2 --tier standard");
    assert_eq!(args.page, 2);
    assert_eq!(args.tier, Some(CommandTier::Standard));
}

#[test]
fn test_help_args_invalid_tier_ignored() {
    let args = HelpArgs::parse("--tier invalid");
    assert!(args.tier.is_none());
    assert_eq!(args.page, 1);
}

#[test]
fn test_help_pagination_page_count() {
    let cmds = built_in_commands();
    let total = cmds.len();
    let expected_pages = total.div_ceil(8).max(1);
    let page1_slice: Vec<&CommandDef> = cmds.iter().take(8).collect();
    assert_eq!(page1_slice.len(), 8.min(total));
    assert!(expected_pages >= 1);
}

#[test]
fn test_tier_filter_essential() {
    let cmds = built_in_commands();
    let essential: Vec<&CommandDef> = cmds
        .iter()
        .filter(|c| c.tier == CommandTier::Essential)
        .collect();
    assert!(!essential.is_empty());
    assert!(essential.iter().any(|c| c.key == "help"));
    assert!(essential.iter().any(|c| c.key == "new"));
}

#[test]
fn test_tier_filter_power() {
    let cmds = built_in_commands();
    let power: Vec<&CommandDef> = cmds
        .iter()
        .filter(|c| c.tier == CommandTier::Power)
        .collect();
    assert!(!power.is_empty());
    assert!(power.iter().any(|c| c.key == "config"));
    assert!(power.iter().any(|c| c.key == "bash"));
}

#[test]
fn every_built_in_command_is_handled() {
    let commands = built_in_commands();
    assert_eq!(commands.len(), handle_commands_list().len());
    for c in &commands {
        assert!(
            c.local || c.key == "new" || c.key == "learn" || handler_for(&c.key).is_some(),
            "{}",
            c.key
        );
    }
    assert_eq!(handler_for("help"), Some(CommandHandler::Help));
    assert_eq!(handler_for("nonsense"), None);
}

#[test]
fn every_command_is_on_one_page() {
    let total = handle_help("").total_pages;
    let mut seen: Vec<String> = Vec::new();
    for page in 1..=total {
        let shown = handle_help(&format!("{page}"));
        assert_eq!(shown.page, page);
        for c in built_in_commands() {
            if shown.text.contains(&format!("/{}", c.name.trim_start_matches('/'))) {
                seen.push(c.key);
            }
        }
    }
    for c in built_in_commands() {
        assert!(seen.contains(&c.key), "{}", c.key);
    }
    // A page past the last one is the last one.
    assert_eq!(handle_help("99").page, total);
}

#[test]
fn pages_hold_eight_commands() {
    assert_eq!(PAGE_SIZE, 8);
    let none = help_page(&vec![], HelpArgs { page: 3, tier: None });
    assert_eq!(none.page, 1);
    assert_eq!(none.total_pages, 1);
    assert_eq!(none.total_commands, 0);
    // The page before the first one is the first one.
    assert_eq!(help_page(&built_in_commands(), HelpArgs { page: 0, tier: None }).page, 1);
    let shown = help_json(&handle_help("2 --tier standard"));
    assert_eq!(shown.get("page").and_then(|p| p.as_u64()), Some(2));
    assert_eq!(shown.get("tier").and_then(|t| t.as_str()).map(|s| s.as_str()), Some("standard"));
    assert!(shown.get("total_pages").and_then(|p| p.as_u64()) >= Some(2));
    assert!(matches!(help_json(&none).get("tier"), Some(Json::Null)));
    let power = handle_help("--tier power");
    assert_eq!(power.tier, Some(CommandTier::Power));
    let expected =
        built_in_commands().iter().filter(|c| c.tier == CommandTier::Power).count();
    assert_eq!(power.total_commands, expected);
    assert_eq!(power.total_pages, expected.div_ceil(8).max(1));
}

#[test]
fn admin_commands_need_the_scope_and_the_level() {
    let commands = built_in_commands();
    let decide = |name: &str, scope: bool, level: UserLevel| -> String {
        match decide_command(&commands, name, scope, level) {
            Verdict::Run(h) => format!("{h:?}"),
            Verdict::Refused(r) => code(&r).to_string(),
            Verdict::Forbidden => "forbidden".to_string(),
        }
    };
    assert_eq!(decide("bash", true, UserLevel::Admin), "Bash");
    assert_ne!(decide("bash", false, UserLevel::Admin), "Bash");
    assert_ne!(decide("bash", true, UserLevel::User), "Bash");
    assert_eq!(decide("help", false, UserLevel::User), "Help");
    assert_ne!(decide("nonsense", true, UserLevel::Admin), "Help");
}

#[test]
fn commands_are_found_by_key_and_alias() {
    let commands = built_in_commands();
    for (i, c) in commands.iter().enumerate() {
        assert_eq!(find_command(&commands, &c.key), Some(i));
        for alias in &c.aliases {
            assert!(find_command(&commands, alias).is_some(), "{alias}");
        }
    }
    assert_eq!(find_command(&commands, "nonsense"), None);
}

#[test]
fn a_command_line_is_run() {
    let run = handle_commands_execute("help", "", false, UserLevel::Chat);
    assert_eq!(run.user_text, "/help");
    let run = handle_commands_execute("status", "", false, UserLevel::User);
    assert!(matches!(run.verdict, Verdict::Run(CommandHandler::Status)));
}

#[test]
fn levels_are_ordered_and_named() {
    assert!(UserLevel::Chat.is_below(UserLevel::User));
    assert!(UserLevel::User.is_below(UserLevel::Admin));
    assert!(!UserLevel::Admin.is_below(UserLevel::Admin));
    assert_eq!(HelpArgs::parse_tier("POWER"), Some(CommandTier::Power));
    assert_eq!(HelpArgs::tier_of_lower("power"), Some(CommandTier::Power));
    assert_eq!(HelpArgs::tier_of_lower("POWER"), None);
}

#[test]
fn parameters_must_be_there_and_parse() {
    assert_eq!(parse_params(Some(Ok(5u32))).unwrap(), 5);
    let bad = parse_params::<u32>(Some(Err("no number".to_string()))).unwrap_err();
    assert!(matches!(
        &bad,
        Reply::Error { code, message }
            if code == "INVALID_PARAMS" && message == "Invalid parameters: no number"
    ));
    let missing = parse_params::<u32>(None).unwrap_err();
    assert!(matches!(
        &missing,
        Reply::Error { code, message }
            if code == "INVALID_PARAMS" && message == "Missing parameters"
    ));
}

#[test]
fn results_are_recorded_as_text() {
    assert_eq!(result_text(&Reply::Text("done".to_string())), "done");
    let error = Reply::Error { code: "X".to_string(), message: "went wrong".to_string() };
    assert!(result_text(&error).contains("went wrong"));
    assert_eq!(payload_text(&None), "");
    assert_eq!(payload_text(&Some(Json::Null)), "");
    let payload = Json::Object(vec![("text".to_string(), Json::text("hello"))]);
    assert_eq!(payload_text(&Some(payload)), "hello");
}

#[test]
fn help_returns_commands() {
    let payload = handle_help("");
    assert!(payload.text.contains("Syscity Commands"), "help should list the header");
    assert!(payload.total_commands > 0, "help should enumerate built-in commands");
}

#[test]
fn status_empty_state() {
    let resp = handle_status(0, 0);
    assert!(text(&resp).contains("Active agents: 0"), "empty state has no agents");
}

#[test]
fn whoami_anonymous_default() {
    let resp = handle_whoami("anonymous", &[]);
    assert!(text(&resp).contains("anonymous"), "no user_id means anonymous");
}

#[test]
fn whoami_lists_scopes() {
    let resp = handle_whoami("anonymous", &["chat".to_string(), "admin".to_string()]);
    assert!(text(&resp).contains("chat"), "scopes should be listed");
    assert!(text(&resp).contains("admin"), "scopes should be listed");
    assert_eq!(text(&resp), "👤 **Whoami**\n\nUser: `anonymous`\nScopes: `chat, admin`");
}

#[test]
fn stop_without_subscription_reports_none() {
    assert!(text(&handle_stop(&None)).contains("No active session"), "nothing to cancel");
    assert_eq!(text(&handle_stop(&some("s1"))), "⏹️ Stop signal sent for session `s1`.");
}

#[test]
fn reset_without_subscription_reports_none() {
    assert!(text(&handle_reset(&None)).contains("No active session"), "nothing to reset");
    assert_eq!(text(&handle_reset(&some("s1"))), "🔄 Session `s1` reset.");
}

#[test]
fn compact_without_subscription_reports_none() {
    let resp = handle_compact(&None, None, "");
    assert!(text(&resp).contains("No active session"), "nothing to compact");
    let resp = handle_compact(&some("s1"), None, "");
    assert_eq!(text(&resp), "🗜️ Agent not found for this session.");
    let done = Compaction { messages: Some((9, 4)), transcript: Ok("gone".to_string()) };
    let resp = handle_compact(&some("s1"), Some(done), "");
    assert!(text(&resp).contains("s1"));
}

#[test]
fn context_without_subscription_reports_none() {
    let settings: StrMap<Json> = StrMap::new();
    let resp = handle_context(&None, None, &settings);
    assert!(text(&resp).contains("No active session"), "nothing to inspect");
    assert_eq!(
        text(&handle_context(&some("s1"), Some(None), &settings)),
        "📜 No context found for session `s1`."
    );
    let info = ContextInfo {
        messages: 2,
        tokens: 30,
        max_tokens: 1000,
        prompt_chars: 40,
        tool_iterations: 5,
    };
    let shown = handle_context(&some("s1"), Some(Some(info)), &settings);
    assert!(text(&shown).contains("s1") && text(&shown).contains("1000"));
}

#[test]
fn export_without_subscription_reports_none() {
    let resp = handle_export_session(&None, Ok(String::new()));
    assert!(text(&resp).contains("No active session"), "nothing to export");
    assert_eq!(
        text(&handle_export_session(&some("s1"), Ok("/tmp/s1.html".to_string()))),
        "📄 **Session `s1` exported**\n\nHTML: `/tmp/s1.html`"
    );
    let failed = handle_export_session(&some("s1"), Err("disk".to_string()));
    assert_eq!(code(&failed), "EXPORT_FAILED");
}

#[test]
fn usage_set_mode_persists() {
    match handle_usage("tokens", None, &figures()) {
        UsageCommand::SetMode { mode, reply } => {
            assert_eq!(mode, "tokens");
            assert_eq!(text(&reply), "📊 Usage display mode set to 'tokens'.");
        }
        _ => panic!("mode not set"),
    }
}

#[test]
fn usage_status_default_full() {
    match handle_usage("", None, &figures()) {
        UsageCommand::Show { mode, reply } => {
            assert_eq!(mode, "full");
            assert!(text(&reply).contains("Usage"));
            assert_eq!(text(&reply), show_usage("full", &figures()));
        }
        _ => panic!("not shown"),
    }
    match handle_usage("", Some(&Json::text("tokens")), &figures()) {
        UsageCommand::Show { mode, .. } => assert_eq!(mode, "tokens"),
        _ => panic!("not shown"),
    }
}

#[test]
fn usage_invalid_mode_errors() {
    match handle_usage("bogus", None, &figures()) {
        UsageCommand::Refuse(reply) => assert_eq!(code(&reply), "INVALID_ARGS"),
        _ => panic!("not refused"),
    }
}

fn session_reply(args: &str) -> Reply {
    match handle_session(args, &StrMap::new()) {
        SessionCommand::Reply(r) => r,
        SessionCommand::SetTimeout { .. } => panic!("timeout set"),
    }
}

#[test]
fn session_empty_args_errors() {
    assert_eq!(code(&session_reply("")), "INVALID_ARGS");
}

#[test]
fn session_idle_status_default() {
    assert!(text(&session_reply("idle")).contains("default"), "unset idle defaults to default");
}

#[test]
fn session_idle_set_persists() {
    match handle_session("idle 30m", &StrMap::new()) {
        SessionCommand::SetTimeout { seconds, key, value, .. } => {
            assert_eq!(seconds, 1800);
            assert_eq!(key, "session.idle");
            assert_eq!(value, "30m");
        }
        SessionCommand::Reply(_) => panic!("timeout not set"),
    }
}

#[test]
fn session_invalid_duration_errors() {
    assert_eq!(code(&session_reply("idle 12furlongs")), "INVALID_ARGS");
}

#[test]
fn session_invalid_sub_errors() {
    assert_eq!(code(&session_reply("bogus")), "INVALID_ARGS");
    // What follows it does not matter.
    assert!(session_fits("foo 300000000000000000d"));
    assert_eq!(code(&session_reply("foo 300000000000000000d")), "INVALID_ARGS");
    assert!(!session_fits("idle 300000000000000000d"));
    assert!(session_fits("idle 3d"));
}

#[test]
fn answers_have_payloads() {
    let plain = answer_json("hi", &None);
    assert_eq!(plain.get("text").and_then(|t| t.as_str()).map(|s| s.as_str()), Some("hi"));
    assert!(plain.get("mode").is_none());
    let moded = answer_json("hi", &some("full"));
    assert_eq!(moded.get("mode").and_then(|t| t.as_str()).map(|s| s.as_str()), Some("full"));
    assert_eq!(recording_session(some("a"), &some("b")), some("a"));
    assert_eq!(recording_session(None, &some("b")), some("b"));
    assert_eq!(recording_session(None, &None), None);
}

#[test]
fn durations_have_units() {
    assert_eq!(parse_duration("45s"), Some(45));
    assert_eq!(parse_duration("2h"), Some(7200));
    assert_eq!(parse_duration("1d"), Some(86400));
    assert_eq!(parse_duration("x"), None);
    assert!(duration_fits("30m"));
    assert!(!duration_fits("18446744073709551615d"));
}

#[test]
fn tools_empty_registry_ok() {
    assert!(text(&handle_tools("", &[])).contains("0 total"), "empty registry has 0 total");
    let names = ["a".to_string(), "b".to_string()];
    assert_eq!(text(&handle_tools("", &names)), "🛠️ **Tools** (2 total): a, b");
}

#[test]
fn tools_verbose_lists_heading() {
    assert!(text(&handle_tools("verbose", &[])).contains("Available Tools"), "heading");
}

#[test]
fn bash_empty_args_errors() {
    assert_eq!(code(&handle_bash("   ").unwrap_err()), "INVALID_ARGS");
}

#[test]
fn bash_runs_echo_command() {
    let command = handle_bash("echo hello-world").unwrap();
    assert_eq!(command, "echo hello-world");
    let output = CommandOutput {
        stdout: "hello-world\n".to_string(),
        stderr: String::new(),
        code: Some(0),
    };
    let resp = bash_report(&command, Ok(output));
    assert!(text(&resp).contains("hello-world"), "stdout should be echoed");
    assert!(text(&resp).contains("exit code: 0"), "should report exit code 0");
    assert_eq!(code(&bash_report("x", Err("no shell".to_string()))), "EXEC_FAILED");
}

#[test]
fn skill_empty_lists_total() {
    assert_eq!(handle_skill(""), None);
    assert!(text(&skill_list(&[])).contains("total"), "should list skills");
}

#[test]
fn skill_unknown_returns_not_found() {
    let name = handle_skill("ghost-skill").unwrap();
    assert_eq!(code(&skill_reply(&name, &None)), "SKILL_NOT_FOUND");
    let skill = SkillInfo {
        name: "s".to_string(),
        version: "1".to_string(),
        description: "d".to_string(),
        enabled: true,
        is_eligible: false,
    };
    assert_eq!(
        text(&skill_reply("s", &Some(skill))),
        "🎯 **Skill: s**\n\nVersion: 1\nDescription: d\nEnabled: true\nEligible: false"
    );
}

#[test]
fn allowlist_empty_reports_no_levels() {
    assert!(matches!(handle_allowlist(""), AllowlistCommand::List));
    assert!(text(&allowlist_reply(&[])).contains("No custom user levels"), "no levels yet");
}

#[test]
fn allowlist_add_remove_roundtrip() {
    let mut levels: Vec<(String, String)> = Vec::new();
    match handle_allowlist("add bob admin") {
        AllowlistCommand::Grant { user, level } => {
            assert_eq!(level, UserLevel::Admin);
            assert!(text(&level_set_reply(&user, "admin")).contains("bob"), "add reports the user");
            levels.push((user, level.name()));
        }
        _ => panic!("not granted"),
    }
    // Listing now shows bob.
    assert!(matches!(handle_allowlist("list"), AllowlistCommand::List));
    assert!(text(&allowlist_reply(&levels)).contains("bob"), "list should show bob");
    match handle_allowlist("remove bob") {
        AllowlistCommand::Clear { user } => {
            assert!(text(&level_cleared_reply(&user)).contains("bob"), "remove reports the user");
            levels.retain(|l| l.0 != user);
        }
        _ => panic!("not cleared"),
    }
    // Listing is empty again.
    assert!(text(&allowlist_reply(&levels)).contains("No custom user levels"), "empty again");
}

#[test]
fn allowlist_add_empty_user_errors() {
    match handle_allowlist("add") {
        AllowlistCommand::Refuse(r) => assert_eq!(code(&r), "INVALID_ARGS"),
        _ => panic!("not refused"),
    }
}

#[test]
fn allowlist_invalid_subcommand_errors() {
    match handle_allowlist("bogus") {
        AllowlistCommand::Refuse(r) => assert_eq!(code(&r), "INVALID_ARGS"),
        _ => panic!("not refused"),
    }
}

#[test]
fn approve_empty_reports_no_pending() {
    assert!(matches!(handle_approve(""), ApproveCommand::List));
    assert!(text(&pending_reply(&[])).contains("No pending approvals"));
    let pending = PendingApproval {
        id: "a1".to_string(),
        tool_name: "shell".to_string(),
        risk_level: "High".to_string(),
        requested_by: "bob".to_string(),
    };
    let shown = pending_reply(&[pending]);
    assert!(text(&shown).contains("(1)") && text(&shown).contains("a1"));
}

#[test]
fn approve_missing_decision_errors() {
    match handle_approve("abc") {
        ApproveCommand::Refuse(r) => assert_eq!(code(&r), "INVALID_ARGS"),
        _ => panic!("not refused"),
    }
}

#[test]
fn approve_unknown_id_not_found() {
    match handle_approve("abc approve") {
        ApproveCommand::Resolve { id, denial } => {
            assert!(denial.is_none());
            assert_eq!(code(&resolved_reply(&id, false)), "NOT_FOUND");
            assert_eq!(text(&resolved_reply(&id, true)), "✅ Approval 'abc' resolved.");
        }
        _ => panic!("not resolved"),
    }
    assert!(matches!(
        handle_approve("abc deny"),
        ApproveCommand::Resolve { denial: Some(d), .. } if d == "Denied via /approve command."
    ));
    assert!(matches!(handle_approve("abc deny now"), ApproveCommand::Refuse(_)));
    assert!(matches!(handle_approve("abc approve now"), ApproveCommand::Refuse(_)));
}

#[test]
fn btw_empty_args_errors() {
    assert_eq!(code(&handle_btw("").unwrap_err()), "INVALID_ARGS");
    assert_eq!(handle_btw(" why? ").unwrap(), "why?");
    let answer = btw_reply(Ok(("m".to_string(), "because".to_string())));
    assert_eq!(text(&answer), "💡 **Side question** (m):\n\nbecause");
    assert_eq!(code(&btw_reply(Err("down".to_string()))), "COMPLETION_FAILED");
}

#[test]
fn learning_is_a_message_in_the_session() {
    let send = handle_learn("learn this".to_string(), some("s1"));
    assert_eq!(send.method, "chat.send");
    assert_eq!(send.message, "learn this");
    assert_eq!(send.session_id.as_deref(), Some("s1"));
}
