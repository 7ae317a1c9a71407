//! Handlers: artifacts, the web interface, tickets and reloads.
use syscity::agent::AgentConfig;
use syscity::gateway::config::misc::{ChannelConfig, ChannelType};
use syscity::gateway::config::{
    CapabilitiesConfig, ComputerConfig, GatewayConfig, McpServerConfig, OutsideDefaults,
    ProviderConfig,
};
use syscity::gateway::handlers::admin::{
    apply_reload, config_audit, mcp_servers_to_connect, mcp_tool_prefix, openai_list_models,
    plan_for, reload_plan, report_json, run_reload, sync_providers, tools_to_register, ConfigReport, ModelEntry,
    ReloadOutcomes,
};
use syscity::gateway::handlers::artifacts::{
    artifact_handler, document_not_found, export_document, image_format, image_lies_below,
    image_source_allowed,
    resolve_artifact_path, ArtifactAction, ArtifactExportQuery, ArtifactRoot, Conversion,
    ExportReply,
};
use syscity::gateway::handlers::web_ui::{
    asset_reply, cloud_login_callback_html, embedded_index_html, manifest_handler,
    register_sw_handler, register_sw_script, sw_js_handler, Asset,
};
use syscity::gateway::handlers::ws_ticket::{ws_ticket_grant, RestAuthContext};
use syscity::gateway::hot_reload::{
    changed_subject, on_agent_file, on_channel_file, on_gateway_file, plan_channels, plugin_step,
    reload_audit, AgentFileAction, ChangedSubject, ConfigFileType, GatewayReload, PluginStage,
};
use syscity::json::{json_text, Json};
use syscity::scalar::Single;
use syscity::strmap::StrMap;

fn some(s: &str) -> Option<String> {
    Some(s.to_string())
}

fn strings(v: &[&str]) -> Vec<String> {
    v.iter().map(|s| s.to_string()).collect()
}

fn config() -> GatewayConfig {
    GatewayConfig::with_defaults(OutsideDefaults {
        default_agent: AgentConfig {
            agent_id: None,
            temperature: Single { bits: 0 },
            max_tokens: 1,
            max_turns: None,
            max_concurrent_tools: 1,
            workspace_only: false,
            system_prompt: String::new(),
            max_context_tokens: 1,
        },
        model: "m".to_string(),
        model_provider: "p".to_string(),
        heartbeat: Json::Null,
        computer: ComputerConfig { max_steps: 1, settle_delay_ms: 2 },
        dreaming: Json::Null,
        standing_orders: Json::Null,
        cloud: Json::Null,
        browser: Json::Null,
        capabilities: CapabilitiesConfig {
            profile: "full".to_string(),
            max_scope: "all".to_string(),
            custom_sets: vec![],
            disabled_sets: vec![],
        },
        quality_gate: Json::Null,
        permissions: Json::Null,
    })
}

fn get(path: &str, to: Option<&str>) -> ArtifactAction {
    artifact_handler(path, &ArtifactExportQuery { to: to.map(str::to_string) })
}

fn status(action: &ArtifactAction) -> u16 {
    match action {
        ArtifactAction::Reply(r) => r.status,
        _ => 200,
    }
}

#[test]
fn test_traversal_paths_rejected() {
    for bad in [
        "..",
        "../etc/passwd",
        "/etc/passwd",
        "a/../b.md",
        "a//b.md",
        "%2e%2e/x",
        "%2fetc%2fpasswd",
        "a\\..\\b.md",
        "./a.md",
    ] {
        assert_eq!(status(&get(bad, None)), 403, "should reject {:?}", bad);
    }
}

#[test]
fn test_nested_tree_path_served() {
    // A tree-scoped artifact is stored under artifacts/<root>/<task>/<file>
    // and served from the matching URL.
    match get("root-t/task-t/r.md", None) {
        ArtifactAction::Serve { path, content_type } => {
            assert!(matches!(path.root, ArtifactRoot::Global));
            assert_eq!(path.rel, "root-t/task-t/r.md");
            assert_eq!(content_type, "text/markdown; charset=utf-8");
        }
        _ => panic!("not served"),
    }
}

#[test]
fn test_agent_workspace_path_served() {
    // Agent-workspace artifacts are addressed with an `@<owner>` prefix and
    // served from that workspace's artifacts dir.
    match get("@default/ws-test.md", None) {
        ArtifactAction::Serve { path, .. } => {
            assert!(matches!(path.root, ArtifactRoot::DefaultWorkspace));
            assert_eq!(path.rel, "ws-test.md");
        }
        _ => panic!("not served"),
    }
    let own = resolve_artifact_path("@bob/x.html").unwrap();
    assert!(matches!(own.root, ArtifactRoot::Agent(a) if a == "bob"));
}

#[test]
fn test_owner_segment_validated() {
    for bad in ["@../x.md", "@a.b/x.md", "@default"] {
        assert_ne!(status(&get(bad, None)), 200, "should not serve {:?}", bad);
    }
}

#[test]
fn test_slides_export_returns_pptx() {
    match get("export-deck.html", Some("pptx")) {
        ArtifactAction::Export { filename, target, .. } => {
            match export_document(&filename, &target, Conversion::Done(b"PK".to_vec())) {
                ExportReply::File { content_type, disposition, bytes } => {
                    assert!(content_type.contains("presentationml"), "{content_type}");
                    assert_eq!(disposition, "attachment; filename=\"export-deck.pptx\"");
                    assert_eq!(&bytes[..2], b"PK");
                }
                ExportReply::Text(_) => panic!("no file"),
            }
        }
        _ => panic!("not exported"),
    }
}

#[test]
fn test_docx_and_xlsx_export() {
    for (name, target, word) in [
        ("export-doc.html", "docx", "wordprocessingml"),
        ("export-sheet.html", "xlsx", "spreadsheetml"),
    ] {
        assert!(matches!(get(name, Some(target)), ArtifactAction::Export { .. }));
        match export_document(name, target, Conversion::Done(b"PK".to_vec())) {
            ExportReply::File { content_type, .. } => {
                assert!(content_type.contains(word), "{content_type}")
            }
            ExportReply::Text(_) => panic!("no file"),
        }
    }
}

#[test]
fn test_export_rejects_unknown_target() {
    let action = get("x.md", Some("pdf"));
    assert_eq!(status(&action), 400);
    assert!(matches!(
        action,
        ArtifactAction::Reply(r)
            if r.body == "Unsupported export target 'pdf' (supported: pptx, docx, xlsx)"
    ));
}

#[test]
fn failed_conversions_are_told() {
    let told = |c: Conversion| match export_document("a.html", "pptx", c) {
        ExportReply::Text(t) => (t.status, t.body),
        ExportReply::File { .. } => panic!("a file"),
    };
    assert_eq!(told(Conversion::Failed("x".into())), (422, "Conversion failed: x".to_string()));
    assert_eq!(told(Conversion::Panicked("x".into())), (500, "Conversion panicked: x".to_string()));
    assert_eq!(document_not_found().status, 404);
}

#[test]
fn images_come_from_the_artifacts_alone() {
    assert!(image_source_allowed("img/a.png"));
    for bad in ["/etc/x.png", "../x.png", "a/../x.png", "http://x/y.png", "https://x/y.png"] {
        assert!(!image_source_allowed(bad), "{bad}");
    }
    assert!(image_lies_below("/w/artifacts/img/a.png", "/w/artifacts"));
    assert!(image_lies_below("/w/artifacts/a.png", "/w//artifacts/"));
    assert!(!image_lies_below("/w/artifacts2/a.png", "/w/artifacts"));
    assert!(!image_lies_below("/w/a.png", "/w/artifacts"));
    assert_eq!(image_format(&some("jpg")), "jpg");
    assert_eq!(image_format(&some(".svg")), "svg");
    assert_eq!(image_format(&None), "png");
}

#[test]
fn web_terminal_serves_html() {
    let html = embedded_index_html(&None, "1.2.3");
    assert!(html.contains("<html") || html.contains("Syscity Chat UI"), "serves html: {html}");
    assert_eq!(embedded_index_html(&some("<html>plain</html>"), "1.2.3"), "<html>plain</html>");
}

#[test]
fn cloud_login_callback_rewrites_relative_assets() {
    let asset = some("<link href=\"./a.css\"><script src=\"./b.js\"></script>");
    for html in [cloud_login_callback_html(&asset, "1"), cloud_login_callback_html(&None, "1")] {
        // Relative asset refs must become absolute so that the page mounts at
        // this nested path.
        assert!(!html.contains("href=\"./"), "relative href left: {html}");
        assert!(!html.contains("src=\"./"), "relative src left: {html}");
    }
    assert!(cloud_login_callback_html(&asset, "1").contains("/a.css"));
}

#[test]
fn favicon_served_with_png_mime() {
    let asset = Asset { data: vec![1, 2], mime: "image/x-icon".to_string() };
    let resp = asset_reply(Some(asset), Some("image/png"));
    assert_eq!(resp.status, 200);
    assert_eq!(resp.content_type.as_deref(), Some("image/png"));
    assert!(!resp.body.is_empty());
}

#[test]
fn asset_missing_returns_404() {
    let resp = asset_reply(None, None);
    assert_eq!(resp.status, 404);
    assert!(resp.body.is_empty());
}

#[test]
fn asset_found_returns_content() {
    let resp = asset_reply(Some(Asset { data: vec![7], mime: "image/png".to_string() }), None);
    assert_eq!(resp.status, 200);
    assert_eq!(resp.content_type.as_deref(), Some("image/png"));
    assert_eq!(resp.body, vec![7]);
}

#[test]
fn register_sw_returns_javascript() {
    let resp = register_sw_handler(&None);
    assert_eq!(resp.content_type, "application/javascript");
    assert!(!resp.body.is_empty());
    assert_eq!(register_sw_handler(&some("x()")).body, "x()");
    assert!(register_sw_script(&None).contains("serviceWorker"));
    assert_eq!(register_sw_script(&some("x()")), "x()");
}

#[test]
fn sw_js_returns_javascript() {
    let asset = Asset { data: b"self.x()".to_vec(), mime: "text/javascript".to_string() };
    let resp = sw_js_handler(Some(asset));
    assert_eq!(resp.status, 200);
    assert_eq!(resp.content_type.as_deref(), Some("application/javascript"));
    assert_eq!(resp.body, b"self.x()".to_vec());
    assert!(!resp.body.is_empty());
    assert_eq!(sw_js_handler(None).status, 404);
}

#[test]
fn manifest_returns_json() {
    let resp = manifest_handler(&some("{}"));
    assert_eq!(resp.content_type, "application/manifest+json");
    assert_eq!(resp.body, "{}");
    assert!(!resp.body.is_empty());
    assert_eq!(manifest_handler(&None).body, "");
}

#[test]
fn syscity_png_served() {
    let asset = Asset { data: vec![1, 2], mime: "image/png".to_string() };
    let resp = asset_reply(Some(asset), None);
    assert_eq!(resp.status, 200);
    assert_eq!(resp.content_type.as_deref(), Some("image/png"));
}

/// With no credential required, the caller is an anonymous local client and the
/// ticket is worth exactly what such a client gets.
#[test]
fn an_unauthenticated_caller_gets_a_local_scope_ticket() {
    let security = config().security;
    let grant = ws_ticket_grant(None, &security);
    assert_eq!(grant.user_id, "anonymous");
    assert_eq!(grant.scopes, security.local_scopes, "no wider than an anonymous local client");
}

/// A ticket is a handover of the minting credential's own scopes.
#[test]
fn a_ticket_carries_the_minting_credentials_scopes() {
    let ctx = RestAuthContext {
        user_id: "read-only-session".to_string(),
        scopes: vec!["read".to_string()],
    };
    let grant = ws_ticket_grant(Some(ctx), &config().security);
    assert_eq!(grant.user_id, "read-only-session");
    assert_eq!(
        grant.scopes,
        vec!["read".to_string()],
        "minting a ticket must not upgrade a read-only credential"
    );
}

fn outcomes() -> ReloadOutcomes {
    ReloadOutcomes {
        unloads: vec![true, false, true],
        plugins_loaded: Some(4),
        config: ConfigReport::Updated,
        removals: vec![true],
        additions: vec![false, true],
        disconnected: 3,
        connects: vec![true, false, false],
        skills: Ok(5),
    }
}

#[test]
fn reload_channels_scope_ok() {
    let report = run_reload("channels", outcomes());
    assert!(report.success);
    assert!(report.channels.is_some());
    assert!(report.skills.is_none() && report.config.is_none());
    let json = report_json(&report);
    assert!(matches!(json.get("success"), Some(Json::Bool(true))));
    assert!(matches!(json.get("channels").and_then(|c| c.get("note")), Some(Json::Text(_))));
}

#[test]
fn reload_skills_scope_ok() {
    let report = run_reload("skills", outcomes());
    assert!(report.success);
    assert!(matches!(report.skills, Some(Ok(5))));
}

#[test]
fn reload_unknown_scope_is_noop() {
    let report = run_reload("bogus", outcomes());
    assert!(report.success);
    assert_eq!(report.scope, "bogus");
    assert!(report.plugins.is_none() && report.mcp.is_none() && report.providers.is_none());
}

#[test]
fn a_full_reload_reports_every_part() {
    let report = run_reload("ALL", outcomes());
    assert_eq!(report.scope, "all");
    assert_eq!(report.plugins, Some((2, 4)));
    assert_eq!(report.providers, Some((1, 1)));
    assert_eq!(report.mcp, Some((3, 1, 2)));
    let note = report.channels.clone().unwrap();
    assert_eq!(
        json_text(&report_json(&report)),
        format!(
            "{{\"scope\":\"all\",\"plugins\":{{\"unloaded\":2,\"loaded\":4}},\
             \"config\":{{\"updated\":true}},\"providers\":{{\"added\":1,\"removed\":1}},\
             \"mcp\":{{\"disconnected\":3,\"connected\":1,\"failed\":2}},\
             \"skills\":{{\"reinitialized\":true,\"count\":5}},\
             \"channels\":{{\"note\":\"{note}\"}},\"success\":true}}"
        )
    );
    let refused = ReloadOutcomes {
        config: ConfigReport::NotUpdated { reason: "why".to_string(), audit: None },
        skills: Err("no".to_string()),
        ..outcomes()
    };
    let json = report_json(&run_reload("all", refused));
    assert_eq!(
        json_text(json.get("config").unwrap()),
        "{\"updated\":false,\"reason\":\"why\"}"
    );
    assert_eq!(
        json_text(json.get("skills").unwrap()),
        "{\"reinitialized\":false,\"error\":\"no\"}"
    );
    assert_eq!(
        json_text(&report_json(&run_reload("bogus", outcomes()))),
        "{\"scope\":\"bogus\",\"success\":true}"
    );
    let (scope, plan) = reload_plan("Config");
    assert_eq!(scope, "config");
    assert_eq!(plan, plan_for("config"));
    assert!(plan.config && plan.read_config && !plan.skills);
}

#[test]
fn a_reloaded_configuration_takes_over_its_sections() {
    let mut current = config();
    let mut new = config();
    new.model = "other".to_string();
    new.port = 99;
    assert!(matches!(apply_reload(&mut current, Some(new.clone()), Ok(())), ConfigReport::Updated));
    assert_eq!(current.model, "other");
    // The port is not reloaded.
    assert_eq!(current.port, 18080);
    new.model = "third".to_string();
    match apply_reload(&mut current, Some(new), Err("ambiguous".to_string())) {
        ConfigReport::NotUpdated { reason, audit } => {
            assert_eq!(reason, "ambiguous");
            assert_eq!(audit.as_deref(), Some("Admin reload config rejected: ambiguous"));
        }
        ConfigReport::Updated => panic!("updated"),
    }
    assert_eq!(current.model, "other");
    assert!(matches!(
        apply_reload(&mut current, None, Ok(())),
        ConfigReport::NotUpdated { reason, audit: None } if reason == "parse or read error"
    ));
    assert_eq!(config_audit(0), None);
    assert_eq!(config_audit(2).as_deref(), Some("Config reloaded: 2 field(s) changed"));
}

#[test]
fn providers_and_servers_follow_the_configuration() {
    let mut providers = StrMap::new();
    for name in ["a", "b"] {
        providers.insert(
            name.to_string(),
            ProviderConfig { models: vec![], default_model: String::new(), base_url: None },
        );
    }
    let (removed, added) = sync_providers(Some(&providers), &strings(&["b", "c"]));
    assert_eq!(removed, vec!["c"]);
    assert_eq!(added, vec!["a"]);
    let (removed, added) = sync_providers(None, &strings(&["b"]));
    assert!(removed.is_empty() && added.is_empty());

    let mut servers = StrMap::new();
    for (id, auto_connect) in [("x", true), ("y", false)] {
        let server = McpServerConfig { auto_connect, max_tools: 0, connection: Json::Null };
        servers.insert(id.to_string(), server);
    }
    assert_eq!(mcp_servers_to_connect(&servers), vec!["x"]);
    assert_eq!(mcp_tool_prefix("x"), "mcp__x__");
    assert_eq!(tools_to_register(0, 7), 7);
    assert_eq!(tools_to_register(3, 7), 3);
    assert_eq!(tools_to_register(9, 7), 7);
}

#[test]
fn models_are_listed() {
    let entries = [ModelEntry { id: "m".to_string(), provider: "p".to_string() }];
    let text = json_text(&openai_list_models(&entries));
    assert!(text.starts_with("{\"object\":\"list\",\"data\":[{"), "{text}");
    assert!(text.contains("\"id\":\"m\"") && text.contains("\"p\""), "{text}");
    assert_eq!(json_text(&openai_list_models(&[])), "{\"object\":\"list\",\"data\":[]}");
}

fn channels(v: &[(&str, bool, Option<&str>)]) -> StrMap<ChannelConfig> {
    let mut m = StrMap::new();
    for (name, enabled, agent) in v {
        let mut c = ChannelConfig::new(ChannelType::Telegram);
        c.enabled = *enabled;
        c.agent_id = agent.map(|a| a.to_string());
        m.insert(name.to_string(), c);
    }
    m
}

#[test]
fn channels_follow_the_configuration() {
    let old = channels(&[("a", true, None), ("b", true, None), ("c", true, None)]);
    let new = channels(&[
        ("a", true, None),
        ("b", true, Some("x")),
        ("c", false, None),
        ("d", true, None),
        ("e", false, None),
    ]);
    let plan = plan_channels(&strings(&["a", "b", "c", "z"]), &old, &new);
    assert!(plan.stop.contains(&"c".to_string()) && plan.stop.contains(&"z".to_string()));
    assert_eq!(plan.start, vec!["d"]);
    assert!(!plan.restart.contains(&"a".to_string()));
}

fn subject(kind: ConfigFileType, path: &str, deleted: bool) -> String {
    match changed_subject(kind, path, deleted, "/home/agents") {
        ChangedSubject::Main => "main".to_string(),
        ChangedSubject::Agent(n) => format!("agent {n}"),
        ChangedSubject::Channel(n) => format!("channel {n}"),
        ChangedSubject::Plugin(n) => format!("plugin {n}"),
        ChangedSubject::Gateway => "gateway".to_string(),
        ChangedSubject::KnowledgeBase(n) => format!("kb {n}"),
        ChangedSubject::Nothing => "nothing".to_string(),
    }
}

#[test]
fn registers_all_config_type_handlers() {
    assert_eq!(subject(ConfigFileType::Main, "/home/config.toml", false), "main");
    assert_eq!(subject(ConfigFileType::Agent, "/tmp/x/ghost.toml", false), "agent ghost");
    assert_eq!(subject(ConfigFileType::Agent, "/", false), "agent unknown");
    assert_eq!(subject(ConfigFileType::Channel, "/tmp/x/ghost.a.toml", false), "channel ghost.a");
    assert_eq!(subject(ConfigFileType::Gateway, "/tmp/x/gateway.toml", false), "gateway");
    let kb = "/home/agents/kb-agent/kb.toml";
    assert_eq!(subject(ConfigFileType::KnowledgeBase, kb, true), "nothing");
    assert_eq!(subject(ConfigFileType::KnowledgeBase, kb, false), "kb kb-agent");
    assert_eq!(subject(ConfigFileType::KnowledgeBase, "/else/kb.toml", false), "nothing");
    assert_eq!(subject(ConfigFileType::KnowledgeBase, "/home/agents", false), "nothing");
    let plugin = "/tmp/fake/plugins/ghost/plugin.toml";
    assert_eq!(subject(ConfigFileType::Plugin, plugin, false), "plugin ghost");
    assert_eq!(subject(ConfigFileType::Plugin, "plugin.toml", false), "nothing");
}

#[test]
fn paths_are_taken_apart_like_the_standard_library_does() {
    let paths = [
        "", "/", "a", "a.b", ".a", ".a.b", "a.", "..", "a/..", "a/.", "./a", "/a/b.c.d", "a//b/",
        "../x.y", "...", "..a",
    ];
    for p in paths {
        let std_path = std::path::Path::new(p);
        let expected = std_path.file_stem().map(|s| s.to_str().unwrap().to_string());
        assert_eq!(syscity::path::file_stem(p), expected, "{p:?}");
        let dir = std_path.parent().unwrap_or(std_path);
        let expected = dir.file_name().map(|s| s.to_str().unwrap().to_string());
        assert_eq!(syscity::path::directory_name(p), expected, "{p:?}");
        for d in paths {
            let expected = std_path.strip_prefix(d).ok().and_then(|r| {
                r.components().next().map(|c| c.as_os_str().to_str().unwrap().to_string())
            });
            assert_eq!(syscity::path::component_below(p, d), expected, "{p:?} {d:?}");
        }
    }
}

#[test]
fn changed_files_are_acted_on() {
    assert_eq!(on_agent_file("a", &strings(&["a"])), AgentFileAction::SendUpdate);
    assert_eq!(on_agent_file("a", &[]), AgentFileAction::Wait);
    let enabled = ChannelConfig::new(ChannelType::Slack);
    let action = on_channel_file("s", &strings(&["s"]), &enabled);
    assert!(action.stop && action.start);
    assert_eq!(plugin_step(PluginStage::Reloading, true), PluginStage::Reloaded);
    assert_eq!(plugin_step(PluginStage::Reloading, false), PluginStage::Unloading);
    assert_eq!(plugin_step(PluginStage::Unloading, true), PluginStage::Loading);
    assert_eq!(plugin_step(PluginStage::Loading, false), PluginStage::Failed);
}

#[test]
fn gateway_handler_applies_search_and_audits() {
    let mut current = config();
    let mut new = config();
    new.search.providers = strings(&["tavily"]);
    let r = on_gateway_file(&mut current, new, Ok(()));
    assert!(matches!(r, GatewayReload::Applied { search_changed: true }));
    assert_eq!(current.search.providers, vec!["tavily".to_string()]);
    assert_eq!(reload_audit(1).as_deref(), Some("Hot-reload config change: 1 field(s)"));
    assert_eq!(reload_audit(0), None);
}

#[test]
fn gateway_handler_rejects_invalid_auth_config() {
    let mut current = config();
    let mut new = config();
    new.search.providers = strings(&["brave"]);
    let before = current.search.providers.clone();
    let r = on_gateway_file(&mut current, new, Err("ambiguous auth".to_string()));
    assert!(matches!(
        r,
        GatewayReload::Rejected { audit } if audit == "Hot-reload config rejected: ambiguous auth"
    ));
    assert_eq!(current.search.providers, before);
}
