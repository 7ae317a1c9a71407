//! The gateway's configuration, its revisions and the JSON values under them.
use serde_json::{Number, Value};

use syscity::agent::AgentConfig;
use syscity::error::{ConfigError, SyscityError};
use syscity::gateway::config::memory::{SearchConfig, SearchProvider};
use syscity::gateway::config::misc::{AgentOverrides, ChannelConfig, ChannelType, DmPolicy};
use syscity::gateway::config::security::{
    default_device_scopes, default_local_scopes, default_shared_token_scopes, AuthMode,
};
use syscity::gateway::config::tui::ThemeSetting;
use syscity::gateway::config::{
    config_revision, CapabilitiesConfig, ComputerConfig, GatewayConfig, OutsideDefaults,
    ProviderConfig,
};
use syscity::json::{canonicalize_json, config_json_hash, json_equal, json_text, Json, JsonNumber};
use syscity::scalar::Single;
use syscity::strmap::StrMap;

/// A value of the JSON library as one of this library.
fn json(v: &Value) -> Json {
    match v {
        Value::Null => Json::Null,
        Value::Bool(b) => Json::Bool(*b),
        Value::Number(n) => Json::Number(JsonNumber {
            text: n.to_string(),
            unsigned: n.as_u64(),
            single_bits: (n.as_f64().unwrap() as f32).to_bits(),
        }),
        Value::String(s) => Json::Text(s.clone()),
        Value::Array(a) => Json::Array(a.iter().map(json).collect()),
        Value::Object(m) => Json::Object(m.iter().map(|(k, v)| (k.clone(), json(v))).collect()),
    }
}

fn float(x: f64) -> Json {
    json(&Value::Number(Number::from_f64(x).unwrap()))
}

fn whole(n: u64) -> Json {
    json(&Value::Number(n.into()))
}

fn object(pairs: Vec<(&str, Json)>) -> Json {
    Json::Object(pairs.into_iter().map(|(k, v)| (k.to_string(), v)).collect())
}

fn single(x: f32) -> Single {
    Single { bits: x.to_bits() }
}

fn agent() -> AgentConfig {
    AgentConfig {
        agent_id: None,
        temperature: single(0.7),
        max_tokens: 2048,
        max_turns: None,
        max_concurrent_tools: 5,
        workspace_only: false,
        system_prompt: "You are helpful".to_string(),
        max_context_tokens: 1000,
    }
}

fn config() -> GatewayConfig {
    GatewayConfig::with_defaults(OutsideDefaults {
        default_agent: agent(),
        model: "some-model".to_string(),
        model_provider: "anthropic".to_string(),
        heartbeat: Json::Null,
        computer: ComputerConfig { max_steps: 1, settle_delay_ms: 2 },
        dreaming: Json::Null,
        standing_orders: Json::Null,
        cloud: Json::Null,
        browser: Json::Null,
        capabilities: CapabilitiesConfig {
            profile: "full".to_string(),
            max_scope: "all".to_string(),
            custom_sets: vec![],
            disabled_sets: vec![],
        },
        quality_gate: Json::Null,
        permissions: Json::Null,
    })
}

fn overrides() -> AgentOverrides {
    AgentOverrides {
        temperature: None,
        max_tokens: None,
        max_turns: None,
        max_concurrent_tools: None,
        workspace_only: None,
        system_prompt: None,
        max_context_tokens: None,
    }
}

fn check_provider_for_model_finds_owning_provider() {
    let mut config = config();
    config.providers.insert(
        "deepseek".to_string(),
        ProviderConfig {
            models: vec!["deepseek-chat".to_string(), "deepseek-reasoner".to_string()],
            default_model: "deepseek-chat".to_string(),
            base_url: None,
        },
    );
    let owner = |model: &str| config.provider_for_model(model).map(|p| p.as_str());
    assert_eq!(owner("deepseek-chat"), Some("deepseek"));
    assert_eq!(owner("deepseek-reasoner"), Some("deepseek"));
    assert_eq!(owner("gpt-4o"), None);
}

fn check_apply_agent_overrides_merges_non_none_fields() {
    let mut config = config();
    config.agent_overrides.insert(
        "coder".to_string(),
        AgentOverrides {
            temperature: Some(single(0.2)),
            max_tokens: Some(4096),
            system_prompt: Some("You are a code critic".to_string()),
            ..overrides()
        },
    );

    let mut base = agent();
    config.apply_agent_overrides("coder", &mut base);

    assert_eq!(f32::from_bits(base.temperature.bits), 0.2);
    assert_eq!(base.max_tokens, 4096);
    assert_eq!(base.system_prompt, "You are a code critic");
    // Unset fields keep the base value.
    assert_eq!(base.max_concurrent_tools, agent().max_concurrent_tools);
}

fn check_apply_agent_overrides_no_entry_is_noop() {
    let mut base = agent();
    config().apply_agent_overrides("ghost", &mut base);
    assert_eq!(base.temperature, agent().temperature);
}

fn check_apply_agent_override_field_roundtrip() {
    let mut config = config();

    assert!(config.apply_agent_override_field("coder", "temperature", &float(0.5)).unwrap());
    assert_eq!(config.agent_overrides.get("coder").unwrap().temperature, Some(single(0.5)));

    // Same value again → no change.
    assert!(!config.apply_agent_override_field("coder", "temperature", &float(0.5)).unwrap());

    // null clears the field; the now-empty entry is dropped.
    assert!(config.apply_agent_override_field("coder", "temperature", &Json::Null).unwrap());
    assert!(!config.agent_overrides.contains_key("coder"));
}

fn check_apply_agent_override_field_empty_prompt_clears() {
    let mut config = config();
    config.apply_agent_override_field("coder", "system_prompt", &Json::text("hi")).unwrap();
    assert_eq!(
        config.agent_overrides.get("coder").unwrap().system_prompt.as_deref(),
        Some("hi")
    );
    config.apply_agent_override_field("coder", "system_prompt", &Json::text("")).unwrap();
    // Clearing the only override drops the whole entry.
    assert!(!config.agent_overrides.contains_key("coder"));
}

fn check_apply_agent_override_field_rejects_unknown_field() {
    let mut config = config();
    let res = config.apply_agent_override_field("coder", "bogus", &whole(1));
    assert!(matches!(
        res,
        Err(SyscityError::Config(ConfigError::InvalidValue { key, .. }))
            if key == "agent_overrides.coder.bogus"
    ));
}

fn check_clear_agent_overrides_resets_whole_agent() {
    let mut config = config();
    config.apply_agent_override_field("coder", "max_tokens", &whole(512)).unwrap();
    assert!(config.agent_overrides.contains_key("coder"));
    config.clear_agent_overrides("coder");
    assert!(!config.agent_overrides.contains_key("coder"));
}

/// A configuration as it is serialized, as far as these tests change it.
fn serialized(c: &GatewayConfig) -> Json {
    let texts = |m: &StrMap<String>| {
        Json::Object(
            (0..m.len()).map(|i| (m.key_at(i).clone(), Json::text(m.value_at(i)))).collect(),
        )
    };
    let channels = (0..c.channels.len())
        .map(|i| {
            let channel = c.channels.value_at(i);
            let ty = match &channel.channel_type {
                ChannelType::Telegram => "telegram",
                ChannelType::Slack => "slack",
                ChannelType::Discord => "discord",
                ChannelType::Other(name) => name.as_str(),
            };
            let agent = match &channel.agent_id {
                Some(id) => Json::text(id),
                None => Json::Null,
            };
            let value = object(vec![
                ("channel_type", Json::text(ty)),
                ("enabled", Json::Bool(channel.enabled)),
                ("agent_id", agent),
            ]);
            (c.channels.key_at(i).clone(), value)
        })
        .collect();
    let temperature = f32::from_bits(c.default_agent.temperature.bits);
    object(vec![
        ("host", Json::text(&c.host)),
        ("port", whole(u64::from(c.port))),
        ("default_agent", object(vec![("temperature", float(f64::from(temperature)))])),
        ("channels", Json::Object(channels)),
        ("search", object(vec![("keys", texts(&c.search.keys))])),
        ("agent_models", texts(&c.agent_models)),
    ])
}

fn check_config_revision_stable_across_insertion_order() {
    let with = |channels: [(&str, &str); 3], keys: [(&str, &str); 2], models: [(&str, &str); 2]| {
        let mut c = config();
        for (name, ty) in channels {
            let mut ch = ChannelConfig::new(match ty {
                "telegram" => ChannelType::Telegram,
                "slack" => ChannelType::Slack,
                _ => ChannelType::Discord,
            });
            ch.agent_id = Some(name.to_string());
            c.channels.insert(name.to_string(), ch);
        }
        for (k, v) in keys {
            c.search.keys.insert(k.to_string(), v.to_string());
        }
        for (k, v) in models {
            c.agent_models.insert(k.to_string(), v.to_string());
        }
        serialized(&c)
    };
    let a = with(
        [("a", "telegram"), ("b", "slack"), ("c", "discord")],
        [("k1", "v1"), ("k2", "v2")],
        [("m1", "gpt-4o"), ("m2", "sonnet")],
    );
    let b = with(
        [("c", "discord"), ("b", "slack"), ("a", "telegram")],
        [("k2", "v2"), ("k1", "v1")],
        [("m2", "sonnet"), ("m1", "gpt-4o")],
    );
    assert_eq!(config_revision(&a), config_revision(&b));
}

fn check_config_revision_changes_when_config_changes() {
    let mut c = config();
    let before = config_revision(&serialized(&c));
    c.default_agent.temperature = Single { bits: 0.5f32.to_bits() };
    let after = config_revision(&serialized(&c));
    assert_ne!(before, after);
}

fn check_config_revision_matches_config_json_hash() {
    let value = serialized(&config());
    assert_eq!(config_revision(&value), config_json_hash(&value));
}

#[test]
fn config_provider_for_model_finds_owning_provider() {
    check_provider_for_model_finds_owning_provider();
}

#[test]
fn config_apply_agent_overrides_merges_non_none_fields() {
    check_apply_agent_overrides_merges_non_none_fields();
}

#[test]
fn config_apply_agent_overrides_no_entry_is_noop() {
    check_apply_agent_overrides_no_entry_is_noop();
}

#[test]
fn config_apply_agent_override_field_roundtrip() {
    check_apply_agent_override_field_roundtrip();
}

#[test]
fn config_apply_agent_override_field_empty_prompt_clears() {
    check_apply_agent_override_field_empty_prompt_clears();
}

#[test]
fn config_apply_agent_override_field_rejects_unknown_field() {
    check_apply_agent_override_field_rejects_unknown_field();
}

#[test]
fn config_clear_agent_overrides_resets_whole_agent() {
    check_clear_agent_overrides_resets_whole_agent();
}

#[test]
fn config_config_revision_stable_across_insertion_order() {
    check_config_revision_stable_across_insertion_order();
}

#[test]
fn config_config_revision_changes_when_config_changes() {
    check_config_revision_changes_when_config_changes();
}

#[test]
fn config_config_revision_matches_config_json_hash() {
    check_config_revision_matches_config_json_hash();
}

#[test]
fn tests_provider_for_model_finds_owning_provider() {
    check_provider_for_model_finds_owning_provider();
}

#[test]
fn tests_apply_agent_overrides_merges_non_none_fields() {
    check_apply_agent_overrides_merges_non_none_fields();
}

#[test]
fn tests_apply_agent_overrides_no_entry_is_noop() {
    check_apply_agent_overrides_no_entry_is_noop();
}

#[test]
fn tests_apply_agent_override_field_roundtrip() {
    check_apply_agent_override_field_roundtrip();
}

#[test]
fn tests_apply_agent_override_field_empty_prompt_clears() {
    check_apply_agent_override_field_empty_prompt_clears();
}

#[test]
fn tests_apply_agent_override_field_rejects_unknown_field() {
    check_apply_agent_override_field_rejects_unknown_field();
}

#[test]
fn tests_clear_agent_overrides_resets_whole_agent() {
    check_clear_agent_overrides_resets_whole_agent();
}

#[test]
fn tests_config_revision_stable_across_insertion_order() {
    check_config_revision_stable_across_insertion_order();
}

#[test]
fn tests_config_revision_changes_when_config_changes() {
    check_config_revision_changes_when_config_changes();
}

#[test]
fn tests_config_revision_matches_config_json_hash() {
    check_config_revision_matches_config_json_hash();
}

#[test]
fn defaults_are_what_they_are() {
    let c = config();
    assert_eq!(c.host, "127.0.0.1");
    assert_eq!(c.port, 18080);
    assert_eq!(c.model, "some-model");
    assert_eq!(c.security.auth_mode, AuthMode::Anonymous);
    assert!(!c.security.auth_required);
    assert_eq!(c.security.local_scopes, default_local_scopes());
    assert!(c.security.allowed_ws_origins.is_empty());
    assert_eq!(c.security.cors.allowed_origins, vec!["*"]);
    assert_eq!(c.tui.theme, ThemeSetting::Auto);
    assert!(c.workspace_only);
    assert_eq!(c.storage.storage_type, "sqlite");
}

#[test]
fn no_default_scope_is_admin() {
    for scopes in [default_local_scopes(), default_shared_token_scopes(), default_device_scopes()] {
        assert!(!scopes.is_empty());
        assert!(scopes.iter().all(|s| s != "admin"), "{scopes:?}");
    }
}

#[test]
fn a_channel_is_on_and_open_at_first() {
    let c = ChannelConfig::new(ChannelType::Telegram)
        .with_dm_policy(DmPolicy::Allowlist)
        .with_allow_from(vec!["bob".to_string()]);
    assert!(c.enabled);
    assert_eq!(c.credentials.len(), 0);
    assert_eq!(c.dm_policy, DmPolicy::Allowlist);
    assert!(c.is_in_allowlist("bob"));
    assert!(!c.is_in_allowlist("eve"));
    assert!(!c.is_blocked("bob"));
}

#[test]
fn override_fields_take_values_of_their_type() {
    let set = |field: &str, value: Json| config().apply_agent_override_field("a", field, &value);
    assert!(set("max_tokens", whole(1)).unwrap());
    assert!(set("max_turns", whole(1)).unwrap());
    assert!(set("max_concurrent_tools", whole(1)).unwrap());
    assert!(set("workspace_only", Json::Bool(true)).unwrap());
    assert!(set("max_context_tokens", whole(1)).unwrap());
    for field in ["temperature", "max_tokens", "max_turns", "workspace_only"] {
        assert!(set(field, Json::text("x")).is_err(), "{field}");
    }
    // Only null and the empty text clear the prompt.
    let mut c = config();
    assert!(c.apply_agent_override_field("a", "system_prompt", &Json::text("p")).unwrap());
    match c.apply_agent_override_field("a", "system_prompt", &whole(1)) {
        Err(SyscityError::Config(ConfigError::InvalidValue { message, .. })) => {
            assert_eq!(message, "system_prompt must be a string");
        }
        Err(e) => panic!("{e:?}"),
        Ok(_) => panic!("a number is no prompt"),
    }
    let prompt = |c: &GatewayConfig| c.agent_overrides.get("a").unwrap().system_prompt.clone();
    assert_eq!(prompt(&c).as_deref(), Some("p"));
    assert!(c.apply_agent_override_field("a", "system_prompt", &Json::text("")).unwrap());
    assert!(!c.agent_overrides.contains_key("a"));
    assert!(c.apply_agent_override_field("a", "system_prompt", &Json::text("q")).unwrap());
    assert!(c.apply_agent_override_field("a", "system_prompt", &Json::Null).unwrap());
    assert!(!c.agent_overrides.contains_key("a"));
}

#[test]
fn a_refused_override_leaves_no_trace() {
    let mut c = config();
    assert!(c.apply_agent_override_field("a", "max_tokens", &Json::text("x")).is_err());
    assert!(!c.agent_overrides.contains_key("a"));
    assert!(c.apply_agent_override_field("a", "max_tokens", &whole(5)).unwrap());
    assert!(c.apply_agent_override_field("a", "max_tokens", &Json::text("x")).is_err());
    assert_eq!(c.agent_overrides.get("a").unwrap().max_tokens, Some(5));
    assert_eq!(c.agent_overrides.len(), 1);
}

#[test]
fn snapshots_differ_where_the_configuration_does() {
    let with = |port: u64, model: &str| {
        object(vec![("port", whole(port)), ("model", Json::text(model))])
    };
    let old = GatewayConfig::snapshot_at(&with(1, "m"), "then".to_string());
    assert_eq!(old.timestamp, "then");
    assert!(GatewayConfig::diff_since(&with(1, "m"), &old).is_empty());
    for change in GatewayConfig::diff_since(&with(1, "n"), &old) {
        assert!(change.path.contains("model"), "{}", change.path);
    }
    let now = GatewayConfig::snapshot(&with(1, "m")).timestamp;
    assert!(now.contains('T') && now.len() > 18, "{now}");
}

#[test]
fn search_keys_are_looked_up_by_provider() {
    let mut search = SearchConfig::default();
    search.providers = vec!["brave".to_string(), "nobody".to_string()];
    search.api_key = "common".to_string();
    search.keys.insert("brave".to_string(), "own".to_string());
    assert_eq!(search.api_key_for("brave").as_deref(), Some("own"));
    assert_eq!(search.api_key_for("serper").as_deref(), Some("common"));
    let found = search.to_providers(|name, api_key| {
        if name == "brave" { Some(SearchProvider::Named { name, api_key }) } else { None }
    });
    assert!(matches!(
        &found[..],
        [SearchProvider::Named { name, api_key: Some(k) }] if name == "brave" && k == "own"
    ));
    assert!(matches!(search.to_providers(|_, _| None)[..], [SearchProvider::DuckDuckGo]));
}

#[test]
fn json_is_printed_as_the_json_library_prints_it() {
    let mut inner = serde_json::Map::new();
    inner.insert("z".to_string(), Value::Array(vec![Value::Null, Value::Bool(true)]));
    inner.insert("a \"q\" \u{1} é\n".to_string(), Value::String("tab\t/\\".to_string()));
    inner.insert("n".to_string(), Value::Number(Number::from_f64(0.5).unwrap()));
    inner.insert("c".to_string(), Value::String("\u{8}\u{c}\r\u{0}\u{1f}\u{7f}\u{2028}".to_string()));
    inner.insert("e".to_string(), Value::Object(serde_json::Map::new()));
    let value = Value::Object(inner);
    assert_eq!(json_text(&json(&value)), value.to_string());
    assert_eq!(json_text(&Json::Array(vec![])), "[]");
}

#[test]
fn a_fingerprint_is_the_hash_of_the_canonical_text() {
    // The hash of the two bytes of an empty object.
    assert_eq!(
        config_json_hash(&Json::Object(vec![])),
        "44136fa355b3678a1146ad16f7e8649e94fb4fc21fe77e8310c060f61caaff8a"
    );
    let a = object(vec![("b", whole(1)), ("a", whole(2))]);
    assert_eq!(json_text(&canonicalize_json(&a)), "{\"a\":2,\"b\":1}");
    let b = object(vec![("a", whole(2)), ("b", whole(1))]);
    assert!(json_equal(&a, &b));
    assert!(!json_equal(&a, &object(vec![("a", whole(2))])));
}

#[test]
fn a_map_holds_each_key_once() {
    let mut m: StrMap<u32> = StrMap::new();
    m.insert("a".to_string(), 1);
    m.insert("b".to_string(), 2);
    m.insert("a".to_string(), 3);
    assert_eq!(m.len(), 2);
    assert_eq!(m.get("a"), Some(&3));
    let copy = m.copied();
    m.remove("a");
    assert!(!m.contains_key("a"));
    assert_eq!(copy.get("a"), Some(&3));
    assert_eq!(copy.key_at(1), "b");
    assert_eq!(copy.value_at(1), &2);
}

#[test]
fn whole_numbers_are_made_as_they_are_read() {
    let ns = [
        0,
        1,
        2,
        3,
        1024,
        16_000,
        0x7f_ffff,
        0xff_ffff,
        0x100_0000,
        0x100_0001,
        0x100_0003,
        0x1ff_ffff,
        123_456_789_012,
        // Next to this the single-precision float is another one than next to the
        // double-precision float next to it.
        (1 << 60) + (1 << 36) + 1,
        (1 << 53) + 1,
        (1 << 54) - 1,
        u64::MAX - 1024,
        u64::MAX,
    ];
    for n in ns {
        let made = Json::whole(n);
        let read = whole(n);
        assert!(json_equal(&made, &read), "{n}");
        assert_eq!(made.as_u64(), Some(n));
        assert_eq!(json_text(&made), n.to_string());
        assert_eq!(made.as_single_bits(), Some((n as f64 as f32).to_bits()), "{n}");
        assert_eq!(made.as_single_bits(), read.as_single_bits(), "{n}");
    }
}
