//! Gateway configuration: the settings tree, per-agent overrides, and the
//! snapshots, changes and revisions that hot reload works with.
use vstd::prelude::*;
use vstd::string::*;

use crate::agent::AgentConfig;
use crate::error::{ConfigError, SyscityError};
use crate::json::{
    canonical, config_json_hash, equal, field, fingerprint, json_equal, lemma_alike_reflexive, Json,
    JsonModel,
};
use crate::strmap::{distinct_keys, keyed, lemma_keyed, StrMap};
use crate::text::{comes_before, is_one_of, lemma_text_order, same, text_less, texts};

pub mod memory;
pub mod misc;
pub mod optimizer;
pub mod plugins;
pub mod security;
pub mod tui;

use memory::{KnowledgeBaseConfig, SearchConfig, VectorMemoryConfig};
use misc::{
    field_outcome, no_overrides, overlaid, AgentOverrides, ChannelConfig, ObserveConfig,
    OverridesModel, StorageConfig, UpdateConfig,
};
use plugins::{AcpConfig, CostGuardConfig, CronConfig, HotReloadConfig, PluginConfig};
use security::SecurityConfig;
use tui::{EvalConfig, ThemeSetting, TuiConfig};

verus! {

// ---------------------------------------------------------------------------
// The settings tree
// ---------------------------------------------------------------------------

/// A model provider: what routing reads of it.
#[derive(Debug, Clone)]
pub struct ProviderConfig {
    /// The concrete models it serves.
    pub models: Vec<String>,
    /// The model it uses when none is named.
    pub default_model: String,
    /// Where it is reached, if not at its usual place.
    pub base_url: Option<String>,
}

impl ProviderConfig {
    /// Whether the provider serves a model.
    pub open spec fn serves(self, model_id: Seq<char>) -> bool {
        texts(self.models@).contains(model_id)
    }

    /// Whether the provider serves a model.
    pub fn supports_model(&self, model_id: &str) -> (r: bool)
        ensures
            r == self.serves(model_id@),
    {
        is_one_of(self.models.as_slice(), model_id)
    }
}

/// An MCP server: what connecting reads of it.
#[derive(Debug, Clone)]
pub struct McpServerConfig {
    /// Connect without being asked.
    pub auto_connect: bool,
    /// At most this many of its tools are registered (0 = all).
    pub max_tools: usize,
    /// How it is reached.
    pub connection: Json,
}

/// MCP server configurations.
#[derive(Debug, Clone)]
pub struct McpSettings {
    /// The servers by identifier.
    pub servers: StrMap<McpServerConfig>,
}

/// Desktop automation.
#[derive(Debug, Clone, Copy, PartialEq, Eq, Structural)]
pub struct ComputerConfig {
    /// Cap on the steps of one task.
    pub max_steps: usize,
    /// Wait after each step, in milliseconds.
    pub settle_delay_ms: u64,
}

/// Which capability sets of the platform are on.
#[derive(Debug, Clone)]
pub struct CapabilitiesConfig {
    /// The profile by name.
    pub profile: String,
    /// The widest scope a set may have, by name.
    pub max_scope: String,
    /// The sets of the `custom` profile.
    pub custom_sets: Vec<String>,
    /// Sets that are off whatever the profile says.
    pub disabled_sets: Vec<String>,
}

/// Gateway configuration
#[derive(Debug, Clone)]
pub struct GatewayConfig {
    /// Host to bind to
    pub host: String,
    /// Port for gateway control plane (serves API + WebSocket + SPA)
    pub port: u16,
    /// Default agent configuration
    pub default_agent: AgentConfig,
    /// Channel configurations
    pub channels: StrMap<ChannelConfig>,
    /// Vector memory configuration
    pub vector_memory: VectorMemoryConfig,
    /// Plugin system configuration
    pub plugins: PluginConfig,
    /// Hot reload configuration
    pub hot_reload: HotReloadConfig,
    /// ACP (Agent Control Plane) configuration
    pub acp: AcpConfig,
    /// Cron scheduler configuration
    pub cron: CronConfig,
    /// Heartbeat scheduler configuration
    pub heartbeat: Json,
    /// Security configuration
    pub security: SecurityConfig,
    /// Cloud integration; null where the cloud is not built in
    pub cloud: Json,
    /// Storage adapter configuration
    pub storage: StorageConfig,
    /// LLM Provider configurations (provider name -> config)
    pub providers: StrMap<ProviderConfig>,
    /// Default model name
    pub model: String,
    /// Model provider (e.g., "anthropic", "openai")
    pub model_provider: String,
    /// Per-agent model binding (agent_id -> concrete model ID).
    pub agent_models: StrMap<String>,
    /// Per-agent parameter overrides (agent_id -> overrides).
    pub agent_overrides: StrMap<AgentOverrides>,
    /// MCP server configurations (auto-connected on startup)
    pub mcp: McpSettings,
    /// Live spend and action-rate guard for LLM calls.
    pub cost_guard: CostGuardConfig,
    /// Workspace directory for file operations.
    pub workspace_dir: Option<String>,
    /// When true, restrict file operations to `workspace_dir`.
    pub workspace_only: bool,
    /// Browser configuration; null where the browser is not built in
    pub browser: Json,
    /// Computer / desktop automation configuration
    pub computer: ComputerConfig,
    /// Background memory consolidation
    pub dreaming: Json,
    /// Standing orders (persistent background agent programs)
    pub standing_orders: Json,
    /// Capability set configuration (profile, scope, enabled sets)
    pub capabilities: CapabilitiesConfig,
    /// Web search provider configuration.
    pub search: SearchConfig,
    /// Quality gate for pre-release gating.
    pub quality_gate: Json,
    /// Knowledge Base configuration for auto-ingest and watcher.
    pub knowledge_base: KnowledgeBaseConfig,
    /// Observability retention configuration for per-turn records.
    pub observe: ObserveConfig,
    /// Online update configuration.
    pub update: UpdateConfig,
    /// Harness self-tuning configuration.
    pub eval: EvalConfig,
    /// TUI client preferences (appearance).
    pub tui: TuiConfig,
    /// Tool permissions.
    pub permissions: Json,
}

/// The sections whose defaults other parts of the product give.
#[derive(Debug)]
pub struct OutsideDefaults {
    pub default_agent: AgentConfig,
    pub model: String,
    pub model_provider: String,
    pub heartbeat: Json,
    pub computer: ComputerConfig,
    pub dreaming: Json,
    pub standing_orders: Json,
    pub cloud: Json,
    pub browser: Json,
    pub capabilities: CapabilitiesConfig,
    pub quality_gate: Json,
    pub permissions: Json,
}

impl GatewayConfig {
    /// Whether the configuration is the default one, given the defaults of the
    /// sections that are defined elsewhere.
    pub open spec fn is_default(self, outside: OutsideDefaults) -> bool {
        &&& self.host@ == "127.0.0.1"@
        &&& self.port == 18080
        &&& self.default_agent == outside.default_agent
        &&& self.channels@ == Map::<Seq<char>, ChannelConfig>::empty()
        &&& self.vector_memory.is_default()
        &&& self.plugins == (PluginConfig { enabled: true, auto_load: true, plugin_dir: None })
        &&& call_ensures(HotReloadConfig::default, (), self.hot_reload)
        &&& call_ensures(AcpConfig::default, (), self.acp)
        &&& self.cron == (CronConfig { enabled: true, check_interval_seconds: 60 })
        &&& self.heartbeat == outside.heartbeat
        &&& call_ensures(SecurityConfig::default, (), self.security)
        &&& self.storage.storage_type@ == "sqlite"@
        &&& self.storage.base_path is None
        &&& self.storage.database_url is None
        &&& self.providers@ == Map::<Seq<char>, ProviderConfig>::empty()
        &&& self.model == outside.model
        &&& self.model_provider == outside.model_provider
        &&& self.agent_models@ == Map::<Seq<char>, String>::empty()
        &&& self.agent_overrides@ == Map::<Seq<char>, AgentOverrides>::empty()
        &&& self.mcp.servers@ == Map::<Seq<char>, McpServerConfig>::empty()
        &&& self.cost_guard == (CostGuardConfig { daily_limit_cents: 0, hourly_action_limit: 0 })
        &&& self.workspace_dir is None
        &&& self.workspace_only
        &&& self.computer == outside.computer
        &&& self.dreaming == outside.dreaming
        &&& self.standing_orders == outside.standing_orders
        &&& self.cloud == outside.cloud
        &&& self.browser == outside.browser
        &&& self.capabilities == outside.capabilities
        &&& call_ensures(SearchConfig::default, (), self.search)
        &&& self.quality_gate == outside.quality_gate
        &&& call_ensures(KnowledgeBaseConfig::default, (), self.knowledge_base)
        &&& self.observe.retention_days == 30
        &&& self.update == (UpdateConfig { enabled: true, auto_check: true })
        &&& self.eval.is_default()
        &&& self.tui.theme == ThemeSetting::Auto
        &&& self.permissions == outside.permissions
    }

    /// The default configuration, given the defaults of the sections that are
    /// defined elsewhere.
    pub fn with_defaults(outside: OutsideDefaults) -> (r: Self)
        ensures
            r.is_default(outside),
    {
        GatewayConfig {
            host: "127.0.0.1".to_string(),
            port: 18080,
            default_agent: outside.default_agent,
            channels: StrMap::new(),
            vector_memory: VectorMemoryConfig::default(),
            plugins: PluginConfig::default(),
            hot_reload: HotReloadConfig::default(),
            acp: AcpConfig::default(),
            cron: CronConfig::default(),
            heartbeat: outside.heartbeat,
            security: SecurityConfig::default(),
            storage: StorageConfig::default(),
            providers: StrMap::new(),
            model: outside.model,
            model_provider: outside.model_provider,
            agent_models: StrMap::new(),
            agent_overrides: StrMap::new(),
            mcp: McpSettings { servers: StrMap::new() },
            cost_guard: CostGuardConfig::default(),
            workspace_dir: None,
            workspace_only: true,
            computer: outside.computer,
            dreaming: outside.dreaming,
            standing_orders: outside.standing_orders,
            cloud: outside.cloud,
            browser: outside.browser,
            capabilities: outside.capabilities,
            search: SearchConfig::default(),
            quality_gate: outside.quality_gate,
            knowledge_base: KnowledgeBaseConfig::default(),
            observe: ObserveConfig::default(),
            update: UpdateConfig::default(),
            eval: EvalConfig::default(),
            tui: TuiConfig::default(),
            permissions: outside.permissions,
        }
    }

    /// Find the provider name that owns a concrete model ID, if any. Where
    /// several providers serve the model, any of them may be found.
    pub fn provider_for_model(&self, model_id: &str) -> (r: Option<&String>)
        ensures
            match r {
                Some(name) => self.providers@.dom().contains(name@)
                    && self.providers@[name@].serves(model_id@),
                None => forall|name: Seq<char>| #[trigger]
                    self.providers@.dom().contains(name) ==> !self.providers@[name].serves(
                        model_id@,
                    ),
            },
    {
        let n = self.providers.len();
        let mut i: usize = 0;
        while i < n
            invariant
                i <= n,
                n == self.providers.list().len(),
                distinct_keys(self.providers.list()),
                forall|j: int|
                    0 <= j < i ==> !(#[trigger] self.providers.list()[j]).1.serves(model_id@),
            decreases n - i,
        {
            if self.providers.value_at(i).supports_model(model_id) {
                return Some(self.providers.key_at(i));
            }
            i += 1;
        }
        assert forall|name: Seq<char>| #[trigger]
            self.providers@.dom().contains(name) implies !self.providers@[name].serves(
            model_id@,
        ) by {
            let j = choose|j: int| #[trigger] keyed(self.providers.list(), name, j);
            assert(keyed(self.providers.list(), name, j));
            lemma_keyed(self.providers.list(), name, j);
        }
        None
    }

    /// Merge the persisted per-agent overrides for `agent_id` into `base` in
    /// place; an agent without overrides is left untouched.
    pub fn apply_agent_overrides(&self, agent_id: &str, base: &mut AgentConfig)
        ensures
            if self.agent_overrides@.dom().contains(agent_id@) {
                overlaid(self.agent_overrides@[agent_id@]@, *old(base), *final(base))
            } else {
                *final(base) == *old(base)
            },
    {
        if let Some(overrides) = self.agent_overrides.get(agent_id) {
            overrides.apply_to(base);
        }
    }

    /// The overrides of the agents.
    pub open spec fn overrides(self) -> Map<Seq<char>, OverridesModel> {
        self.agent_overrides@.map_values(|o: AgentOverrides| o@)
    }

    /// The overrides of an agent, which override nothing if there are none.
    pub open spec fn overrides_of(self, agent_id: Seq<char>) -> OverridesModel {
        if self.overrides().dom().contains(agent_id) {
            self.overrides()[agent_id]
        } else {
            no_overrides()
        }
    }

    /// Whether everything but the per-agent overrides is as before.
    pub open spec fn same_but_overrides(self, before: GatewayConfig) -> bool {
        self == (GatewayConfig { agent_overrides: self.agent_overrides, ..before })
    }

    /// Apply a single per-agent override field from a JSON value.
    ///
    /// `field` is the final path segment (e.g. `"temperature"`). A `Null`
    /// value (or an empty string for `system_prompt`) clears the override so
    /// the agent falls back to its base value. Returns `Ok(true)` when the
    /// stored override changed. An agent whose overrides override nothing is
    /// dropped; a refused field or value leaves everything as it was.
    pub fn apply_agent_override_field(
        &mut self,
        agent_id: &str,
        field: &str,
        value: &Json,
    ) -> (r: Result<bool, SyscityError>)
        ensures
            final(self).same_but_overrides(*old(self)),
            match field_outcome(old(self).overrides_of(agent_id@), field@, value@) {
                Ok((after, changed)) => {
                    &&& r == Ok::<bool, SyscityError>(changed)
                    &&& final(self).overrides() == if after == no_overrides() {
                        old(self).overrides().remove(agent_id@)
                    } else {
                        old(self).overrides().insert(agent_id@, after)
                    }
                },
                Err(problem) => {
                    &&& r matches Err(SyscityError::Config(ConfigError::InvalidValue {
                        key,
                        message,
                    })) && key@ == "agent_overrides."@ + agent_id@ + "."@ + field@ && message@
                        == problem
                    &&& *final(self) == *old(self)
                },
            },
    {
        let ghost before = self.overrides();
        let current = match self.agent_overrides.get(agent_id) {
            Some(o) => o.clone(),
            None => AgentOverrides::default(),
        };
        assert(current@ == self.overrides_of(agent_id@));
        let outcome = current.with_field(field, value);
        match outcome {
            Ok((after, changed)) => {
                if after.is_empty() {
                    self.agent_overrides.remove(agent_id);
                    assert(self.overrides() =~= before.remove(agent_id@));
                } else {
                    let ghost model = after@;
                    self.agent_overrides.insert(agent_id.to_string(), after);
                    assert(self.overrides() =~= before.insert(agent_id@, model));
                }
                Ok(changed)
            },
            Err(message) => {
                let mut key = "agent_overrides.".to_string();
                key.append(agent_id);
                key.append(".");
                key.append(field);
                Err(SyscityError::Config(ConfigError::InvalidValue { key, message }))
            },
        }
    }

    /// Remove all overrides for an agent (full reset to base config).
    pub fn clear_agent_overrides(&mut self, agent_id: &str)
        ensures
            final(self).same_but_overrides(*old(self)),
            final(self).overrides() == old(self).overrides().remove(agent_id@),
    {
        let ghost before = self.overrides();
        self.agent_overrides.remove(agent_id);
        assert(self.overrides() =~= before.remove(agent_id@));
    }

    /// Capture a snapshot of all hot-reloadable fields of a configuration given
    /// in its serialized form. The time in it is that of the call.
    pub fn snapshot(serialized: &Json) -> (r: ConfigSnapshot)
        ensures
            r.values() == reloadable_values(serialized@),
    {
        GatewayConfig::snapshot_at(serialized, now_rfc3339())
    }

    /// Capture a snapshot of all hot-reloadable fields of a configuration given
    /// in its serialized form, with the time at which it is taken.
    pub fn snapshot_at(serialized: &Json, timestamp: String) -> (r: ConfigSnapshot)
        ensures
            r.timestamp == timestamp,
            r.values() == reloadable_values(serialized@),
    {
        let keys = reloadable_keys();
        let mut fields: StrMap<Json> = StrMap::new();
        let mut i: usize = 0;
        let ghost want = reloadable_values(serialized@);
        while i < keys.len()
            invariant
                i <= keys@.len(),
                texts(keys@) == reloadable(),
                want == reloadable_values(serialized@),
                forall|k: Seq<char>| #[trigger]
                    fields@.dom().contains(k) <==> want.dom().contains(k) && exists|j: int|
                        0 <= j < i && #[trigger] reloadable()[j] == k,
                forall|k: Seq<char>| #[trigger]
                    fields@.dom().contains(k) ==> fields@[k]@ == want[k],
            decreases keys.len() - i,
        {
            let ghost before = fields@;
            assert(texts(keys@)[i as int] == keys@[i as int]@);
            if let Some(val) = serialized.get(&keys[i]) {
                if !val.is_null() {
                    fields.insert(keys[i].clone(), val.clone());
                }
            }
            assert forall|k: Seq<char>| #[trigger]
                fields@.dom().contains(k) <==> want.dom().contains(k) && exists|j: int|
                0 <= j < i + 1 && #[trigger] reloadable()[j] == k by {
                if want.dom().contains(k) && (exists|j: int|
                    0 <= j < i + 1 && #[trigger] reloadable()[j] == k) {
                    let j = choose|j: int| 0 <= j < i + 1 && #[trigger] reloadable()[j] == k;
                    if j == i {
                        assert(fields@.dom().contains(k));
                    } else {
                        assert(before.dom().contains(k));
                    }
                }
                if fields@.dom().contains(k) {
                    if k == keys@[i as int]@ {
                        assert(reloadable()[i as int] == k);
                    } else {
                        assert(before.dom().contains(k));
                    }
                }
            }
            i += 1;
        }
        let r = ConfigSnapshot { timestamp, fields };
        assert(r.values() =~= want) by {
            assert forall|k: Seq<char>| want.dom().contains(k) implies fields@.dom().contains(k) by {
                let j = choose|j: int|
                    0 <= j < reloadable().len() && #[trigger] reloadable()[j] == k;
                assert(reloadable()[j] == k);
            }
        }
        r
    }

    /// Compute the list of field-level changes between a previous snapshot
    /// and the current configuration, given in its serialized form: one for each
    /// field that differs, in the order of their paths.
    pub fn diff_since(serialized: &Json, old: &ConfigSnapshot) -> (r: Vec<ConfigChange>)
        ensures
            is_diff(r@, old.values(), reloadable_values(serialized@)),
    {
        let current = GatewayConfig::snapshot(serialized);
        diff_snapshots(old, &current)
    }
}

// ---------------------------------------------------------------------------
// Snapshots and changes
// ---------------------------------------------------------------------------

/// Snapshot of hot-reloadable configuration values used to compute diffs
/// across reloads.
#[derive(Debug)]
pub struct ConfigSnapshot {
    /// Timestamp when the snapshot was taken
    pub timestamp: String,
    /// The hot-reloadable field values keyed by path
    pub fields: StrMap<Json>,
}

impl ConfigSnapshot {
    /// The values in the snapshot.
    pub open spec fn values(self) -> Map<Seq<char>, JsonModel> {
        self.fields@.map_values(|j: Json| j@)
    }
}

/// A single configuration field change detected during hot reload.
#[derive(Debug)]
pub struct ConfigChange {
    /// Path of the changed field (e.g. "model")
    pub path: String,
    /// Previous value (absent for newly added fields)
    pub old_value: Option<Json>,
    /// New value (absent for removed fields)
    pub new_value: Option<Json>,
}

/// The fields that can be reloaded without a restart.
pub open spec fn reloadable() -> Seq<Seq<char>> {
    seq![
        "security"@,
        "providers"@,
        "mcp"@,
        "hot_reload"@,
        "cost_guard"@,
        "capabilities"@,
        "computer"@,
        "workspace_dir"@,
        "workspace_only"@,
        "model"@,
        "model_provider"@,
        "dreaming"@,
        "standing_orders"@,
        "cron"@,
        "browser"@,
    ]
}

fn reloadable_keys() -> (r: Vec<String>)
    ensures
        texts(r@) == reloadable(),
{
    vec![
        "security".to_string(),
        "providers".to_string(),
        "mcp".to_string(),
        "hot_reload".to_string(),
        "cost_guard".to_string(),
        "capabilities".to_string(),
        "computer".to_string(),
        "workspace_dir".to_string(),
        "workspace_only".to_string(),
        "model".to_string(),
        "model_provider".to_string(),
        "dreaming".to_string(),
        "standing_orders".to_string(),
        "cron".to_string(),
        "browser".to_string(),
    ]
}

/// The reloadable fields of a serialized configuration that are not null.
pub open spec fn reloadable_values(serialized: JsonModel) -> Map<Seq<char>, JsonModel> {
    Map::new(
        |k: Seq<char>|
            (exists|j: int| 0 <= j < reloadable().len() && #[trigger] reloadable()[j] == k)
                && field(serialized, k) is Some && !(field(serialized, k)->0 is Null),
        |k: Seq<char>| field(serialized, k)->0,
    )
}

/// `chrono::Utc::now` and `DateTime::to_rfc3339`: the time of the call as text.
/// Nothing is claimed of it.
#[verifier::external_body]
fn now_rfc3339() -> (r: String) {
    chrono::Utc::now().to_rfc3339()
}

/// What is under a key, if anything.
pub open spec fn value_under(m: Map<Seq<char>, JsonModel>, k: Seq<char>) -> Option<JsonModel> {
    if m.dom().contains(k) {
        Some(m[k])
    } else {
        None
    }
}

/// Whether a field differs between two sets of values.
pub open spec fn differs(
    old: Map<Seq<char>, JsonModel>,
    new: Map<Seq<char>, JsonModel>,
    k: Seq<char>,
) -> bool {
    match (value_under(old, k), value_under(new, k)) {
        (Some(a), Some(b)) => !equal(a, b),
        (None, None) => false,
        _ => true,
    }
}

/// The model of an optional value.
pub open spec fn opt_model(j: Option<Json>) -> Option<JsonModel> {
    match j {
        Some(v) => Some(v@),
        None => None,
    }
}

/// Whether `changes` are the differences between two sets of values: in the
/// order of their paths, one for each field that differs, with its values.
pub open spec fn is_diff(
    changes: Seq<ConfigChange>,
    old: Map<Seq<char>, JsonModel>,
    new: Map<Seq<char>, JsonModel>,
) -> bool {
    &&& forall|i: int, j: int|
        0 <= i < j < changes.len() ==> text_less(
            #[trigger] changes[i].path@,
            #[trigger] changes[j].path@,
        )
    &&& forall|i: int|
        0 <= i < changes.len() ==> {
            let c = #[trigger] changes[i];
            &&& differs(old, new, c.path@)
            &&& opt_model(c.old_value) == value_under(old, c.path@)
            &&& opt_model(c.new_value) == value_under(new, c.path@)
        }
    &&& forall|k: Seq<char>| #[trigger]
        differs(old, new, k) ==> exists|i: int|
            0 <= i < changes.len() && #[trigger] changes[i].path@ == k
}

/// Whether texts ascend strictly.
pub open spec fn texts_ascend(s: Seq<Seq<char>>) -> bool {
    forall|i: int, j: int| 0 <= i < j < s.len() ==> text_less(#[trigger] s[i], #[trigger] s[j])
}

/// Puts a text into an ascending list, unless it is there.
fn insert_text(list: &mut Vec<String>, item: &str)
    requires
        texts_ascend(texts(old(list)@)),
    ensures
        texts_ascend(texts(final(list)@)),
        forall|t: Seq<char>| #[trigger]
            texts(final(list)@).contains(t) <==> texts(old(list)@).contains(t) || t == item@,
{
    let ghost before = texts(list@);
    let mut i: usize = 0;
    while i < list.len() && comes_before(&list[i], item)
        invariant
            i <= list@.len(),
            before == texts(list@),
            forall|j: int| 0 <= j < i ==> text_less(#[trigger] before[j], item@),
        decreases list.len() - i,
    {
        assert(before[i as int] == list@[i as int]@);
        i += 1;
    }
    if i < list.len() && same(&list[i], item) {
        assert(before[i as int] == item@);
    } else {
        list.insert(i, item.to_string());
        let ghost after = texts(list@);
        proof {
            assert(after =~= before.insert(i as int, item@));
            assert forall|a: int, b: int| 0 <= a < b < after.len() implies text_less(
                #[trigger] after[a],
                #[trigger] after[b],
            ) by {
                if i < before.len() {
                    lemma_text_order(item@, before[i as int], item@);
                }
                if a < i && b == i {
                } else if a == i {
                    let c = b - 1;
                    assert(after[b] == before[c]);
                    if c > i {
                        assert(text_less(before[i as int], before[c]));
                        lemma_text_order(item@, before[i as int], before[c]);
                    }
                } else {
                    let x = if a < i { a } else { a - 1 };
                    let y = if b < i { b } else { b - 1 };
                    assert(after[a] == before[x] && after[b] == before[y]);
                }
            }
            assert forall|t: Seq<char>| #[trigger] after.contains(t) <==> before.contains(t) || t
                == item@ by {
                if before.contains(t) {
                    let j = choose|j: int| 0 <= j < before.len() && before[j] == t;
                    let k = if j < i { j } else { j + 1 };
                    assert(after[k] == t);
                }
                if t == item@ {
                    assert(after[i as int] == t);
                }
                if after.contains(t) {
                    let j = choose|j: int| 0 <= j < after.len() && after[j] == t;
                    if j != i {
                        let k = if j < i { j } else { j - 1 };
                        assert(before[k] == t);
                    }
                }
            }
        }
    }
}

/// Puts the keys of a map into an ascending list.
fn insert_keys(list: &mut Vec<String>, fields: &StrMap<Json>)
    requires
        texts_ascend(texts(old(list)@)),
    ensures
        texts_ascend(texts(final(list)@)),
        forall|t: Seq<char>| #[trigger]
            texts(final(list)@).contains(t) <==> texts(old(list)@).contains(t)
                || fields@.dom().contains(t),
{
    let n = fields.len();
    let ghost before = texts(list@);
    let mut i: usize = 0;
    while i < n
        invariant
            i <= n,
            n == fields.list().len(),
            distinct_keys(fields.list()),
            texts_ascend(texts(list@)),
            forall|t: Seq<char>| #[trigger]
                texts(list@).contains(t) <==> before.contains(t) || exists|j: int|
                    0 <= j < i && #[trigger] keyed(fields.list(), t, j),
        decreases n - i,
    {
        let key = fields.key_at(i);
        let ghost mid = texts(list@);
        insert_text(list, key);
        assert forall|t: Seq<char>| #[trigger]
            texts(list@).contains(t) <==> before.contains(t) || exists|j: int|
            0 <= j < i + 1 && #[trigger] keyed(fields.list(), t, j) by {
            assert(texts(list@).contains(t) <==> mid.contains(t) || t == key@);
            if t == key@ {
                assert(keyed(fields.list(), t, i as int));
            }
        }
        i += 1;
    }
    assert forall|t: Seq<char>| #[trigger]
        texts(list@).contains(t) <==> before.contains(t) || fields@.dom().contains(t) by {
        if fields@.dom().contains(t) {
            let j = choose|j: int| #[trigger] keyed(fields.list(), t, j);
            assert(keyed(fields.list(), t, j));
        }
    }
}

/// Whether a change has the path `k`.
#[verifier::opaque]
spec fn listed(changes: Seq<ConfigChange>, k: Seq<char>) -> bool {
    exists|i: int| 0 <= i < changes.len() && #[trigger] changes[i].path@ == k
}

/// Whether `k` is among the first `n` paths.
#[verifier::opaque]
spec fn among(paths: Seq<Seq<char>>, n: int, k: Seq<char>) -> bool {
    exists|j: int| 0 <= j < n && #[trigger] paths[j] == k
}

/// Whether `changes` are the differences among the first `n` of some ascending
/// paths.
spec fn is_diff_upto(
    changes: Seq<ConfigChange>,
    old: Map<Seq<char>, JsonModel>,
    new: Map<Seq<char>, JsonModel>,
    paths: Seq<Seq<char>>,
    n: int,
) -> bool {
    &&& forall|i: int, j: int|
        0 <= i < j < changes.len() ==> text_less(
            #[trigger] changes[i].path@,
            #[trigger] changes[j].path@,
        )
    &&& forall|i: int|
        0 <= i < changes.len() ==> {
            let c = #[trigger] changes[i];
            &&& differs(old, new, c.path@)
            &&& opt_model(c.old_value) == value_under(old, c.path@)
            &&& opt_model(c.new_value) == value_under(new, c.path@)
            &&& among(paths, n, c.path@)
        }
    &&& forall|j: int|
        0 <= j < n && differs(old, new, #[trigger] paths[j]) ==> listed(changes, paths[j])
}

proof fn lemma_diff_keep(
    changes: Seq<ConfigChange>,
    old: Map<Seq<char>, JsonModel>,
    new: Map<Seq<char>, JsonModel>,
    paths: Seq<Seq<char>>,
    n: int,
)
    requires
        0 <= n < paths.len(),
        is_diff_upto(changes, old, new, paths, n),
        !differs(old, new, paths[n]),
    ensures
        is_diff_upto(changes, old, new, paths, n + 1),
{
    assert forall|i: int| 0 <= i < changes.len() implies among(
        paths,
        n + 1,
        (#[trigger] changes[i]).path@,
    ) by {
        assert(among(paths, n, changes[i].path@));
        reveal(among);
    }
}

proof fn lemma_diff_add(
    changes: Seq<ConfigChange>,
    change: ConfigChange,
    old: Map<Seq<char>, JsonModel>,
    new: Map<Seq<char>, JsonModel>,
    paths: Seq<Seq<char>>,
    n: int,
)
    requires
        0 <= n < paths.len(),
        texts_ascend(paths),
        is_diff_upto(changes, old, new, paths, n),
        differs(old, new, paths[n]),
        change.path@ == paths[n],
        opt_model(change.old_value) == value_under(old, paths[n]),
        opt_model(change.new_value) == value_under(new, paths[n]),
    ensures
        is_diff_upto(changes.push(change), old, new, paths, n + 1),
{
    let after = changes.push(change);
    assert forall|i: int, j: int| 0 <= i < j < after.len() implies text_less(
        #[trigger] after[i].path@,
        #[trigger] after[j].path@,
    ) by {
        assert(after[i] == changes[i]);
        if j == changes.len() {
            assert(among(paths, n, changes[i].path@));
            assert(text_less(changes[i].path@, paths[n])) by {
                reveal(among);
                let k = choose|k: int| 0 <= k < n && #[trigger] paths[k] == changes[i].path@;
                assert(text_less(paths[k], paths[n]));
            }
        } else {
            assert(after[j] == changes[j]);
        }
    }
    assert forall|i: int| 0 <= i < after.len() implies among(
        paths,
        n + 1,
        (#[trigger] after[i]).path@,
    ) by {
        if i < changes.len() {
            assert(among(paths, n, changes[i].path@));
        }
        reveal(among);
        if i == changes.len() {
            assert(paths[n] == after[i].path@);
        }
    }
    assert forall|j: int| 0 <= j < n + 1 && differs(old, new, #[trigger] paths[j]) implies listed(
        after,
        paths[j],
    ) by {
        if j == n {
            assert(after[changes.len() as int].path@ == paths[j]);
            reveal(listed);
        } else {
            assert(listed(changes, paths[j]));
            reveal(listed);
            let i = choose|i: int|
                0 <= i < changes.len() && #[trigger] changes[i].path@ == paths[j];
            assert(after[i].path@ == paths[j]);
        }
    }
}

/// The changes between two snapshots.
pub fn diff_snapshots(old: &ConfigSnapshot, current: &ConfigSnapshot) -> (r: Vec<ConfigChange>)
    ensures
        is_diff(r@, old.values(), current.values()),
{
    let mut keys: Vec<String> = Vec::new();
    insert_keys(&mut keys, &old.fields);
    insert_keys(&mut keys, &current.fields);
    let ghost a = old.values();
    let ghost b = current.values();
    let ghost all = texts(keys@);
    let mut changes: Vec<ConfigChange> = Vec::new();
    let mut i: usize = 0;
    while i < keys.len()
        invariant
            i <= keys@.len(),
            a == old.values(),
            b == current.values(),
            all == texts(keys@),
            texts_ascend(all),
            is_diff_upto(changes@, a, b, all, i as int),
        decreases keys.len() - i,
    {
        let key = &keys[i];
        assert(all[i as int] == key@);
        match field_change(old, current, key) {
            Some(change) => {
                proof {
                    lemma_diff_add(changes@, change, a, b, all, i as int);
                }
                changes.push(change);
            },
            None => {
                proof {
                    lemma_diff_keep(changes@, a, b, all, i as int);
                }
            },
        }
        i += 1;
    }
    assert forall|k: Seq<char>| #[trigger] differs(a, b, k) implies exists|x: int|
        0 <= x < changes@.len() && #[trigger] changes@[x].path@ == k by {
        assert(old.fields@.dom().contains(k) || current.fields@.dom().contains(k));
        assert(all.contains(k));
        let j = choose|j: int| 0 <= j < all.len() && all[j] == k;
        assert(differs(a, b, all[j]));
        assert(listed(changes@, k));
        reveal(listed);
    }
    changes
}

/// The change of one field between two snapshots, if it differs.
fn field_change(old: &ConfigSnapshot, current: &ConfigSnapshot, key: &String) -> (r: Option<
    ConfigChange,
>)
    ensures
        r is Some == differs(old.values(), current.values(), key@),
        r matches Some(c) ==> c.path@ == key@ && opt_model(c.old_value) == value_under(
            old.values(),
            key@,
        ) && opt_model(c.new_value) == value_under(current.values(), key@),
{
    let old_val = old.fields.get(key);
    let new_val = current.fields.get(key);
    let unchanged = match (old_val, new_val) {
        (Some(x), Some(y)) => json_equal(x, y),
        (None, None) => true,
        _ => false,
    };
    if unchanged {
        None
    } else {
        Some(
            ConfigChange {
                path: key.clone(),
                old_value: match old_val {
                    Some(v) => Some(v.clone()),
                    None => None,
                },
                new_value: match new_val {
                    Some(v) => Some(v.clone()),
                    None => None,
                },
            },
        )
    }
}

/// Current revision of a whole configuration, given in its serialized form.
pub fn config_revision(serialized: &Json) -> (r: String)
    ensures
        r@ == fingerprint(serialized@),
        r@.len() == 64,
{
    config_json_hash(serialized)
}

// ---------------------------------------------------------------------------
// Laws
// ---------------------------------------------------------------------------

/// A snapshot compared with the same values shows no change.
pub proof fn law_unchanged_values_have_no_diff(
    changes: Seq<ConfigChange>,
    values: Map<Seq<char>, JsonModel>,
)
    requires
        is_diff(changes, values, values),
    ensures
        changes.len() == 0,
{
    if changes.len() > 0 {
        let k = changes[0].path@;
        assert(differs(values, values, k));
        if values.dom().contains(k) {
            lemma_alike_reflexive(canonical(values[k]));
        }
    }
}

/// Two lists of changes between the same values name the same fields in the same
/// order.
pub proof fn law_diff_is_determined(
    a: Seq<ConfigChange>,
    b: Seq<ConfigChange>,
    old: Map<Seq<char>, JsonModel>,
    new: Map<Seq<char>, JsonModel>,
)
    requires
        is_diff(a, old, new),
        is_diff(b, old, new),
    ensures
        a.map_values(|c: ConfigChange| c.path@) == b.map_values(|c: ConfigChange| c.path@),
{
    let x = a.map_values(|c: ConfigChange| (c.path@, ()));
    let y = b.map_values(|c: ConfigChange| (c.path@, ()));
    assert(crate::json::ascending(x)) by {
        assert forall|i: int, j: int| 0 <= i < j < x.len() implies text_less(
            #[trigger] x[i].0,
            #[trigger] x[j].0,
        ) by {
            assert(text_less(a[i].path@, a[j].path@));
        }
    }
    assert(crate::json::ascending(y)) by {
        assert forall|i: int, j: int| 0 <= i < j < y.len() implies text_less(
            #[trigger] y[i].0,
            #[trigger] y[j].0,
        ) by {
            assert(text_less(b[i].path@, b[j].path@));
        }
    }
    assert forall|q: (Seq<char>, ())|
        #![trigger x.contains(q)]
        #![trigger y.contains(q)]
        x.contains(q) <==> y.contains(q) by {
        if x.contains(q) {
            let i = choose|i: int| 0 <= i < x.len() && x[i] == q;
            assert(differs(old, new, a[i].path@));
            let j = choose|j: int| 0 <= j < b.len() && #[trigger] b[j].path@ == a[i].path@;
            assert(y[j] == q);
        }
        if y.contains(q) {
            let i = choose|i: int| 0 <= i < y.len() && y[i] == q;
            assert(differs(old, new, b[i].path@));
            let j = choose|j: int| 0 <= j < a.len() && #[trigger] a[j].path@ == b[i].path@;
            assert(x[j] == q);
        }
    }
    crate::json::lemma_ascending_unique(x, y);
    let p = a.map_values(|c: ConfigChange| c.path@);
    let q = b.map_values(|c: ConfigChange| c.path@);
    assert(p.len() == q.len());
    assert forall|i: int| 0 <= i < p.len() implies p[i] == q[i] by {
        assert(x[i].0 == y[i].0);
    }
    assert(p =~= q);
}

/// Setting an override to the value that it has changes nothing and says so,
/// unless the value is a temperature that is not a number.
pub proof fn law_setting_again_changes_nothing(
    o: OverridesModel,
    name: Seq<char>,
    value: JsonModel,
)
    requires
        field_outcome(o, name, value) is Ok,
        name == "temperature"@ ==> (value matches JsonModel::Number(_, _, bits)
            ==> crate::scalar::magnitude(crate::scalar::Single { bits }) <= 0x7f80_0000),
    ensures
        field_outcome(field_outcome(o, name, value)->Ok_0.0, name, value) == Ok::<
            (OverridesModel, bool),
            Seq<char>,
        >((field_outcome(o, name, value)->Ok_0.0, false)),
{
    let after = field_outcome(o, name, value)->Ok_0.0;
    let again = field_outcome(after, name, value)->Ok_0.0;
    assert(again == after);
}

/// Null clears a field: what was set is undone, and an agent that had no
/// overrides has none again.
pub proof fn law_null_undoes_a_setting(name: Seq<char>, value: JsonModel)
    requires
        field_outcome(no_overrides(), name, value) is Ok,
    ensures
        field_outcome(
            field_outcome(no_overrides(), name, value)->Ok_0.0,
            name,
            JsonModel::Null,
        ) matches Ok((after, _)) && after == no_overrides(),
{
}

} // verus!
