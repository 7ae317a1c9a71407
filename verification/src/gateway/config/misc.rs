//! Update, observability, agent-override, storage and channel configuration.
use vstd::prelude::*;

use crate::agent::AgentConfig;
use crate::json::{unsigned_of, Json, JsonModel};
use crate::scalar::{single_equal, singles_equal, Single};
use crate::strmap::StrMap;
use crate::text::{cat, is_one_of, opt_text, same, texts};

verus! {

/// Online update (self-update) configuration.
#[derive(Debug, Clone)]
pub struct UpdateConfig {
    /// Master switch for online updates.
    pub enabled: bool,
    /// Check for new releases in the background at daemon startup.
    pub auto_check: bool,
}

impl Default for UpdateConfig {
    fn default() -> (r: Self)
        ensures
            r == (UpdateConfig { enabled: true, auto_check: true }),
    {
        UpdateConfig { enabled: true, auto_check: true }
    }
}

/// Observability (per-turn records) retention configuration.
#[derive(Debug, Clone)]
pub struct ObserveConfig {
    /// Keep turn records for this many days; `0` disables auto-cleanup.
    pub retention_days: u32,
}

impl Default for ObserveConfig {
    fn default() -> (r: Self)
        ensures
            r.retention_days == 30,
    {
        ObserveConfig { retention_days: 30 }
    }
}

// ---------------------------------------------------------------------------
// Agent overrides
// ---------------------------------------------------------------------------

/// Per-agent parameter overrides layered on top of an agent's base config.
///
/// `None` fields mean "inherit the base value".
#[derive(Debug)]
pub struct AgentOverrides {
    /// Default temperature for completions.
    pub temperature: Option<Single>,
    /// Maximum tokens per completion.
    pub max_tokens: Option<u32>,
    /// Hard cap on conversation turns kept in context.
    pub max_turns: Option<usize>,
    /// Maximum number of concurrent tool calls.
    pub max_concurrent_tools: Option<usize>,
    /// Restrict file operations to the agent's workspace directory.
    pub workspace_only: Option<bool>,
    /// Overrides the personality-derived system prompt when set.
    pub system_prompt: Option<String>,
    /// Maximum context window size (in tokens).
    pub max_context_tokens: Option<usize>,
}

/// What the overrides of an agent are.
pub struct OverridesModel {
    pub temperature: Option<Single>,
    pub max_tokens: Option<u32>,
    pub max_turns: Option<usize>,
    pub max_concurrent_tools: Option<usize>,
    pub workspace_only: Option<bool>,
    pub system_prompt: Option<Seq<char>>,
    pub max_context_tokens: Option<usize>,
}

impl View for AgentOverrides {
    type V = OverridesModel;

    open spec fn view(&self) -> OverridesModel {
        OverridesModel {
            temperature: self.temperature,
            max_tokens: self.max_tokens,
            max_turns: self.max_turns,
            max_concurrent_tools: self.max_concurrent_tools,
            workspace_only: self.workspace_only,
            system_prompt: opt_text(self.system_prompt),
            max_context_tokens: self.max_context_tokens,
        }
    }
}

/// The overrides that override nothing.
pub open spec fn no_overrides() -> OverridesModel {
    OverridesModel {
        temperature: None,
        max_tokens: None,
        max_turns: None,
        max_concurrent_tools: None,
        workspace_only: None,
        system_prompt: None,
        max_context_tokens: None,
    }
}

impl Default for AgentOverrides {
    fn default() -> (r: Self)
        ensures
            r@ == no_overrides(),
    {
        AgentOverrides {
            temperature: None,
            max_tokens: None,
            max_turns: None,
            max_concurrent_tools: None,
            workspace_only: None,
            system_prompt: None,
            max_context_tokens: None,
        }
    }
}

impl Clone for AgentOverrides {
    fn clone(&self) -> (r: Self)
        ensures
            r == *self,
    {
        AgentOverrides {
            temperature: self.temperature,
            max_tokens: self.max_tokens,
            max_turns: self.max_turns,
            max_concurrent_tools: self.max_concurrent_tools,
            workspace_only: self.workspace_only,
            system_prompt: self.system_prompt.clone(),
            max_context_tokens: self.max_context_tokens,
        }
    }
}

/// The overriding value, else the base one.
pub open spec fn over<T>(over: Option<T>, base: T) -> T {
    match over {
        Some(v) => v,
        None => base,
    }
}

/// Whether `after` is `before` with the overrides laid over it.
pub open spec fn overlaid(o: OverridesModel, before: AgentConfig, after: AgentConfig) -> bool {
    &&& after.agent_id == before.agent_id
    &&& after.temperature == over(o.temperature, before.temperature)
    &&& after.max_tokens == over(o.max_tokens, before.max_tokens)
    &&& after.max_turns == if o.max_turns is Some {
        o.max_turns
    } else {
        before.max_turns
    }
    &&& after.max_concurrent_tools == over(o.max_concurrent_tools, before.max_concurrent_tools)
    &&& after.workspace_only == over(o.workspace_only, before.workspace_only)
    &&& after.system_prompt@ == over(o.system_prompt, before.system_prompt@)
    &&& after.max_context_tokens == over(o.max_context_tokens, before.max_context_tokens)
}

impl AgentOverrides {
    /// True when no field is overridden.
    pub fn is_empty(&self) -> (r: bool)
        ensures
            r == (self@ == no_overrides()),
    {
        self.temperature.is_none() && self.max_tokens.is_none() && self.max_turns.is_none()
            && self.max_concurrent_tools.is_none() && self.workspace_only.is_none()
            && self.system_prompt.is_none() && self.max_context_tokens.is_none()
    }

    /// Overlay every non-`None` field onto a base `AgentConfig`.
    pub fn apply_to(&self, cfg: &mut AgentConfig)
        ensures
            overlaid(self@, *old(cfg), *final(cfg)),
    {
        if let Some(v) = self.temperature {
            cfg.temperature = v;
        }
        if let Some(v) = self.max_tokens {
            cfg.max_tokens = v;
        }
        if let Some(v) = self.max_turns {
            cfg.max_turns = Some(v);
        }
        if let Some(v) = self.max_concurrent_tools {
            cfg.max_concurrent_tools = v;
        }
        if let Some(v) = self.workspace_only {
            cfg.workspace_only = v;
        }
        if let Some(v) = &self.system_prompt {
            cfg.system_prompt = v.clone();
        }
        if let Some(v) = self.max_context_tokens {
            cfg.max_context_tokens = v;
        }
    }

    /// These overrides with one field set, replaced or cleared from a JSON value,
    /// and whether that changed anything; or what is wrong with the value.
    pub fn with_field(&self, field: &str, value: &Json) -> (r: Result<
        (AgentOverrides, bool),
        String,
    >)
        ensures
            match field_outcome(self@, field@, value@) {
                Ok((after, changed)) => r matches Ok(pair) && pair.0@ == after && pair.1 == changed,
                Err(message) => r matches Err(e) && e@ == message,
            },
    {
        let mut next = self.clone();
        let changed: bool;
        if same(field, "temperature") {
            if value.is_null() {
                changed = self.temperature.is_some();
                next.temperature = None;
            } else {
                match value.as_single_bits() {
                    Some(bits) => {
                        changed = match self.temperature {
                            Some(t) => !singles_equal(t, Single { bits }),
                            None => true,
                        };
                        next.temperature = Some(Single { bits });
                    },
                    None => {
                        return Err("temperature must be a number".to_string());
                    },
                }
            }
        } else if same(field, "max_tokens") {
            if value.is_null() {
                changed = self.max_tokens.is_some();
                next.max_tokens = None;
            } else {
                match value.as_u64() {
                    Some(n) if n <= 0xffff_ffff => {
                        changed = match self.max_tokens {
                            Some(t) => t != n as u32,
                            None => true,
                        };
                        next.max_tokens = Some(n as u32);
                    },
                    _ => {
                        return Err("max_tokens must be a non-negative integer".to_string());
                    },
                }
            }
        } else if same(field, "max_turns") {
            match size_setting(self.max_turns, value) {
                Some((v, c)) => {
                    next.max_turns = v;
                    changed = c;
                },
                None => {
                    return Err("max_turns must be a non-negative integer".to_string());
                },
            }
        } else if same(field, "max_concurrent_tools") {
            match size_setting(self.max_concurrent_tools, value) {
                Some((v, c)) => {
                    next.max_concurrent_tools = v;
                    changed = c;
                },
                None => {
                    return Err("max_concurrent_tools must be a non-negative integer".to_string());
                },
            }
        } else if same(field, "workspace_only") {
            if value.is_null() {
                changed = self.workspace_only.is_some();
                next.workspace_only = None;
            } else {
                match value.as_bool() {
                    Some(b) => {
                        changed = match self.workspace_only {
                            Some(t) => t != b,
                            None => true,
                        };
                        next.workspace_only = Some(b);
                    },
                    None => {
                        return Err("workspace_only must be a boolean".to_string());
                    },
                }
            }
        } else if same(field, "system_prompt") {
            if value.is_null() {
                changed = self.system_prompt.is_some();
                next.system_prompt = None;
            } else {
                match value.as_str() {
                    Some(s) => {
                        if s.as_str().is_empty() {
                            changed = self.system_prompt.is_some();
                            next.system_prompt = None;
                        } else {
                            changed = match &self.system_prompt {
                                Some(t) => !same(t, s),
                                None => true,
                            };
                            next.system_prompt = Some(s.clone());
                        }
                    },
                    None => {
                        return Err("system_prompt must be a string".to_string());
                    },
                }
            }
        } else if same(field, "max_context_tokens") {
            match size_setting(self.max_context_tokens, value) {
                Some((v, c)) => {
                    next.max_context_tokens = v;
                    changed = c;
                },
                None => {
                    return Err("max_context_tokens must be a non-negative integer".to_string());
                },
            }
        } else {
            return Err(cat("Unknown agent parameter field: ", field));
        }
        Ok((next, changed))
    }
}

/// The size that a value stands for, if it is one.
pub open spec fn size_of(v: JsonModel) -> Option<usize> {
    match unsigned_of(v) {
        Some(n) => if n <= usize::MAX {
            Some(n as usize)
        } else {
            None
        },
        None => None,
    }
}

/// What a size setting becomes and whether it changes: null clears it, a size
/// sets it, and everything else is refused.
pub open spec fn size_outcome(before: Option<usize>, v: JsonModel) -> Option<
    (Option<usize>, bool),
> {
    if v is Null {
        Some((None, before is Some))
    } else {
        match size_of(v) {
            Some(n) => Some((Some(n), before != Some(n))),
            None => None,
        }
    }
}

fn size_setting(before: Option<usize>, value: &Json) -> (r: Option<(Option<usize>, bool)>)
    ensures
        r == size_outcome(before, value@),
{
    if value.is_null() {
        Some((None, before.is_some()))
    } else {
        match value.as_u64() {
            Some(n) => {
                if n <= usize::MAX as u64 {
                    let c = match before {
                        Some(t) => t != n as usize,
                        None => true,
                    };
                    Some((Some(n as usize), c))
                } else {
                    None
                }
            },
            None => None,
        }
    }
}

/// What the overrides become when a field is set from a JSON value, and whether
/// that changes anything; or what is wrong with the field or the value. Null
/// clears a field; for the prompt so does the empty text.
pub open spec fn field_outcome(o: OverridesModel, field: Seq<char>, v: JsonModel) -> Result<
    (OverridesModel, bool),
    Seq<char>,
> {
    if field == "temperature"@ {
        match v {
            JsonModel::Null => Ok((
                OverridesModel { temperature: None, ..o },
                o.temperature is Some,
            )),
            JsonModel::Number(_, _, bits) => Ok((
                OverridesModel { temperature: Some(Single { bits }), ..o },
                !(o.temperature is Some && single_equal(o.temperature->0, Single { bits })),
            )),
            _ => Err("temperature must be a number"@),
        }
    } else if field == "max_tokens"@ {
        if v is Null {
            Ok((OverridesModel { max_tokens: None, ..o }, o.max_tokens is Some))
        } else {
            match unsigned_of(v) {
                Some(n) => if n <= u32::MAX {
                    Ok((
                        OverridesModel { max_tokens: Some(n as u32), ..o },
                        o.max_tokens != Some(n as u32),
                    ))
                } else {
                    Err("max_tokens must be a non-negative integer"@)
                },
                None => Err("max_tokens must be a non-negative integer"@),
            }
        }
    } else if field == "max_turns"@ {
        match size_outcome(o.max_turns, v) {
            Some((after, changed)) => Ok((OverridesModel { max_turns: after, ..o }, changed)),
            None => Err("max_turns must be a non-negative integer"@),
        }
    } else if field == "max_concurrent_tools"@ {
        match size_outcome(o.max_concurrent_tools, v) {
            Some((after, changed)) => Ok((
                OverridesModel { max_concurrent_tools: after, ..o },
                changed,
            )),
            None => Err("max_concurrent_tools must be a non-negative integer"@),
        }
    } else if field == "workspace_only"@ {
        match v {
            JsonModel::Null => Ok((
                OverridesModel { workspace_only: None, ..o },
                o.workspace_only is Some,
            )),
            JsonModel::Bool(b) => Ok((
                OverridesModel { workspace_only: Some(b), ..o },
                o.workspace_only != Some(b),
            )),
            _ => Err("workspace_only must be a boolean"@),
        }
    } else if field == "system_prompt"@ {
        match v {
            JsonModel::Text(s) => if s.len() > 0 {
                Ok((OverridesModel { system_prompt: Some(s), ..o }, o.system_prompt != Some(s)))
            } else {
                Ok((OverridesModel { system_prompt: None, ..o }, o.system_prompt is Some))
            },
            JsonModel::Null => Ok((
                OverridesModel { system_prompt: None, ..o },
                o.system_prompt is Some,
            )),
            _ => Err("system_prompt must be a string"@),
        }
    } else if field == "max_context_tokens"@ {
        match size_outcome(o.max_context_tokens, v) {
            Some((after, changed)) => Ok((
                OverridesModel { max_context_tokens: after, ..o },
                changed,
            )),
            None => Err("max_context_tokens must be a non-negative integer"@),
        }
    } else {
        Err("Unknown agent parameter field: "@ + field)
    }
}

// ---------------------------------------------------------------------------
// Storage and channels
// ---------------------------------------------------------------------------

/// Storage adapter configuration
#[derive(Debug, Clone)]
pub struct StorageConfig {
    /// Storage type: "memory", "file", "sqlite"
    pub storage_type: String,
    /// Base path for file/SQLite storage
    pub base_path: Option<String>,
    /// SQLite database URL (if using sqlite)
    pub database_url: Option<String>,
}

impl Default for StorageConfig {
    fn default() -> (r: Self)
        ensures
            r.storage_type@ == "sqlite"@,
            r.base_path is None,
            r.database_url is None,
    {
        StorageConfig {
            storage_type: "sqlite".to_string(),
            base_path: None,
            database_url: None,
        }
    }
}

/// The messaging service behind a channel.
#[derive(Debug, Clone)]
pub enum ChannelType {
    Telegram,
    Slack,
    Discord,
    /// Another service, by its name.
    Other(String),
}

/// Who may write to a channel directly.
#[derive(Debug, Clone, Copy, PartialEq, Eq, Structural)]
pub enum DmPolicy {
    /// Everybody.
    Open,
    /// Paired users.
    Pairing,
    /// Users on the allowlist.
    Allowlist,
}

/// Channel-specific configuration
#[derive(Debug, Clone)]
pub struct ChannelConfig {
    /// Channel type
    pub channel_type: ChannelType,
    /// Whether channel is enabled
    pub enabled: bool,
    /// Channel-specific credentials/tokens
    pub credentials: StrMap<String>,
    /// DM policy: open, pairing, or allowlist
    pub dm_policy: DmPolicy,
    /// Require explicit mention in group chats (ignored for DMs)
    pub require_mention: bool,
    /// Allowlist of users/numbers (for allowlist policy)
    pub allow_from: Vec<String>,
    /// Blocklist of users/numbers
    pub block_from: Vec<String>,
    /// Agent ID to route to (None = default)
    pub agent_id: Option<String>,
}

/// Channels default to enabled, matching what `ChannelConfig::new` sets.
pub fn default_channel_enabled() -> (r: bool)
    ensures
        r,
{
    true
}

impl ChannelConfig {
    /// Create a new channel config with open policy (default).
    pub fn new(channel_type: ChannelType) -> (r: Self)
        ensures
            r.channel_type == channel_type,
            r.enabled,
            r.credentials@ == Map::<Seq<char>, String>::empty(),
            r.dm_policy == DmPolicy::Open,
            !r.require_mention,
            r.allow_from@.len() == 0,
            r.block_from@.len() == 0,
            r.agent_id is None,
    {
        ChannelConfig {
            channel_type,
            enabled: true,
            credentials: StrMap::new(),
            dm_policy: DmPolicy::Open,
            require_mention: false,
            allow_from: Vec::new(),
            block_from: Vec::new(),
            agent_id: None,
        }
    }

    /// Set the DM policy.
    pub fn with_dm_policy(self, policy: DmPolicy) -> (r: Self)
        ensures
            r == (ChannelConfig { dm_policy: policy, ..self }),
    {
        ChannelConfig { dm_policy: policy, ..self }
    }

    /// Set the allowlist.
    pub fn with_allow_from(self, allow_from: Vec<String>) -> (r: Self)
        ensures
            r == (ChannelConfig { allow_from: allow_from, ..self }),
    {
        ChannelConfig { allow_from, ..self }
    }

    /// Check if a user is in the allowlist.
    pub fn is_in_allowlist(&self, user_id: &str) -> (r: bool)
        ensures
            r == texts(self.allow_from@).contains(user_id@),
    {
        is_one_of(self.allow_from.as_slice(), user_id)
    }

    /// Check if a user is blocked.
    pub fn is_blocked(&self, user_id: &str) -> (r: bool)
        ensures
            r == texts(self.block_from@).contains(user_id@),
    {
        is_one_of(self.block_from.as_slice(), user_id)
    }
}

} // verus!
