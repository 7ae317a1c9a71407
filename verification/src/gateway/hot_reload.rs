//! Hot reload: what a changed configuration file asks of the running gateway.
use vstd::prelude::*;
use vstd::string::*;

use super::config::memory::{same_search, same_text_map, same_texts, text_map};
use super::config::misc::ChannelConfig;
use super::config::GatewayConfig;
use crate::path::{
    component_below, components, directory, directory_name, file_stem, first_below, last_name,
    path_stem,
};
use crate::strmap::{distinct_keys, keyed, StrMap};
use crate::text::{cat, decimal, decimal_of_usize, is_one_of, lemma_filter_has, opt_text, texts};

verus! {

// ---------------------------------------------------------------------------
// The main configuration: channels
// ---------------------------------------------------------------------------

/// What becomes of the channels when the main configuration changes.
#[derive(Debug)]
pub struct ChannelPlan {
    /// Channels to stop: removed from the configuration, or disabled in it.
    pub stop: Vec<String>,
    /// Channels to stop and start with their new configuration.
    pub restart: Vec<String>,
    /// Channels to start.
    pub start: Vec<String>,
}

/// Whether the configuration has the channel, enabled.
pub open spec fn enabled_in(channels: Map<Seq<char>, ChannelConfig>, name: Seq<char>) -> bool {
    channels.dom().contains(name) && channels[name].enabled
}

/// Whether a channel's new configuration asks for a restart.
pub open spec fn channel_changed(old: ChannelConfig, new: ChannelConfig) -> bool {
    ||| text_map(old.credentials@) != text_map(new.credentials@)
    ||| texts(old.allow_from@) != texts(new.allow_from@)
    ||| texts(old.block_from@) != texts(new.block_from@)
    ||| old.dm_policy != new.dm_policy
}

/// Whether a running channel is to be restarted: one that the former
/// configuration lacks is.
pub open spec fn needs_restart(
    old: Map<Seq<char>, ChannelConfig>,
    new: Map<Seq<char>, ChannelConfig>,
    name: Seq<char>,
) -> bool {
    old.dom().contains(name) ==> channel_changed(old[name], new[name])
}

/// The names in a configuration, in its order.
pub open spec fn names(entries: Seq<(String, ChannelConfig)>) -> Seq<Seq<char>> {
    entries.map_values(|e: (String, ChannelConfig)| e.0@)
}

/// The names to stop, among those that run.
pub open spec fn to_stop(running: Seq<Seq<char>>, new: Map<Seq<char>, ChannelConfig>) -> Seq<
    Seq<char>,
> {
    running.filter(|n: Seq<char>| !enabled_in(new, n))
}

/// The names to restart, among those configured.
pub open spec fn to_restart(
    running: Seq<Seq<char>>,
    old: Map<Seq<char>, ChannelConfig>,
    new: StrMap<ChannelConfig>,
) -> Seq<Seq<char>> {
    names(new.list()).filter(
        |n: Seq<char>| enabled_in(new@, n) && running.contains(n) && needs_restart(old, new@, n),
    )
}

/// The names to start, among those configured.
pub open spec fn to_start(running: Seq<Seq<char>>, new: StrMap<ChannelConfig>) -> Seq<Seq<char>> {
    names(new.list()).filter(|n: Seq<char>| enabled_in(new@, n) && !running.contains(n))
}

fn is_channel_changed(old: &ChannelConfig, new: &ChannelConfig) -> (r: bool)
    ensures
        r == channel_changed(*old, *new),
{
    !same_text_map(&old.credentials, &new.credentials) || !same_texts(
        &old.allow_from,
        &new.allow_from,
    ) || !same_texts(&old.block_from, &new.block_from) || old.dm_policy != new.dm_policy
}

fn channels_to_stop(running: &[String], new: &StrMap<ChannelConfig>) -> (r: Vec<String>)
    ensures
        texts(r@) == to_stop(texts(running@), new@),
{
    let mut out: Vec<String> = Vec::new();
    let ghost p = |n: Seq<char>| !enabled_in(new@, n);
    let ghost all = texts(running@);
    let mut i: usize = 0;
    assert(texts(out@) =~= all.take(0).filter(p)) by {
        reveal(Seq::filter);
    }
    while i < running.len()
        invariant
            i <= running@.len(),
            all == texts(running@),
            p == (|n: Seq<char>| !enabled_in(new@, n)),
            texts(out@) == all.take(i as int).filter(p),
        decreases running.len() - i,
    {
        let enabled = match new.get(&running[i]) {
            Some(cfg) => cfg.enabled,
            None => false,
        };
        let ghost before = out@;
        proof {
            assert(all.take(i + 1) =~= all.take(i as int).push(all[i as int]));
            all.take(i as int).lemma_filter_push(all[i as int], p);
        }
        if !enabled {
            out.push(running[i].clone());
            assert(texts(out@) =~= texts(before).push(all[i as int]));
        }
        i += 1;
    }
    assert(all.take(running@.len() as int) =~= all);
    out
}

/// What becomes of the channels when the main configuration changes from `old`
/// to `new` while `running` run.
pub fn plan_channels(
    running: &[String],
    old: &StrMap<ChannelConfig>,
    new: &StrMap<ChannelConfig>,
) -> (r: ChannelPlan)
    ensures
        texts(r.stop@) == to_stop(texts(running@), new@),
        texts(r.restart@) == to_restart(texts(running@), old@, *new),
        texts(r.start@) == to_start(texts(running@), *new),
{
    let stop = channels_to_stop(running, new);
    let mut restart: Vec<String> = Vec::new();
    let mut start: Vec<String> = Vec::new();
    let ghost live = texts(running@);
    let ghost p = |n: Seq<char>|
        enabled_in(new@, n) && live.contains(n) && needs_restart(old@, new@, n);
    let ghost q = |n: Seq<char>| enabled_in(new@, n) && !live.contains(n);
    let ghost all = names(new.list());
    let n = new.len();
    let mut i: usize = 0;
    assert(all.take(0) =~= Seq::empty());
    assert(texts(restart@) =~= all.take(0).filter(p)) by {
        reveal(Seq::filter);
    }
    assert(texts(start@) =~= all.take(0).filter(q)) by {
        reveal(Seq::filter);
    }
    while i < n
        invariant
            i <= n,
            n == new.list().len(),
            distinct_keys(new.list()),
            live == texts(running@),
            all == names(new.list()),
            p == (|n: Seq<char>|
                enabled_in(new@, n) && live.contains(n) && needs_restart(old@, new@, n)),
            q == (|n: Seq<char>| enabled_in(new@, n) && !live.contains(n)),
            texts(restart@) == all.take(i as int).filter(p),
            texts(start@) == all.take(i as int).filter(q),
        decreases n - i,
    {
        let name = new.key_at(i);
        let cfg = new.value_at(i);
        let ghost r0 = restart@;
        let ghost s0 = start@;
        proof {
            assert(all[i as int] == name@);
            assert(all.take(i + 1) =~= all.take(i as int).push(name@));
            all.take(i as int).lemma_filter_push(name@, p);
            all.take(i as int).lemma_filter_push(name@, q);
            assert(enabled_in(new@, name@) == cfg.enabled);
        }
        if cfg.enabled {
            if is_one_of(running, name) {
                let changed = match old.get(name) {
                    Some(o) => is_channel_changed(o, cfg),
                    None => true,
                };
                if changed {
                    restart.push(name.clone());
                    assert(texts(restart@) =~= texts(r0).push(name@));
                }
            } else {
                start.push(name.clone());
                assert(texts(start@) =~= texts(s0).push(name@));
            }
        }
        i += 1;
    }
    assert(all.take(n as int) =~= all);
    ChannelPlan { stop, restart, start }
}

/// After a reload exactly the enabled channels run: those that ran and were not
/// stopped, and those that were started. No channel is both stopped and
/// restarted or started.
pub proof fn law_enabled_channels_run_after_a_reload(
    running: Seq<Seq<char>>,
    old: Map<Seq<char>, ChannelConfig>,
    new: StrMap<ChannelConfig>,
    name: Seq<char>,
)
    ensures
        enabled_in(new@, name) <==> (running.contains(name) && !to_stop(running, new@).contains(
            name,
        )) || to_start(running, new).contains(name),
        !(to_stop(running, new@).contains(name) && to_restart(running, old, new).contains(name)),
        !(to_stop(running, new@).contains(name) && to_start(running, new).contains(name)),
        !(to_restart(running, old, new).contains(name) && to_start(running, new).contains(name)),
{
    let p = |n: Seq<char>| !enabled_in(new@, n);
    let q = |n: Seq<char>| enabled_in(new@, n) && !running.contains(n);
    let r = |n: Seq<char>|
        enabled_in(new@, n) && running.contains(n) && needs_restart(old, new@, n);
    let all = names(new.list());
    lemma_filter_has(running, p, name);
    lemma_filter_has(all, q, name);
    lemma_filter_has(all, r, name);
    if enabled_in(new@, name) {
        let j = choose|j: int| #[trigger] keyed(new.list(), name, j);
        assert(keyed(new.list(), name, j));
        assert(all[j] == name);
        assert(all.contains(name));
    }
}

// ---------------------------------------------------------------------------
// Changed files
// ---------------------------------------------------------------------------

/// The kinds of files that are watched.
#[derive(Debug, Clone, Copy, PartialEq, Eq, Structural)]
pub enum ConfigFileType {
    Main,
    Agent,
    Channel,
    Plugin,
    Gateway,
    KnowledgeBase,
}

/// What a changed file is about.
#[derive(Debug)]
pub enum ChangedSubject {
    /// The main configuration.
    Main,
    /// The configuration of an agent.
    Agent(String),
    /// The configuration of a channel.
    Channel(String),
    /// The files of a plugin.
    Plugin(String),
    /// The configuration of the gateway.
    Gateway,
    /// The knowledge base of an agent, which is to be read again.
    KnowledgeBase(String),
    /// Nothing that asks for anything.
    Nothing,
}

/// The agent or channel that a file configures: the one of its name.
pub open spec fn configured_name(path: Seq<char>) -> Seq<char> {
    match path_stem(path) {
        Some(s) => s,
        None => "unknown"@,
    }
}

/// The plugin that a file belongs to: the one of its directory.
pub open spec fn plugin_of(path: Seq<char>) -> Option<Seq<char>> {
    last_name(directory(components(path)))
}

/// Whether a changed file is about a subject.
pub open spec fn is_about(
    kind: ConfigFileType,
    path: Seq<char>,
    deleted: bool,
    agents_dir: Seq<char>,
    subject: ChangedSubject,
) -> bool {
    match kind {
        ConfigFileType::Main => subject is Main,
        ConfigFileType::Agent => subject matches ChangedSubject::Agent(name) && name@
            == configured_name(path),
        ConfigFileType::Channel => subject matches ChangedSubject::Channel(name) && name@
            == configured_name(path),
        ConfigFileType::Plugin => match plugin_of(path) {
            Some(id) if id.len() > 0 => subject matches ChangedSubject::Plugin(p) && p@ == id,
            _ => subject is Nothing,
        },
        ConfigFileType::Gateway => subject is Gateway,
        ConfigFileType::KnowledgeBase => match first_below(path, agents_dir) {
            Some(agent) if !deleted => subject matches ChangedSubject::KnowledgeBase(a) && a@
                == agent,
            _ => subject is Nothing,
        },
    }
}

fn name_of_file(path: &str) -> (r: String)
    ensures
        r@ == configured_name(path@),
{
    match file_stem(path) {
        Some(s) => s,
        None => "unknown".to_string(),
    }
}

/// What a changed file is about. A plugin goes by the name of the file's
/// directory, a knowledge base by the agent's directory that the file lies in;
/// one that was deleted asks for nothing.
pub fn changed_subject(kind: ConfigFileType, path: &str, deleted: bool, agents_dir: &str) -> (r:
    ChangedSubject)
    ensures
        is_about(kind, path@, deleted, agents_dir@, r),
{
    match kind {
        ConfigFileType::Main => ChangedSubject::Main,
        ConfigFileType::Agent => ChangedSubject::Agent(name_of_file(path)),
        ConfigFileType::Channel => ChangedSubject::Channel(name_of_file(path)),
        ConfigFileType::Plugin => match directory_name(path) {
            Some(id) => {
                if id.as_str().is_empty() {
                    ChangedSubject::Nothing
                } else {
                    ChangedSubject::Plugin(id)
                }
            },
            None => ChangedSubject::Nothing,
        },
        ConfigFileType::Gateway => ChangedSubject::Gateway,
        ConfigFileType::KnowledgeBase => match component_below(path, agents_dir) {
            Some(agent) => {
                if deleted {
                    ChangedSubject::Nothing
                } else {
                    ChangedSubject::KnowledgeBase(agent)
                }
            },
            None => ChangedSubject::Nothing,
        },
    }
}

/// What a changed agent file asks for.
#[derive(Debug, Clone, Copy, PartialEq, Eq, Structural)]
pub enum AgentFileAction {
    /// Give the running agent its new configuration.
    SendUpdate,
    /// The configuration applies when the agent is started.
    Wait,
}

/// What a changed agent file asks for.
pub fn on_agent_file(agent_name: &str, running: &[String]) -> (r: AgentFileAction)
    ensures
        r == if texts(running@).contains(agent_name@) {
            AgentFileAction::SendUpdate
        } else {
            AgentFileAction::Wait
        },
{
    if is_one_of(running, agent_name) {
        AgentFileAction::SendUpdate
    } else {
        AgentFileAction::Wait
    }
}

/// What a changed channel file asks for: the running channel is stopped in any
/// case, and an enabled one is started again.
#[derive(Debug, Clone, Copy, PartialEq, Eq, Structural)]
pub struct ChannelFileAction {
    pub stop: bool,
    pub start: bool,
}

/// What a changed channel file asks for.
pub fn on_channel_file(name: &str, running: &[String], new: &ChannelConfig) -> (r:
    ChannelFileAction)
    ensures
        r.stop == texts(running@).contains(name@),
        r.start == new.enabled,
{
    ChannelFileAction { stop: is_one_of(running, name), start: new.enabled }
}

/// Where the reload of a plugin stands, from the first stage on.
#[derive(Debug, Clone, Copy, PartialEq, Eq, Structural)]
pub enum PluginStage {
    /// A reload that keeps the plugin's state is tried.
    Reloading,
    /// That failed; the plugin is unloaded.
    Unloading,
    /// The plugin is loaded from its directory.
    Loading,
    /// The plugin runs its new code.
    Reloaded,
    /// The plugin could not be reloaded.
    Failed,
}

/// The next stage, given whether the step of this one succeeded. A plugin that
/// was not loaded is loaded all the same.
pub fn plugin_step(stage: PluginStage, ok: bool) -> (r: PluginStage)
    ensures
        r == match stage {
            PluginStage::Reloading => if ok {
                PluginStage::Reloaded
            } else {
                PluginStage::Unloading
            },
            PluginStage::Unloading => if ok {
                PluginStage::Loading
            } else {
                PluginStage::Failed
            },
            PluginStage::Loading => if ok {
                PluginStage::Reloaded
            } else {
                PluginStage::Failed
            },
            PluginStage::Reloaded => PluginStage::Reloaded,
            PluginStage::Failed => PluginStage::Failed,
        },
{
    match stage {
        PluginStage::Reloading => if ok {
            PluginStage::Reloaded
        } else {
            PluginStage::Unloading
        },
        PluginStage::Unloading => if ok {
            PluginStage::Loading
        } else {
            PluginStage::Failed
        },
        PluginStage::Loading => if ok {
            PluginStage::Reloaded
        } else {
            PluginStage::Failed
        },
        PluginStage::Reloaded => PluginStage::Reloaded,
        PluginStage::Failed => PluginStage::Failed,
    }
}

// ---------------------------------------------------------------------------
// The gateway configuration
// ---------------------------------------------------------------------------

/// What became of a new gateway configuration.
#[derive(Debug)]
pub enum GatewayReload {
    /// It was refused; the audit log gets the reason.
    Rejected { audit: String },
    /// Its reloadable sections are in force.
    Applied {
        /// The search tool needs new providers.
        search_changed: bool,
    },
}

/// Apply the sections of a new gateway configuration that need no restart, if
/// its authentication settings were found valid.
pub fn on_gateway_file(
    config: &mut GatewayConfig,
    new: GatewayConfig,
    auth: Result<(), String>,
) -> (r: GatewayReload)
    ensures
        match auth {
            Err(e) => {
                &&& r matches GatewayReload::Rejected { audit } && audit@
                    == "Hot-reload config rejected: "@ + e@
                &&& *final(config) == *old(config)
            },
            Ok(_) => {
                &&& r == (GatewayReload::Applied {
                    search_changed: !same_search(old(config).search, new.search),
                })
                &&& *final(config) == (GatewayConfig {
                    security: new.security,
                    providers: new.providers,
                    mcp: new.mcp,
                    hot_reload: new.hot_reload,
                    search: new.search,
                    ..*old(config)
                })
            },
        },
{
    match auth {
        Err(e) => GatewayReload::Rejected { audit: cat("Hot-reload config rejected: ", &e) },
        Ok(_) => {
            let search_changed = !config.search.same_as(&new.search);
            config.security = new.security;
            config.providers = new.providers;
            config.mcp = new.mcp;
            config.hot_reload = new.hot_reload;
            config.search = new.search;
            GatewayReload::Applied { search_changed }
        },
    }
}

/// What the audit log gets for so many changed fields; nothing for none.
pub fn reload_audit(changed: usize) -> (r: Option<String>)
    ensures
        opt_text(r) == if changed == 0 {
            None
        } else {
            Some("Hot-reload config change: "@ + decimal(changed as nat) + " field(s)"@)
        },
{
    if changed == 0 {
        None
    } else {
        let mut s = "Hot-reload config change: ".to_string();
        s.append(&decimal_of_usize(changed));
        s.append(" field(s)");
        Some(s)
    }
}

} // verus!
