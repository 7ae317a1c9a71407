//! Comprehensive reload without a restart, and the list of models.
use vstd::prelude::*;
use vstd::string::*;

use crate::gateway::config::{GatewayConfig, McpServerConfig, ProviderConfig};
use crate::json::{member_models, whole_model, Json, JsonModel};
use crate::strmap::StrMap;
use crate::text::{
    cat, decimal, decimal_of_usize, is_one_of, lemma_filter_has, lowercase, opt_text, same, texts,
};

verus! {

// ---------------------------------------------------------------------------
// Models
// ---------------------------------------------------------------------------

/// A model of the catalog.
#[derive(Debug)]
pub struct ModelEntry {
    pub id: String,
    pub provider: String,
}

/// A model as the list of models shows it.
pub open spec fn model_object(id: Seq<char>, provider: Seq<char>) -> JsonModel {
    JsonModel::Object(
        seq![
            ("id"@, JsonModel::Text(id)),
            ("object"@, JsonModel::Text("model"@)),
            ("created"@, whole_model(0)),
            ("owned_by"@, JsonModel::Text(provider)),
        ],
    )
}

/// The list of models in OpenAI wire format.
pub fn openai_list_models(entries: &[ModelEntry]) -> (r: Json)
    ensures
        r@ == JsonModel::Object(
            seq![
                ("object"@, JsonModel::Text("list"@)),
                (
                    "data"@,
                    JsonModel::Array(
                        entries@.map_values(|e: ModelEntry| model_object(e.id@, e.provider@)),
                    ),
                ),
            ],
        ),
{
    let mut data: Vec<Json> = Vec::new();
    let mut i: usize = 0;
    while i < entries.len()
        invariant
            i <= entries@.len(),
            data@.len() == i,
            forall|k: int|
                0 <= k < i ==> (#[trigger] data@[k])@ == model_object(
                    entries@[k].id@,
                    entries@[k].provider@,
                ),
        decreases entries.len() - i,
    {
        let item = Json::Object(
            vec![
                ("id".to_string(), Json::text(&entries[i].id)),
                ("object".to_string(), Json::text("model")),
                ("created".to_string(), Json::whole(0)),
                ("owned_by".to_string(), Json::text(&entries[i].provider)),
            ],
        );
        proof {
            crate::json::lemma_model_parts(item);
            assert(item@->Object_0 =~= model_object(
                entries@[i as int].id@,
                entries@[i as int].provider@,
            )->Object_0);
        }
        data.push(item);
        i += 1;
    }
    let ghost all = entries@.map_values(|e: ModelEntry| model_object(e.id@, e.provider@));
    let list = Json::Array(data);
    proof {
        crate::json::lemma_model_parts(list);
        assert(list@->Array_0 =~= all);
    }
    let r = Json::Object(
        vec![("object".to_string(), Json::text("list")), ("data".to_string(), list)],
    );
    proof {
        crate::json::lemma_model_parts(r);
        assert(r@->Object_0 =~= seq![
            ("object"@, JsonModel::Text("list"@)),
            ("data"@, JsonModel::Array(all)),
        ]);
    }
    r
}

// ---------------------------------------------------------------------------
// The parts of a reload
// ---------------------------------------------------------------------------

/// Which parts a reload covers.
#[derive(Debug, Clone, Copy, PartialEq, Eq, Structural)]
pub struct ReloadPlan {
    /// Read the configuration file.
    pub read_config: bool,
    pub plugins: bool,
    pub config: bool,
    pub providers: bool,
    pub mcp: bool,
    pub skills: bool,
    pub channels: bool,
}

/// Whether a scope covers a part: its own scope does, and `all` does.
pub open spec fn covers(scope: Seq<char>, part: Seq<char>) -> bool {
    scope == "all"@ || scope == part
}

/// The parts that a scope covers.
pub open spec fn planned(scope: Seq<char>) -> ReloadPlan {
    ReloadPlan {
        read_config: covers(scope, "config"@) || covers(scope, "providers"@) || covers(
            scope,
            "mcp"@,
        ),
        plugins: covers(scope, "plugins"@),
        config: covers(scope, "config"@),
        providers: covers(scope, "providers"@),
        mcp: covers(scope, "mcp"@),
        skills: covers(scope, "skills"@),
        channels: covers(scope, "channels"@),
    }
}

/// The parts that a scope covers, in whatever case it is written, and the scope
/// in lower case.
pub fn reload_plan(scope_in: &str) -> (r: (String, ReloadPlan))
    ensures
        r.0@ == lowercase(scope_in@),
        r.1 == planned(lowercase(scope_in@)),
{
    let scope = scope_in.to_lowercase();
    let plan = plan_for(&scope);
    (scope, plan)
}

/// The parts that a scope in lower case covers.
pub fn plan_for(scope: &str) -> (r: ReloadPlan)
    ensures
        r == planned(scope@),
{
    let all = same(scope, "all");
    let config = all || same(scope, "config");
    let providers = all || same(scope, "providers");
    let mcp = all || same(scope, "mcp");
    ReloadPlan {
        read_config: config || providers || mcp,
        plugins: all || same(scope, "plugins"),
        config,
        providers,
        mcp,
        skills: all || same(scope, "skills"),
        channels: all || same(scope, "channels"),
    }
}

/// What became of the configuration part.
#[derive(Debug)]
pub enum ConfigReport {
    Updated,
    NotUpdated {
        reason: String,
        /// What the audit log gets, if the configuration was refused.
        audit: Option<String>,
    },
}

/// Apply the reloadable fields of a newly read configuration, if there is one
/// and its authentication settings were found valid.
pub fn apply_reload(
    config: &mut GatewayConfig,
    new: Option<GatewayConfig>,
    auth: Result<(), String>,
) -> (r: ConfigReport)
    ensures
        match (new, auth) {
            (None, _) => {
                &&& r matches ConfigReport::NotUpdated { reason, audit } && reason@
                    == "parse or read error"@ && audit is None
                &&& *final(config) == *old(config)
            },
            (Some(_), Err(e)) => {
                &&& r matches ConfigReport::NotUpdated { reason, audit } && reason@ == e@
                    && opt_text(audit) == Some("Admin reload config rejected: "@ + e@)
                &&& *final(config) == *old(config)
            },
            (Some(n), Ok(_)) => {
                &&& r is Updated
                &&& *final(config) == (GatewayConfig {
                    security: n.security,
                    providers: n.providers,
                    mcp: n.mcp,
                    hot_reload: n.hot_reload,
                    cost_guard: n.cost_guard,
                    capabilities: n.capabilities,
                    computer: n.computer,
                    workspace_dir: n.workspace_dir,
                    workspace_only: n.workspace_only,
                    model: n.model,
                    model_provider: n.model_provider,
                    dreaming: n.dreaming,
                    standing_orders: n.standing_orders,
                    browser: n.browser,
                    cron: n.cron,
                    ..*old(config)
                })
            },
        },
{
    match (new, auth) {
        (None, _) => ConfigReport::NotUpdated {
            reason: "parse or read error".to_string(),
            audit: None,
        },
        (Some(_), Err(e)) => {
            let audit = cat("Admin reload config rejected: ", &e);
            ConfigReport::NotUpdated { reason: e, audit: Some(audit) }
        },
        (Some(n), Ok(_)) => {
            config.security = n.security;
            config.providers = n.providers;
            config.mcp = n.mcp;
            config.hot_reload = n.hot_reload;
            config.cost_guard = n.cost_guard;
            config.capabilities = n.capabilities;
            config.computer = n.computer;
            config.workspace_dir = n.workspace_dir;
            config.workspace_only = n.workspace_only;
            config.model = n.model;
            config.model_provider = n.model_provider;
            config.dreaming = n.dreaming;
            config.standing_orders = n.standing_orders;
            config.browser = n.browser;
            config.cron = n.cron;
            ConfigReport::Updated
        },
    }
}

/// What the audit log gets for so many changed fields; nothing for none.
pub fn config_audit(changed: usize) -> (r: Option<String>)
    ensures
        opt_text(r) == if changed == 0 {
            None
        } else {
            Some("Config reloaded: "@ + decimal(changed as nat) + " field(s) changed"@)
        },
{
    if changed == 0 {
        None
    } else {
        let mut s = "Config reloaded: ".to_string();
        s.append(&decimal_of_usize(changed));
        s.append(" field(s) changed");
        Some(s)
    }
}

/// The keys of a map in its order.
pub open spec fn keys<V>(entries: Seq<(String, V)>) -> Seq<Seq<char>> {
    entries.map_values(|e: (String, V)| e.0@)
}

/// The providers to remove: those that run and are configured no more, the
/// cloud's aside, which never is configured. Without a new configuration none
/// is removed.
pub open spec fn providers_to_remove(
    new: Option<StrMap<ProviderConfig>>,
    current: Seq<Seq<char>>,
) -> Seq<Seq<char>> {
    match new {
        Some(n) => current.filter(
            |name: Seq<char>| name != "cloud"@ && !n@.dom().contains(name),
        ),
        None => Seq::empty(),
    }
}

/// The providers to add: those that are configured and do not run.
pub open spec fn providers_to_add(
    new: Option<StrMap<ProviderConfig>>,
    current: Seq<Seq<char>>,
) -> Seq<Seq<char>> {
    match new {
        Some(n) => keys(n.list()).filter(|name: Seq<char>| !current.contains(name)),
        None => Seq::empty(),
    }
}

/// The providers to remove and to add.
pub fn sync_providers(new: Option<&StrMap<ProviderConfig>>, current: &[String]) -> (r: (
    Vec<String>,
    Vec<String>,
))
    ensures
        match new {
            Some(n) => texts(r.0@) == providers_to_remove(Some(*n), texts(current@)) && texts(r.1@)
                == providers_to_add(Some(*n), texts(current@)),
            None => r.0@.len() == 0 && r.1@.len() == 0,
        },
{
    let mut remove: Vec<String> = Vec::new();
    let mut add: Vec<String> = Vec::new();
    let new = match new {
        Some(n) => n,
        None => {
            return (remove, add);
        },
    };
    let ghost live = texts(current@);
    let ghost p = |name: Seq<char>| name != "cloud"@ && !new@.dom().contains(name);
    let ghost q = |name: Seq<char>| !live.contains(name);
    let mut i: usize = 0;
    assert(live.take(0) =~= Seq::empty());
    assert(texts(remove@) =~= live.take(0).filter(p)) by {
        reveal(Seq::filter);
    }
    while i < current.len()
        invariant
            i <= current@.len(),
            live == texts(current@),
            p == (|name: Seq<char>| name != "cloud"@ && !new@.dom().contains(name)),
            texts(remove@) == live.take(i as int).filter(p),
        decreases current.len() - i,
    {
        let ghost before = remove@;
        proof {
            assert(live.take(i + 1) =~= live.take(i as int).push(live[i as int]));
            live.take(i as int).lemma_filter_push(live[i as int], p);
        }
        if !same(&current[i], "cloud") && !new.contains_key(&current[i]) {
            remove.push(current[i].clone());
            assert(texts(remove@) =~= texts(before).push(live[i as int]));
        }
        i += 1;
    }
    assert(live.take(current@.len() as int) =~= live);
    let ghost all = keys(new.list());
    let n = new.len();
    let mut j: usize = 0;
    assert(all.take(0) =~= Seq::empty());
    assert(texts(add@) =~= all.take(0).filter(q)) by {
        reveal(Seq::filter);
    }
    while j < n
        invariant
            j <= n,
            n == new.list().len(),
            all == keys(new.list()),
            live == texts(current@),
            q == (|name: Seq<char>| !live.contains(name)),
            texts(add@) == all.take(j as int).filter(q),
        decreases n - j,
    {
        let name = new.key_at(j);
        let ghost before = add@;
        proof {
            assert(all[j as int] == name@);
            assert(all.take(j + 1) =~= all.take(j as int).push(name@));
            all.take(j as int).lemma_filter_push(name@, q);
        }
        if !is_one_of(current, name) {
            add.push(name.clone());
            assert(texts(add@) =~= texts(before).push(name@));
        }
        j += 1;
    }
    assert(all.take(n as int) =~= all);
    (remove, add)
}

/// After the sync exactly the configured providers run, and the cloud's if it
/// ran.
pub proof fn law_synced_providers_are_the_configured_ones(
    new: StrMap<ProviderConfig>,
    current: Seq<Seq<char>>,
    name: Seq<char>,
)
    ensures
        (current.contains(name) && !providers_to_remove(Some(new), current).contains(name))
            || providers_to_add(Some(new), current).contains(name) <==> new@.dom().contains(name)
            || (name == "cloud"@ && current.contains(name)),
{
    let p = |name: Seq<char>| name != "cloud"@ && !new@.dom().contains(name);
    let q = |name: Seq<char>| !current.contains(name);
    let all = keys(new.list());
    lemma_filter_has(current, p, name);
    lemma_filter_has(all, q, name);
    if new@.dom().contains(name) {
        let j = choose|j: int| #[trigger] crate::strmap::keyed(new.list(), name, j);
        assert(crate::strmap::keyed(new.list(), name, j));
        assert(all[j] == name);
        assert(all.contains(name));
    }
    if all.contains(name) {
        let j = choose|j: int| 0 <= j < all.len() && all[j] == name;
        assert(crate::strmap::keyed(new.list(), name, j));
    }
}

/// The prefix of the tools of an MCP server.
pub fn mcp_tool_prefix(server_id: &str) -> (r: String)
    ensures
        r@ == "mcp__"@ + server_id@ + "__"@,
{
    let mut s = "mcp__".to_string();
    s.append(server_id);
    s.append("__");
    s
}

/// The MCP servers to connect: those that connect by themselves.
pub fn mcp_servers_to_connect(servers: &StrMap<McpServerConfig>) -> (r: Vec<String>)
    ensures
        texts(r@) == keys(servers.list()).filter(
            |id: Seq<char>| servers@.dom().contains(id) && servers@[id].auto_connect,
        ),
{
    let ghost p = |id: Seq<char>| servers@.dom().contains(id) && servers@[id].auto_connect;
    let ghost all = keys(servers.list());
    let mut out: Vec<String> = Vec::new();
    let n = servers.len();
    let mut i: usize = 0;
    assert(all.take(0) =~= Seq::empty());
    assert(texts(out@) =~= all.take(0).filter(p)) by {
        reveal(Seq::filter);
    }
    while i < n
        invariant
            i <= n,
            n == servers.list().len(),
            all == keys(servers.list()),
            p == (|id: Seq<char>| servers@.dom().contains(id) && servers@[id].auto_connect),
            texts(out@) == all.take(i as int).filter(p),
        decreases n - i,
    {
        let id = servers.key_at(i);
        let server = servers.value_at(i);
        let ghost before = out@;
        proof {
            assert(all[i as int] == id@);
            assert(all.take(i + 1) =~= all.take(i as int).push(id@));
            all.take(i as int).lemma_filter_push(id@, p);
        }
        if server.auto_connect {
            out.push(id.clone());
            assert(texts(out@) =~= texts(before).push(id@));
        }
        i += 1;
    }
    assert(all.take(n as int) =~= all);
    out
}

/// How many of a server's tools are registered: all of them for a cap of zero,
/// else no more than the cap.
pub fn tools_to_register(max_tools: usize, found: usize) -> (r: usize)
    ensures
        r == if max_tools == 0 || max_tools > found {
            found
        } else {
            max_tools
        },
{
    if max_tools == 0 || max_tools > found {
        found
    } else {
        max_tools
    }
}

// ---------------------------------------------------------------------------
// The report of a reload
// ---------------------------------------------------------------------------

/// How the steps of a reload went, each in the order in which it was made.
#[derive(Debug)]
pub struct ReloadOutcomes {
    /// Whether each plugin could be unloaded.
    pub unloads: Vec<bool>,
    /// How many plugins were initialized, if that succeeded.
    pub plugins_loaded: Option<usize>,
    pub config: ConfigReport,
    /// Whether each provider could be removed or added.
    pub removals: Vec<bool>,
    pub additions: Vec<bool>,
    /// How many MCP servers there were.
    pub disconnected: usize,
    /// Whether each MCP server could be connected.
    pub connects: Vec<bool>,
    /// How many skills were initialized, or why they were not.
    pub skills: Result<usize, String>,
}

/// What a reload did.
#[derive(Debug)]
pub struct ReloadReport {
    /// The scope in lower case.
    pub scope: String,
    /// How many plugins were unloaded and loaded.
    pub plugins: Option<(usize, usize)>,
    pub config: Option<ConfigReport>,
    /// How many providers were added and removed.
    pub providers: Option<(usize, usize)>,
    /// How many MCP servers were disconnected, connected and failed to connect.
    pub mcp: Option<(usize, usize, usize)>,
    pub skills: Option<Result<usize, String>>,
    /// A note on the channels, which reload by themselves.
    pub channels: Option<String>,
    pub success: bool,
}

/// How many succeeded.
pub open spec fn successes(results: Seq<bool>) -> nat
    decreases results.len(),
{
    if results.len() == 0 {
        0
    } else {
        successes(results.drop_last()) + if results.last() {
            1nat
        } else {
            0nat
        }
    }
}

fn count_successes(results: &Vec<bool>) -> (r: usize)
    ensures
        r == successes(results@),
        r <= results@.len(),
{
    let mut n: usize = 0;
    let mut i: usize = 0;
    while i < results.len()
        invariant
            i <= results@.len(),
            n == successes(results@.take(i as int)),
            n <= i,
        decreases results.len() - i,
    {
        assert(results@.take(i + 1).drop_last() =~= results@.take(i as int));
        if results[i] {
            n += 1;
        }
        i += 1;
    }
    assert(results@.take(results@.len() as int) =~= results@);
    n
}

/// The report of a reload: of every part that its scope covers what was done,
/// of the others nothing. A reload always reports success.
pub fn run_reload(scope_in: &str, outcomes: ReloadOutcomes) -> (r: ReloadReport)
    ensures
        ({
            let plan = planned(lowercase(scope_in@));
            &&& r.scope@ == lowercase(scope_in@)
            &&& r.success
            &&& if plan.plugins {
                r.plugins matches Some((unloaded, loaded)) && unloaded == successes(
                    outcomes.unloads@,
                ) && loaded == (match outcomes.plugins_loaded {
                    Some(n) => n,
                    None => 0,
                })
            } else {
                r.plugins is None
            }
            &&& r.config == if plan.config {
                Some(outcomes.config)
            } else {
                None
            }
            &&& if plan.providers {
                r.providers matches Some((added, removed)) && added == successes(
                    outcomes.additions@,
                ) && removed == successes(outcomes.removals@)
            } else {
                r.providers is None
            }
            &&& if plan.mcp {
                r.mcp matches Some((gone, connected, failed)) && gone == outcomes.disconnected
                    && connected == successes(outcomes.connects@) && failed
                    == outcomes.connects@.len() - successes(outcomes.connects@)
            } else {
                r.mcp is None
            }
            &&& r.skills == if plan.skills {
                Some(outcomes.skills)
            } else {
                None
            }
            &&& opt_text(r.channels) == if plan.channels {
                Some(
                    "Channels are hot-reloaded automatically when config.toml or channel config files change. Use the file watcher or toggle individual channels via WS `channels.enable`/`channels.disable`."@,
                )
            } else {
                None
            }
        }),
{
    let (scope, plan) = reload_plan(scope_in);
    let plugins = if plan.plugins {
        let loaded: usize = match outcomes.plugins_loaded {
            Some(n) => n,
            None => 0,
        };
        Some((count_successes(&outcomes.unloads), loaded))
    } else {
        None
    };
    let providers = if plan.providers {
        Some((count_successes(&outcomes.additions), count_successes(&outcomes.removals)))
    } else {
        None
    };
    let mcp = if plan.mcp {
        let connected = count_successes(&outcomes.connects);
        Some((outcomes.disconnected, connected, outcomes.connects.len() - connected))
    } else {
        None
    };
    ReloadReport {
        scope,
        plugins,
        config: if plan.config {
            Some(outcomes.config)
        } else {
            None
        },
        providers,
        mcp,
        skills: if plan.skills {
            Some(outcomes.skills)
        } else {
            None
        },
        channels: if plan.channels {
            Some(
                "Channels are hot-reloaded automatically when config.toml or channel config files change. Use the file watcher or toggle individual channels via WS `channels.enable`/`channels.disable`.".to_string(),
            )
        } else {
            None
        },
        success: true,
    }
}

/// A member, where there is a value for it.
pub open spec fn member_if(key: Seq<char>, value: Option<JsonModel>) -> Seq<
    (Seq<char>, JsonModel),
> {
    match value {
        Some(v) => seq![(key, v)],
        None => Seq::empty(),
    }
}

/// What is reported of the plugins.
pub open spec fn plugins_part(r: ReloadReport) -> Option<JsonModel> {
    match r.plugins {
        Some((unloaded, loaded)) => Some(
            JsonModel::Object(
                seq![
                    ("unloaded"@, whole_model(unloaded as u64)),
                    ("loaded"@, whole_model(loaded as u64)),
                ],
            ),
        ),
        None => None,
    }
}

/// What is reported of the configuration.
pub open spec fn config_part(r: ReloadReport) -> Option<JsonModel> {
    match r.config {
        Some(ConfigReport::Updated) => Some(
            JsonModel::Object(seq![("updated"@, JsonModel::Bool(true))]),
        ),
        Some(ConfigReport::NotUpdated { reason, .. }) => Some(
            JsonModel::Object(
                seq![("updated"@, JsonModel::Bool(false)), ("reason"@, JsonModel::Text(reason@))],
            ),
        ),
        None => None,
    }
}

/// What is reported of the providers.
pub open spec fn providers_part(r: ReloadReport) -> Option<JsonModel> {
    match r.providers {
        Some((added, removed)) => Some(
            JsonModel::Object(
                seq![
                    ("added"@, whole_model(added as u64)),
                    ("removed"@, whole_model(removed as u64)),
                ],
            ),
        ),
        None => None,
    }
}

/// What is reported of the MCP servers.
pub open spec fn mcp_part(r: ReloadReport) -> Option<JsonModel> {
    match r.mcp {
        Some((disconnected, connected, failed)) => Some(
            JsonModel::Object(
                seq![
                    ("disconnected"@, whole_model(disconnected as u64)),
                    ("connected"@, whole_model(connected as u64)),
                    ("failed"@, whole_model(failed as u64)),
                ],
            ),
        ),
        None => None,
    }
}

/// What is reported of the skills.
pub open spec fn skills_part(r: ReloadReport) -> Option<JsonModel> {
    match r.skills {
        Some(Ok(count)) => Some(
            JsonModel::Object(
                seq![
                    ("reinitialized"@, JsonModel::Bool(true)),
                    ("count"@, whole_model(count as u64)),
                ],
            ),
        ),
        Some(Err(e)) => Some(
            JsonModel::Object(
                seq![
                    ("reinitialized"@, JsonModel::Bool(false)),
                    ("error"@, JsonModel::Text(e@)),
                ],
            ),
        ),
        None => None,
    }
}

/// What is reported of the channels.
pub open spec fn channels_part(r: ReloadReport) -> Option<JsonModel> {
    match r.channels {
        Some(note) => Some(JsonModel::Object(seq![("note"@, JsonModel::Text(note@))])),
        None => None,
    }
}

/// The members of a report.
pub open spec fn report_members(r: ReloadReport) -> Seq<(Seq<char>, JsonModel)> {
    seq![("scope"@, JsonModel::Text(r.scope@))] + member_if("plugins"@, plugins_part(r))
        + member_if("config"@, config_part(r)) + member_if("providers"@, providers_part(r))
        + member_if("mcp"@, mcp_part(r)) + member_if("skills"@, skills_part(r)) + member_if(
        "channels"@,
        channels_part(r),
    ) + seq![("success"@, JsonModel::Bool(r.success))]
}

fn one(key: &str, value: Json) -> (r: Json)
    ensures
        r@ == JsonModel::Object(seq![(key@, value@)]),
{
    let r = Json::object(vec![(key.to_string(), value)]);
    assert(r@->Object_0 =~= seq![(key@, value@)]);
    r
}

fn two(a: &str, x: Json, b: &str, y: Json) -> (r: Json)
    ensures
        r@ == JsonModel::Object(seq![(a@, x@), (b@, y@)]),
{
    let r = Json::object(vec![(a.to_string(), x), (b.to_string(), y)]);
    assert(r@->Object_0 =~= seq![(a@, x@), (b@, y@)]);
    r
}

fn put_member(members: &mut Vec<(String, Json)>, key: &str, value: Option<Json>)
    ensures
        member_models(final(members)@) == member_models(old(members)@) + member_if(
            key@,
            match value {
                Some(v) => Some(v@),
                None => None,
            },
        ),
{
    let ghost before = member_models(members@);
    match value {
        Some(v) => {
            members.push((key.to_string(), v));
            assert(member_models(members@) =~= before + seq![(key@, v@)]);
        },
        None => {
            assert(before + Seq::<(Seq<char>, JsonModel)>::empty() =~= before);
        },
    }
}

/// A report as it is answered: a member for every part that was reloaded.
pub fn report_json(r: &ReloadReport) -> (j: Json)
    ensures
        j@ == JsonModel::Object(report_members(*r)),
{
    let mut members: Vec<(String, Json)> = Vec::new();
    put_member(&mut members, "scope", Some(Json::text(&r.scope)));
    assert(member_models(members@) =~= seq![("scope"@, JsonModel::Text(r.scope@))]);
    let plugins = match r.plugins {
        Some((unloaded, loaded)) => Some(
            two("unloaded", Json::whole(unloaded as u64), "loaded", Json::whole(loaded as u64)),
        ),
        None => None,
    };
    put_member(&mut members, "plugins", plugins);
    let config = match &r.config {
        Some(ConfigReport::Updated) => Some(one("updated", Json::Bool(true))),
        Some(ConfigReport::NotUpdated { reason, .. }) => Some(
            two("updated", Json::Bool(false), "reason", Json::text(reason)),
        ),
        None => None,
    };
    put_member(&mut members, "config", config);
    let providers = match r.providers {
        Some((added, removed)) => Some(
            two("added", Json::whole(added as u64), "removed", Json::whole(removed as u64)),
        ),
        None => None,
    };
    put_member(&mut members, "providers", providers);
    let mcp = match r.mcp {
        Some((disconnected, connected, failed)) => {
            let part = Json::object(
                vec![
                    ("disconnected".to_string(), Json::whole(disconnected as u64)),
                    ("connected".to_string(), Json::whole(connected as u64)),
                    ("failed".to_string(), Json::whole(failed as u64)),
                ],
            );
            assert(part@->Object_0 =~= mcp_part(*r)->0->Object_0);
            Some(part)
        },
        None => None,
    };
    put_member(&mut members, "mcp", mcp);
    let skills = match &r.skills {
        Some(Ok(count)) => Some(
            two("reinitialized", Json::Bool(true), "count", Json::whole(*count as u64)),
        ),
        Some(Err(e)) => Some(two("reinitialized", Json::Bool(false), "error", Json::text(e))),
        None => None,
    };
    put_member(&mut members, "skills", skills);
    let channels = match &r.channels {
        Some(note) => Some(one("note", Json::text(note))),
        None => None,
    };
    put_member(&mut members, "channels", channels);
    put_member(&mut members, "success", Some(Json::Bool(r.success)));
    Json::object(members)
}

} // verus!
