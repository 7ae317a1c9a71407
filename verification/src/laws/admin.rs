//! Laws of the administration of the gateway.
use vstd::prelude::*;

use crate::gateway::config::{GatewayConfig, McpServerConfig, ProviderConfig};
use crate::gateway::handlers::admin::{
    apply_reload, channels_part, config_audit, config_part, keys, mcp_part, mcp_servers_to_connect,
    mcp_tool_prefix, member_if, openai_list_models, plugins_part, providers_part, reload_plan,
    report_json, report_members, run_reload, skills_part, successes, sync_providers,
    tools_to_register, ConfigReport, ModelEntry, ReloadOutcomes, ReloadPlan, ReloadReport,
};
use crate::gateway::hot_reload::{on_gateway_file, GatewayReload};
use crate::json::{field, member, unsigned_of, Json, JsonModel};
use crate::strmap::{keyed, StrMap};
use crate::text::{decimal, lemma_filter_has, lowercase, texts};

verus! {

/// A reload covers the part that it names, and all parts where it says so; the
/// configuration is read for each part that comes from it. What is covered does
/// not depend on capitals.
pub proof fn law_a_reload_covers_what_it_names(scope_in: &str, r: (String, ReloadPlan))
    requires
        call_ensures(reload_plan, (scope_in,), r),
    ensures
        r.0@ == lowercase(scope_in@),
        r.1.plugins <==> r.0@ == "plugins"@ || r.0@ == "all"@,
        r.1.config <==> r.0@ == "config"@ || r.0@ == "all"@,
        r.1.providers <==> r.0@ == "providers"@ || r.0@ == "all"@,
        r.1.mcp <==> r.0@ == "mcp"@ || r.0@ == "all"@,
        r.1.skills <==> r.0@ == "skills"@ || r.0@ == "all"@,
        r.1.channels <==> r.0@ == "channels"@ || r.0@ == "all"@,
        r.1.read_config <==> r.1.config || r.1.providers || r.1.mcp,
{
}

/// A configuration that could not be read, or whose access settings are refused,
/// changes nothing, and the report says why; one that is accepted takes over what
/// can be reloaded, and leaves alone where the gateway listens, its channels and
/// what agents override.
pub proof fn law_a_refused_configuration_changes_nothing(
    config: &mut GatewayConfig,
    new: Option<GatewayConfig>,
    auth: Result<(), String>,
    r: ConfigReport,
)
    requires
        call_ensures(apply_reload, (config, new, auth), r),
    ensures
        r is Updated <==> new is Some && auth is Ok,
        !(r is Updated) ==> *final(config) == *old(config),
        new is None ==> (r matches ConfigReport::NotUpdated { audit, .. } && audit is None),
        new is Some && auth is Err ==> (r matches ConfigReport::NotUpdated { reason, audit }
            && reason@ == auth->Err_0@ && audit is Some),
        r is Updated ==> {
            let n = new->0;
            &&& final(config).security == n.security
            &&& final(config).providers == n.providers
            &&& final(config).mcp == n.mcp
            &&& final(config).hot_reload == n.hot_reload
            &&& final(config).cost_guard == n.cost_guard
            &&& final(config).capabilities == n.capabilities
            &&& final(config).computer == n.computer
            &&& final(config).workspace_dir == n.workspace_dir
            &&& final(config).workspace_only == n.workspace_only
            &&& final(config).model == n.model
            &&& final(config).model_provider == n.model_provider
            &&& final(config).dreaming == n.dreaming
            &&& final(config).standing_orders == n.standing_orders
            &&& final(config).browser == n.browser
            &&& final(config).cron == n.cron
            &&& final(config).host == old(config).host
            &&& final(config).port == old(config).port
            &&& final(config).channels == old(config).channels
            &&& final(config).agent_overrides == old(config).agent_overrides
            &&& final(config).storage == old(config).storage
        },
{
}

/// A changed gateway file is refused or taken over in the same way, with fewer
/// sections; the search tool gets new providers just where its settings changed.
pub proof fn law_a_gateway_file_is_refused_or_taken_over(
    config: &mut GatewayConfig,
    new: GatewayConfig,
    auth: Result<(), String>,
    r: GatewayReload,
)
    requires
        call_ensures(on_gateway_file, (config, new, auth), r),
    ensures
        auth is Err <==> r is Rejected,
        r matches GatewayReload::Rejected { audit } ==> *final(config) == *old(config) && audit@
            == "Hot-reload config rejected: "@ + auth->Err_0@,
        r matches GatewayReload::Applied { search_changed } ==> {
            &&& final(config).security == new.security
            &&& final(config).providers == new.providers
            &&& final(config).mcp == new.mcp
            &&& final(config).hot_reload == new.hot_reload
            &&& final(config).search == new.search
            &&& final(config).model == old(config).model
            &&& final(config).host == old(config).host
            &&& final(config).port == old(config).port
            &&& final(config).channels == old(config).channels
            &&& final(config).agent_overrides == old(config).agent_overrides
            &&& !search_changed ==> old(config).search.provider@ == new.search.provider@ && old(
                config,
            ).search.api_key@ == new.search.api_key@ && texts(old(config).search.providers@)
                == texts(new.search.providers@)
            &&& old(config).search == new.search ==> !search_changed
        },
{
}

/// Only changes are recorded, with their number.
pub proof fn law_reloads_are_recorded_with_their_changes(changed: usize, r: Option<String>)
    requires
        call_ensures(config_audit, (changed,), r),
    ensures
        r is None <==> changed == 0,
        r is Some ==> r->0@ == "Config reloaded: "@ + decimal(changed as nat)
            + " field(s) changed"@,
{
}

/// A provider is removed where it is no longer configured, unless it is the
/// cloud, and added where it is newly configured; without a configuration nothing
/// is done.
pub proof fn law_providers_follow_the_configuration(
    new: Option<&StrMap<ProviderConfig>>,
    current: &[String],
    r: (Vec<String>, Vec<String>),
    name: Seq<char>,
)
    requires
        call_ensures(sync_providers, (new, current), r),
    ensures
        new is None ==> r.0@.len() == 0 && r.1@.len() == 0,
        new is Some ==> (texts(r.0@).contains(name) <==> texts(current@).contains(name) && name
            != "cloud"@ && !new->0@.dom().contains(name)),
        new is Some ==> (texts(r.1@).contains(name) <==> new->0@.dom().contains(name) && !texts(
            current@,
        ).contains(name)),
{
    if new is Some {
        let n = *new->0;
        let all = keys(n.list());
        let p = |x: Seq<char>| x != "cloud"@ && !n@.dom().contains(x);
        let q = |x: Seq<char>| !texts(current@).contains(x);
        lemma_filter_has(texts(current@), p, name);
        lemma_filter_has(all, q, name);
        if n@.dom().contains(name) {
            let j = choose|j: int| #[trigger] keyed(n.list(), name, j);
            assert(keyed(n.list(), name, j));
            assert(all[j] == name);
        }
        if all.contains(name) {
            let j = choose|j: int| 0 <= j < all.len() && all[j] == name;
            assert(keyed(n.list(), name, j));
        }
    }
}

/// The servers that are connected are those that are to connect by themselves.
pub proof fn law_servers_connect_by_themselves(
    servers: &StrMap<McpServerConfig>,
    r: Vec<String>,
    id: Seq<char>,
)
    requires
        call_ensures(mcp_servers_to_connect, (servers,), r),
    ensures
        texts(r@).contains(id) <==> servers@.dom().contains(id) && servers@[id].auto_connect,
{
    let all = keys(servers.list());
    let p = |x: Seq<char>| servers@.dom().contains(x) && servers@[x].auto_connect;
    lemma_filter_has(all, p, id);
    if servers@.dom().contains(id) {
        let j = choose|j: int| #[trigger] keyed(servers.list(), id, j);
        assert(keyed(servers.list(), id, j));
        assert(all[j] == id);
    }
}

/// As many tools are registered as are found, unless fewer are allowed; no limit
/// allows all. Tools bear the name of their server.
pub proof fn law_tools_are_registered_up_to_the_limit(
    max_tools: usize,
    found: usize,
    r: usize,
    server: &str,
    prefix: String,
)
    requires
        call_ensures(tools_to_register, (max_tools, found), r),
        call_ensures(mcp_tool_prefix, (server,), prefix),
    ensures
        r <= found,
        max_tools == 0 ==> r == found,
        max_tools > 0 ==> r <= max_tools && (r == found || r == max_tools),
        prefix@ == "mcp__"@ + server@ + "__"@,
{
}

/// How many succeeded grows by one with each success.
pub proof fn law_successes_are_counted(results: Seq<bool>, one: bool)
    ensures
        successes(Seq::empty()) == 0,
        successes(results.push(one)) == successes(results) + (if one {
            1int
        } else {
            0
        }),
        successes(results) <= results.len(),
    decreases results.len(),
{
    assert(results.push(one).drop_last() =~= results);
    if results.len() > 0 {
        law_successes_are_counted(results.drop_last(), one);
    }
}

/// A report covers the parts that the reload covers, with what came of each: what
/// was loaded, added, removed, connected, and what failed.
pub proof fn law_a_reload_reports_its_parts(
    scope_in: &str,
    outcomes: ReloadOutcomes,
    plan: (String, ReloadPlan),
    r: ReloadReport,
)
    requires
        call_ensures(run_reload, (scope_in, outcomes), r),
        call_ensures(reload_plan, (scope_in,), plan),
    ensures
        r.scope@ == plan.0@,
        r.success,
        r.plugins is Some <==> plan.1.plugins,
        r.config is Some <==> plan.1.config,
        r.providers is Some <==> plan.1.providers,
        r.mcp is Some <==> plan.1.mcp,
        r.skills is Some <==> plan.1.skills,
        r.channels is Some <==> plan.1.channels,
        r.config is Some ==> r.config->0 == outcomes.config,
        r.skills is Some ==> r.skills->0 == outcomes.skills,
        r.plugins matches Some((unloaded, loaded)) ==> unloaded == successes(outcomes.unloads@) && (
        outcomes.plugins_loaded is Some ==> loaded == outcomes.plugins_loaded->0) && (
        outcomes.plugins_loaded is None ==> loaded == 0),
        r.providers matches Some((added, removed)) ==> added == successes(outcomes.additions@)
            && removed == successes(outcomes.removals@),
        r.mcp matches Some((gone, connected, failed)) ==> gone == outcomes.disconnected && connected
            == successes(outcomes.connects@) && connected + failed == outcomes.connects@.len(),
{
}

/// Each model is listed under its id and with the provider that owns it.
pub proof fn law_models_are_listed_with_their_owners(entries: &[ModelEntry], r: Json, i: int)
    requires
        call_ensures(openai_list_models, (entries,), r),
    ensures
        field(r@, "object"@) == Some(JsonModel::Text("list"@)),
        field(r@, "data"@) is Some,
        field(r@, "data"@)->0 matches JsonModel::Array(list) && list.len() == entries@.len() && (0
            <= i < list.len() ==> field(list[i], "id"@) == Some(JsonModel::Text(entries@[i].id@))
            && field(list[i], "owned_by"@) == Some(JsonModel::Text(entries@[i].provider@))
            && field(list[i], "object"@) == Some(JsonModel::Text("model"@))),
{
    reveal_strlit("object");
    reveal_strlit("data");
    reveal_strlit("id");
    reveal_strlit("created");
    reveal_strlit("owned_by");
    assert("object"@.len() == 6 && "data"@.len() == 4 && "id"@.len() == 2 && "created"@.len() == 7
        && "owned_by"@.len() == 8);
    reveal_with_fuel(member, 5);
}

/// A report is written down with all of its parts: its scope, whether it
/// succeeded, and for each part that it covers what came of it.
pub proof fn law_a_report_is_written_with_its_parts(r: &ReloadReport, j: Json)
    requires
        call_ensures(report_json, (r,), j),
    ensures
        field(j@, "scope"@) == Some(JsonModel::Text(r.scope@)),
        field(j@, "success"@) == Some(JsonModel::Bool(r.success)),
        field(j@, "plugins"@) is Some <==> r.plugins is Some,
        field(j@, "config"@) is Some <==> r.config is Some,
        field(j@, "providers"@) is Some <==> r.providers is Some,
        field(j@, "mcp"@) is Some <==> r.mcp is Some,
        field(j@, "skills"@) is Some <==> r.skills is Some,
        field(j@, "channels"@) is Some <==> r.channels is Some,
{
    reveal_strlit("scope");
    reveal_strlit("success");
    reveal_strlit("plugins");
    reveal_strlit("config");
    reveal_strlit("providers");
    reveal_strlit("mcp");
    reveal_strlit("skills");
    reveal_strlit("channels");
    assert("scope"@.len() == 5);
    assert("success"@.len() == 7 && "success"@[0] == 's');
    assert("plugins"@.len() == 7 && "plugins"@[0] == 'p');
    assert("config"@.len() == 6 && "config"@[0] == 'c');
    assert("providers"@.len() == 9);
    assert("mcp"@.len() == 3);
    assert("skills"@.len() == 6 && "skills"@[0] == 's');
    assert("channels"@.len() == 8);
    lemma_report(*r, "scope"@);
    lemma_report(*r, "success"@);
    lemma_report(*r, "plugins"@);
    lemma_report(*r, "config"@);
    lemma_report(*r, "providers"@);
    lemma_report(*r, "mcp"@);
    lemma_report(*r, "skills"@);
    lemma_report(*r, "channels"@);
}

spec fn part_or(name: Seq<char>, part: Option<JsonModel>, key: Seq<char>, other: Option<JsonModel>) -> Option<
    JsonModel,
> {
    if key == name && part is Some {
        part
    } else {
        other
    }
}

proof fn lemma_assoc(
    x: Seq<(Seq<char>, JsonModel)>,
    y: Seq<(Seq<char>, JsonModel)>,
    z: Seq<(Seq<char>, JsonModel)>,
)
    ensures
        x + y + z == x + (y + z),
{
    assert(x + y + z =~= x + (y + z));
}

proof fn lemma_part(
    name: Seq<char>,
    part: Option<JsonModel>,
    rest: Seq<(Seq<char>, JsonModel)>,
    key: Seq<char>,
)
    ensures
        member(member_if(name, part) + rest, key) == part_or(name, part, key, member(rest, key)),
{
    let first = member_if(name, part);
    if part is Some {
        assert((first + rest).skip(1) =~= rest);
        assert((first + rest)[0] == first[0]);
    } else {
        assert(first + rest =~= rest);
    }
}

proof fn lemma_report(r: ReloadReport, key: Seq<char>)
    ensures
        member(report_members(r), key) == part_or(
            "scope"@,
            Some(JsonModel::Text(r.scope@)),
            key,
            part_or(
                "plugins"@,
                plugins_part(r),
                key,
                part_or(
                    "config"@,
                    config_part(r),
                    key,
                    part_or(
                        "providers"@,
                        providers_part(r),
                        key,
                        part_or(
                            "mcp"@,
                            mcp_part(r),
                            key,
                            part_or(
                                "skills"@,
                                skills_part(r),
                                key,
                                part_or(
                                    "channels"@,
                                    channels_part(r),
                                    key,
                                    part_or(
                                        "success"@,
                                        Some(JsonModel::Bool(r.success)),
                                        key,
                                        None,
                                    ),
                                ),
                            ),
                        ),
                    ),
                ),
            ),
        ),
{
    let none = Seq::<(Seq<char>, JsonModel)>::empty();
    let scope = Some(JsonModel::Text(r.scope@));
    let success = Some(JsonModel::Bool(r.success));
    let a = member_if("scope"@, scope);
    let b = member_if("plugins"@, plugins_part(r));
    let c = member_if("config"@, config_part(r));
    let d = member_if("providers"@, providers_part(r));
    let e = member_if("mcp"@, mcp_part(r));
    let f = member_if("skills"@, skills_part(r));
    let g = member_if("channels"@, channels_part(r));
    let h = member_if("success"@, success);
    assert(report_members(r) == a + b + c + d + e + f + g + h);
    let r2 = g + h;
    let r3 = f + r2;
    let r4 = e + r3;
    let r5 = d + r4;
    let r6 = c + r5;
    let r7 = b + r6;
    lemma_assoc(a + b + c + d + e + f, g, h);
    lemma_assoc(a + b + c + d + e, f, r2);
    lemma_assoc(a + b + c + d, e, r3);
    lemma_assoc(a + b + c, d, r4);
    lemma_assoc(a + b, c, r5);
    lemma_assoc(a, b, r6);
    lemma_part("scope"@, scope, r7, key);
    lemma_part("plugins"@, plugins_part(r), r6, key);
    lemma_part("config"@, config_part(r), r5, key);
    lemma_part("providers"@, providers_part(r), r4, key);
    lemma_part("mcp"@, mcp_part(r), r3, key);
    lemma_part("skills"@, skills_part(r), r2, key);
    lemma_part("channels"@, channels_part(r), h, key);
    lemma_part("success"@, success, none, key);
    assert(h + none =~= h);
}

/// What came of a part is written under its own name.
pub proof fn law_figures_of_a_report_are_written_under_their_names(r: ReloadReport)
    ensures
        r.plugins matches Some((unloaded, loaded)) ==> unsigned_of(
            field(plugins_part(r)->0, "unloaded"@)->0,
        ) == Some(unloaded as u64) && unsigned_of(field(plugins_part(r)->0, "loaded"@)->0)
            == Some(loaded as u64),
        r.providers matches Some((added, removed)) ==> unsigned_of(
            field(providers_part(r)->0, "added"@)->0,
        ) == Some(added as u64) && unsigned_of(field(providers_part(r)->0, "removed"@)->0) == Some(
            removed as u64,
        ),
        r.mcp matches Some((gone, connected, failed)) ==> unsigned_of(
            field(mcp_part(r)->0, "disconnected"@)->0,
        ) == Some(gone as u64) && unsigned_of(field(mcp_part(r)->0, "connected"@)->0) == Some(
            connected as u64,
        ) && unsigned_of(field(mcp_part(r)->0, "failed"@)->0) == Some(failed as u64),
        r.config matches Some(c) ==> field(config_part(r)->0, "updated"@) == Some(
            JsonModel::Bool(c is Updated),
        ),
        r.skills matches Some(s) ==> field(skills_part(r)->0, "reinitialized"@) == Some(
            JsonModel::Bool(s is Ok),
        ),
{
    reveal_strlit("unloaded");
    reveal_strlit("loaded");
    reveal_strlit("added");
    reveal_strlit("removed");
    reveal_strlit("disconnected");
    reveal_strlit("connected");
    reveal_strlit("failed");
    assert("unloaded"@.len() == 8 && "loaded"@.len() == 6 && "added"@.len() == 5
        && "removed"@.len() == 7 && "disconnected"@.len() == 12 && "connected"@.len() == 9
        && "failed"@.len() == 6);
    reveal_with_fuel(member, 4);
}

/// Why a part failed is written beside it, and so is what it counted.
pub proof fn law_reasons_of_a_report_are_written_beside_it(r: ReloadReport)
    ensures
        r.config matches Some(ConfigReport::NotUpdated { reason, .. }) ==> field(
            config_part(r)->0,
            "reason"@,
        ) == Some(JsonModel::Text(reason@)),
        r.skills matches Some(Ok(count)) ==> field(skills_part(r)->0, "count"@) is Some
            && unsigned_of(field(skills_part(r)->0, "count"@)->0) == Some(count as u64),
        r.skills matches Some(Err(e)) ==> field(skills_part(r)->0, "error"@) == Some(
            JsonModel::Text(e@),
        ),
        r.channels matches Some(note) ==> field(channels_part(r)->0, "note"@) == Some(
            JsonModel::Text(note@),
        ),
{
    reveal_strlit("updated");
    reveal_strlit("reason");
    reveal_strlit("reinitialized");
    reveal_strlit("count");
    reveal_strlit("error");
    assert("updated"@.len() == 7 && "reason"@.len() == 6 && "reinitialized"@.len() == 13
        && "count"@.len() == 5 && "error"@.len() == 5);
    reveal_with_fuel(member, 3);
}

} // verus!
