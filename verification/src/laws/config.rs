//! Laws of the configuration.
use vstd::prelude::*;

use crate::agent::AgentConfig;
use crate::error::SyscityError;
use crate::gateway::auth::ws_origin::is_loopback_bind;
use crate::gateway::config::{
    config_revision, diff_snapshots, reloadable, ConfigChange, ConfigSnapshot, GatewayConfig,
    OutsideDefaults,
};
use crate::gateway::config::memory::{
    asked_in_order, found, usable_providers, SearchConfig, SearchProvider,
};
use crate::gateway::config::misc::{
    field_outcome, no_overrides, AgentOverrides, ChannelConfig, ChannelType, DmPolicy,
    OverridesModel,
};
use crate::json::{config_json_hash, equal, field, unsigned_of, Json, JsonModel};
use crate::scalar::Single;
use crate::text::{opt_text, texts};

verus! {

/// What an agent overrides is what it runs with; what it does not override is left
/// as it was.
pub proof fn law_overrides_replace_what_they_set(o: &AgentOverrides, cfg: &mut AgentConfig)
    requires
        call_ensures(AgentOverrides::apply_to, (o, cfg), ()),
    ensures
        o@.temperature is Some ==> final(cfg).temperature == o@.temperature->0,
        o@.temperature is None ==> final(cfg).temperature == old(cfg).temperature,
        o@.max_tokens is Some ==> final(cfg).max_tokens == o@.max_tokens->0,
        o@.max_tokens is None ==> final(cfg).max_tokens == old(cfg).max_tokens,
        o@.max_turns is Some ==> final(cfg).max_turns == o@.max_turns,
        o@.max_turns is None ==> final(cfg).max_turns == old(cfg).max_turns,
        o@.max_concurrent_tools is Some ==> final(cfg).max_concurrent_tools
            == o@.max_concurrent_tools->0,
        o@.max_concurrent_tools is None ==> final(cfg).max_concurrent_tools == old(cfg).max_concurrent_tools,
        o@.workspace_only is Some ==> final(cfg).workspace_only == o@.workspace_only->0,
        o@.workspace_only is None ==> final(cfg).workspace_only == old(cfg).workspace_only,
        o@.system_prompt is Some ==> final(cfg).system_prompt@ == o@.system_prompt->0,
        o@.system_prompt is None ==> final(cfg).system_prompt@ == old(cfg).system_prompt@,
        o@.max_context_tokens is Some ==> final(cfg).max_context_tokens
            == o@.max_context_tokens->0,
        o@.max_context_tokens is None ==> final(cfg).max_context_tokens == old(cfg).max_context_tokens,
        final(cfg).agent_id == old(cfg).agent_id,
{
}

/// Overrides are empty just where they set nothing, and then change nothing.
pub proof fn law_empty_overrides_set_nothing(o: &AgentOverrides, r: bool)
    requires
        call_ensures(AgentOverrides::is_empty, (o,), r),
    ensures
        r <==> o@.temperature is None && o@.max_tokens is None && o@.max_turns is None
            && o@.max_concurrent_tools is None && o@.workspace_only is None && o@.system_prompt
            is None && o@.max_context_tokens is None,
{
}

/// The overrides of the gateway are those of the agent: its own are laid over its
/// configuration, and without any it stays as it was.
pub proof fn law_an_agent_has_its_own_overrides(
    g: &GatewayConfig,
    agent_id: &str,
    base: &mut AgentConfig,
)
    requires
        call_ensures(GatewayConfig::apply_agent_overrides, (g, agent_id, base), ()),
    ensures
        !g.agent_overrides@.dom().contains(agent_id@) ==> *final(base) == *old(base),
        g.agent_overrides@.dom().contains(agent_id@) ==> {
            let o = g.agent_overrides@[agent_id@]@;
            &&& o.max_tokens is Some ==> final(base).max_tokens == o.max_tokens->0
            &&& o.max_tokens is None ==> final(base).max_tokens == old(base).max_tokens
            &&& o.system_prompt is Some ==> final(base).system_prompt@ == o.system_prompt->0
            &&& o.system_prompt is None ==> final(base).system_prompt@ == old(base).system_prompt@
        },
{
}

proof fn lemma_fields_differ()
    ensures
        "temperature"@ != "max_tokens"@,
        "temperature"@ != "max_turns"@,
        "temperature"@ != "max_concurrent_tools"@,
        "temperature"@ != "workspace_only"@,
        "temperature"@ != "system_prompt"@,
        "temperature"@ != "max_context_tokens"@,
        "max_tokens"@ != "max_turns"@,
        "max_tokens"@ != "max_concurrent_tools"@,
        "max_tokens"@ != "workspace_only"@,
        "max_tokens"@ != "system_prompt"@,
        "max_tokens"@ != "max_context_tokens"@,
        "max_turns"@ != "max_concurrent_tools"@,
        "max_turns"@ != "workspace_only"@,
        "max_turns"@ != "system_prompt"@,
        "max_turns"@ != "max_context_tokens"@,
        "max_concurrent_tools"@ != "workspace_only"@,
        "max_concurrent_tools"@ != "system_prompt"@,
        "max_concurrent_tools"@ != "max_context_tokens"@,
        "workspace_only"@ != "system_prompt"@,
        "workspace_only"@ != "max_context_tokens"@,
        "system_prompt"@ != "max_context_tokens"@,
{
    reveal_strlit("temperature");
    reveal_strlit("max_tokens");
    reveal_strlit("max_turns");
    reveal_strlit("max_concurrent_tools");
    reveal_strlit("workspace_only");
    reveal_strlit("system_prompt");
    reveal_strlit("max_context_tokens");
    assert("temperature"@.len() == 11 && "temperature"@[0] == 't');
    assert("max_tokens"@.len() == 10 && "max_tokens"@[0] == 'm');
    assert("max_turns"@.len() == 9 && "max_turns"@[0] == 'm');
    assert("max_concurrent_tools"@.len() == 20 && "max_concurrent_tools"@[0] == 'm');
    assert("workspace_only"@.len() == 14 && "workspace_only"@[0] == 'w');
    assert("system_prompt"@.len() == 13 && "system_prompt"@[0] == 's');
    assert("max_context_tokens"@.len() == 18 && "max_context_tokens"@[0] == 'm');
}

/// Setting a field sets that field to the value and no other; a value of null
/// takes it back. It is a change just where the field was something else before.
pub proof fn law_setting_a_field_sets_that_field(
    o: &AgentOverrides,
    value: &Json,
    n: u64,
    tokens: Result<(AgentOverrides, bool), String>,
    turns: Result<(AgentOverrides, bool), String>,
    tools: Result<(AgentOverrides, bool), String>,
    context: Result<(AgentOverrides, bool), String>,
)
    requires
        call_ensures(AgentOverrides::with_field, (o, "max_tokens", value), tokens),
        call_ensures(AgentOverrides::with_field, (o, "max_turns", value), turns),
        call_ensures(AgentOverrides::with_field, (o, "max_concurrent_tools", value), tools),
        call_ensures(AgentOverrides::with_field, (o, "max_context_tokens", value), context),
        unsigned_of(value@) == Some(n),
        n <= u32::MAX,
    ensures
        tokens is Ok && tokens->Ok_0.0@ == (OverridesModel { max_tokens: Some(n as u32), ..o@ })
            && tokens->Ok_0.1 == (o@.max_tokens != Some(n as u32)),
        turns is Ok && turns->Ok_0.0@ == (OverridesModel { max_turns: Some(n as usize), ..o@ })
            && turns->Ok_0.1 == (o@.max_turns != Some(n as usize)),
        tools is Ok && tools->Ok_0.0@ == (OverridesModel {
            max_concurrent_tools: Some(n as usize),
            ..o@
        }) && tools->Ok_0.1 == (o@.max_concurrent_tools != Some(n as usize)),
        context is Ok && context->Ok_0.0@ == (OverridesModel {
            max_context_tokens: Some(n as usize),
            ..o@
        }) && context->Ok_0.1 == (o@.max_context_tokens != Some(n as usize)),
{
    lemma_fields_differ();
}

/// The same of the fields that are no counts: a truth value, a number and a text;
/// an empty text takes the prompt back.
pub proof fn law_setting_another_field_sets_that_field(
    o: &AgentOverrides,
    value: &Json,
    only: Result<(AgentOverrides, bool), String>,
    warm: Result<(AgentOverrides, bool), String>,
    prompt: Result<(AgentOverrides, bool), String>,
)
    requires
        call_ensures(AgentOverrides::with_field, (o, "workspace_only", value), only),
        call_ensures(AgentOverrides::with_field, (o, "temperature", value), warm),
        call_ensures(AgentOverrides::with_field, (o, "system_prompt", value), prompt),
    ensures
        value@ matches JsonModel::Bool(b) ==> only is Ok && only->Ok_0.0@ == (OverridesModel {
            workspace_only: Some(b),
            ..o@
        }) && only->Ok_0.1 == (o@.workspace_only != Some(b)),
        value@ matches JsonModel::Number(_, _, bits) ==> warm is Ok && warm->Ok_0.0@ == (
        OverridesModel { temperature: Some(Single { bits }), ..o@ }),
        value@ matches JsonModel::Text(t) ==> prompt is Ok && prompt->Ok_0.0@ == (OverridesModel {
            system_prompt: if t.len() > 0 {
                Some(t)
            } else {
                None
            },
            ..o@
        }),
        value@ is Null ==> only is Ok && only->Ok_0.0@ == (OverridesModel {
            workspace_only: None,
            ..o@
        }) && only->Ok_0.1 == o@.workspace_only is Some && warm is Ok && warm->Ok_0.0@ == (
        OverridesModel { temperature: None, ..o@ }) && warm->Ok_0.1 == o@.temperature is Some
            && prompt is Ok && prompt->Ok_0.0@ == (OverridesModel { system_prompt: None, ..o@ })
            && prompt->Ok_0.1 == o@.system_prompt is Some,
        !(value@ is Bool) && !(value@ is Null) ==> only is Err,
        !(value@ is Number) && !(value@ is Null) ==> warm is Err,
        !(value@ is Text) && !(value@ is Null) ==> prompt is Err,
{
    lemma_fields_differ();
}

/// A field that there is not is refused, under its own name.
pub proof fn law_an_unknown_field_is_refused(
    o: &AgentOverrides,
    name: &str,
    value: &Json,
    r: Result<(AgentOverrides, bool), String>,
)
    requires
        call_ensures(AgentOverrides::with_field, (o, name, value), r),
        name@ != "temperature"@ && name@ != "max_tokens"@ && name@ != "max_turns"@ && name@
            != "max_concurrent_tools"@ && name@ != "workspace_only"@ && name@ != "system_prompt"@
            && name@ != "max_context_tokens"@,
    ensures
        r is Err,
        r->Err_0@ == "Unknown agent parameter field: "@ + name@,
{
}

/// Setting a field of an agent changes the overrides of that agent and of no
/// other, and nothing else of the configuration; what then sets nothing is no
/// longer kept. A value that is refused changes nothing.
pub proof fn law_setting_a_field_touches_one_agent(
    g: &mut GatewayConfig,
    agent_id: &str,
    name: &str,
    value: &Json,
    other: Seq<char>,
    r: Result<bool, SyscityError>,
)
    requires
        call_ensures(GatewayConfig::apply_agent_override_field, (g, agent_id, name, value), r),
    ensures
        r is Err ==> *final(g) == *old(g),
        final(g).host == old(g).host,
        final(g).security == old(g).security,
        final(g).channels == old(g).channels,
        final(g).model == old(g).model,
        other != agent_id@ ==> (final(g).overrides().dom().contains(other) <==> old(g).overrides().dom().contains(other)),
        other != agent_id@ && old(g).overrides().dom().contains(other) ==> final(g).overrides()[other] == old(g).overrides()[other],
        final(g).overrides().dom().contains(agent_id@) && r is Ok ==> final(g).overrides()[agent_id@] != no_overrides(),
        r is Ok ==> field_outcome(old(g).overrides_of(agent_id@), name@, value@) is Ok && final(g).overrides_of(agent_id@) == field_outcome(
            old(g).overrides_of(agent_id@),
            name@,
            value@,
        )->Ok_0.0,
{
}

/// Clearing the overrides of an agent leaves none of it, and those of others
/// alone.
pub proof fn law_clearing_touches_one_agent(
    g: &mut GatewayConfig,
    agent_id: &str,
    other: Seq<char>,
)
    requires
        call_ensures(GatewayConfig::clear_agent_overrides, (g, agent_id), ()),
    ensures
        !final(g).overrides().dom().contains(agent_id@),
        other != agent_id@ && old(g).overrides().dom().contains(other) ==> final(g).overrides().dom().contains(other) && final(g).overrides()[other] == old(g).overrides()[other],
        other != agent_id@ && final(g).overrides().dom().contains(other) ==> old(g).overrides().dom().contains(other),
        final(g).host == old(g).host,
        final(g).security == old(g).security,
{
}

/// The lists of a channel say who is on them, and a new channel has nobody on
/// either.
pub proof fn law_channel_lists_hold_who_was_listed(
    c: &ChannelConfig,
    user: &str,
    allowed: bool,
    blocked: bool,
)
    requires
        call_ensures(ChannelConfig::is_in_allowlist, (c, user), allowed),
        call_ensures(ChannelConfig::is_blocked, (c, user), blocked),
    ensures
        allowed <==> exists|i: int|
            0 <= i < c.allow_from@.len() && (#[trigger] c.allow_from@[i])@ == user@,
        blocked <==> exists|i: int|
            0 <= i < c.block_from@.len() && (#[trigger] c.block_from@[i])@ == user@,
{
    lemma_listed(c.allow_from@, user@);
    lemma_listed(c.block_from@, user@);
}

proof fn lemma_listed(v: Seq<String>, t: Seq<char>)
    ensures
        texts(v).contains(t) <==> exists|i: int| 0 <= i < v.len() && (#[trigger] v[i])@ == t,
{
    if texts(v).contains(t) {
        let i = choose|i: int| 0 <= i < texts(v).len() && texts(v)[i] == t;
        assert(v[i]@ == t);
    }
    if exists|i: int| 0 <= i < v.len() && (#[trigger] v[i])@ == t {
        let i = choose|i: int| 0 <= i < v.len() && (#[trigger] v[i])@ == t;
        assert(texts(v)[i] == t);
    }
}

/// The key of a search provider is its own, unless that is empty; only then the
/// common key counts, and an empty one is none.
pub proof fn law_a_search_provider_has_its_own_key(
    c: &SearchConfig,
    provider: &str,
    r: Option<String>,
    list: Vec<String>,
)
    requires
        call_ensures(SearchConfig::api_key_for, (c, provider), r),
        call_ensures(SearchConfig::provider_list, (c,), list),
    ensures
        c.keys@.dom().contains(provider@) && c.keys@[provider@]@.len() > 0 ==> opt_text(r) == Some(
            c.keys@[provider@]@,
        ),
        (!c.keys@.dom().contains(provider@) || c.keys@[provider@]@.len() == 0) && c.api_key@.len()
            > 0 ==> opt_text(r) == Some(c.api_key@),
        (!c.keys@.dom().contains(provider@) || c.keys@[provider@]@.len() == 0) && c.api_key@.len()
            == 0 ==> r is None,
        c.providers@.len() > 0 ==> texts(list@) == texts(c.providers@),
        c.providers@.len() == 0 ==> texts(list@) == seq![c.provider@],
{
}

/// Two search configurations are the same where everything in them is: the
/// provider, the providers in their order, the common key and every key.
pub proof fn law_search_settings_differ_in_anything(
    a: &SearchConfig,
    b: &SearchConfig,
    r: bool,
    key: Seq<char>,
)
    requires
        call_ensures(SearchConfig::same_as, (a, b), r),
    ensures
        *a == *b ==> r,
        r ==> a.provider@ == b.provider@ && texts(a.providers@) == texts(b.providers@)
            && a.api_key@ == b.api_key@ && (a.keys@.dom().contains(key)
            <==> b.keys@.dom().contains(key)) && (a.keys@.dom().contains(key) ==> a.keys@[key]@
            == b.keys@[key]@),
{
    let x = crate::gateway::config::memory::text_map(a.keys@);
    let y = crate::gateway::config::memory::text_map(b.keys@);
    assert(x.dom().contains(key) <==> a.keys@.dom().contains(key));
    assert(y.dom().contains(key) <==> b.keys@.dom().contains(key));
    if a.keys@.dom().contains(key) {
        assert(x[key] == a.keys@[key]@);
    }
    if b.keys@.dom().contains(key) {
        assert(y[key] == b.keys@[key]@);
    }
}

/// A snapshot holds what can be reloaded, as it stands, and nothing else: each of
/// these sections, where it is set.
pub proof fn law_a_snapshot_holds_the_reloadable_sections(
    serialized: &Json,
    r: ConfigSnapshot,
    key: Seq<char>,
)
    requires
        call_ensures(GatewayConfig::snapshot, (serialized,), r),
    ensures
        is_reloadable(key) && field(serialized@, key) is Some && !(field(serialized@, key)->0
            is Null) ==> r.values().dom().contains(key) && r.values()[key] == field(
            serialized@,
            key,
        )->0,
        r.values().dom().contains(key) ==> is_reloadable(key) && field(serialized@, key) is Some
            && !(field(serialized@, key)->0 is Null),
{
    let all = reloadable();
    assert(all[0] == "security"@);
    assert(all[1] == "providers"@);
    assert(all[2] == "mcp"@);
    assert(all[3] == "hot_reload"@);
    assert(all[4] == "cost_guard"@);
    assert(all[5] == "capabilities"@);
    assert(all[6] == "computer"@);
    assert(all[7] == "workspace_dir"@);
    assert(all[8] == "workspace_only"@);
    assert(all[9] == "model"@);
    assert(all[10] == "model_provider"@);
    assert(all[11] == "dreaming"@);
    assert(all[12] == "standing_orders"@);
    assert(all[13] == "cron"@);
    assert(all[14] == "browser"@);
}

/// Whether a section can be reloaded.
pub open spec fn is_reloadable(key: Seq<char>) -> bool {
    key == "security"@ || key == "providers"@ || key == "mcp"@ || key == "hot_reload"@ || key == "cost_guard"@ || key == "capabilities"@ || key == "computer"@ || key == "workspace_dir"@ || key == "workspace_only"@ || key == "model"@ || key == "model_provider"@ || key == "dreaming"@ || key == "standing_orders"@ || key == "cron"@ || key == "browser"@
}

/// A difference is listed just where the values differ: under its key, with the
/// value before and the value after; what came or went is listed with nothing on
/// the other side.
pub proof fn law_differences_are_listed_with_both_values(
    before: &ConfigSnapshot,
    after: &ConfigSnapshot,
    r: Vec<ConfigChange>,
    key: Seq<char>,
    i: int,
)
    requires
        call_ensures(diff_snapshots, (before, after), r),
    ensures
        before.values().dom().contains(key) && after.values().dom().contains(key) && !equal(
            before.values()[key],
            after.values()[key],
        ) ==> lists(r@, key),
        before.values().dom().contains(key) != after.values().dom().contains(key) ==> lists(
            r@,
            key,
        ),
        0 <= i < r@.len() && r@[i].path@ == key ==> {
            &&& before.values().dom().contains(key) ==> r@[i].old_value is Some
                && r@[i].old_value->0@ == before.values()[key]
            &&& !before.values().dom().contains(key) ==> r@[i].old_value is None
            &&& after.values().dom().contains(key) ==> r@[i].new_value is Some
                && r@[i].new_value->0@ == after.values()[key]
            &&& !after.values().dom().contains(key) ==> r@[i].new_value is None
            &&& !(before.values().dom().contains(key) && after.values().dom().contains(key)
                && equal(before.values()[key], after.values()[key]))
        },
{
    assert(crate::gateway::config::differs(before.values(), after.values(), key) ==> lists(
        r@,
        key,
    ));
}

/// Whether a change is listed under a key.
pub open spec fn lists(changes: Seq<ConfigChange>, key: Seq<char>) -> bool {
    exists|i: int| 0 <= i < changes.len() && (#[trigger] changes[i]).path@ == key
}

/// A gateway with nothing configured is bound to this machine, has no channel and
/// no provider, and keeps its agents to the workspace; what comes from elsewhere
/// is taken as it comes.
pub proof fn law_an_unconfigured_gateway_keeps_to_itself(
    outside: OutsideDefaults,
    r: GatewayConfig,
    bound: &str,
    local: bool,
    name: Seq<char>,
)
    requires
        call_ensures(GatewayConfig::with_defaults, (outside,), r),
        call_ensures(is_loopback_bind, (bound,), local),
        bound@ == r.host@,
    ensures
        local,
        !r.channels@.dom().contains(name),
        !r.providers@.dom().contains(name),
        !r.agent_overrides@.dom().contains(name),
        !r.mcp.servers@.dom().contains(name),
        r.workspace_only,
        r.default_agent == outside.default_agent,
        r.model == outside.model,
        r.model_provider == outside.model_provider,
        r.computer == outside.computer,
        r.capabilities == outside.capabilities,
        r.cloud == outside.cloud,
        r.permissions == outside.permissions,
        !texts(r.security.local_scopes@).contains("admin"@),
        !texts(r.security.shared_token_scopes@).contains("admin"@),
        !texts(r.security.device_scopes@).contains("admin"@),
        r.security.shared_token is None,
        !r.security.allow_non_loopback_without_auth,
{
    crate::gateway::config::security::law_no_default_scope_is_admin();
}

/// A channel that is set up takes the policy and the list that it is given, and
/// keeps everything else.
pub proof fn law_a_channel_takes_what_it_is_given(
    kind: ChannelType,
    policy: DmPolicy,
    list: Vec<String>,
    a: ChannelConfig,
    b: ChannelConfig,
    c: ChannelConfig,
)
    requires
        call_ensures(ChannelConfig::new, (kind,), a),
        call_ensures(ChannelConfig::with_dm_policy, (a, policy), b),
        call_ensures(ChannelConfig::with_allow_from, (b, list), c),
    ensures
        a.enabled && b.enabled && c.enabled,
        a.channel_type == kind && c.channel_type == kind,
        b.dm_policy == policy && c.dm_policy == policy,
        c.allow_from@ == list@,
        a.allow_from@.len() == 0 && a.block_from@.len() == 0 && c.block_from@.len() == 0,
        c.credentials == a.credentials,
{
}

/// The providers that are asked for are asked in their order, each with its own
/// key; those that answer are used, in that order, and the one that needs no key
/// where none does.
pub proof fn law_search_providers_are_asked_in_order(
    c: SearchConfig,
    asked: Seq<(String, Option<String>)>,
    names: Vec<String>,
    i: int,
    name: &str,
    key: Option<String>,
    answers: Seq<Option<SearchProvider>>,
    one: Option<SearchProvider>,
)
    requires
        asked_in_order(c, asked),
        call_ensures(SearchConfig::provider_list, (&c,), names),
        call_ensures(SearchConfig::api_key_for, (&c, name), key),
    ensures
        asked.len() == names@.len(),
        0 <= i < asked.len() ==> asked[i].0@ == names@[i]@,
        0 <= i < asked.len() && asked[i].0@ == name@ ==> opt_text(asked[i].1) == opt_text(key),
        one is None ==> found(answers.push(one)) == found(answers),
        one is Some ==> found(answers.push(one)) == found(answers).push(one->0),
        found(answers).len() == 0 ==> usable_providers(answers) == seq![
            SearchProvider::DuckDuckGo,
        ],
        found(answers).len() > 0 ==> usable_providers(answers) == found(answers),
{
    assert(answers.push(one).drop_last() =~= answers);
    if 0 <= i < asked.len() {
        assert(texts(names@)[i] == names@[i]@);
        assert(asked[i].0@ == crate::gateway::config::memory::provider_names(c)[i]);
    }
}

/// What changed since a snapshot is what differs from it now, and the revision of
/// a configuration is that of its content.
pub proof fn law_changes_since_a_snapshot_are_the_differences(
    serialized: &Json,
    before: &ConfigSnapshot,
    now: ConfigSnapshot,
    r: Vec<ConfigChange>,
    key: Seq<char>,
    hash: String,
    revision: String,
)
    requires
        call_ensures(GatewayConfig::diff_since, (serialized, before), r),
        call_ensures(GatewayConfig::snapshot, (serialized,), now),
        call_ensures(config_json_hash, (serialized,), hash),
        call_ensures(config_revision, (serialized,), revision),
    ensures
        before.values().dom().contains(key) != now.values().dom().contains(key) ==> lists(r@, key),
        before.values().dom().contains(key) && now.values().dom().contains(key) ==> (lists(r@, key)
            <==> !equal(before.values()[key], now.values()[key])),
        revision@ == hash@,
{
    assert(now.values() == crate::gateway::config::reloadable_values(serialized@));
    assert(crate::gateway::config::differs(before.values(), now.values(), key) ==> lists(
        r@,
        key,
    ));
}

/// A count that is set to null is taken back, and anything but a whole number is
/// refused, in words that name the field.
pub proof fn law_a_count_is_taken_back_by_null(
    o: &AgentOverrides,
    value: &Json,
    tokens: Result<(AgentOverrides, bool), String>,
    turns: Result<(AgentOverrides, bool), String>,
    tools: Result<(AgentOverrides, bool), String>,
    context: Result<(AgentOverrides, bool), String>,
)
    requires
        call_ensures(AgentOverrides::with_field, (o, "max_tokens", value), tokens),
        call_ensures(AgentOverrides::with_field, (o, "max_turns", value), turns),
        call_ensures(AgentOverrides::with_field, (o, "max_concurrent_tools", value), tools),
        call_ensures(AgentOverrides::with_field, (o, "max_context_tokens", value), context),
    ensures
        value@ is Null ==> tokens is Ok && tokens->Ok_0.0@ == (OverridesModel {
            max_tokens: None,
            ..o@
        }) && tokens->Ok_0.1 == o@.max_tokens is Some,
        value@ is Null ==> turns is Ok && turns->Ok_0.0@ == (OverridesModel {
            max_turns: None,
            ..o@
        }) && turns->Ok_0.1 == o@.max_turns is Some,
        value@ is Null ==> tools is Ok && tools->Ok_0.0@ == (OverridesModel {
            max_concurrent_tools: None,
            ..o@
        }) && tools->Ok_0.1 == o@.max_concurrent_tools is Some,
        value@ is Null ==> context is Ok && context->Ok_0.0@ == (OverridesModel {
            max_context_tokens: None,
            ..o@
        }) && context->Ok_0.1 == o@.max_context_tokens is Some,
        !(value@ is Null) && unsigned_of(value@) is None ==> tokens is Err && turns is Err && tools
            is Err && context is Err && tokens->Err_0@
            == "max_tokens must be a non-negative integer"@ && turns->Err_0@
            == "max_turns must be a non-negative integer"@ && tools->Err_0@
            == "max_concurrent_tools must be a non-negative integer"@ && context->Err_0@
            == "max_context_tokens must be a non-negative integer"@,
        unsigned_of(value@) is Some && unsigned_of(value@)->0 > u32::MAX ==> tokens is Err,
{
    lemma_fields_differ();
}

} // verus!
