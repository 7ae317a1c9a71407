//! Laws of reloading the configuration.
use vstd::prelude::*;

use crate::gateway::config::misc::ChannelConfig;
use crate::gateway::hot_reload::{
    changed_subject, configured_name, enabled_in, names, needs_restart, on_agent_file,
    on_channel_file, plan_channels, plugin_of, plugin_step, reload_audit, to_restart, to_start,
    AgentFileAction, ChangedSubject, ChannelFileAction, ChannelPlan, ConfigFileType, PluginStage,
};
use crate::path::first_below;
use crate::strmap::{keyed, StrMap};
use crate::text::{decimal, lemma_filter_has, texts};

verus! {

/// After a reload every running, enabled channel works with its new settings: one
/// that is not restarted stood in the former configuration with the same
/// credentials, the same lists and the same policy.
pub proof fn law_a_channel_that_is_not_restarted_has_its_settings(
    running: &[String],
    old: &StrMap<ChannelConfig>,
    new: &StrMap<ChannelConfig>,
    r: ChannelPlan,
    name: Seq<char>,
    key: Seq<char>,
)
    requires
        call_ensures(plan_channels, (running, old, new), r),
        texts(running@).contains(name),
        new@.dom().contains(name),
        new@[name].enabled,
        !texts(r.restart@).contains(name),
    ensures
        old@.dom().contains(name),
        old@[name].credentials@.dom().contains(key) <==> new@[name].credentials@.dom().contains(
            key,
        ),
        old@[name].credentials@.dom().contains(key) ==> old@[name].credentials@[key]@
            == new@[name].credentials@[key]@,
        texts(old@[name].allow_from@) == texts(new@[name].allow_from@),
        texts(old@[name].block_from@) == texts(new@[name].block_from@),
        old@[name].dm_policy == new@[name].dm_policy,
{
    lemma_restarted(texts(running@), old@, *new, name);
    let a = crate::gateway::config::memory::text_map(old@[name].credentials@);
    let b = crate::gateway::config::memory::text_map(new@[name].credentials@);
    assert(a.dom().contains(key) <==> old@[name].credentials@.dom().contains(key));
    assert(b.dom().contains(key) <==> new@[name].credentials@.dom().contains(key));
    if old@[name].credentials@.dom().contains(key) {
        assert(a[key] == old@[name].credentials@[key]@);
        assert(b[key] == new@[name].credentials@[key]@);
    }
}

proof fn lemma_restarted(
    running: Seq<Seq<char>>,
    old: Map<Seq<char>, ChannelConfig>,
    new: StrMap<ChannelConfig>,
    name: Seq<char>,
)
    ensures
        to_restart(running, old, new).contains(name) <==> names(new.list()).contains(name)
            && enabled_in(new@, name) && running.contains(name) && needs_restart(old, new@, name),
        new@.dom().contains(name) ==> names(new.list()).contains(name),
        to_start(running, new).contains(name) <==> names(new.list()).contains(name) && enabled_in(
            new@,
            name,
        ) && !running.contains(name),
{
    let all = names(new.list());
    let p = |n: Seq<char>|
        enabled_in(new@, n) && running.contains(n) && needs_restart(old, new@, n);
    let q = |n: Seq<char>| enabled_in(new@, n) && !running.contains(n);
    lemma_filter_has(all, p, name);
    lemma_filter_has(all, q, name);
    if new@.dom().contains(name) {
        let j = choose|j: int| #[trigger] keyed(new.list(), name, j);
        assert(keyed(new.list(), name, j));
        assert(all[j] == name);
        assert(all.contains(name));
    }
}

/// A channel is restarted only where it runs, stays enabled and has other
/// settings than before; one whose settings are the same goes on undisturbed.
pub proof fn law_an_unchanged_channel_is_not_restarted(
    running: &[String],
    old: &StrMap<ChannelConfig>,
    new: &StrMap<ChannelConfig>,
    r: ChannelPlan,
    name: Seq<char>,
)
    requires
        call_ensures(plan_channels, (running, old, new), r),
        texts(r.restart@).contains(name),
    ensures
        texts(running@).contains(name),
        new@.dom().contains(name),
        new@[name].enabled,
        old@.dom().contains(name) ==> !(old@[name].credentials@ =~= new@[name].credentials@
            && old@[name].allow_from@ == new@[name].allow_from@ && old@[name].block_from@
            == new@[name].block_from@ && old@[name].dm_policy == new@[name].dm_policy),
{
    lemma_restarted(texts(running@), old@, *new, name);
}

/// What is stopped is what runs and is no longer enabled; what is started is what
/// is enabled and does not run.
pub proof fn law_channels_stop_and_start_as_configured(
    running: &[String],
    old: &StrMap<ChannelConfig>,
    new: &StrMap<ChannelConfig>,
    r: ChannelPlan,
    name: Seq<char>,
)
    requires
        call_ensures(plan_channels, (running, old, new), r),
    ensures
        texts(r.stop@).contains(name) <==> texts(running@).contains(name) && !(
        new@.dom().contains(name) && new@[name].enabled),
        texts(r.start@).contains(name) <==> new@.dom().contains(name) && new@[name].enabled
            && !texts(running@).contains(name),
{
    lemma_restarted(texts(running@), old@, *new, name);
    let p = |n: Seq<char>| !enabled_in(new@, n);
    lemma_filter_has(texts(running@), p, name);
}

/// A changed file of an agent or a channel is about whom it is named after, one
/// of a plugin about the directory that it lies in, one of a knowledge base about
/// the agent below whose directory it lies. A file of a knowledge base that is
/// gone asks for nothing; any other asks for the same, there or gone.
pub proof fn law_changed_files_are_about_their_own_subject(
    kind: ConfigFileType,
    path: &str,
    deleted: bool,
    agents_dir: &str,
    r: ChangedSubject,
)
    requires
        call_ensures(changed_subject, (kind, path, deleted, agents_dir), r),
    ensures
        r is Main <==> kind is Main,
        r is Gateway <==> kind is Gateway,
        r is Agent <==> kind is Agent,
        r is Channel <==> kind is Channel,
        r is Plugin ==> kind is Plugin,
        r is KnowledgeBase ==> kind is KnowledgeBase && !deleted,
        r matches ChangedSubject::Agent(name) ==> name@ == configured_name(path@),
        r matches ChangedSubject::Channel(name) ==> name@ == configured_name(path@),
        r matches ChangedSubject::Plugin(name) ==> plugin_of(path@) == Some(name@) && name@.len()
            > 0,
        r matches ChangedSubject::KnowledgeBase(name) ==> first_below(path@, agents_dir@) == Some(
            name@,
        ),
        r is Nothing ==> (kind is Plugin && (plugin_of(path@) is None || plugin_of(path@)->0.len()
            == 0)) || (kind is KnowledgeBase && (deleted || first_below(path@, agents_dir@)
            is None)),
{
}

/// A running agent gets its changed file at once, any other when it starts; a
/// channel is stopped just where it runs and started just where it is enabled.
pub proof fn law_changed_files_reach_what_runs(
    name: &str,
    running: &[String],
    new: &ChannelConfig,
    a: AgentFileAction,
    c: ChannelFileAction,
)
    requires
        call_ensures(on_agent_file, (name, running), a),
        call_ensures(on_channel_file, (name, running, new), c),
    ensures
        a is SendUpdate <==> exists|i: int|
            0 <= i < running@.len() && (#[trigger] running@[i])@ == name@,
        c.stop <==> a is SendUpdate,
        c.start <==> new.enabled,
{
    let all = texts(running@);
    if all.contains(name@) {
        let i = choose|i: int| 0 <= i < all.len() && all[i] == name@;
        assert(running@[i]@ == name@);
    }
    assert forall|i: int| 0 <= i < running@.len() && (#[trigger] running@[i])@ == name@ implies all
        .contains(name@) by {
        assert(all[i] == name@);
    }
}

/// A plugin that cannot be reloaded is unloaded and loaded again; it runs its new
/// code just where the reload succeeded or both of these did, and what has ended
/// stays ended.
pub proof fn law_a_plugin_is_reloaded_or_loaded_again(
    reloaded: bool,
    unloaded: bool,
    loaded: bool,
    a: PluginStage,
    b: PluginStage,
    c: PluginStage,
)
    requires
        call_ensures(plugin_step, (PluginStage::Reloading, reloaded), a),
        call_ensures(plugin_step, (a, unloaded), b),
        call_ensures(plugin_step, (b, loaded), c),
    ensures
        c is Reloaded <==> reloaded || (unloaded && loaded),
        c is Failed <==> !reloaded && !(unloaded && loaded),
        a is Reloaded <==> reloaded,
        b is Failed <==> !reloaded && !unloaded,
{
}

/// A reload that changes nothing is not recorded; any other is recorded with the
/// number of fields that it changed.
pub proof fn law_only_changes_are_recorded(changed: usize, r: Option<String>)
    requires
        call_ensures(reload_audit, (changed,), r),
    ensures
        r is None <==> changed == 0,
        r is Some ==> r->0@ == "Hot-reload config change: "@ + decimal(changed as nat)
            + " field(s)"@,
{
}

/// A file is named by what stands before its ending, and is unknown where it has
/// no name.
pub proof fn law_a_file_without_a_name_is_unknown(path: &str, base: Option<String>)
    requires
        call_ensures(crate::path::file_stem, (path,), base),
    ensures
        base is Some ==> configured_name(path@) == base->0@,
        base is None ==> configured_name(path@) == "unknown"@,
{
}

} // verus!
