//! Laws of the spawning of agents and of their loops.
use vstd::prelude::*;

use crate::agent::AgentConfig;
use crate::error::SyscityError;
use crate::gateway::agent_spawn::{
    answer_query, begin_message_acp, begin_message_direct, builtin_tools, capability_profile,
    create_default_tool_registry, default_tools, effective_model_for_spawn, max_scope, privileged,
    privileged_tools, process_message_acp, process_message_direct, resolve_agent, run_agent_loop,
    search_providers, sets_to_disable, spawn_agent_inner, spawn_configs, spawn_work, wake_target,
    AcpOutcome, AgentCommand, AgentQuery, AgentSettings, BuiltinTool, CapabilityProfile,
    DirectMessage, DirectOutcome, LoopAction, OsControlScope, QueryAction, RegistryPlan, SkillTrust,
    SpawnTable, SpawnWork, ToolConditions, ToolSet, WakeTarget,
};
use crate::gateway::config::{CapabilitiesConfig, GatewayConfig};
use crate::gateway::config::memory::SearchProvider;
use crate::gateway::dispatch::{IncomingMessage, Outgoing, UsageTotals};
use crate::gateway::events::GatewayEvent;
use crate::json::Json;
use crate::laws::events::{agent_told, session_told};
use crate::text::{opt_text, texts};

verus! {

/// A session of a delegation wakes that run, and any other goes by the router.
pub proof fn law_a_delegation_wakes_its_run(session: &str, run: Seq<char>, r: WakeTarget)
    requires
        call_ensures(wake_target, (session,), r),
    ensures
        session@ == "delegation:"@ + run ==> (r matches WakeTarget::Delegation(id) && id@ == run),
        r is Router <==> !"delegation:"@.is_prefix_of(session@),
{
    crate::laws::text::law_a_beginning_is_taken_away("delegation:"@, run, session@);
}

/// An agent that runs is woken itself; only in its place, where it does not run,
/// the default agent is, and nobody where neither runs or none is named.
pub proof fn law_the_named_agent_is_woken(
    agent_id: &Option<String>,
    running: &[String],
    r: Option<String>,
)
    requires
        call_ensures(resolve_agent, (agent_id, running), r),
    ensures
        *agent_id is None ==> r is None,
        *agent_id is Some && texts(running@).contains(agent_id->0@) ==> r is Some && r->0@
            == agent_id->0@,
        *agent_id is Some && !texts(running@).contains(agent_id->0@) && texts(running@).contains(
            "default"@,
        ) ==> r is Some && r->0@ == "default"@,
        *agent_id is Some && !texts(running@).contains(agent_id->0@) && !texts(running@).contains(
            "default"@,
        ) ==> r is None,
        r is Some ==> texts(running@).contains(r->0@),
{
}

/// The model that was switched to is used, and the configured one only where none
/// was.
pub proof fn law_the_active_model_is_used(active: Option<&Json>, configured: &str, r: String)
    requires
        call_ensures(effective_model_for_spawn, (active, configured), r),
    ensures
        active is Some && active->0@ is Text ==> r@ == active->0@->Text_0,
        active is None || !(active->0@ is Text) ==> r@ == configured@,
{
}

/// An agent is spawned under its own id, otherwise as it is configured; its own
/// overrides, and nobody else's, count above that.
pub proof fn law_an_agent_is_spawned_as_configured(
    gateway: &GatewayConfig,
    id: &str,
    config: AgentConfig,
    r: (AgentConfig, AgentConfig),
)
    requires
        call_ensures(spawn_configs, (gateway, id, config), r),
    ensures
        opt_text(r.0.agent_id) == Some(id@),
        r.0.system_prompt == config.system_prompt,
        r.0.temperature == config.temperature,
        r.0.max_tokens == config.max_tokens,
        r.0.workspace_only == config.workspace_only,
        !gateway.agent_overrides@.dom().contains(id@) ==> r.1 == r.0,
        gateway.agent_overrides@.dom().contains(id@) ==> {
            let o = gateway.agent_overrides@[id@]@;
            &&& o.max_tokens is Some ==> r.1.max_tokens == o.max_tokens->0
            &&& o.max_tokens is None ==> r.1.max_tokens == config.max_tokens
            &&& o.temperature is Some ==> r.1.temperature == o.temperature->0
            &&& o.temperature is None ==> r.1.temperature == config.temperature
            &&& o.workspace_only is Some ==> r.1.workspace_only == o.workspace_only->0
            &&& o.workspace_only is None ==> r.1.workspace_only == config.workspace_only
            &&& o.system_prompt is Some ==> r.1.system_prompt@ == o.system_prompt->0
            &&& o.system_prompt is None ==> r.1.system_prompt@ == config.system_prompt@
            &&& o.max_turns is Some ==> r.1.max_turns == o.max_turns
            &&& o.max_turns is None ==> r.1.max_turns == config.max_turns
            &&& opt_text(r.1.agent_id) == Some(id@)
        },
{
}

/// One agent is spawned at most once at a time: a reservation that stands refuses
/// another of the same agent, and of no other.
pub proof fn law_an_agent_is_reserved_once(
    t: &mut SpawnTable,
    id: &str,
    other: Seq<char>,
    r: Result<(), SyscityError>,
)
    requires
        call_ensures(SpawnTable::reserve, (t, id), r),
    ensures
        r is Ok <==> !old(t).pending().contains(id@),
        final(t).pending().contains(id@),
        other != id@ ==> (final(t).pending().contains(other) <==> old(t).pending().contains(
            other,
        )),
        final(t).running() == old(t).running(),
{
}

/// An agent runs once at most; when it starts to run, or when its reservation is
/// given up, it is no longer pending, and nothing changes for any other.
pub proof fn law_an_agent_runs_once(
    t: &mut SpawnTable,
    u: &mut SpawnTable,
    id: &str,
    other: Seq<char>,
    r: Result<(), SyscityError>,
)
    requires
        call_ensures(SpawnTable::commit, (t, id), r),
        call_ensures(SpawnTable::release, (u, id), ()),
    ensures
        r is Ok <==> !old(t).running().contains(id@),
        final(t).running().contains(id@),
        !final(t).pending().contains(id@),
        !final(u).pending().contains(id@),
        final(u).running() == old(u).running(),
        other != id@ ==> (final(t).running().contains(other) <==> old(t).running().contains(
            other,
        )),
        other != id@ ==> (final(t).pending().contains(other) <==> old(t).pending().contains(
            other,
        )),
        other != id@ ==> (final(u).pending().contains(other) <==> old(u).pending().contains(
            other,
        )),
{
}

/// A spawn ends its reservation and leaves the agent running; its tasks bear the
/// agent's name, and only one that did not run gets any.
pub proof fn law_a_spawn_leaves_the_agent_running(
    t: &mut SpawnTable,
    gateway: &GatewayConfig,
    id: &str,
    data_root: &str,
    has_memory: bool,
    r: Result<SpawnWork, SyscityError>,
)
    requires
        call_ensures(spawn_agent_inner, (t, gateway, id, data_root, has_memory), r),
    ensures
        final(t).running().contains(id@),
        !final(t).pending().contains(id@),
        r is Ok <==> !old(t).running().contains(id@),
        r matches Ok(w) ==> {
            &&& w.loop_task@ == "agent:"@ + id@
            &&& w.repair_task@ == "agent:"@ + id@ + ":repair"@
            &&& w.repair_every_secs == 5 * 60
            &&& w.stale_after_secs == 30 * 60
            &&& w.max_steps == gateway.computer.max_steps
            &&& w.settle_delay_ms == gateway.computer.settle_delay_ms
            &&& w.with_chat_history == has_memory
        },
{
}

/// What a message asks is done with that message: in its session, for its author,
/// through its channel, with its model where it goes directly, and by the way
/// that is set.
pub proof fn law_a_message_is_processed_as_it_came(
    agent_id: &str,
    session: String,
    text: String,
    user: String,
    chan: String,
    model: Option<String>,
    use_acp: bool,
    r: (Vec<LoopAction>, bool),
)
    requires
        call_ensures(
            run_agent_loop,
            (
                agent_id,
                Some(
                    AgentCommand::ProcessMessage {
                        session_id: session,
                        message: text,
                        user_id: user,
                        channel: chan,
                        model_override: model,
                    },
                ),
                use_acp,
            ),
            r,
        ),
    ensures
        r.1,
        r.0@.len() == 5,
        r.0@[0] == LoopAction::SetBusy(true),
        r.0@[4] == LoopAction::SetBusy(false),
        use_acp ==> (r.0@[2] matches LoopAction::ProcessAcp {
            session_id,
            message,
            user_id,
            channel,
        } && session_id@ == session@ && message@ == text@ && user_id@ == user@ && channel@
            == chan@),
        !use_acp ==> (r.0@[2] matches LoopAction::ProcessDirect {
            session_id,
            message,
            user_id,
            channel,
            model_override,
        } && session_id@ == session@ && message@ == text@ && user_id@ == user@ && channel@ == chan@
            && opt_text(model_override) == opt_text(model)),
        r.0@[1] matches LoopAction::Emit(e) && agent_told(e) == Some(agent_id@) && session_told(e)
            == Some(session@),
        r.0@[3] matches LoopAction::Emit(e) && agent_told(e) == Some(agent_id@),
{
}

/// The loop ends when it is shut down or when nobody can command it any more, and
/// not before; a new configuration is applied as it is given, and a message to
/// cancel does nothing by itself.
pub proof fn law_the_loop_ends_only_when_told(
    agent_id: &str,
    command: Option<AgentCommand>,
    use_acp: bool,
    r: (Vec<LoopAction>, bool),
    i: int,
)
    requires
        call_ensures(run_agent_loop, (agent_id, command, use_acp), r),
    ensures
        !r.1 <==> command is None || command->0 is Shutdown,
        command is Some && command->0 is Cancel ==> r.0@.len() == 0,
        command matches Some(AgentCommand::UpdateConfig(config)) ==> r.0@[0]
            == LoopAction::ApplyConfig(config),
        0 <= i < r.0@.len() && r.0@[i] is ApplyConfig ==> command is Some && command->0
            is UpdateConfig,
        0 <= i < r.0@.len() && (r.0@[i] is ProcessAcp || r.0@[i] is ProcessDirect) ==> command
            is Some && command->0 is ProcessMessage,
{
}

/// A query is answered about the thread that it names: its turns are read, its
/// last turn taken back or repeated, never that of another.
pub proof fn law_queries_are_answered_about_their_thread(
    query: Option<AgentQuery>,
    r: (Vec<QueryAction>, bool),
)
    requires
        call_ensures(answer_query, (query,), r),
    ensures
        r.1 <==> query is Some,
        query matches Some(AgentQuery::GetThreadSummaries) ==> r.0@.len() == 1 && r.0@[0]
            is ReplySummaries,
        query matches Some(AgentQuery::GetThreadTurns { conv_id }) ==> r.0@.len() == 1 && r.0@[0]
            == (QueryAction::ReplyTurns { conv_id }),
        query matches Some(AgentQuery::UndoLastTurn { conv_id }) ==> r.0@.len() == 1 && r.0@[0]
            == (QueryAction::ReplyUndo { conv_id }),
        query matches Some(AgentQuery::RedoLastTurn { conv_id }) ==> r.0@.len() == 1 && r.0@[0]
            == (QueryAction::ReplyRedo { conv_id }),
        query matches Some(AgentQuery::RunSkill { session_id, message, user_id, skill_trust })
            ==> r.0@.len() == 4 && r.0@[0] == QueryAction::SetSkillTrust(skill_trust) && (
        r.0@[1] matches QueryAction::Process(m) && m.session_id@ == session_id@ && m.content@
            == message@ && m.user_id@ == user_id@) && r.0@[2] == QueryAction::SetSkillTrust(
            SkillTrust::Trusted,
        ) && r.0@[3] is ReplyResult,
{
}

/// A message through the control plane is the one that came; its answer is saved,
/// handed on and told in the same words, in its session and its channel, and a
/// failure is told as one.
pub proof fn law_a_relayed_answer_is_one_text(
    gateway: &GatewayConfig,
    agent_id: &str,
    session: &str,
    text: &str,
    user: &str,
    chan: &str,
    conversation: &Option<String>,
    result: Result<Outgoing, String>,
    m: IncomingMessage,
    r: AcpOutcome,
)
    requires
        call_ensures(begin_message_acp, (session, text, user, chan), m),
        call_ensures(
            process_message_acp,
            (gateway, agent_id, session, chan, conversation, result),
            r,
        ),
    ensures
        m.session_id@ == session@,
        m.content@ == text@,
        m.user_id@ == user@,
        opt_text(m.channel) == Some(chan@),
        result matches Ok(o) ==> r.saved_content@ == o.content@ && r.usage == o.usage
            && r.reasoning_content == o.reasoning_content,
        result matches Err(e) ==> r.saved_content@ == "Error processing message: "@ + e@ && r.usage
            is None && r.reasoning_content is None,
        r.raw_output@ == r.saved_content@,
        agent_told(r.response) == Some(agent_id@),
        session_told(r.response) == Some(session@),
        r.response matches GatewayEvent::AgentResponse {
            content,
            channel,
            conversation_id,
            usage,
            ..
        } && content@ == r.saved_content@ && channel@ == chan@ && usage == r.usage && (
        *conversation is Some ==> conversation_id@ == conversation->0@) && (*conversation is None
            ==> conversation_id@ == session@),
        r.model_name@ == gateway.model@,
        r.model_provider@ == gateway.model_provider@,
{
}

/// A message that goes directly sets the model that it names, and no other, and
/// the model is taken back when it is done. Its answer is counted, saved and told
/// in its own session; of a failure nothing is.
pub proof fn law_a_direct_message_takes_its_model_back(
    before: &mut AgentSettings,
    after: &mut AgentSettings,
    agent_id: &str,
    msg: &DirectMessage,
    think_level: &Option<String>,
    totals: UsageTotals,
    result: Result<Outgoing, String>,
    m: IncomingMessage,
    r: Option<DirectOutcome>,
)
    requires
        call_ensures(begin_message_direct, (before, msg, think_level), m),
        call_ensures(process_message_direct, (after, agent_id, msg, totals, result), r),
    ensures
        opt_text(final(before).model_override) == opt_text(msg.model_override),
        *think_level is None ==> final(before).extra_params is None,
        m.session_id@ == msg.session_id@,
        m.content@ == msg.message@,
        m.user_id@ == msg.user_id@,
        m.channel is None,
        final(after).model_override is None,
        r is Some <==> result is Ok,
        r matches Some(out) ==> {
            let o = result->Ok_0;
            &&& out.saved_content@ == o.content@
            &&& agent_told(out.response) == Some(agent_id@)
            &&& session_told(out.response) == Some(msg.session_id@)
            &&& out.response matches GatewayEvent::AgentResponse { content, channel, usage, .. }
                && content@ == o.content@ && channel@ == msg.channel@ && usage == o.usage
            &&& o.usage is None ==> out.totals == totals
            &&& o.usage matches Some(u) ==> out.totals.tokens == totals.tokens + u.prompt_tokens
                + u.completion_tokens && out.totals.calls == totals.calls + 1 + (
            if o.tool_calls is Some {
                o.tool_calls->0 as int
            } else {
                0
            })
        },
{
}

/// Whether a tool hangs on a condition.
pub open spec fn is_conditional(t: BuiltinTool) -> bool {
    t is CloudKb || t is Browser || t is Memory || t is MemorySearch || t is MemoryGet
}

/// A tool that hangs on a condition is there just where the condition holds, and
/// any other is always there.
pub proof fn law_conditional_tools_need_their_condition(
    cloud: bool,
    c: ToolConditions,
    r: Vec<BuiltinTool>,
    t: BuiltinTool,
)
    requires
        call_ensures(builtin_tools, (cloud, c), r),
    ensures
        t is CloudKb ==> (r@.contains(t) <==> cloud),
        t is Browser ==> (r@.contains(t) <==> c.browser),
        t is Memory ==> (r@.contains(t) <==> c.memory),
        t is MemorySearch ==> (r@.contains(t) <==> c.memory_search),
        t is MemoryGet ==> (r@.contains(t) <==> c.memory_get),
        !is_conditional(t) ==> r@.contains(t),
{
    lemma_default_tools(cloud, c, t);
}

spec fn file_tools() -> Seq<BuiltinTool> {
    seq![
        BuiltinTool::FileRead,
        BuiltinTool::FileWrite,
        BuiltinTool::FileEdit,
        BuiltinTool::WriteReport,
        BuiltinTool::SvgToPng,
        BuiltinTool::Glob,
        BuiltinTool::Grep,
        BuiltinTool::Skill,
        BuiltinTool::Shell,
        BuiltinTool::CodeExecution,
        BuiltinTool::WebSearch,
        BuiltinTool::WebFetch,
    ]
}

spec fn time_tools() -> Seq<BuiltinTool> {
    seq![
        BuiltinTool::Todo,
        BuiltinTool::Cron,
        BuiltinTool::Heartbeat,
        BuiltinTool::Time,
    ]
}

spec fn session_tools() -> Seq<BuiltinTool> {
    seq![
        BuiltinTool::AcpSpawn,
        BuiltinTool::AcpSession,
        BuiltinTool::SessionsList,
        BuiltinTool::SessionsHistory,
        BuiltinTool::SessionsSend,
        BuiltinTool::SessionsYield,
        BuiltinTool::SessionStatus,
        BuiltinTool::ApplyPatch,
    ]
}

spec fn other_tools() -> Seq<BuiltinTool> {
    seq![
        BuiltinTool::McpConnection,
        BuiltinTool::UpdatePlan,
        BuiltinTool::Process,
        BuiltinTool::Pdf,
        BuiltinTool::Image,
        BuiltinTool::ImageGenerate,
        BuiltinTool::Tts,
        BuiltinTool::Stt,
        BuiltinTool::Nodes,
        BuiltinTool::ListCapabilities,
        BuiltinTool::AskUser,
        BuiltinTool::DeviceCamera,
        BuiltinTool::DeviceGeolocate,
        BuiltinTool::DeviceNotify,
        BuiltinTool::DeviceHaptic,
        BuiltinTool::DevicePickFile,
        BuiltinTool::DeviceShortcutRun,
        BuiltinTool::DeviceShortcutResults,
        BuiltinTool::DeviceShortcutInbox,
    ]
}

proof fn lemma_file_tools(t: BuiltinTool)
    ensures
        file_tools().contains(t) <==> t is FileRead || t is FileWrite || t is FileEdit || t is WriteReport || t is SvgToPng || t is Glob || t is Grep || t is Skill || t is Shell || t is CodeExecution || t is WebSearch || t is WebFetch,
{
    let all = file_tools();
    match t {
        BuiltinTool::FileRead => assert(all[0] == t),
        BuiltinTool::FileWrite => assert(all[1] == t),
        BuiltinTool::FileEdit => assert(all[2] == t),
        BuiltinTool::WriteReport => assert(all[3] == t),
        BuiltinTool::SvgToPng => assert(all[4] == t),
        BuiltinTool::Glob => assert(all[5] == t),
        BuiltinTool::Grep => assert(all[6] == t),
        BuiltinTool::Skill => assert(all[7] == t),
        BuiltinTool::Shell => assert(all[8] == t),
        BuiltinTool::CodeExecution => assert(all[9] == t),
        BuiltinTool::WebSearch => assert(all[10] == t),
        BuiltinTool::WebFetch => assert(all[11] == t),
        _ => {},
    }
}

proof fn lemma_time_tools(t: BuiltinTool)
    ensures
        time_tools().contains(t) <==> t is Todo || t is Cron || t is Heartbeat || t is Time,
{
    let all = time_tools();
    match t {
        BuiltinTool::Todo => assert(all[0] == t),
        BuiltinTool::Cron => assert(all[1] == t),
        BuiltinTool::Heartbeat => assert(all[2] == t),
        BuiltinTool::Time => assert(all[3] == t),
        _ => {},
    }
}

proof fn lemma_session_tools(t: BuiltinTool)
    ensures
        session_tools().contains(t) <==> t is AcpSpawn || t is AcpSession || t is SessionsList || t is SessionsHistory || t is SessionsSend || t is SessionsYield || t is SessionStatus || t is ApplyPatch,
{
    let all = session_tools();
    match t {
        BuiltinTool::AcpSpawn => assert(all[0] == t),
        BuiltinTool::AcpSession => assert(all[1] == t),
        BuiltinTool::SessionsList => assert(all[2] == t),
        BuiltinTool::SessionsHistory => assert(all[3] == t),
        BuiltinTool::SessionsSend => assert(all[4] == t),
        BuiltinTool::SessionsYield => assert(all[5] == t),
        BuiltinTool::SessionStatus => assert(all[6] == t),
        BuiltinTool::ApplyPatch => assert(all[7] == t),
        _ => {},
    }
}

proof fn lemma_other_tools(t: BuiltinTool)
    ensures
        other_tools().contains(t) <==> t is McpConnection || t is UpdatePlan || t is Process || t is Pdf || t is Image || t is ImageGenerate || t is Tts || t is Stt || t is Nodes || t is ListCapabilities || t is AskUser || t is DeviceCamera || t is DeviceGeolocate || t is DeviceNotify || t is DeviceHaptic || t is DevicePickFile || t is DeviceShortcutRun || t is DeviceShortcutResults || t is DeviceShortcutInbox,
{
    let all = other_tools();
    match t {
        BuiltinTool::McpConnection => assert(all[0] == t),
        BuiltinTool::UpdatePlan => assert(all[1] == t),
        BuiltinTool::Process => assert(all[2] == t),
        BuiltinTool::Pdf => assert(all[3] == t),
        BuiltinTool::Image => assert(all[4] == t),
        BuiltinTool::ImageGenerate => assert(all[5] == t),
        BuiltinTool::Tts => assert(all[6] == t),
        BuiltinTool::Stt => assert(all[7] == t),
        BuiltinTool::Nodes => assert(all[8] == t),
        BuiltinTool::ListCapabilities => assert(all[9] == t),
        BuiltinTool::AskUser => assert(all[10] == t),
        BuiltinTool::DeviceCamera => assert(all[11] == t),
        BuiltinTool::DeviceGeolocate => assert(all[12] == t),
        BuiltinTool::DeviceNotify => assert(all[13] == t),
        BuiltinTool::DeviceHaptic => assert(all[14] == t),
        BuiltinTool::DevicePickFile => assert(all[15] == t),
        BuiltinTool::DeviceShortcutRun => assert(all[16] == t),
        BuiltinTool::DeviceShortcutResults => assert(all[17] == t),
        BuiltinTool::DeviceShortcutInbox => assert(all[18] == t),
        _ => {},
    }
}

proof fn lemma_in_sum(a: Seq<BuiltinTool>, b: Seq<BuiltinTool>, t: BuiltinTool)
    ensures
        (a + b).contains(t) <==> a.contains(t) || b.contains(t),
{
    let all = a + b;
    if a.contains(t) {
        let i = choose|i: int| 0 <= i < a.len() && a[i] == t;
        assert(all[i] == t);
    }
    if b.contains(t) {
        let i = choose|i: int| 0 <= i < b.len() && b[i] == t;
        assert(all[a.len() + i] == t);
    }
    if all.contains(t) {
        let i = choose|i: int| 0 <= i < all.len() && all[i] == t;
        if i < a.len() {
            assert(a[i] == t);
        } else {
            assert(b[i - a.len()] == t);
        }
    }
}

proof fn lemma_tool_if(condition: bool, tool: BuiltinTool, t: BuiltinTool)
    ensures
        crate::gateway::agent_spawn::tool_if(condition, tool).contains(t) <==> condition && tool
            == t,
{
    if condition {
        assert(crate::gateway::agent_spawn::tool_if(condition, tool)[0] == tool);
    }
}

proof fn lemma_default_tools(cloud: bool, c: ToolConditions, t: BuiltinTool)
    ensures
        default_tools(cloud, c).contains(t) <==> file_tools().contains(t) || (cloud && t
            is CloudKb) || time_tools().contains(t) || (c.browser && t is Browser)
            || session_tools().contains(t) || (c.memory && t is Memory) || (c.memory_search && t
            is MemorySearch) || (c.memory_get && t is MemoryGet) || other_tools().contains(t),
        !is_conditional(t) ==> file_tools().contains(t) || time_tools().contains(t)
            || session_tools().contains(t) || other_tools().contains(t),
        is_conditional(t) ==> !file_tools().contains(t) && !time_tools().contains(t)
            && !session_tools().contains(t) && !other_tools().contains(t),
{
    lemma_file_tools(t);
    lemma_time_tools(t);
    lemma_session_tools(t);
    lemma_other_tools(t);
    let b = crate::gateway::agent_spawn::tool_if(cloud, BuiltinTool::CloudKb);
    let d = crate::gateway::agent_spawn::tool_if(c.browser, BuiltinTool::Browser);
    let f = crate::gateway::agent_spawn::tool_if(c.memory, BuiltinTool::Memory);
    let g = crate::gateway::agent_spawn::tool_if(c.memory_search, BuiltinTool::MemorySearch);
    let h = crate::gateway::agent_spawn::tool_if(c.memory_get, BuiltinTool::MemoryGet);
    lemma_tool_if(cloud, BuiltinTool::CloudKb, t);
    lemma_tool_if(c.browser, BuiltinTool::Browser, t);
    lemma_tool_if(c.memory, BuiltinTool::Memory, t);
    lemma_tool_if(c.memory_search, BuiltinTool::MemorySearch, t);
    lemma_tool_if(c.memory_get, BuiltinTool::MemoryGet, t);
    let s1 = file_tools() + b;
    let s2 = s1 + time_tools();
    let s3 = s2 + d;
    let s4 = s3 + session_tools();
    let s5 = s4 + f;
    let s6 = s5 + g;
    let s7 = s6 + h;
    lemma_in_sum(file_tools(), b, t);
    lemma_in_sum(s1, time_tools(), t);
    lemma_in_sum(s2, d, t);
    lemma_in_sum(s3, session_tools(), t);
    lemma_in_sum(s4, f, t);
    lemma_in_sum(s5, g, t);
    lemma_in_sum(s6, h, t);
    lemma_in_sum(s7, other_tools(), t);
    assert(default_tools(cloud, c) == s7 + other_tools());
}

/// What needs a privilege: to run code or commands, to write, to delegate, to
/// speak for somebody, to use devices.
pub proof fn law_powerful_tools_are_privileged(r: Vec<String>)
    requires
        call_ensures(privileged_tools, (), r),
    ensures
        texts(r@).contains("shell"@),
        texts(r@).contains("execute_code"@),
        texts(r@).contains("file_write"@),
        texts(r@).contains("file_edit"@),
        texts(r@).contains("delegate"@),
        texts(r@).contains("acp_spawn"@),
        texts(r@).contains("acp_session"@),
        texts(r@).contains("memory"@),
        texts(r@).contains("sessions_send"@),
        texts(r@).contains("sessions_yield"@),
        texts(r@).contains("subagents"@),
        texts(r@).contains("apply_patch"@),
        texts(r@).contains("message"@),
        texts(r@).contains("process"@),
        texts(r@).contains("image_generate"@),
        texts(r@).contains("system_inspect"@),
        texts(r@).contains("service_manager"@),
        texts(r@).contains("device_camera"@),
        texts(r@).contains("device_geolocate"@),
        texts(r@).contains("ios_shortcut_run"@),
{
    let all = privileged();
    assert(all[0] == "shell"@);
    assert(all[1] == "execute_code"@);
    assert(all[2] == "file_write"@);
    assert(all[3] == "file_edit"@);
    assert(all[4] == "delegate"@);
    assert(all[5] == "acp_spawn"@);
    assert(all[6] == "acp_session"@);
    assert(all[7] == "memory"@);
    assert(all[8] == "sessions_send"@);
    assert(all[9] == "sessions_yield"@);
    assert(all[10] == "subagents"@);
    assert(all[11] == "apply_patch"@);
    assert(all[12] == "message"@);
    assert(all[13] == "process"@);
    assert(all[14] == "image_generate"@);
    assert(all[15] == "system_inspect"@);
    assert(all[16] == "service_manager"@);
    assert(all[17] == "device_camera"@);
    assert(all[18] == "device_geolocate"@);
    assert(all[19] == "ios_shortcut_run"@);
}

/// A profile goes by its name; a custom one has the sets that are listed, and an
/// unknown name means all.
pub proof fn law_profiles_go_by_their_names(c: &CapabilitiesConfig, r: CapabilityProfile)
    requires
        call_ensures(capability_profile, (c,), r),
    ensures
        r is Minimal <==> c.profile@ == "minimal"@,
        r is Observer <==> c.profile@ == "observer"@,
        r is Server <==> c.profile@ == "server"@,
        r is Desktop <==> c.profile@ == "desktop"@,
        r is Custom <==> c.profile@ == "custom"@,
        r matches CapabilityProfile::Custom(sets) ==> texts(sets@) == texts(c.custom_sets@),
{
    reveal_strlit("minimal");
    reveal_strlit("observer");
    reveal_strlit("server");
    reveal_strlit("desktop");
    reveal_strlit("custom");
    assert("minimal"@.len() == 7 && "minimal"@[0] == 'm');
    assert("observer"@.len() == 8);
    assert("server"@.len() == 6 && "server"@[0] == 's');
    assert("desktop"@.len() == 7 && "desktop"@[0] == 'd');
    assert("custom"@.len() == 6 && "custom"@[0] == 'c');
}

/// A scope goes by its name; scopes widen from reading to user space, to the
/// system and to root, and a set that reaches further than the limit is wider.
pub proof fn law_scopes_are_ordered(
    c: &CapabilitiesConfig,
    r: Option<OsControlScope>,
    a: OsControlScope,
    b: OsControlScope,
    wider: bool,
)
    requires
        call_ensures(max_scope, (c,), r),
        call_ensures(OsControlScope::exceeds, (a, b), wider),
    ensures
        r == Some(OsControlScope::ReadOnly) <==> c.max_scope@ == "read_only"@,
        r == Some(OsControlScope::UserSpace) <==> c.max_scope@ == "user_space"@,
        r == Some(OsControlScope::System) <==> c.max_scope@ == "system"@,
        r == Some(OsControlScope::Root) <==> c.max_scope@ == "root"@,
        wider ==> !(a is ReadOnly) && !(b is Root) && a != b,
        a is Root && !(b is Root) ==> wider,
        b is ReadOnly && !(a is ReadOnly) ==> wider,
        a is System && b is UserSpace ==> wider,
        a is UserSpace && b is System ==> !wider,
{
    reveal_strlit("read_only");
    reveal_strlit("user_space");
    reveal_strlit("system");
    reveal_strlit("root");
    assert("read_only"@.len() == 9 && "user_space"@.len() == 10 && "system"@.len() == 6
        && "root"@.len() == 4);
}

/// A set is switched off just where it is disabled by name or reaches further
/// than the limit; without a limit, none is for its reach.
pub proof fn law_sets_beyond_the_limit_are_off(
    sets: &[ToolSet],
    c: &CapabilitiesConfig,
    limit: Option<OsControlScope>,
    r: Vec<String>,
    i: int,
    wider: bool,
)
    requires
        call_ensures(sets_to_disable, (sets, c), r),
        call_ensures(max_scope, (c,), limit),
        0 <= i < sets@.len(),
        limit is Some ==> call_ensures(OsControlScope::exceeds, (sets@[i].scope, limit->0), wider),
    ensures
        limit is Some && wider ==> texts(r@).contains(sets@[i].id@),
        texts(c.disabled_sets@).contains(sets@[i].id@) ==> texts(r@).contains(sets@[i].id@),
        limit is None && texts(r@).contains(sets@[i].id@) ==> texts(c.disabled_sets@).contains(
            sets@[i].id@,
        ),
        limit is Some && !wider && texts(r@).contains(sets@[i].id@) && (forall|j: int|
            0 <= j < sets@.len() && j != i ==> (#[trigger] sets@[j]).id@ != sets@[i].id@) ==> texts(
            c.disabled_sets@,
        ).contains(sets@[i].id@),
{
}

/// The cloud is asked first where it has an address; the configured providers
/// follow in their order.
pub proof fn law_the_cloud_is_searched_first(
    configured: Vec<SearchProvider>,
    base: Option<String>,
    r: Vec<SearchProvider>,
)
    requires
        call_ensures(search_providers, (configured, base), r),
    ensures
        base is None ==> r@ == configured@,
        base is Some ==> r@.len() == configured@.len() + 1 && r@[0] == (SearchProvider::Cloud {
            api_base: base->0,
        }) && r@.skip(1) == configured@,
{
    if base is Some {
        assert(r@.skip(1) =~= configured@);
    }
}

/// A registry is put together of the tools, the providers and the sets that its
/// conditions and its configuration give.
pub proof fn law_a_registry_is_what_its_parts_are(
    conditions: ToolConditions,
    capabilities: &CapabilitiesConfig,
    sets: &[ToolSet],
    configured: Vec<SearchProvider>,
    base: Option<String>,
    r: RegistryPlan,
    tools: Vec<BuiltinTool>,
    search: Vec<SearchProvider>,
    disabled: Vec<String>,
    names: Vec<String>,
)
    requires
        call_ensures(
            create_default_tool_registry,
            (conditions, capabilities, sets, configured, base),
            r,
        ),
        call_ensures(builtin_tools, (base is Some, conditions), tools),
        call_ensures(search_providers, (configured, base), search),
        call_ensures(sets_to_disable, (sets, capabilities), disabled),
        call_ensures(privileged_tools, (), names),
    ensures
        r.tools@ == tools@,
        r.search@ == search@,
        texts(r.privileged@) == texts(names@),
        forall|id: Seq<char>| #[trigger]
            texts(r.disabled_sets@).contains(id) <==> texts(disabled@).contains(id),
{
}

/// What a skill is run with carries nothing but its text, and a planner keeps its
/// state below the data of the gateway.
pub proof fn law_a_skill_runs_on_a_plain_message(
    session_id: String,
    message: String,
    user_id: String,
    skill_trust: SkillTrust,
    r: (Vec<QueryAction>, bool),
    gateway: &GatewayConfig,
    id: &str,
    data_root: &str,
    has_memory: bool,
    w: SpawnWork,
)
    requires
        call_ensures(
            answer_query,
            (Some(AgentQuery::RunSkill { session_id, message, user_id, skill_trust }),),
            r,
        ),
        call_ensures(spawn_work, (gateway, id, data_root, has_memory), w),
    ensures
        r.0@[1] matches QueryAction::Process(m) && m.channel is None && m.extra@.len() == 0,
        w.planner_url@ == "sqlite:///"@ + crate::path::path_below(data_root@, "planner.db"@),
        w.with_chat_history == has_memory,
        w.loop_task@ == "agent:"@ + id@,
{
}

} // verus!
