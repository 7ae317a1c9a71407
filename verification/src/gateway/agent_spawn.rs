//! Spawning agents, the agent loop, and the default tool registry.
use vstd::prelude::*;
use vstd::string::*;

use super::config::memory::SearchProvider;
use super::config::misc::overlaid;
use super::config::{CapabilitiesConfig, GatewayConfig};
use super::dispatch::{
    asks_thinking, is_run_id, new_run_id, thinking_budget, thinking_params, usage_after,
    IncomingMessage, Outgoing, UsageTotals,
};
use super::events::{
    idle, processing, says_idle, says_processing, AgentStatus, GatewayEvent, TokenUsage,
};
use crate::agent::AgentConfig;
use crate::error::SyscityError;
use crate::json::{text_of, Json};
use crate::path::{join_path, path_below};
use crate::strmap::StrMap;
use crate::text::{cat, is_one_of, opt_text, same, strip_prefix, texts, without_prefix};

verus! {

// ---------------------------------------------------------------------------
// Which agent wakes up
// ---------------------------------------------------------------------------

/// Where the agent of a session is recorded.
#[derive(Debug)]
pub enum WakeTarget {
    /// On the task row of a delegation run.
    Delegation(String),
    /// In the router, under the session.
    Router,
}

/// A session called `delegation:<run_id>` belongs to the agent of that run; any
/// other is bound in the router.
pub fn wake_target(session: &str) -> (r: WakeTarget)
    ensures
        match without_prefix(session@, "delegation:"@) {
            Some(run) => r matches WakeTarget::Delegation(id) && id@ == run,
            None => r is Router,
        },
{
    match strip_prefix(session, "delegation:") {
        Some(run_id) => WakeTarget::Delegation(run_id),
        None => WakeTarget::Router,
    }
}

/// The running agent to wake for an agent id: that agent, else the default one.
pub open spec fn woken(id: Option<Seq<char>>, running: Seq<Seq<char>>) -> Option<Seq<char>> {
    match id {
        Some(a) => if running.contains(a) {
            Some(a)
        } else if running.contains("default"@) {
            Some("default"@)
        } else {
            None
        },
        None => None,
    }
}

/// The running agent to wake for an agent id, if any.
pub fn resolve_agent(agent_id: &Option<String>, running: &[String]) -> (r: Option<String>)
    ensures
        opt_text(r) == woken(opt_text(*agent_id), texts(running@)),
{
    match agent_id {
        Some(id) => {
            if is_one_of(running, id) {
                Some(id.clone())
            } else if is_one_of(running, "default") {
                Some("default".to_string())
            } else {
                None
            }
        },
        None => None,
    }
}

// ---------------------------------------------------------------------------
// Spawning
// ---------------------------------------------------------------------------

/// The model that an agent is spawned with: the one that fast mode made active,
/// else the configured default.
pub fn effective_model_for_spawn(active: Option<&Json>, configured: &str) -> (r: String)
    ensures
        r@ == (match active {
            Some(j) => match text_of(j@) {
                Some(m) => m,
                None => configured@,
            },
            None => configured@,
        }),
{
    if let Some(j) = active {
        if let Some(model) = j.as_str() {
            return model.clone();
        }
    }
    configured.to_string()
}

/// The base settings of an agent, which later overrides are computed from, and
/// the effective ones.
pub fn spawn_configs(gateway: &GatewayConfig, id: &str, config: AgentConfig) -> (r: (
    AgentConfig,
    AgentConfig,
))
    ensures
        opt_text(r.0.agent_id) == Some(id@),
        r.0 == (AgentConfig { agent_id: r.0.agent_id, ..config }),
        if gateway.agent_overrides@.dom().contains(id@) {
            overlaid(gateway.agent_overrides@[id@]@, r.0, r.1)
        } else {
            r.1 == r.0
        },
{
    let base = AgentConfig { agent_id: Some(id.to_string()), ..config };
    let mut effective = base.clone();
    gateway.apply_agent_overrides(id, &mut effective);
    (base, effective)
}

/// The agents that run and those that are being spawned.
#[derive(Debug)]
pub struct SpawnTable {
    pending: StrMap<bool>,
    running: StrMap<bool>,
}

impl SpawnTable {
    /// The agents that are being spawned.
    pub closed spec fn pending(&self) -> Set<Seq<char>> {
        self.pending@.dom()
    }

    /// The agents that run.
    pub closed spec fn running(&self) -> Set<Seq<char>> {
        self.running@.dom()
    }

    /// No agent runs and none is being spawned.
    pub fn new() -> (r: Self)
        ensures
            r.pending() == Set::<Seq<char>>::empty(),
            r.running() == Set::<Seq<char>>::empty(),
    {
        let r = SpawnTable { pending: StrMap::new(), running: StrMap::new() };
        assert(r.pending() =~= Set::empty());
        assert(r.running() =~= Set::empty());
        r
    }

    /// Whether an agent runs.
    pub fn is_running(&self, id: &str) -> (r: bool)
        ensures
            r == self.running().contains(id@),
    {
        self.running.contains_key(id)
    }

    /// Reserve an agent id for the time of its spawning, so that two callers do
    /// not both spawn it.
    pub fn reserve(&mut self, id: &str) -> (r: Result<(), SyscityError>)
        ensures
            final(self).running() == old(self).running(),
            if old(self).pending().contains(id@) {
                &&& r matches Err(SyscityError::Validation(e)) && e@ == "Agent '"@ + id@
                    + "' spawn already in progress"@
                &&& final(self).pending() == old(self).pending()
            } else {
                &&& r is Ok
                &&& final(self).pending() == old(self).pending().insert(id@)
            },
    {
        if self.pending.contains_key(id) {
            let mut message = "Agent '".to_string();
            message.append(id);
            message.append("' spawn already in progress");
            return Err(SyscityError::Validation(message));
        }
        let ghost before = self.pending();
        self.pending.insert(id.to_string(), true);
        assert(self.pending() =~= before.insert(id@));
        Ok(())
    }

    /// Enter a spawned agent among those that run, and release its id. An agent
    /// that runs already is not entered again; its id is released all the same.
    pub fn commit(&mut self, id: &str) -> (r: Result<(), SyscityError>)
        ensures
            final(self).pending() == old(self).pending().remove(id@),
            if old(self).running().contains(id@) {
                &&& r matches Err(SyscityError::Validation(e)) && e@ == "Agent '"@ + id@
                    + "' is already running"@
                &&& final(self).running() == old(self).running()
            } else {
                &&& r is Ok
                &&& final(self).running() == old(self).running().insert(id@)
            },
    {
        self.release(id);
        if self.running.contains_key(id) {
            let mut message = "Agent '".to_string();
            message.append(id);
            message.append("' is already running");
            return Err(SyscityError::Validation(message));
        }
        let ghost before = self.running();
        self.running.insert(id.to_string(), true);
        assert(self.running() =~= before.insert(id@));
        Ok(())
    }

    /// Release a reserved id when its spawning failed.
    pub fn release(&mut self, id: &str)
        ensures
            final(self).pending() == old(self).pending().remove(id@),
            final(self).running() == old(self).running(),
    {
        let ghost before = self.pending();
        self.pending.remove(id);
        assert(self.pending() =~= before.remove(id@));
    }
}

/// A reservation that is committed or released leaves no trace: the agents that
/// are being spawned are those of before, so the id can be reserved again.
pub proof fn law_a_reservation_is_given_back(
    before: SpawnTable,
    reserved: SpawnTable,
    after: SpawnTable,
    id: Seq<char>,
)
    requires
        !before.pending().contains(id),
        reserved.pending() == before.pending().insert(id),
        after.pending() == reserved.pending().remove(id),
    ensures
        after.pending() == before.pending(),
        !after.pending().contains(id),
{
    assert(after.pending() =~= before.pending());
}

/// What spawning an agent asks of the rest of the gateway once it is entered.
#[derive(Debug)]
pub struct SpawnWork {
    /// The name of the task that evicts stale contexts.
    pub repair_task: String,
    /// How often it runs, and after how long a context is stale, in seconds.
    pub repair_every_secs: u64,
    pub stale_after_secs: u64,
    /// The name of the task that runs the agent's loop.
    pub loop_task: String,
    /// Cap on the steps of desktop automation, and the wait after each.
    pub max_steps: usize,
    pub settle_delay_ms: u64,
    /// Where the planner keeps its state.
    pub planner_url: String,
    /// Whether the agent keeps its chat history in the memory store.
    pub with_chat_history: bool,
}

/// Whether `w` is what a spawned agent is built and kept up with.
pub open spec fn is_work(
    w: SpawnWork,
    gateway: GatewayConfig,
    id: Seq<char>,
    data_root: Seq<char>,
    has_memory: bool,
) -> bool {
    &&& w.repair_task@ == "agent:"@ + id + ":repair"@
    &&& w.repair_every_secs == 300
    &&& w.stale_after_secs == 1800
    &&& w.loop_task@ == "agent:"@ + id
    &&& w.max_steps == gateway.computer.max_steps
    &&& w.settle_delay_ms == gateway.computer.settle_delay_ms
    &&& w.planner_url@ == "sqlite:///"@ + path_below(data_root, "planner.db"@)
    &&& w.with_chat_history == has_memory
}

/// What a spawned agent is built and kept up with.
pub fn spawn_work(gateway: &GatewayConfig, id: &str, data_root: &str, has_memory: bool) -> (r:
    SpawnWork)
    ensures
        is_work(r, *gateway, id@, data_root@, has_memory),
{
    let loop_task = cat("agent:", id);
    let repair_task = cat(&loop_task, ":repair");
    SpawnWork {
        repair_task,
        repair_every_secs: 300,
        stale_after_secs: 1800,
        loop_task,
        max_steps: gateway.computer.max_steps,
        settle_delay_ms: gateway.computer.settle_delay_ms,
        planner_url: cat("sqlite:///", &join_path(data_root, "planner.db")),
        with_chat_history: has_memory,
    }
}

/// Enter a spawned agent and say what its spawning asks for; or say why it
/// cannot be spawned.
pub fn spawn_agent_inner(
    table: &mut SpawnTable,
    gateway: &GatewayConfig,
    id: &str,
    data_root: &str,
    has_memory: bool,
) -> (r: Result<SpawnWork, SyscityError>)
    ensures
        final(table).pending() == old(table).pending().remove(id@),
        if old(table).running().contains(id@) {
            &&& r matches Err(SyscityError::Validation(e)) && e@ == "Agent '"@ + id@
                + "' is already running"@
            &&& final(table).running() == old(table).running()
        } else {
            &&& final(table).running() == old(table).running().insert(id@)
            &&& r matches Ok(w) && is_work(w, *gateway, id@, data_root@, has_memory)
        },
{
    match table.commit(id) {
        Err(e) => Err(e),
        Ok(()) => Ok(spawn_work(gateway, id, data_root, has_memory)),
    }
}

// ---------------------------------------------------------------------------
// The agent loop
// ---------------------------------------------------------------------------

/// What an agent is told to do.
#[derive(Debug)]
pub enum AgentCommand {
    ProcessMessage {
        session_id: String,
        message: String,
        user_id: String,
        channel: String,
        model_override: Option<String>,
    },
    Cancel,
    UpdateConfig(AgentConfig),
    Shutdown,
}

/// What the agent loop does.
#[derive(Debug)]
pub enum LoopAction {
    SetBusy(bool),
    Emit(GatewayEvent),
    /// Process a message through the control plane.
    ProcessAcp { session_id: String, message: String, user_id: String, channel: String },
    /// Process a message directly.
    ProcessDirect {
        session_id: String,
        message: String,
        user_id: String,
        channel: String,
        model_override: Option<String>,
    },
    /// Give the agent's handle and the running agent itself a new configuration.
    ApplyConfig(AgentConfig),
}

/// Whether the loop of an agent answers a command with `actions`, and goes on
/// if `go_on`; no command means that its channel is closed.
pub open spec fn is_loop_step(
    agent: Seq<char>,
    command: Option<AgentCommand>,
    use_acp: bool,
    actions: Seq<LoopAction>,
    go_on: bool,
) -> bool {
    match command {
        None => !go_on && actions.len() == 0,
        Some(AgentCommand::ProcessMessage {
            session_id,
            message,
            user_id,
            channel,
            model_override,
        }) => {
            &&& go_on
            &&& actions.len() == 5
            &&& actions[0] == LoopAction::SetBusy(true)
            &&& actions[1] matches LoopAction::Emit(e) && says_processing(e, agent, session_id@)
            &&& actions[2] == if use_acp {
                LoopAction::ProcessAcp { session_id, message, user_id, channel }
            } else {
                LoopAction::ProcessDirect { session_id, message, user_id, channel, model_override }
            }
            &&& actions[3] matches LoopAction::Emit(e) && says_idle(e, agent)
            &&& actions[4] == LoopAction::SetBusy(false)
        },
        Some(AgentCommand::Cancel) => go_on && actions.len() == 0,
        Some(AgentCommand::UpdateConfig(config)) => {
            &&& go_on
            &&& actions.len() == 2
            &&& actions[0] == LoopAction::ApplyConfig(config)
            &&& actions[1] matches LoopAction::Emit(e) && says_idle(e, agent)
        },
        Some(AgentCommand::Shutdown) => {
            &&& !go_on
            &&& actions.len() == 1
            &&& actions[0] matches LoopAction::Emit(
                GatewayEvent::AgentStatus { agent_id, status: AgentStatus::Shutdown },
            ) && agent_id@ == agent
        },
    }
}

/// One round of the per-agent loop: what a command asks for, and whether the
/// loop goes on.
pub fn run_agent_loop(agent_id: &str, command: Option<AgentCommand>, use_acp: bool) -> (r: (
    Vec<LoopAction>,
    bool,
))
    ensures
        is_loop_step(agent_id@, command, use_acp, r.0@, r.1),
{
    let mut actions: Vec<LoopAction> = Vec::new();
    match command {
        None => (actions, false),
        Some(AgentCommand::ProcessMessage {
            session_id,
            message,
            user_id,
            channel,
            model_override,
        }) => {
            actions.push(LoopAction::SetBusy(true));
            actions.push(LoopAction::Emit(processing(agent_id, &session_id)));
            if use_acp {
                actions.push(LoopAction::ProcessAcp { session_id, message, user_id, channel });
            } else {
                actions.push(
                    LoopAction::ProcessDirect {
                        session_id,
                        message,
                        user_id,
                        channel,
                        model_override,
                    },
                );
            }
            actions.push(LoopAction::Emit(idle(agent_id)));
            actions.push(LoopAction::SetBusy(false));
            (actions, true)
        },
        Some(AgentCommand::Cancel) => (actions, true),
        Some(AgentCommand::UpdateConfig(config)) => {
            actions.push(LoopAction::ApplyConfig(config));
            actions.push(LoopAction::Emit(idle(agent_id)));
            (actions, true)
        },
        Some(AgentCommand::Shutdown) => {
            actions.push(
                LoopAction::Emit(
                    GatewayEvent::AgentStatus {
                        agent_id: agent_id.to_string(),
                        status: AgentStatus::Shutdown,
                    },
                ),
            );
            (actions, false)
        },
    }
}

/// An agent is busy exactly while it processes a message: every command leaves
/// it as it found it, idle in the end.
pub proof fn law_the_loop_leaves_no_agent_busy(
    agent: Seq<char>,
    command: Option<AgentCommand>,
    use_acp: bool,
    actions: Seq<LoopAction>,
    go_on: bool,
    i: int,
)
    requires
        is_loop_step(agent, command, use_acp, actions, go_on),
        0 <= i < actions.len(),
        actions[i] == LoopAction::SetBusy(true),
    ensures
        i < actions.len() - 1,
        actions.last() == LoopAction::SetBusy(false),
        actions[actions.len() - 2] matches LoopAction::Emit(e) && says_idle(e, agent),
{
}

/// How far the tools of an agent are trusted while it runs a skill.
#[derive(Debug)]
pub enum SkillTrust {
    Trusted,
    /// Another level, by its name.
    Limited(String),
}

/// What an agent is asked, and answers.
#[derive(Debug)]
pub enum AgentQuery {
    GetThreadSummaries,
    GetThreadTurns { conv_id: String },
    UndoLastTurn { conv_id: String },
    RedoLastTurn { conv_id: String },
    RunSkill { session_id: String, message: String, user_id: String, skill_trust: SkillTrust },
}

/// What the agent loop does for a query.
#[derive(Debug)]
pub enum QueryAction {
    /// Answer with the summaries of the agent's threads.
    ReplySummaries,
    /// Answer with the turns of a thread.
    ReplyTurns { conv_id: String },
    /// Take the last turn back, and answer whether there was one.
    ReplyUndo { conv_id: String },
    /// Repeat the turn that was taken back, and answer whether there was one.
    ReplyRedo { conv_id: String },
    SetSkillTrust(SkillTrust),
    /// Let the agent process a message, without telling of its progress.
    Process(IncomingMessage),
    /// Answer with the result of the processing, whatever it is.
    ReplyResult,
}

/// Whether `m` is a message of a user that carries no channel.
pub open spec fn is_plain_message(
    m: IncomingMessage,
    user: Seq<char>,
    session: Seq<char>,
    content: Seq<char>,
) -> bool {
    m.user_id@ == user && m.session_id@ == session && m.content@ == content && m.channel is None
        && m.extra@.len() == 0
}

/// Whether the loop of an agent answers a query with `actions`, and goes on if
/// `go_on`; no query means that its channel is closed.
pub open spec fn is_query_step(
    query: Option<AgentQuery>,
    actions: Seq<QueryAction>,
    go_on: bool,
) -> bool {
    match query {
        None => !go_on && actions.len() == 0,
        Some(AgentQuery::GetThreadSummaries) => go_on && actions == seq![
            QueryAction::ReplySummaries,
        ],
        Some(AgentQuery::GetThreadTurns { conv_id }) => go_on && actions == seq![
            QueryAction::ReplyTurns { conv_id },
        ],
        Some(AgentQuery::UndoLastTurn { conv_id }) => go_on && actions == seq![
            QueryAction::ReplyUndo { conv_id },
        ],
        Some(AgentQuery::RedoLastTurn { conv_id }) => go_on && actions == seq![
            QueryAction::ReplyRedo { conv_id },
        ],
        Some(AgentQuery::RunSkill { session_id, message, user_id, skill_trust }) => {
            &&& go_on
            &&& actions.len() == 4
            &&& actions[0] == QueryAction::SetSkillTrust(skill_trust)
            &&& actions[1] matches QueryAction::Process(m) && is_plain_message(
                m,
                user_id@,
                session_id@,
                message@,
            )
            &&& actions[2] == QueryAction::SetSkillTrust(SkillTrust::Trusted)
            &&& actions[3] == QueryAction::ReplyResult
        },
    }
}

/// One round of the per-agent loop for a query: what it asks for, and whether the
/// loop goes on. A skill runs with the trust that it was given, which is taken
/// back before the result is handed over.
pub fn answer_query(query: Option<AgentQuery>) -> (r: (Vec<QueryAction>, bool))
    ensures
        is_query_step(query, r.0@, r.1),
{
    let mut actions: Vec<QueryAction> = Vec::new();
    match query {
        None => (actions, false),
        Some(AgentQuery::GetThreadSummaries) => {
            actions.push(QueryAction::ReplySummaries);
            assert(actions@ =~= seq![QueryAction::ReplySummaries]);
            (actions, true)
        },
        Some(AgentQuery::GetThreadTurns { conv_id }) => {
            actions.push(QueryAction::ReplyTurns { conv_id });
            assert(actions@ =~= seq![QueryAction::ReplyTurns { conv_id }]);
            (actions, true)
        },
        Some(AgentQuery::UndoLastTurn { conv_id }) => {
            actions.push(QueryAction::ReplyUndo { conv_id });
            assert(actions@ =~= seq![QueryAction::ReplyUndo { conv_id }]);
            (actions, true)
        },
        Some(AgentQuery::RedoLastTurn { conv_id }) => {
            actions.push(QueryAction::ReplyRedo { conv_id });
            assert(actions@ =~= seq![QueryAction::ReplyRedo { conv_id }]);
            (actions, true)
        },
        Some(AgentQuery::RunSkill { session_id, message, user_id, skill_trust }) => {
            actions.push(QueryAction::SetSkillTrust(skill_trust));
            actions.push(
                QueryAction::Process(
                    IncomingMessage {
                        user_id,
                        session_id,
                        content: message,
                        channel: None,
                        extra: Vec::new(),
                    },
                ),
            );
            actions.push(QueryAction::SetSkillTrust(SkillTrust::Trusted));
            actions.push(QueryAction::ReplyResult);
            (actions, true)
        },
    }
}

/// The trust that holds after the first `n` actions, where `before` held.
pub open spec fn trust_after(actions: Seq<QueryAction>, before: SkillTrust, n: int) -> SkillTrust
    decreases n,
{
    if n <= 0 || n > actions.len() {
        before
    } else {
        match actions[n - 1] {
            QueryAction::SetSkillTrust(t) => t,
            _ => trust_after(actions, before, n - 1),
        }
    }
}

/// A skill runs with the trust that it was given, and every query leaves a trusted
/// agent trusted, a skill run whatever held before it.
pub proof fn law_skill_trust_is_taken_back(
    query: Option<AgentQuery>,
    actions: Seq<QueryAction>,
    go_on: bool,
    before: SkillTrust,
)
    requires
        is_query_step(query, actions, go_on),
    ensures
        query matches Some(AgentQuery::RunSkill { skill_trust, .. }) ==> trust_after(
            actions,
            before,
            1,
        ) == skill_trust && actions[1] is Process,
        before is Trusted || (query is Some && query->0 is RunSkill) ==> trust_after(
            actions,
            before,
            actions.len() as int,
        ) is Trusted,
{
    reveal_with_fuel(trust_after, 5);
}

// ---------------------------------------------------------------------------
// Processing a message
// ---------------------------------------------------------------------------

/// What the control plane hands to the agent: the message of an external user,
/// written to the agent directly on a channel.
pub fn begin_message_acp(session_id: &str, message: &str, user_id: &str, channel: &str) -> (r:
    IncomingMessage)
    ensures
        r.user_id@ == user_id@,
        r.session_id@ == session_id@,
        r.content@ == message@,
        opt_text(r.channel) == Some(channel@),
        r.extra@.len() == 0,
{
    IncomingMessage {
        user_id: user_id.to_string(),
        session_id: session_id.to_string(),
        content: message.to_string(),
        channel: Some(channel.to_string()),
        extra: Vec::new(),
    }
}

/// What the control plane tells of a turn: what is saved and broadcast, and what
/// goes to the outbound pipeline.
#[derive(Debug)]
pub struct AcpOutcome {
    pub response: GatewayEvent,
    /// What is saved as the assistant's message, in the session's transcript.
    pub saved_content: String,
    /// What the outbound pipeline gets.
    pub raw_output: String,
    /// The run that the message is saved under.
    pub run_id: String,
    pub reasoning_content: Option<String>,
    pub usage: Option<TokenUsage>,
    pub model_name: String,
    pub model_provider: String,
}

/// What the response to a message says: the agent's, or what went wrong.
pub open spec fn response_text(result: Result<Outgoing, String>) -> Seq<char> {
    match result {
        Ok(o) => o.content@,
        Err(e) => "Error processing message: "@ + e@,
    }
}

/// What comes of a message that was processed through the control plane: a
/// failure is answered in words, in the conversation that the session belongs
/// to.
pub fn process_message_acp(
    gateway: &GatewayConfig,
    agent_id: &str,
    session_id: &str,
    channel: &str,
    conversation: &Option<String>,
    result: Result<Outgoing, String>,
) -> (r: AcpOutcome)
    ensures
        r.saved_content@ == response_text(result),
        r.raw_output@ == response_text(result),
        is_run_id(r.run_id@),
        r.usage == (match result {
            Ok(o) => o.usage,
            Err(_) => None,
        }),
        r.reasoning_content == (match result {
            Ok(o) => o.reasoning_content,
            Err(_) => None,
        }),
        r.model_name@ == gateway.model@,
        r.model_provider@ == gateway.model_provider@,
        r.response matches GatewayEvent::AgentResponse {
            session_id: s,
            agent_id: a,
            content,
            channel: c,
            conversation_id,
            usage,
        } && s@ == session_id@ && a@ == agent_id@ && content@ == response_text(result) && c@
            == channel@ && conversation_id@ == (match *conversation {
            Some(id) => id@,
            None => session_id@,
        }) && usage == r.usage,
{
    let (content, usage, reasoning_content) = match result {
        Ok(o) => (o.content, o.usage, o.reasoning_content),
        Err(e) => (cat("Error processing message: ", &e), None, None),
    };
    let conversation_id = match conversation {
        Some(id) => id.clone(),
        None => session_id.to_string(),
    };
    AcpOutcome {
        response: GatewayEvent::AgentResponse {
            session_id: session_id.to_string(),
            agent_id: agent_id.to_string(),
            content: content.clone(),
            channel: channel.to_string(),
            conversation_id,
            usage,
        },
        saved_content: content.clone(),
        raw_output: content,
        run_id: new_run_id(),
        reasoning_content,
        usage,
        model_name: gateway.model.clone(),
        model_provider: gateway.model_provider.clone(),
    }
}

/// Message payload for direct agent execution.
#[derive(Debug)]
pub struct DirectMessage {
    /// Target session ID.
    pub session_id: String,
    /// Message content.
    pub message: String,
    /// Originating user ID.
    pub user_id: String,
    /// Originating channel.
    pub channel: String,
    /// Optional model override.
    pub model_override: Option<String>,
}

/// What is set of an agent for a direct execution.
#[derive(Debug)]
pub struct AgentSettings {
    pub model_override: Option<String>,
    pub extra_params: Option<Json>,
}

/// Set the agent's parameters and its model for a direct execution, and make the
/// message that it runs on, which carries no channel.
pub fn begin_message_direct(
    settings: &mut AgentSettings,
    msg: &DirectMessage,
    think_level: &Option<String>,
) -> (r: IncomingMessage)
    ensures
        match (opt_text(*think_level), final(settings).extra_params) {
            (Some(l), Some(j)) => thinking_budget(l) is Some && asks_thinking(
                j@,
                thinking_budget(l)->0,
            ),
            (Some(l), None) => thinking_budget(l) is None,
            (None, q) => q is None,
        },
        opt_text(final(settings).model_override) == opt_text(msg.model_override),
        is_plain_message(r, msg.user_id@, msg.session_id@, msg.message@),
{
    settings.model_override = msg.model_override.clone();
    settings.extra_params = thinking_params(think_level);
    IncomingMessage {
        user_id: msg.user_id.clone(),
        session_id: msg.session_id.clone(),
        content: msg.message.clone(),
        channel: None,
        extra: Vec::new(),
    }
}

/// What a direct execution leaves behind.
#[derive(Debug)]
pub struct DirectOutcome {
    /// The totals of all turns, with this one.
    pub totals: UsageTotals,
    /// What is saved as the assistant's message.
    pub saved_content: String,
    /// The run that the message is saved under.
    pub run_id: String,
    pub response: GatewayEvent,
}

/// What comes of a message that was processed directly: the model override is
/// taken back; the response is counted, saved and told; of a failure nothing is
/// told.
pub fn process_message_direct(
    settings: &mut AgentSettings,
    agent_id: &str,
    msg: &DirectMessage,
    totals: UsageTotals,
    result: Result<Outgoing, String>,
) -> (r: Option<DirectOutcome>)
    requires
        result matches Ok(o) ==> (o.usage matches Some(u) ==> {
            let after = usage_after(totals, u, o.tool_calls);
            after.0 <= u64::MAX && after.1 <= u64::MAX
        }),
    ensures
        final(settings).model_override is None,
        final(settings).extra_params == old(settings).extra_params,
        r is Some == result is Ok,
        r matches Some(out) ==> {
            let o = result->Ok_0;
            &&& out.saved_content@ == o.content@
            &&& is_run_id(out.run_id@)
            &&& match o.usage {
                Some(u) => (out.totals.tokens as int, out.totals.calls as int)
                    == usage_after(totals, u, o.tool_calls),
                None => out.totals == totals,
            }
            &&& out.response matches GatewayEvent::AgentResponse {
                session_id,
                agent_id: a,
                content,
                channel,
                conversation_id,
                usage,
            } && session_id@ == msg.session_id@ && a@ == agent_id@ && content@ == o.content@
                && channel@ == msg.channel@ && conversation_id@ == msg.session_id@ && usage
                == o.usage
        },
{
    settings.model_override = None;
    match result {
        Err(_) => None,
        Ok(o) => {
            let counted = match o.usage {
                Some(u) => totals.count(u, o.tool_calls),
                None => totals,
            };
            Some(
                DirectOutcome {
                    totals: counted,
                    saved_content: o.content.clone(),
                    run_id: new_run_id(),
                    response: GatewayEvent::AgentResponse {
                        session_id: msg.session_id.clone(),
                        agent_id: agent_id.to_string(),
                        content: o.content,
                        channel: msg.channel.clone(),
                        conversation_id: msg.session_id.clone(),
                        usage: o.usage,
                    },
                },
            )
        },
    }
}

// ---------------------------------------------------------------------------
// The default tool registry
// ---------------------------------------------------------------------------

/// A built-in tool.
#[derive(Debug, Clone, Copy, PartialEq, Eq, Structural)]
pub enum BuiltinTool {
    FileRead,
    FileWrite,
    FileEdit,
    WriteReport,
    SvgToPng,
    Glob,
    Grep,
    Skill,
    /// In the sandbox, with network access.
    Shell,
    /// In the sandbox, without network access.
    CodeExecution,
    WebSearch,
    WebFetch,
    CloudKb,
    Todo,
    Cron,
    Heartbeat,
    Time,
    Browser,
    AcpSpawn,
    AcpSession,
    SessionsList,
    SessionsHistory,
    SessionsSend,
    SessionsYield,
    SessionStatus,
    ApplyPatch,
    Memory,
    MemorySearch,
    MemoryGet,
    McpConnection,
    UpdatePlan,
    Process,
    Pdf,
    Image,
    ImageGenerate,
    Tts,
    Stt,
    Nodes,
    ListCapabilities,
    AskUser,
    DeviceCamera,
    DeviceGeolocate,
    DeviceNotify,
    DeviceHaptic,
    DevicePickFile,
    DeviceShortcutRun,
    DeviceShortcutResults,
    DeviceShortcutInbox,
}

/// What decides which built-in tools there are.
#[derive(Debug, Clone, Copy, PartialEq, Eq, Structural)]
pub struct ToolConditions {
    /// The browser is built in.
    pub browser: bool,
    /// The memory tools could be initialized, each by itself.
    pub memory: bool,
    pub memory_search: bool,
    pub memory_get: bool,
}

/// A tool, where a condition holds.
pub open spec fn tool_if(condition: bool, tool: BuiltinTool) -> Seq<BuiltinTool> {
    if condition {
        seq![tool]
    } else {
        Seq::empty()
    }
}

/// The built-in tools in the order of their registration, given whether the cloud is
/// built in and enabled.
pub open spec fn default_tools(cloud: bool, c: ToolConditions) -> Seq<BuiltinTool> {
    seq![
        BuiltinTool::FileRead,
        BuiltinTool::FileWrite,
        BuiltinTool::FileEdit,
        BuiltinTool::WriteReport,
        BuiltinTool::SvgToPng,
        BuiltinTool::Glob,
        BuiltinTool::Grep,
        BuiltinTool::Skill,
        BuiltinTool::Shell,
        BuiltinTool::CodeExecution,
        BuiltinTool::WebSearch,
        BuiltinTool::WebFetch,
    ] + tool_if(cloud, BuiltinTool::CloudKb) + seq![
        BuiltinTool::Todo,
        BuiltinTool::Cron,
        BuiltinTool::Heartbeat,
        BuiltinTool::Time,
    ] + tool_if(c.browser, BuiltinTool::Browser) + seq![
        BuiltinTool::AcpSpawn,
        BuiltinTool::AcpSession,
        BuiltinTool::SessionsList,
        BuiltinTool::SessionsHistory,
        BuiltinTool::SessionsSend,
        BuiltinTool::SessionsYield,
        BuiltinTool::SessionStatus,
        BuiltinTool::ApplyPatch,
    ] + tool_if(c.memory, BuiltinTool::Memory) + tool_if(
        c.memory_search,
        BuiltinTool::MemorySearch,
    ) + tool_if(c.memory_get, BuiltinTool::MemoryGet) + seq![
        BuiltinTool::McpConnection,
        BuiltinTool::UpdatePlan,
        BuiltinTool::Process,
        BuiltinTool::Pdf,
        BuiltinTool::Image,
        BuiltinTool::ImageGenerate,
        BuiltinTool::Tts,
        BuiltinTool::Stt,
        BuiltinTool::Nodes,
        BuiltinTool::ListCapabilities,
        BuiltinTool::AskUser,
        BuiltinTool::DeviceCamera,
        BuiltinTool::DeviceGeolocate,
        BuiltinTool::DeviceNotify,
        BuiltinTool::DeviceHaptic,
        BuiltinTool::DevicePickFile,
        BuiltinTool::DeviceShortcutRun,
        BuiltinTool::DeviceShortcutResults,
        BuiltinTool::DeviceShortcutInbox,
    ]
}

fn push_if(tools: &mut Vec<BuiltinTool>, condition: bool, tool: BuiltinTool)
    ensures
        final(tools)@ == old(tools)@ + tool_if(condition, tool),
{
    if condition {
        tools.push(tool);
    }
    assert(tools@ =~= old(tools)@ + tool_if(condition, tool));
}

fn push_all(tools: &mut Vec<BuiltinTool>, more: &[BuiltinTool])
    ensures
        final(tools)@ == old(tools)@ + more@,
{
    let ghost before = tools@;
    let mut i: usize = 0;
    while i < more.len()
        invariant
            i <= more@.len(),
            tools@ == before + more@.take(i as int),
        decreases more.len() - i,
    {
        tools.push(more[i]);
        assert(tools@ =~= before + more@.take(i + 1));
        i += 1;
    }
    assert(more@.take(more@.len() as int) =~= more@);
}

/// The built-in tools in the order of their registration, given whether the cloud is
/// built in and enabled.
pub fn builtin_tools(cloud: bool, c: ToolConditions) -> (r: Vec<BuiltinTool>)
    ensures
        r@ == default_tools(cloud, c),
{
    let mut tools: Vec<BuiltinTool> = vec![
        BuiltinTool::FileRead,
        BuiltinTool::FileWrite,
        BuiltinTool::FileEdit,
        BuiltinTool::WriteReport,
        BuiltinTool::SvgToPng,
        BuiltinTool::Glob,
        BuiltinTool::Grep,
        BuiltinTool::Skill,
        BuiltinTool::Shell,
        BuiltinTool::CodeExecution,
        BuiltinTool::WebSearch,
        BuiltinTool::WebFetch,
    ];
    push_if(&mut tools, cloud, BuiltinTool::CloudKb);
    let working: Vec<BuiltinTool> = vec![
        BuiltinTool::Todo,
        BuiltinTool::Cron,
        BuiltinTool::Heartbeat,
        BuiltinTool::Time,
    ];
    push_all(&mut tools, working.as_slice());
    push_if(&mut tools, c.browser, BuiltinTool::Browser);
    let sessions: Vec<BuiltinTool> = vec![
        BuiltinTool::AcpSpawn,
        BuiltinTool::AcpSession,
        BuiltinTool::SessionsList,
        BuiltinTool::SessionsHistory,
        BuiltinTool::SessionsSend,
        BuiltinTool::SessionsYield,
        BuiltinTool::SessionStatus,
        BuiltinTool::ApplyPatch,
    ];
    push_all(&mut tools, sessions.as_slice());
    push_if(&mut tools, c.memory, BuiltinTool::Memory);
    push_if(&mut tools, c.memory_search, BuiltinTool::MemorySearch);
    push_if(&mut tools, c.memory_get, BuiltinTool::MemoryGet);
    let rest: Vec<BuiltinTool> = vec![
        BuiltinTool::McpConnection,
        BuiltinTool::UpdatePlan,
        BuiltinTool::Process,
        BuiltinTool::Pdf,
        BuiltinTool::Image,
        BuiltinTool::ImageGenerate,
        BuiltinTool::Tts,
        BuiltinTool::Stt,
        BuiltinTool::Nodes,
        BuiltinTool::ListCapabilities,
        BuiltinTool::AskUser,
        BuiltinTool::DeviceCamera,
        BuiltinTool::DeviceGeolocate,
        BuiltinTool::DeviceNotify,
        BuiltinTool::DeviceHaptic,
        BuiltinTool::DevicePickFile,
        BuiltinTool::DeviceShortcutRun,
        BuiltinTool::DeviceShortcutResults,
        BuiltinTool::DeviceShortcutInbox,
    ];
    push_all(&mut tools, rest.as_slice());
    tools
}

/// The tools that only trusted skills may use.
pub open spec fn privileged() -> Seq<Seq<char>> {
    seq![
        "shell"@,
        "execute_code"@,
        "file_write"@,
        "file_edit"@,
        "delegate"@,
        "acp_spawn"@,
        "acp_session"@,
        "memory"@,
        "sessions_send"@,
        "sessions_yield"@,
        "subagents"@,
        "apply_patch"@,
        "message"@,
        "process"@,
        "image_generate"@,
        "system_inspect"@,
        "service_manager"@,
        "device_camera"@,
        "device_geolocate"@,
        "ios_shortcut_run"@,
    ]
}

/// The tools that only trusted skills may use.
pub fn privileged_tools() -> (r: Vec<String>)
    ensures
        texts(r@) == privileged(),
{
    vec![
        "shell".to_string(),
        "execute_code".to_string(),
        "file_write".to_string(),
        "file_edit".to_string(),
        "delegate".to_string(),
        "acp_spawn".to_string(),
        "acp_session".to_string(),
        "memory".to_string(),
        "sessions_send".to_string(),
        "sessions_yield".to_string(),
        "subagents".to_string(),
        "apply_patch".to_string(),
        "message".to_string(),
        "process".to_string(),
        "image_generate".to_string(),
        "system_inspect".to_string(),
        "service_manager".to_string(),
        "device_camera".to_string(),
        "device_geolocate".to_string(),
        "ios_shortcut_run".to_string(),
    ]
}

/// A profile of capability sets.
#[derive(Debug)]
pub enum CapabilityProfile {
    Minimal,
    Observer,
    Server,
    Desktop,
    Custom(Vec<String>),
    Full,
}

/// How far a capability set reaches, from the narrowest to the widest.
#[derive(Debug, Clone, Copy, PartialEq, Eq, Structural)]
pub enum OsControlScope {
    ReadOnly,
    UserSpace,
    System,
    Root,
}

impl OsControlScope {
    /// The place of a scope in the order of their reach.
    pub open spec fn reach(self) -> int {
        match self {
            OsControlScope::ReadOnly => 0,
            OsControlScope::UserSpace => 1,
            OsControlScope::System => 2,
            OsControlScope::Root => 3,
        }
    }

    /// Whether this scope reaches further than another.
    pub fn exceeds(self, limit: OsControlScope) -> (r: bool)
        ensures
            r == (self.reach() > limit.reach()),
    {
        match (self, limit) {
            (OsControlScope::ReadOnly, _) => false,
            (_, OsControlScope::ReadOnly) => true,
            (OsControlScope::UserSpace, _) => false,
            (_, OsControlScope::UserSpace) => true,
            (OsControlScope::System, _) => false,
            (_, OsControlScope::System) => true,
            (OsControlScope::Root, OsControlScope::Root) => false,
        }
    }
}

/// Whether `r` is the profile that the configuration names; an unknown name is the
/// full one.
pub open spec fn is_profile(c: CapabilitiesConfig, r: CapabilityProfile) -> bool {
    if c.profile@ == "minimal"@ {
        r is Minimal
    } else if c.profile@ == "observer"@ {
        r is Observer
    } else if c.profile@ == "server"@ {
        r is Server
    } else if c.profile@ == "desktop"@ {
        r is Desktop
    } else if c.profile@ == "custom"@ {
        r matches CapabilityProfile::Custom(sets) && texts(sets@) == texts(c.custom_sets@)
    } else {
        r is Full
    }
}

/// The profile that the configuration names; an unknown name is the full one.
pub fn capability_profile(c: &CapabilitiesConfig) -> (r: CapabilityProfile)
    ensures
        is_profile(*c, r),
{
    if same(&c.profile, "minimal") {
        CapabilityProfile::Minimal
    } else if same(&c.profile, "observer") {
        CapabilityProfile::Observer
    } else if same(&c.profile, "server") {
        CapabilityProfile::Server
    } else if same(&c.profile, "desktop") {
        CapabilityProfile::Desktop
    } else if same(&c.profile, "custom") {
        CapabilityProfile::Custom(c.custom_sets.clone())
    } else {
        CapabilityProfile::Full
    }
}

/// The scope of a name, if it is one.
pub open spec fn scope_named(name: Seq<char>) -> Option<OsControlScope> {
    if name == "read_only"@ {
        Some(OsControlScope::ReadOnly)
    } else if name == "user_space"@ {
        Some(OsControlScope::UserSpace)
    } else if name == "system"@ {
        Some(OsControlScope::System)
    } else if name == "root"@ {
        Some(OsControlScope::Root)
    } else {
        None
    }
}

/// The widest scope that the configuration allows; an unknown name is no limit.
pub fn max_scope(c: &CapabilitiesConfig) -> (r: Option<OsControlScope>)
    ensures
        r == scope_named(c.max_scope@),
{
    if same(&c.max_scope, "read_only") {
        Some(OsControlScope::ReadOnly)
    } else if same(&c.max_scope, "user_space") {
        Some(OsControlScope::UserSpace)
    } else if same(&c.max_scope, "system") {
        Some(OsControlScope::System)
    } else if same(&c.max_scope, "root") {
        Some(OsControlScope::Root)
    } else {
        None
    }
}

/// A capability set of the platform.
#[derive(Debug)]
pub struct ToolSet {
    pub id: String,
    pub scope: OsControlScope,
}

/// Whether a set reaches further than a limit allows.
pub open spec fn too_wide(sets: Seq<ToolSet>, limit: Option<OsControlScope>, id: Seq<char>) -> bool {
    limit is Some && exists|i: int|
        0 <= i < sets.len() && (#[trigger] sets[i]).id@ == id && sets[i].scope.reach()
            > limit->0.reach()
}

/// Whether these are the capability sets to switch off: those that reach further than
/// allowed, and those that the configuration disables.
pub open spec fn are_disabled(
    sets: Seq<ToolSet>,
    c: CapabilitiesConfig,
    ids: Seq<Seq<char>>,
) -> bool {
    forall|id: Seq<char>| #[trigger]
        ids.contains(id) <==> too_wide(sets, scope_named(c.max_scope@), id) || texts(
            c.disabled_sets@,
        ).contains(id)
}

/// The capability sets to switch off: those that reach further than allowed, and
/// those that the configuration disables.
pub fn sets_to_disable(sets: &[ToolSet], c: &CapabilitiesConfig) -> (r: Vec<String>)
    ensures
        are_disabled(sets@, *c, texts(r@)),
{
    let mut out: Vec<String> = Vec::new();
    let ghost limit_model = scope_named(c.max_scope@);
    if let Some(limit) = max_scope(c) {
        let mut i: usize = 0;
        while i < sets.len()
            invariant
                i <= sets@.len(),
                limit_model == Some(limit),
                forall|id: Seq<char>| #[trigger]
                    texts(out@).contains(id) <==> exists|k: int|
                        0 <= k < i && (#[trigger] sets@[k]).id@ == id && sets@[k].scope.reach()
                            > limit.reach(),
            decreases sets.len() - i,
        {
            let ghost before = texts(out@);
            if sets[i].scope.exceeds(limit) {
                out.push(sets[i].id.clone());
                assert(texts(out@) =~= before.push(sets@[i as int].id@));
            }
            assert forall|id: Seq<char>| #[trigger] texts(out@).contains(id) <==> exists|k: int|
                0 <= k < i + 1 && (#[trigger] sets@[k]).id@ == id && sets@[k].scope.reach()
                    > limit.reach() by {
                lemma_push_contains(before, sets@[i as int].id@, id);
                assert(sets@[i as int].id@ == sets@[i as int].id@);
            }
            i += 1;
        }
    }
    let ghost wide = texts(out@);
    let mut i: usize = 0;
    while i < c.disabled_sets.len()
        invariant
            i <= c.disabled_sets@.len(),
            forall|id: Seq<char>| #[trigger]
                texts(out@).contains(id) <==> wide.contains(id) || texts(c.disabled_sets@).take(
                    i as int,
                ).contains(id),
        decreases c.disabled_sets.len() - i,
    {
        let ghost before = texts(out@);
        let ghost off = texts(c.disabled_sets@);
        out.push(c.disabled_sets[i].clone());
        assert(texts(out@) =~= before.push(off[i as int]));
        assert forall|id: Seq<char>| #[trigger]
            texts(out@).contains(id) <==> wide.contains(id) || off.take(i + 1).contains(id) by {
            lemma_push_contains(before, off[i as int], id);
            assert(off.take(i + 1) =~= off.take(i as int).push(off[i as int]));
            lemma_push_contains(off.take(i as int), off[i as int], id);
        }
        i += 1;
    }
    assert(texts(c.disabled_sets@).take(c.disabled_sets@.len() as int) =~= texts(
        c.disabled_sets@,
    ));
    out
}

proof fn lemma_push_contains(s: Seq<Seq<char>>, x: Seq<char>, id: Seq<char>)
    ensures
        s.push(x).contains(id) <==> s.contains(id) || id == x,
{
    if s.contains(id) {
        let k = choose|k: int| 0 <= k < s.len() && s[k] == id;
        assert(s.push(x)[k] == id);
    }
    if id == x {
        assert(s.push(x)[s.len() as int] == id);
    }
}

/// The search providers, the cloud's first when it is enabled.
pub open spec fn with_cloud(
    configured: Seq<SearchProvider>,
    cloud_api_base: Option<String>,
) -> Seq<SearchProvider> {
    match cloud_api_base {
        Some(api_base) => configured.insert(0, SearchProvider::Cloud { api_base }),
        None => configured,
    }
}

/// The search providers of the default registry: the cloud's first when it is
/// enabled.
pub fn search_providers(configured: Vec<SearchProvider>, cloud_api_base: Option<String>) -> (r: Vec<
    SearchProvider,
>)
    ensures
        r@ == with_cloud(configured@, cloud_api_base),
{
    let mut providers = configured;
    match cloud_api_base {
        Some(api_base) => {
            providers.insert(0, SearchProvider::Cloud { api_base });
        },
        None => {},
    }
    providers
}

/// What the default tool registry is made of.
#[derive(Debug)]
pub struct RegistryPlan {
    pub tools: Vec<BuiltinTool>,
    pub search: Vec<SearchProvider>,
    pub profile: CapabilityProfile,
    pub disabled_sets: Vec<String>,
    pub privileged: Vec<String>,
}

/// What the default tool registry is made of: its built-in tools, its search
/// providers, the capability sets that are on, and the privileged tools. The cloud is
/// enabled where it has an address.
pub fn create_default_tool_registry(
    conditions: ToolConditions,
    capabilities: &CapabilitiesConfig,
    sets: &[ToolSet],
    configured: Vec<SearchProvider>,
    cloud_api_base: Option<String>,
) -> (r: RegistryPlan)
    ensures
        r.tools@ == default_tools(cloud_api_base is Some, conditions),
        r.search@ == with_cloud(configured@, cloud_api_base),
        is_profile(*capabilities, r.profile),
        are_disabled(sets@, *capabilities, texts(r.disabled_sets@)),
        texts(r.privileged@) == privileged(),
{
    RegistryPlan {
        tools: builtin_tools(cloud_api_base.is_some(), conditions),
        search: search_providers(configured, cloud_api_base),
        profile: capability_profile(capabilities),
        disabled_sets: sets_to_disable(sets, capabilities),
        privileged: privileged_tools(),
    }
}

} // verus!
