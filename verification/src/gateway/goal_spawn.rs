//! Goal-runner lifecycle.
//!
//! A goal is *suspended* when it has a persisted checkpoint but no live runner.
use vstd::prelude::*;
use vstd::string::*;

use crate::json::Json;
use crate::strmap::StrMap;
use crate::text::{cat, decimal, decimal_of, decimal_of_usize, opt_text};

verus! {

/// Why a goal cannot go on.
#[derive(Debug)]
pub struct BlockedReason {
    pub code: String,
    pub message: String,
}

impl Clone for BlockedReason {
    fn clone(&self) -> (r: Self)
        ensures
            r == *self,
    {
        BlockedReason { code: self.code.clone(), message: self.message.clone() }
    }
}

/// The tokens that a goal used so far.
#[derive(Debug, Clone, Copy, PartialEq, Eq, Structural)]
pub struct TurnUsage {
    pub prompt_tokens: u64,
    pub completion_tokens: u64,
    pub total_tokens: u64,
}

/// The checkpoint of a goal: what resuming it reads.
#[derive(Debug)]
pub struct PersistedGoal {
    pub goal_id: String,
    pub parent_session_id: String,
    /// The plan, serialized.
    pub plan: Json,
    pub round: usize,
    pub max_rounds: usize,
    /// How the conditions were met in each round, serialized.
    pub condition_history: Vec<Json>,
    pub blocked_reason: Option<BlockedReason>,
    /// What the last round handed over to the next, serialized.
    pub last_handoff: Option<Json>,
    pub token_usage: Option<TurnUsage>,
    /// The messages of an interrupted round, serialized.
    pub round_messages: Option<Vec<Json>>,
}

/// A persisted goal with no live runner.
#[derive(Debug)]
pub struct SuspendedGoal {
    pub goal_id: String,
    pub round: usize,
    pub max_rounds: usize,
    pub blocked_reason: Option<BlockedReason>,
}

/// What is shown of a suspended goal.
pub open spec fn suspended_view(p: PersistedGoal) -> SuspendedGoal {
    SuspendedGoal {
        goal_id: p.goal_id,
        round: p.round,
        max_rounds: p.max_rounds,
        blocked_reason: p.blocked_reason,
    }
}

/// The goals that are persisted but not running, in the order of their
/// checkpoints.
pub open spec fn suspended(persisted: Seq<PersistedGoal>, running: Set<Seq<char>>) -> Seq<
    SuspendedGoal,
> {
    persisted.filter(|p: PersistedGoal| !running.contains(p.goal_id@)).map_values(
        |p: PersistedGoal| suspended_view(p),
    )
}

/// List goals that are persisted but not running (suspended).
pub fn list_suspended(persisted: &[PersistedGoal], running: &StrMap<bool>) -> (r: Vec<
    SuspendedGoal,
>)
    ensures
        r@ == suspended(persisted@, running@.dom()),
{
    let ghost p = |p: PersistedGoal| !running@.dom().contains(p.goal_id@);
    let ghost f = |p: PersistedGoal| suspended_view(p);
    let mut out: Vec<SuspendedGoal> = Vec::new();
    let mut i: usize = 0;
    assert(persisted@.take(0) =~= Seq::empty());
    assert(out@ =~= persisted@.take(0).filter(p).map_values(f)) by {
        reveal(Seq::filter);
    }
    while i < persisted.len()
        invariant
            i <= persisted@.len(),
            p == (|p: PersistedGoal| !running@.dom().contains(p.goal_id@)),
            f == (|p: PersistedGoal| suspended_view(p)),
            out@ == persisted@.take(i as int).filter(p).map_values(f),
        decreases persisted.len() - i,
    {
        let g = &persisted[i];
        let ghost before = out@;
        proof {
            let head = persisted@.take(i as int);
            assert(persisted@.take(i + 1) =~= head.push(*g));
            head.lemma_filter_push(*g, p);
            assert(head.filter(p).push(*g).map_values(f) =~= head.filter(p).map_values(f).push(
                suspended_view(*g),
            ));
        }
        if !running.contains_key(&g.goal_id) {
            out.push(
                SuspendedGoal {
                    goal_id: g.goal_id.clone(),
                    round: g.round,
                    max_rounds: g.max_rounds,
                    blocked_reason: match &g.blocked_reason {
                        Some(b) => Some(b.clone()),
                        None => None,
                    },
                },
            );
        }
        i += 1;
    }
    assert(persisted@.take(persisted@.len() as int) =~= persisted@);
    out
}

/// What a running goal reports.
#[derive(Debug)]
pub enum GoalEvent {
    /// The goal is reached.
    Done {
        total_rounds: usize,
        all_passed: bool,
        summary: String,
        token_usage: Option<TurnUsage>,
    },
    /// The goal was given up.
    Aborted {
        reason: String,
        round: usize,
        /// How the conditions were met, serialized.
        results: Vec<Json>,
        blocked_reason: Option<BlockedReason>,
        token_usage: Option<TurnUsage>,
    },
    /// Anything on the way, serialized.
    Progress(Json),
}

/// What is told of the tokens that a goal used.
pub open spec fn tokens_text(usage: Option<TurnUsage>) -> Seq<char> {
    match usage {
        Some(u) => " Tokens: "@ + decimal(u.total_tokens as nat) + "."@,
        None => Seq::empty(),
    }
}

/// What a goal's parent session keeps of its end; nothing while it runs.
pub open spec fn outcome_text(goal: Seq<char>, event: GoalEvent) -> Option<Seq<char>> {
    match event {
        GoalEvent::Done { total_rounds, summary, token_usage, .. } => Some(
            "🏁 Goal `"@ + goal + "` completed in "@ + decimal(total_rounds as nat)
                + " round(s)."@ + tokens_text(token_usage) + " "@ + summary@,
        ),
        GoalEvent::Aborted { reason, round, token_usage, .. } => Some(
            "⛔ Goal `"@ + goal + "` aborted at round "@ + decimal(round as nat) + ":"@ + reason@
                + "."@ + tokens_text(token_usage)
                + " Check `/goal list`; if suspended, resume with `/goal resume "@ + goal + "`."@,
        ),
        GoalEvent::Progress(_) => None,
    }
}

fn tokens_of(usage: Option<TurnUsage>) -> (r: String)
    ensures
        r@ == tokens_text(usage),
{
    match usage {
        Some(u) => {
            let mut s = " Tokens: ".to_string();
            s.append(&decimal_of(u.total_tokens));
            s.append(".");
            s
        },
        None => String::new(),
    }
}

/// What is written into a goal's parent session when the goal ends, so that the
/// chat history keeps a durable record; nothing while it runs.
pub fn goal_outcome(goal_id: &str, event: &GoalEvent) -> (r: Option<String>)
    ensures
        opt_text(r) == outcome_text(goal_id@, *event),
{
    match event {
        GoalEvent::Done { total_rounds, summary, token_usage, .. } => {
            let mut s = "🏁 Goal `".to_string();
            s.append(goal_id);
            s.append("` completed in ");
            s.append(&decimal_of_usize(*total_rounds));
            s.append(" round(s).");
            s.append(&tokens_of(*token_usage));
            s.append(" ");
            s.append(summary);
            Some(s)
        },
        GoalEvent::Aborted { reason, round, token_usage, .. } => {
            let mut s = "⛔ Goal `".to_string();
            s.append(goal_id);
            s.append("` aborted at round ");
            s.append(&decimal_of_usize(*round));
            s.append(":");
            s.append(reason);
            s.append(".");
            s.append(&tokens_of(*token_usage));
            s.append(" Check `/goal list`; if suspended, resume with `/goal resume ");
            s.append(goal_id);
            s.append("`.");
            Some(s)
        },
        GoalEvent::Progress(_) => None,
    }
}

/// The names under which a goal's runner and its event relay are registered, so
/// that a shutdown ends both.
pub fn goal_task_names(goal_id: &str) -> (r: (String, String))
    ensures
        r.0@ == "goal:"@ + goal_id@,
        r.1@ == "goal-relay:"@ + goal_id@,
{
    (cat("goal:", goal_id), cat("goal-relay:", goal_id))
}

// ---------------------------------------------------------------------------
// Resuming
// ---------------------------------------------------------------------------

/// What a goal's runner starts with.
#[derive(Debug)]
pub struct RunnerStart {
    pub goal_id: String,
    pub parent_session_id: String,
    pub plan: Json,
    pub round: usize,
    pub condition_history: Vec<Json>,
    pub handoff: Option<Json>,
    pub round_messages: Option<Vec<Json>>,
    pub token_usage: Option<TurnUsage>,
    /// Whether the runner writes checkpoints.
    pub with_store: bool,
}

/// What the runner of a persisted goal starts with: everything that the goal had
/// when its checkpoint was written. Its id counts as running from now on.
pub fn spawn_goal_runner_with_store(
    running: &mut StrMap<bool>,
    persisted: PersistedGoal,
    with_store: bool,
) -> (r: RunnerStart)
    ensures
        final(running)@ == old(running)@.insert(persisted.goal_id@, true),
        r == (RunnerStart {
            goal_id: persisted.goal_id,
            parent_session_id: persisted.parent_session_id,
            plan: persisted.plan,
            round: persisted.round,
            condition_history: persisted.condition_history,
            handoff: persisted.last_handoff,
            round_messages: persisted.round_messages,
            token_usage: persisted.token_usage,
            with_store,
        }),
{
    running.insert(persisted.goal_id.clone(), true);
    RunnerStart {
        goal_id: persisted.goal_id,
        parent_session_id: persisted.parent_session_id,
        plan: persisted.plan,
        round: persisted.round,
        condition_history: persisted.condition_history,
        handoff: persisted.last_handoff,
        round_messages: persisted.round_messages,
        token_usage: persisted.token_usage,
        with_store,
    }
}

/// A runner that ends by itself no longer counts as running.
pub fn runner_ended(running: &mut StrMap<bool>, goal_id: &str)
    ensures
        final(running)@ == old(running)@.remove(goal_id@),
{
    running.remove(goal_id);
}

/// A goal that keeps its checkpoint is suspended again once its runner has ended.
pub proof fn law_an_ended_goal_is_suspended_again(
    persisted: Seq<PersistedGoal>,
    running: Map<Seq<char>, bool>,
    p: PersistedGoal,
)
    requires
        persisted.contains(p),
    ensures
        suspended(persisted, running.insert(p.goal_id@, true).remove(p.goal_id@).dom()).contains(
            suspended_view(p),
        ),
        !suspended(persisted, running.insert(p.goal_id@, true).dom()).contains(suspended_view(p)),
{
    law_suspended_goals_are_those_without_runner(
        persisted,
        running.insert(p.goal_id@, true).remove(p.goal_id@).dom(),
        p,
    );
    law_suspended_goals_are_those_without_runner(
        persisted,
        running.insert(p.goal_id@, true).dom(),
        p,
    );
}

// ---------------------------------------------------------------------------
// The event relay
// ---------------------------------------------------------------------------

/// Where the relay of a goal's events stands.
#[derive(Debug)]
pub enum RelayStage {
    /// It waits for an event.
    Waiting,
    /// The outcome of an event is being written to the parent session.
    Storing(GoalEvent),
    /// An event is being told.
    Telling,
    Ended,
}

/// What happened since.
#[derive(Debug)]
pub enum RelayInput {
    Received(GoalEvent),
    /// The goal reports no more.
    Closed,
    /// The outcome was written, or could not be.
    Stored { ok: bool },
    /// The event was told, or nobody listens any more.
    Told { ok: bool },
}

/// What the relay does.
#[derive(Debug)]
pub enum RelayAction {
    Receive,
    /// Append a message of the assistant to a session.
    Store { session_id: String, content: String },
    /// Tell everyone of the goal's progress.
    Tell { goal_id: String, session_id: String, event: GoalEvent },
    Stop,
}

/// Whether `a` tells of an event of a goal.
pub open spec fn tells(a: RelayAction, goal: Seq<char>, session: Seq<char>, e: GoalEvent) -> bool {
    a matches RelayAction::Tell { goal_id, session_id, event } && goal_id@ == goal && session_id@
        == session && event == e
}

/// Whether the relay goes from one stage to the next, and does `a`.
pub open spec fn is_relay_step(
    goal: Seq<char>,
    session: Seq<char>,
    stage: RelayStage,
    input: RelayInput,
    next: RelayStage,
    a: RelayAction,
) -> bool {
    match (stage, input) {
        (RelayStage::Waiting, RelayInput::Received(e)) => match outcome_text(goal, e) {
            Some(text) => next == RelayStage::Storing(e) && (a matches RelayAction::Store {
                session_id,
                content,
            } && session_id@ == session && content@ == text),
            None => next is Telling && tells(a, goal, session, e),
        },
        (RelayStage::Storing(e), RelayInput::Stored { ok: _ }) => next is Telling && tells(
            a,
            goal,
            session,
            e,
        ),
        (RelayStage::Telling, RelayInput::Told { ok: true }) => next is Waiting && a is Receive,
        _ => next is Ended && a is Stop,
    }
}

/// One step of the relay of a goal's events: an outcome is written to the parent
/// session first, then every event is told, until nobody listens or the goal
/// reports no more.
pub fn spawn_goal_relay(
    goal_id: &str,
    session_id: &str,
    stage: RelayStage,
    input: RelayInput,
) -> (r: (RelayStage, RelayAction))
    ensures
        is_relay_step(goal_id@, session_id@, stage, input, r.0, r.1),
{
    match (stage, input) {
        (RelayStage::Waiting, RelayInput::Received(e)) => match goal_outcome(goal_id, &e) {
            Some(content) => (
                RelayStage::Storing(e),
                RelayAction::Store { session_id: session_id.to_string(), content },
            ),
            None => (RelayStage::Telling, tell(goal_id, session_id, e)),
        },
        (RelayStage::Storing(e), RelayInput::Stored { ok: _ }) => (
            RelayStage::Telling,
            tell(goal_id, session_id, e),
        ),
        (RelayStage::Telling, RelayInput::Told { ok: true }) => (
            RelayStage::Waiting,
            RelayAction::Receive,
        ),
        _ => (RelayStage::Ended, RelayAction::Stop),
    }
}

fn tell(goal_id: &str, session_id: &str, event: GoalEvent) -> (r: RelayAction)
    ensures
        tells(r, goal_id@, session_id@, event),
{
    RelayAction::Tell {
        goal_id: goal_id.to_string(),
        session_id: session_id.to_string(),
        event,
    }
}

/// The outcome of a goal is told only after it was handed to the parent session,
/// whether or not that succeeded; and after an event that nobody heard nothing more
/// is told.
pub proof fn law_outcomes_are_stored_before_they_are_told(
    goal: Seq<char>,
    session: Seq<char>,
    stage: RelayStage,
    input: RelayInput,
    next: RelayStage,
    a: RelayAction,
)
    requires
        is_relay_step(goal, session, stage, input, next, a),
    ensures
        a matches RelayAction::Tell { event, .. } ==> (outcome_text(goal, event) is Some ==> stage
            == RelayStage::Storing(event) && input is Stored),
        next matches RelayStage::Storing(e) ==> (a matches RelayAction::Store { content, .. }
            && Some(content@) == outcome_text(goal, e)),
        input == (RelayInput::Told { ok: false }) ==> next is Ended && a is Stop,
        stage is Ended ==> next is Ended && a is Stop,
{
}

/// A goal that is listed as suspended is one with a checkpoint and no live
/// runner, and every such goal is listed.
pub proof fn law_suspended_goals_are_those_without_runner(
    persisted: Seq<PersistedGoal>,
    running: Set<Seq<char>>,
    p: PersistedGoal,
)
    requires
        persisted.contains(p),
    ensures
        !running.contains(p.goal_id@) ==> suspended(persisted, running).contains(
            suspended_view(p),
        ),
        suspended(persisted, running).contains(suspended_view(p)) ==> !running.contains(
            p.goal_id@,
        ),
{
    let keep = |p: PersistedGoal| !running.contains(p.goal_id@);
    let f = |p: PersistedGoal| suspended_view(p);
    let kept = persisted.filter(keep);
    crate::text::lemma_filter_has(persisted, keep, p);
    if !running.contains(p.goal_id@) {
        let i = choose|i: int| 0 <= i < kept.len() && kept[i] == p;
        assert(kept.map_values(f)[i] == suspended_view(p));
    }
    if suspended(persisted, running).contains(suspended_view(p)) {
        let i = choose|i: int|
            0 <= i < kept.map_values(f).len() && kept.map_values(f)[i] == suspended_view(p);
        assert(kept.map_values(f)[i] == suspended_view(kept[i]));
        persisted.lemma_filter_pred(keep, i);
    }
}

} // verus!
