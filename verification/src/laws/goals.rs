//! Laws of the running of goals.
use vstd::prelude::*;

use crate::gateway::goal_spawn::{
    goal_outcome, goal_task_names, list_suspended, runner_ended, spawn_goal_relay,
    spawn_goal_runner_with_store, GoalEvent, PersistedGoal, RelayAction, RelayInput, RelayStage,
    RunnerStart, SuspendedGoal, TurnUsage,
};
use crate::laws::text::law_a_text_occurs_where_it_stands;
use crate::strmap::StrMap;
use crate::text::{decimal, lemma_filter_has, occurs};

verus! {

/// The suspended goals are those that are stored and have no runner, each with
/// its own round and the reason why it is blocked.
pub proof fn law_suspended_goals_are_listed_as_stored(
    persisted: &[PersistedGoal],
    running: &StrMap<bool>,
    r: Vec<SuspendedGoal>,
    p: PersistedGoal,
    i: int,
)
    requires
        call_ensures(list_suspended, (persisted, running), r),
    ensures
        persisted@.contains(p) && !running@.dom().contains(p.goal_id@) ==> exists|k: int|
            0 <= k < r@.len() && (#[trigger] r@[k]).goal_id == p.goal_id && r@[k].round == p.round
                && r@[k].max_rounds == p.max_rounds && r@[k].blocked_reason == p.blocked_reason,
        0 <= i < r@.len() ==> !running@.dom().contains(r@[i].goal_id@) && exists|k: int|
            0 <= k < persisted@.len() && (#[trigger] persisted@[k]).goal_id == r@[i].goal_id
                && persisted@[k].round == r@[i].round && persisted@[k].max_rounds
                == r@[i].max_rounds && persisted@[k].blocked_reason == r@[i].blocked_reason,
{
    let open = |p: PersistedGoal| !running@.dom().contains(p.goal_id@);
    let left = persisted@.filter(open);
    if persisted@.contains(p) && open(p) {
        lemma_filter_has(persisted@, open, p);
        let k = choose|k: int| 0 <= k < left.len() && left[k] == p;
        assert(r@[k].goal_id == p.goal_id);
    }
    if 0 <= i < r@.len() {
        let q = left[i];
        assert(left.contains(q));
        lemma_filter_has(persisted@, open, q);
        let k = choose|k: int| 0 <= k < persisted@.len() && persisted@[k] == q;
        assert(persisted@[k].goal_id == r@[i].goal_id);
    }
}

/// A goal that is resumed goes on where it stood: with its plan, in its round and
/// for the session that set it. It counts as running until its runner ends, and
/// no other goal is touched by either.
pub proof fn law_a_goal_goes_on_where_it_stood(
    running: &mut StrMap<bool>,
    later: &mut StrMap<bool>,
    persisted: PersistedGoal,
    with_store: bool,
    goal_id: &str,
    other: Seq<char>,
    r: RunnerStart,
)
    requires
        call_ensures(spawn_goal_runner_with_store, (running, persisted, with_store), r),
        call_ensures(runner_ended, (later, goal_id), ()),
    ensures
        r.goal_id == persisted.goal_id,
        r.parent_session_id == persisted.parent_session_id,
        r.plan == persisted.plan,
        r.round == persisted.round,
        r.condition_history == persisted.condition_history,
        r.handoff == persisted.last_handoff,
        r.round_messages == persisted.round_messages,
        r.token_usage == persisted.token_usage,
        r.with_store == with_store,
        final(running)@.dom().contains(persisted.goal_id@),
        !final(later)@.dom().contains(goal_id@),
        other != persisted.goal_id@ ==> (final(running)@.dom().contains(other) <==> old(
            running,
        )@.dom().contains(other)),
        other != goal_id@ ==> (final(later)@.dom().contains(other) <==> old(
            later,
        )@.dom().contains(other)),
{
}

/// An outcome is told with the goal, the rounds and what came of it; progress is
/// no outcome.
pub proof fn law_an_outcome_names_its_goal(goal_id: &str, event: &GoalEvent, r: Option<String>)
    requires
        call_ensures(goal_outcome, (goal_id, event), r),
    ensures
        r is None <==> *event is Progress,
        r is Some ==> occurs(r->0@, goal_id@),
        *event matches GoalEvent::Done { total_rounds, summary, .. } ==> occurs(r->0@, summary@)
            && occurs(r->0@, decimal(total_rounds as nat)),
        *event matches GoalEvent::Aborted { reason, round, .. } ==> occurs(r->0@, reason@)
            && occurs(r->0@, decimal(round as nat)),
{
    let none = Seq::<char>::empty();
    let goal = goal_id@;
    match *event {
        GoalEvent::Done { total_rounds, summary, token_usage, .. } => {
            let tokens = crate::gateway::goal_spawn::tokens_text(token_usage);
            let n = decimal(total_rounds as nat);
            let a = "` completed in "@ + n + " round(s)."@ + tokens + " "@ + summary@;
            law_a_text_occurs_where_it_stands("🏁 Goal `"@, goal, a, none);
            assert("🏁 Goal `"@ + goal + a =~= r->0@);
            let b = "🏁 Goal `"@ + goal + "` completed in "@;
            let c = " round(s)."@ + tokens + " "@ + summary@;
            law_a_text_occurs_where_it_stands(b, n, c, none);
            assert(b + n + c =~= r->0@);
            let d = b + n + " round(s)."@ + tokens + " "@;
            law_a_text_occurs_where_it_stands(d, summary@, none, none);
            assert(d + summary@ + none =~= r->0@);
        },
        GoalEvent::Aborted { reason, round, token_usage, .. } => {
            let tokens = crate::gateway::goal_spawn::tokens_text(token_usage);
            let n = decimal(round as nat);
            let z = "."@ + tokens
                + " Check `/goal list`; if suspended, resume with `/goal resume "@ + goal + "`."@;
            let a = "` aborted at round "@ + n + ":"@ + reason@ + z;
            law_a_text_occurs_where_it_stands("⛔ Goal `"@, goal, a, none);
            assert("⛔ Goal `"@ + goal + a =~= r->0@);
            let b = "⛔ Goal `"@ + goal + "` aborted at round "@;
            let c = ":"@ + reason@ + z;
            law_a_text_occurs_where_it_stands(b, n, c, none);
            assert(b + n + c =~= r->0@);
            law_a_text_occurs_where_it_stands(b + n + ":"@, reason@, z, none);
            assert(b + n + ":"@ + reason@ + z =~= r->0@);
        },
        GoalEvent::Progress(_) => {},
    }
}

/// A goal and its relay have tasks of their own, named after the goal.
pub proof fn law_the_tasks_of_a_goal_bear_its_name(goal_id: &str, r: (String, String))
    requires
        call_ensures(goal_task_names, (goal_id,), r),
    ensures
        r.0@ == "goal:"@ + goal_id@,
        r.1@ == "goal-relay:"@ + goal_id@,
{
}

/// Every event is told, of its goal and in its session, whether or not its
/// outcome could be stored; what is stored is the outcome, in that session. The
/// relay waits on after each, and ends when nobody listens or nothing comes.
pub proof fn law_every_event_of_a_goal_is_told(
    goal_id: &str,
    session: &str,
    event: GoalEvent,
    ok: bool,
    told: bool,
    outcome: Option<String>,
    a: (RelayStage, RelayAction),
    b: (RelayStage, RelayAction),
    c: (RelayStage, RelayAction),
    z: (RelayStage, RelayAction),
)
    requires
        call_ensures(goal_outcome, (goal_id, &event), outcome),
        call_ensures(
            spawn_goal_relay,
            (goal_id, session, RelayStage::Waiting, RelayInput::Received(event)),
            a,
        ),
        call_ensures(
            spawn_goal_relay,
            (goal_id, session, RelayStage::Storing(event), RelayInput::Stored { ok }),
            b,
        ),
        call_ensures(
            spawn_goal_relay,
            (goal_id, session, RelayStage::Telling, RelayInput::Told { ok: told }),
            c,
        ),
        call_ensures(
            spawn_goal_relay,
            (goal_id, session, RelayStage::Waiting, RelayInput::Closed),
            z,
        ),
    ensures
        outcome matches Some(text) ==> a.0 == RelayStage::Storing(event) && (
        a.1 matches RelayAction::Store { session_id, content } && session_id@ == session@
            && content@ == text@),
        outcome is None ==> a.0 is Telling && (a.1 matches RelayAction::Tell {
            goal_id: g,
            session_id,
            event: e,
        } && g@ == goal_id@ && session_id@ == session@ && e == event),
        b.0 is Telling,
        b.1 matches RelayAction::Tell { goal_id: g, session_id, event: e } && g@ == goal_id@
            && session_id@ == session@ && e == event,
        told ==> c.0 is Waiting && c.1 is Receive,
        !told ==> c.0 is Ended && c.1 is Stop,
        z.0 is Ended && z.1 is Stop,
{
}

/// An outcome tells the tokens that the goal took, where they are known.
pub proof fn law_an_outcome_tells_its_tokens(
    goal_id: &str,
    total_rounds: usize,
    all_passed: bool,
    summary: String,
    used: Option<TurnUsage>,
    r: Option<String>,
)
    requires
        call_ensures(
            goal_outcome,
            (
                goal_id,
                &(GoalEvent::Done { total_rounds, all_passed, summary, token_usage: used }),
            ),
            r,
        ),
    ensures
        r is Some,
        used is Some ==> r->0@ == "🏁 Goal `"@ + goal_id@ + "` completed in "@ + decimal(
            total_rounds as nat,
        ) + " round(s)."@ + (" Tokens: "@ + decimal(used->0.total_tokens as nat) + "."@) + " "@
            + summary@,
        used is None ==> r->0@ == "🏁 Goal `"@ + goal_id@ + "` completed in "@ + decimal(
            total_rounds as nat,
        ) + " round(s)."@ + Seq::<char>::empty() + " "@ + summary@,
{
}

} // verus!
