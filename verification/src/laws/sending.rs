//! Laws of the sending of a message to its agent.
use vstd::prelude::*;

use crate::error::SyscityError;
use crate::gateway::dispatch::{
    extract_error_code, is_run_id, is_send_step, resolve_session_model, send_step, send_to_agent,
    thinking_params, AgentDispatch, NameState, Outgoing, SendAction, SendEvent, SendStage,
    UsageTotals,
};
use crate::gateway::events::{GatewayEvent, TokenUsage};
use crate::json::{field, member_models, unsigned_of, Json, JsonModel};
use crate::laws::events::{agent_told, session_told};
use crate::strmap::StrMap;
use crate::text::{occurs, opt_text};

verus! {

/// Whatever is told while a message is sent is told of its session and its
/// agent.
pub proof fn law_sending_is_told_of_its_session(
    d: &AgentDispatch,
    stage: SendStage,
    event: SendEvent,
    run_id: String,
    r: (SendStage, Vec<SendAction>),
    i: int,
)
    requires
        call_ensures(send_step, (d, stage, event, run_id), r),
        0 <= i < r.1@.len(),
    ensures
        r.1@[i] matches SendAction::Emit(e) ==> {
            &&& agent_told(e) is Some ==> agent_told(e) == Some(d.agent_id@)
            &&& session_told(e) is Some ==> session_told(e) == Some(d.session_id@)
            &&& e matches GatewayEvent::AgentResponse { channel, conversation_id, .. } ==> channel@
                == d.channel@ && conversation_id@ == d.session_id@
        },
{
    let actions = r.1@;
    match (stage, event) {
        (SendStage::Renaming { .. }, SendEvent::NameSaved { ok }) => {
            if ok && i > 0 {
                assert(actions[i] == actions.skip(1)[i - 1]);
            }
        },
        _ => {},
    }
}

/// The agent gets the message that was dispatched, in its session, from its
/// author and its channel, once and only when the model is settled; its settings
/// go before it.
pub proof fn law_the_agent_gets_what_was_dispatched(
    d: &AgentDispatch,
    stage: SendStage,
    event: SendEvent,
    run_id: String,
    r: (SendStage, Vec<SendAction>),
)
    requires
        call_ensures(send_step, (d, stage, event, run_id), r),
    ensures
        forall|i: int|
            0 <= i < r.1@.len() ==> (#[trigger] r.1@[i] matches SendAction::Execute(m) ==> {
                &&& m.content@ == d.message@
                &&& m.session_id@ == d.session_id@
                &&& m.user_id@ == d.user_id@
                &&& opt_text(m.channel) == Some(d.channel@)
                &&& i == r.1@.len() - 1
                &&& stage is Preparing
                &&& event is ModelResolved
            }),
        stage is Preparing && event is ModelResolved ==> r.0 is Running && r.1@.last() is Execute,
        stage is Preparing ==> (event matches SendEvent::ModelResolved { model } ==> r.1@[1]
            == SendAction::SetSessionModel(model)),
        forall|i: int|
            0 <= i < r.1@.len() ==> (#[trigger] r.1@[i] is CancelSession ==> opt_text(d.queue_mode)
                == Some("interrupt"@)),
        stage is Preparing && event is ModelResolved && opt_text(d.queue_mode) == Some(
            "interrupt"@,
        ) ==> exists|i: int| 0 <= i < r.1@.len() && #[trigger] r.1@[i] is CancelSession,
{
    let actions = r.1@;
    if stage is Preparing && event is ModelResolved && opt_text(d.queue_mode) == Some(
        "interrupt"@,
    ) {
        assert(actions[2] is CancelSession);
    }
    assert forall|i: int| 0 <= i < actions.len() && !(stage is Preparing) implies !(
    #[trigger] actions[i] is Execute) && !(actions[i] is CancelSession) by {
        match (stage, event) {
            (SendStage::Renaming { .. }, SendEvent::NameSaved { ok }) => {
                if ok && i > 0 {
                    assert(actions[i] == actions.skip(1)[i - 1]);
                }
            },
            _ => {},
        }
    }
}

/// A turn that ends well is answered with what the agent said: it is saved, its
/// tokens are counted where they are known, and in a session that has its name
/// the subscribers get the same text and the same tokens. What the agent thought
/// is saved just where it is shown.
pub proof fn law_the_answer_is_saved_and_told(
    d: &AgentDispatch,
    outgoing: Outgoing,
    reasoning_hidden: bool,
    state: NameState,
    run_id: String,
    r: (SendStage, Vec<SendAction>),
    q: (SendStage, Vec<SendAction>),
)
    requires
        call_ensures(
            send_step,
            (
                d,
                SendStage::Running,
                SendEvent::TurnCompleted { outgoing, reasoning_hidden },
                run_id,
            ),
            r,
        ),
        call_ensures(send_step, (d, r.0, SendEvent::NameRead { state }, run_id), q),
        state != NameState::Unnamed,
    ensures
        exists|i: int|
            0 <= i < r.1@.len() && (#[trigger] r.1@[i] matches SendAction::SaveResponse {
                content,
                reasoning_content,
                tool_calls_json,
                run_id: id,
            } && content@ == outgoing.content@ && reasoning_content == (if reasoning_hidden {
                None
            } else {
                outgoing.reasoning_content
            }) && tool_calls_json == outgoing.tool_calls_json && id == run_id),
        outgoing.usage matches Some(u) ==> r.1@[0] == (SendAction::CountUsage {
            usage: u,
            tool_calls: outgoing.tool_calls,
        }),
        outgoing.usage is None ==> forall|i: int|
            0 <= i < r.1@.len() ==> !(#[trigger] r.1@[i] is CountUsage),
        q.0 is Done,
        q.1@[0] matches SendAction::Emit(GatewayEvent::AgentResponse { content, usage, .. })
            && content@ == outgoing.content@ && usage == outgoing.usage,
{
    let counted: int = if outgoing.usage is Some {
        1
    } else {
        0
    };
    assert(r.1@[counted] is SaveResponse);
}

/// In a session without a name the answer is told just the same, after the name
/// that was saved, and the name only where it was saved.
pub proof fn law_a_named_session_still_gets_its_answer(
    d: &AgentDispatch,
    said: String,
    used: Option<TokenUsage>,
    ok: bool,
    run_id: String,
    q: (SendStage, Vec<SendAction>),
    s: (SendStage, Vec<SendAction>),
)
    requires
        call_ensures(
            send_step,
            (
                d,
                SendStage::Naming { content: said, usage: used },
                SendEvent::NameRead { state: NameState::Unnamed },
                run_id,
            ),
            q,
        ),
        call_ensures(send_step, (d, q.0, SendEvent::NameSaved { ok }, run_id), s),
    ensures
        q.1@.len() == 1,
        q.1@[0] is SaveSessionName,
        ok ==> s.1@.len() == 4 && (s.1@[0] matches SendAction::Emit(
            GatewayEvent::SessionRenamed { session_id, name },
        ) && session_id@ == d.session_id@ && name@ == q.1@[0]->SaveSessionName_0@),
        !ok ==> s.1@.len() == 3,
        s.1@[s.1@.len() - 3] matches SendAction::Emit(
            GatewayEvent::AgentResponse { content, usage, .. },
        ) && content@ == said@ && usage == used,
        s.0 is Done,
{
    if ok {
        assert(s.1@[1] == s.1@.skip(1)[0]);
    }
}

/// A refusal and a failure are told in their own words, and a failure with its
/// code.
pub proof fn law_failures_are_told_in_their_words(
    d: &AgentDispatch,
    reason: String,
    error: String,
    code: Option<String>,
    run_id: String,
    r: (SendStage, Vec<SendAction>),
    q: (SendStage, Vec<SendAction>),
)
    requires
        call_ensures(
            send_step,
            (
                d,
                SendStage::Start,
                SendEvent::PromptChecked { refusal: Some(reason) },
                run_id,
            ),
            r,
        ),
        call_ensures(
            send_step,
            (d, SendStage::Running, SendEvent::TurnFailed { error, code }, run_id),
            q,
        ),
    ensures
        r.0 is Done,
        r.1@.len() == 1,
        r.1@[0] matches SendAction::Emit(GatewayEvent::ProcessingError { message, code: c, .. })
            && message@ == reason@ && c is None,
        q.0 is Done,
        q.1@[0] matches SendAction::Emit(GatewayEvent::ProcessingError { message, code: c, .. })
            && message@ == "Execution failed: "@ + error@ && opt_text(c) == opt_text(code),
{
}

/// A message whose prompt stands reaches a running agent at once; one whose
/// agent is registered waits while it is spawned, for at most ten questions; any
/// other goes nowhere.
pub proof fn law_an_agent_is_found_or_spawned(
    d: &AgentDispatch,
    running: bool,
    registered: bool,
    ok: bool,
    present: bool,
    n: u32,
    run_id: String,
    a: (SendStage, Vec<SendAction>),
    b: (SendStage, Vec<SendAction>),
    c: (SendStage, Vec<SendAction>),
    e: (SendStage, Vec<SendAction>),
)
    requires
        call_ensures(
            send_step,
            (d, SendStage::Start, SendEvent::PromptChecked { refusal: None }, run_id),
            a,
        ),
        call_ensures(send_step, (d, a.0, SendEvent::AgentLookedUp { running, registered }, run_id), b),
        call_ensures(
            send_step,
            (d, SendStage::Spawning, SendEvent::SpawnFinished { ok }, run_id),
            c,
        ),
        call_ensures(
            send_step,
            (d, SendStage::Polling(n), SendEvent::HandlePolled { present }, run_id),
            e,
        ),
    ensures
        a.1@ == seq![SendAction::LookUpAgent],
        running ==> b.0 is Preparing && b.1@ == seq![SendAction::ResolveModel],
        !running && registered ==> b.0 is Spawning && b.1@ == seq![SendAction::SpawnAgent],
        !running && !registered ==> b.0 is Done && b.1@.len() == 0,
        c.0 is Polling <==> ok,
        c.0 is Polling ==> c.0->Polling_0 == 0,
        !ok ==> c.0 is Done,
        present ==> e.0 is Preparing && e.1@ == seq![SendAction::ResolveModel],
        !present && n >= 9 ==> e.0 is Done && e.1@.len() == 0,
        !present && n < 9 ==> e.0 == SendStage::Polling((n + 1) as u32) && e.1@.len() == 1,
{
    assert(a.1@ =~= seq![SendAction::LookUpAgent]);
    if running {
        assert(b.1@ =~= seq![SendAction::ResolveModel]);
    } else if registered {
        assert(b.1@ =~= seq![SendAction::SpawnAgent]);
    }
    if present {
        assert(e.1@ =~= seq![SendAction::ResolveModel]);
    }
}

/// The model pinned to a session is the one that it uses, unless the pin is
/// empty; only then does the model that its own agent is bound to count, and
/// none is used where there is neither.
pub proof fn law_the_pinned_model_wins(
    pin: &Option<String>,
    agent_models: &StrMap<String>,
    agent_id: &str,
    r: Option<String>,
)
    requires
        call_ensures(resolve_session_model, (pin, agent_models, agent_id), r),
    ensures
        *pin is Some && pin->0@.len() > 0 ==> r is Some && r->0@ == pin->0@,
        (*pin is None || pin->0@.len() == 0) && agent_models@.dom().contains(agent_id@) ==> r
            is Some && r->0@ == agent_models@[agent_id@]@,
        (*pin is None || pin->0@.len() == 0) && !agent_models@.dom().contains(agent_id@) ==> r
            is None,
{
}

/// A higher level of thinking gets a higher budget: "minimal" 1024 tokens, "low"
/// 4096, "medium" 16000 and "high" 32000; no other level gets one.
pub proof fn law_thinking_gets_the_budget_of_its_level(level: &Option<String>, r: Option<Json>)
    requires
        call_ensures(thinking_params, (level,), r),
    ensures
        r is Some <==> opt_text(*level) == Some("minimal"@) || opt_text(*level) == Some("low"@)
            || opt_text(*level) == Some("medium"@) || opt_text(*level) == Some("high"@),
        r is Some ==> field(r->0@, "thinking"@) is Some && (field(
            field(r->0@, "thinking"@)->0,
            "budget_tokens"@,
        ) is Some) && unsigned_of(
            field(field(r->0@, "thinking"@)->0, "budget_tokens"@)->0,
        ) == Some(
            if opt_text(*level) == Some("minimal"@) {
                1024u64
            } else if opt_text(*level) == Some("low"@) {
                4096u64
            } else if opt_text(*level) == Some("medium"@) {
                16000u64
            } else {
                32000u64
            },
        ),
{
    reveal_strlit("minimal");
    reveal_strlit("low");
    reveal_strlit("medium");
    reveal_strlit("high");
    reveal_strlit("type");
    reveal_strlit("budget_tokens");
    reveal_strlit("thinking");
    assert("minimal"@.len() == 7 && "low"@.len() == 3 && "medium"@.len() == 6 && "high"@.len()
        == 4 && "type"@.len() == 4 && "budget_tokens"@.len() == 13);
    reveal_with_fuel(crate::json::member, 3);
}

/// A turn adds its tokens, both kinds, and counts itself and each of its tool
/// calls.
pub proof fn law_every_turn_is_counted(
    before: UsageTotals,
    usage: TokenUsage,
    tool_calls: Option<usize>,
    r: UsageTotals,
)
    requires
        call_ensures(UsageTotals::count, (before, usage, tool_calls), r),
    ensures
        r.tokens - before.tokens == usage.prompt_tokens + usage.completion_tokens,
        tool_calls is None ==> r.calls == before.calls + 1,
        tool_calls is Some ==> r.calls == before.calls + 1 + tool_calls->0,
{
}

/// A failure has a code only where a cloud service reports that the credits ran
/// out.
pub proof fn law_only_missing_credits_have_a_code(e: &SyscityError, cloud: bool, r: Option<String>)
    requires
        call_ensures(extract_error_code, (e, cloud), r),
    ensures
        r is Some ==> r->0@ == "insufficient_credits"@ && cloud,
        r is Some <==> cloud && (*e matches SyscityError::ExternalService(source) && occurs(
            source@,
            "insufficient_credits"@,
        )),
{
}

/// The step that is taken for an agent is one of the sending, under a run of its
/// own: the agent gets what was dispatched, and what is told is told of its
/// session.
pub proof fn law_a_sent_message_is_the_dispatched_one(
    d: &AgentDispatch,
    stage: SendStage,
    event: SendEvent,
    r: (SendStage, Vec<SendAction>),
    i: int,
)
    requires
        call_ensures(send_to_agent, (d, stage, event), r),
        0 <= i < r.1@.len(),
    ensures
        r.1@[i] matches SendAction::Execute(m) ==> m.content@ == d.message@ && m.session_id@
            == d.session_id@ && m.user_id@ == d.user_id@ && opt_text(m.channel) == Some(
            d.channel@,
        ),
        r.1@[i] matches SendAction::Emit(e) ==> (agent_told(e) is Some ==> agent_told(e) == Some(
            d.agent_id@,
        )) && (session_told(e) is Some ==> session_told(e) == Some(d.session_id@)),
{
    let run_id = choose|run_id: String| #[trigger]
        is_send_step(*d, stage, event, run_id, r.0, r.1@) && is_run_id(run_id@);
    let actions = r.1@;
    match (stage, event) {
        (SendStage::Renaming { .. }, SendEvent::NameSaved { ok }) => {
            if ok && i > 0 {
                assert(actions[i] == actions.skip(1)[i - 1]);
            }
        },
        _ => {},
    }
}

/// What travels with a message is what was observed of it and what it mentions:
/// whether it was debounced or enriched, and the route that it took.
pub proof fn law_observations_travel_with_the_message(
    d: &AgentDispatch,
    model: Option<String>,
    run_id: String,
    r: (SendStage, Vec<SendAction>),
)
    requires
        call_ensures(
            send_step,
            (d, SendStage::Preparing, SendEvent::ModelResolved { model }, run_id),
            r,
        ),
    ensures
        r.1@.last() matches SendAction::Execute(m) && {
            let extra = JsonModel::Object(member_models(m.extra@));
            &&& d.channel_obs is None && d.mentions is None ==> m.extra@.len() == 0
            &&& d.channel_obs matches Some(o) ==> {
                let seen = field(extra, "channel_observation"@);
                &&& seen is Some
                &&& field(seen->0, "debounced"@) == Some(JsonModel::Bool(o.debounced))
                &&& field(seen->0, "enriched"@) == Some(JsonModel::Bool(o.enriched))
                &&& o.route matches Some(name) ==> field(seen->0, "route"@) == Some(
                    JsonModel::Text(name@),
                )
            }
            &&& d.mentions matches Some(j) ==> field(extra, "mentions"@) == Some(j@)
        },
{
    reveal_strlit("channel_observation");
    reveal_strlit("mentions");
    reveal_strlit("debounced");
    reveal_strlit("enriched");
    reveal_strlit("route");
    assert("channel_observation"@.len() == 19 && "mentions"@.len() == 8 && "debounced"@.len() == 9
        && "enriched"@.len() == 8 && "route"@.len() == 5 && "mentions"@[0] == 'm' && "enriched"@[0]
        == 'e');
    reveal_with_fuel(crate::json::member, 4);
    let m = r.1@.last()->Execute_0;
    let a = crate::gateway::dispatch::observation_extra(*d);
    let b = crate::gateway::dispatch::mentions_extra(*d);
    assert(member_models(m.extra@) == a + b);
    assert(member_models(m.extra@).len() == m.extra@.len());
    if d.channel_obs is Some {
        assert((a + b)[0] == a[0]);
        if d.mentions is Some {
            assert((a + b).skip(1)[0] == b[0]);
        }
    } else if d.mentions is Some {
        assert((a + b)[0] == b[0]);
    }
}

/// Totals that are stored are read back, and no other setting is touched.
pub proof fn law_stored_totals_are_read_back(
    t: UsageTotals,
    settings: &mut StrMap<Json>,
    later: &StrMap<Json>,
    r: UsageTotals,
    key: Seq<char>,
)
    requires
        call_ensures(UsageTotals::store, (t, settings), ()),
        call_ensures(UsageTotals::read, (later,), r),
    ensures
        later@ == final(settings)@ ==> r.tokens == t.tokens && r.calls == t.calls,
        key != "usage.tokens"@ && key != "usage.calls"@ ==> (final(settings)@.dom().contains(key)
            <==> old(settings)@.dom().contains(key)),
        key != "usage.tokens"@ && key != "usage.calls"@ && old(settings)@.dom().contains(key)
            ==> final(settings)@[key] == old(settings)@[key],
{
    let a = crate::gateway::dispatch::other_settings(old(settings)@);
    let b = crate::gateway::dispatch::other_settings(final(settings)@);
    assert(a == b);
    if key != "usage.tokens"@ && key != "usage.calls"@ {
        assert(a.dom().contains(key) <==> old(settings)@.dom().contains(key));
        assert(b.dom().contains(key) <==> final(settings)@.dom().contains(key));
        if old(settings)@.dom().contains(key) {
            assert(a[key] == old(settings)@[key]);
            assert(b[key] == final(settings)@[key]);
        }
    }
}

/// The totals are read from their own settings, and are zero where those say
/// nothing.
pub proof fn law_totals_are_read_from_their_settings(settings: &StrMap<Json>, r: UsageTotals)
    requires
        call_ensures(UsageTotals::read, (settings,), r),
    ensures
        settings@.dom().contains("usage.tokens"@) && unsigned_of(settings@["usage.tokens"@]@)
            is Some ==> r.tokens == unsigned_of(settings@["usage.tokens"@]@)->0,
        !settings@.dom().contains("usage.tokens"@) ==> r.tokens == 0,
        settings@.dom().contains("usage.calls"@) && unsigned_of(settings@["usage.calls"@]@) is Some
            ==> r.calls == unsigned_of(settings@["usage.calls"@]@)->0,
        !settings@.dom().contains("usage.calls"@) ==> r.calls == 0,
{
}

/// A setting that is no whole number counts as nothing.
pub proof fn law_what_is_no_number_counts_as_nothing(settings: &StrMap<Json>, r: UsageTotals)
    requires
        call_ensures(UsageTotals::read, (settings,), r),
    ensures
        settings@.dom().contains("usage.tokens"@) && unsigned_of(settings@["usage.tokens"@]@)
            is None ==> r.tokens == 0,
        settings@.dom().contains("usage.calls"@) && unsigned_of(settings@["usage.calls"@]@) is None
            ==> r.calls == 0,
{
}

} // verus!
