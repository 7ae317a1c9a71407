//! Laws of what the gateway tells its subscribers.
use vstd::prelude::*;

use crate::gateway::events::{
    relay_progress, relay_progress_acp, show_result, AgentStatus, GatewayEvent, ProgressEvent,
};
use crate::laws::text::law_a_cut_text_is_the_longest_beginning_that_fits;
use crate::text::{bytes_of, cut_within, opt_text};

verus! {

/// The agent that an event is about; none for the name of a session.
pub open spec fn agent_told(e: GatewayEvent) -> Option<Seq<char>> {
    match e {
        GatewayEvent::AgentStatus { agent_id, .. } => Some(agent_id@),
        GatewayEvent::Thinking { agent_id, .. } => Some(agent_id@),
        GatewayEvent::ContentDelta { agent_id, .. } => Some(agent_id@),
        GatewayEvent::ToolCalling { agent_id, .. } => Some(agent_id@),
        GatewayEvent::ToolResult { agent_id, .. } => Some(agent_id@),
        GatewayEvent::Completed { agent_id, .. } => Some(agent_id@),
        GatewayEvent::ProcessingError { agent_id, .. } => Some(agent_id@),
        GatewayEvent::AgentResponse { agent_id, .. } => Some(agent_id@),
        GatewayEvent::SessionRenamed { .. } => None,
    }
}

/// The session that an event is about; none where an agent is idle or gone.
pub open spec fn session_told(e: GatewayEvent) -> Option<Seq<char>> {
    match e {
        GatewayEvent::AgentStatus { status: AgentStatus::Processing { session_id }, .. } => Some(
            session_id@,
        ),
        GatewayEvent::AgentStatus { .. } => None,
        GatewayEvent::Thinking { session_id, .. } => Some(session_id@),
        GatewayEvent::ContentDelta { session_id, .. } => Some(session_id@),
        GatewayEvent::ToolCalling { session_id, .. } => Some(session_id@),
        GatewayEvent::ToolResult { session_id, .. } => Some(session_id@),
        GatewayEvent::Completed { session_id, .. } => Some(session_id@),
        GatewayEvent::ProcessingError { session_id, .. } => Some(session_id@),
        GatewayEvent::AgentResponse { session_id, .. } => Some(session_id@),
        GatewayEvent::SessionRenamed { session_id, .. } => Some(session_id@),
    }
}

/// Whatever is told of a turn is told of the session and the agent whose turn it
/// is.
pub proof fn law_progress_is_told_of_its_session(
    report: ProgressEvent,
    reasoning_vis: &Option<String>,
    verbose_mode: &Option<String>,
    session_id: &str,
    agent_id: &str,
    r: Option<GatewayEvent>,
)
    requires
        call_ensures(
            relay_progress,
            (report, reasoning_vis, verbose_mode, session_id, agent_id),
            r,
        ) || call_ensures(relay_progress_acp, (report, session_id, agent_id), r),
    ensures
        r is Some ==> agent_told(r->0) == Some(agent_id@) && session_told(r->0) == Some(
            session_id@,
        ),
{
}

/// What an agent says comes through unchanged and whatever the settings: the
/// pieces of its answer, the answer itself with its turn and its tokens, and its
/// failure.
pub proof fn law_answers_are_always_told(
    report: ProgressEvent,
    reasoning_vis: &Option<String>,
    verbose_mode: &Option<String>,
    session_id: &str,
    agent_id: &str,
    r: Option<GatewayEvent>,
)
    requires
        call_ensures(
            relay_progress,
            (report, reasoning_vis, verbose_mode, session_id, agent_id),
            r,
        ),
    ensures
        report is Started ==> (r matches Some(
            GatewayEvent::AgentStatus { status: AgentStatus::Processing { .. }, .. },
        )),
        report matches ProgressEvent::ContentDelta { text } ==> (r matches Some(
            GatewayEvent::ContentDelta { delta, .. },
        ) && delta@ == text@),
        report matches ProgressEvent::Completed { response, turn_id, usage } ==> (r matches Some(
            GatewayEvent::Completed { response: said, turn_id: turn, usage: used, .. },
        ) && said@ == response@ && turn == turn_id && used == usage),
        report matches ProgressEvent::Error { message } ==> (r matches Some(
            GatewayEvent::ProcessingError { message: said, code, .. },
        ) && said@ == message@ && code is None),
        report is ToolResultDelta ==> r is None,
{
}

/// The work on an answer is told unless it is switched off: what the agent thinks
/// by the one setting, its tools by the other. A tool is told under its own name
/// with its own arguments and data, and outside compact mode with its whole
/// result.
pub proof fn law_work_is_told_unless_switched_off(
    report: ProgressEvent,
    reasoning_vis: &Option<String>,
    verbose_mode: &Option<String>,
    session_id: &str,
    agent_id: &str,
    r: Option<GatewayEvent>,
)
    requires
        call_ensures(
            relay_progress,
            (report, reasoning_vis, verbose_mode, session_id, agent_id),
            r,
        ),
    ensures
        report matches ProgressEvent::Generating { content } ==> {
            &&& r is Some <==> opt_text(*reasoning_vis) != Some("off"@) && content is Some
                && content->0@.len() > 0
            &&& r is Some ==> (r->0 matches GatewayEvent::Thinking { content: said, .. } && said
                == content)
        },
        report matches ProgressEvent::ToolCalling { name, arguments } ==> {
            &&& r is Some <==> opt_text(*verbose_mode) != Some("off"@)
            &&& r is Some ==> (r->0 matches GatewayEvent::ToolCalling {
                tool_name,
                arguments: given,
                ..
            } && tool_name@ == name@ && given == arguments)
        },
        report matches ProgressEvent::ToolResult { name, result, data } ==> {
            &&& r is Some <==> opt_text(*verbose_mode) != Some("off"@)
            &&& r is Some ==> (r->0 matches GatewayEvent::ToolResult {
                tool_name,
                result: shown,
                data: given,
                ..
            } && tool_name@ == name@ && given == data && (opt_text(*verbose_mode) != Some(
                "compact"@,
            ) || bytes_of(result@).len() <= 500 ==> shown@ == result@))
        },
{
}

/// A delegated turn tells of its tools, its answer and its failure, and of
/// nothing else; nothing of these is cut or held back.
pub proof fn law_delegated_turns_tell_less(
    report: ProgressEvent,
    session_id: &str,
    agent_id: &str,
    r: Option<GatewayEvent>,
)
    requires
        call_ensures(relay_progress_acp, (report, session_id, agent_id), r),
    ensures
        r is Some <==> report is ToolCalling || report is ToolResult || report is Completed
            || report is Error,
        report matches ProgressEvent::ToolResult { name, result, .. } ==> (r matches Some(
            GatewayEvent::ToolResult { tool_name, result: shown, .. },
        ) && tool_name@ == name@ && shown@ == result@),
        report matches ProgressEvent::Completed { response, .. } ==> (r matches Some(
            GatewayEvent::Completed { response: said, .. },
        ) && said@ == response@),
        report matches ProgressEvent::Error { message } ==> (r matches Some(
            GatewayEvent::ProcessingError { message: said, .. },
        ) && said@ == message@),
{
    reveal_strlit("off");
    reveal_strlit("compact");
}

/// A result is cut only in compact mode and only beyond 500 bytes; a cut result
/// shows a beginning of it, of at most 500 bytes, and says that it was cut.
pub proof fn law_only_long_results_are_cut(
    result: String,
    verbose_mode: &Option<String>,
    r: String,
    kept: Seq<char>,
)
    requires
        call_ensures(show_result, (result, verbose_mode), r),
        r@ == kept + "... (truncated)"@,
        r@ != result@,
    ensures
        opt_text(*verbose_mode) == Some("compact"@),
        bytes_of(result@).len() > 500,
        kept.is_prefix_of(result@),
        bytes_of(kept).len() <= 500,
{
    let cut = cut_within(result@, 500);
    law_a_cut_text_is_the_longest_beginning_that_fits(result@, 500, Seq::empty());
    assert(kept =~= (kept + "... (truncated)"@).take(kept.len() as int));
    assert(cut =~= (cut + "... (truncated)"@).take(cut.len() as int));
    assert(kept.len() == cut.len());
}

} // verus!
