//! What agents report while they work, and what the gateway tells its
//! subscribers.
use vstd::prelude::*;
use vstd::string::*;

use crate::json::Json;
use crate::text::{byte_len, bytes_of, cut_to, cut_within, is_some_text, opt_text};

verus! {

/// The tokens that a turn consumed.
#[derive(Debug, Clone, Copy, PartialEq, Eq, Structural)]
pub struct TokenUsage {
    pub prompt_tokens: u32,
    pub completion_tokens: u32,
}

/// What an agent reports while it works on a message.
#[derive(Debug)]
pub enum ProgressEvent {
    Started,
    Generating { content: Option<String> },
    ContentDelta { text: String },
    ToolCalling { name: String, arguments: Json },
    ToolResult { name: String, result: String, data: Option<Json> },
    ToolResultDelta { chunk: String },
    Completed { response: String, turn_id: Option<String>, usage: Option<TokenUsage> },
    Error { message: String },
}

/// What an agent is doing.
#[derive(Debug)]
pub enum AgentStatus {
    Idle,
    Processing { session_id: String },
    Shutdown,
}

/// What the gateway tells its subscribers.
#[derive(Debug)]
pub enum GatewayEvent {
    AgentStatus { agent_id: String, status: AgentStatus },
    Thinking { session_id: String, agent_id: String, content: Option<String> },
    ContentDelta { session_id: String, agent_id: String, delta: String },
    ToolCalling { session_id: String, agent_id: String, tool_name: String, arguments: Json },
    ToolResult {
        session_id: String,
        agent_id: String,
        tool_name: String,
        result: String,
        data: Option<Json>,
    },
    Completed {
        session_id: String,
        agent_id: String,
        response: String,
        turn_id: Option<String>,
        usage: Option<TokenUsage>,
    },
    ProcessingError {
        session_id: String,
        agent_id: String,
        message: String,
        code: Option<String>,
    },
    AgentResponse {
        session_id: String,
        agent_id: String,
        content: String,
        channel: String,
        conversation_id: String,
        usage: Option<TokenUsage>,
    },
    SessionRenamed { session_id: String, name: String },
}

/// Whether `e` says that the agent works on the session.
pub open spec fn says_processing(e: GatewayEvent, agent: Seq<char>, session: Seq<char>) -> bool {
    e matches GatewayEvent::AgentStatus { agent_id, status: AgentStatus::Processing { session_id } }
        && agent_id@ == agent && session_id@ == session
}

/// Whether `e` says that the agent is idle.
pub open spec fn says_idle(e: GatewayEvent, agent: Seq<char>) -> bool {
    e matches GatewayEvent::AgentStatus { agent_id, status: AgentStatus::Idle } && agent_id@
        == agent
}

/// The event that says that the agent works on the session.
pub fn processing(agent_id: &str, session_id: &str) -> (r: GatewayEvent)
    ensures
        says_processing(r, agent_id@, session_id@),
{
    GatewayEvent::AgentStatus {
        agent_id: agent_id.to_string(),
        status: AgentStatus::Processing { session_id: session_id.to_string() },
    }
}

/// The event that says that the agent is idle.
pub fn idle(agent_id: &str) -> (r: GatewayEvent)
    ensures
        says_idle(r, agent_id@),
{
    GatewayEvent::AgentStatus { agent_id: agent_id.to_string(), status: AgentStatus::Idle }
}

/// Whether `e` reports a failure in the session.
pub open spec fn says_error(
    e: GatewayEvent,
    session: Seq<char>,
    agent: Seq<char>,
    text: Seq<char>,
    error_code: Option<Seq<char>>,
) -> bool {
    e matches GatewayEvent::ProcessingError { session_id, agent_id, message, code } && session_id@
        == session && agent_id@ == agent && message@ == text && opt_text(code) == error_code
}

// ---------------------------------------------------------------------------
// Relaying progress
// ---------------------------------------------------------------------------

/// A tool result as it is shown: in compact mode one of more than 500 bytes is
/// cut, at the last end of a character before, and marked.
pub open spec fn shown_result(result: Seq<char>, verbose: Option<Seq<char>>) -> Seq<char> {
    if verbose == Some("compact"@) && bytes_of(result).len() > 500 {
        cut_within(result, 500) + "... (truncated)"@
    } else {
        result
    }
}

/// A tool result as it is shown.
pub fn show_result(result: String, verbose_mode: &Option<String>) -> (r: String)
    ensures
        r@ == shown_result(result@, opt_text(*verbose_mode)),
{
    if is_some_text(verbose_mode, "compact") && byte_len(&result) > 500 {
        let mut cut = cut_to(&result, 500);
        cut.append("... (truncated)");
        cut
    } else {
        result
    }
}

/// The event that a report becomes in a session, if it becomes one: nothing is
/// told of reasoning when it is hidden or empty, nor of tools when verbosity is
/// off, nor of the chunks of a tool result.
pub open spec fn is_relayed(
    report: ProgressEvent,
    reasoning: Option<Seq<char>>,
    verbose: Option<Seq<char>>,
    session: Seq<char>,
    agent: Seq<char>,
    r: Option<GatewayEvent>,
) -> bool {
    match report {
        ProgressEvent::Started => r is Some && says_processing(r->0, agent, session),
        ProgressEvent::Generating { content } => if reasoning != Some("off"@) && content is Some
            && content->0@.len() > 0 {
            r matches Some(GatewayEvent::Thinking { session_id, agent_id, content: c })
                && session_id@ == session && agent_id@ == agent && c == content
        } else {
            r is None
        },
        ProgressEvent::ContentDelta { text } => r matches Some(
            GatewayEvent::ContentDelta { session_id, agent_id, delta },
        ) && session_id@ == session && agent_id@ == agent && delta == text,
        ProgressEvent::ToolCalling { name, arguments } => if verbose != Some("off"@) {
            r matches Some(
                GatewayEvent::ToolCalling { session_id, agent_id, tool_name, arguments: a },
            ) && session_id@ == session && agent_id@ == agent && tool_name == name && a
                == arguments
        } else {
            r is None
        },
        ProgressEvent::ToolResult { name, result, data } => if verbose != Some("off"@) {
            r matches Some(
                GatewayEvent::ToolResult { session_id, agent_id, tool_name, result: s, data: d },
            ) && session_id@ == session && agent_id@ == agent && tool_name == name && s@
                == shown_result(result@, verbose) && d == data
        } else {
            r is None
        },
        ProgressEvent::ToolResultDelta { .. } => r is None,
        ProgressEvent::Completed { response, turn_id, usage } => r matches Some(
            GatewayEvent::Completed { session_id, agent_id, response: s, turn_id: t, usage: u },
        ) && session_id@ == session && agent_id@ == agent && s == response && t == turn_id && u
            == usage,
        ProgressEvent::Error { message } => r is Some && says_error(
            r->0,
            session,
            agent,
            message@,
            None,
        ),
    }
}

/// The event that a report becomes in a session, if it becomes one.
pub fn relay_progress(
    report: ProgressEvent,
    reasoning_vis: &Option<String>,
    verbose_mode: &Option<String>,
    session_id: &str,
    agent_id: &str,
) -> (r: Option<GatewayEvent>)
    ensures
        is_relayed(
            report,
            opt_text(*reasoning_vis),
            opt_text(*verbose_mode),
            session_id@,
            agent_id@,
            r,
        ),
{
    match report {
        ProgressEvent::Started => Some(processing(agent_id, session_id)),
        ProgressEvent::Generating { content } => {
            if is_some_text(reasoning_vis, "off") {
                return None;
            }
            let empty = match &content {
                Some(thinking) => thinking.as_str().is_empty(),
                None => true,
            };
            if empty {
                None
            } else {
                Some(
                    GatewayEvent::Thinking {
                        session_id: session_id.to_string(),
                        agent_id: agent_id.to_string(),
                        content,
                    },
                )
            }
        },
        ProgressEvent::ContentDelta { text } => Some(
            GatewayEvent::ContentDelta {
                session_id: session_id.to_string(),
                agent_id: agent_id.to_string(),
                delta: text,
            },
        ),
        ProgressEvent::ToolCalling { name, arguments } => {
            if is_some_text(verbose_mode, "off") {
                return None;
            }
            Some(
                GatewayEvent::ToolCalling {
                    session_id: session_id.to_string(),
                    agent_id: agent_id.to_string(),
                    tool_name: name,
                    arguments,
                },
            )
        },
        ProgressEvent::ToolResult { name, result, data } => {
            if is_some_text(verbose_mode, "off") {
                return None;
            }
            Some(
                GatewayEvent::ToolResult {
                    session_id: session_id.to_string(),
                    agent_id: agent_id.to_string(),
                    tool_name: name,
                    result: show_result(result, verbose_mode),
                    data,
                },
            )
        },
        ProgressEvent::ToolResultDelta { .. } => None,
        ProgressEvent::Completed { response, turn_id, usage } => Some(
            GatewayEvent::Completed {
                session_id: session_id.to_string(),
                agent_id: agent_id.to_string(),
                response,
                turn_id,
                usage,
            },
        ),
        ProgressEvent::Error { message } => Some(
            GatewayEvent::ProcessingError {
                session_id: session_id.to_string(),
                agent_id: agent_id.to_string(),
                message,
                code: None,
            },
        ),
    }
}

/// The event that a report of an agent loop becomes, if it becomes one: only
/// tool calls and results, the end and failures are told, whole and whatever the
/// settings are.
pub fn relay_progress_acp(report: ProgressEvent, session_id: &str, agent_id: &str) -> (r: Option<
    GatewayEvent,
>)
    ensures
        match report {
            ProgressEvent::ToolCalling { .. } | ProgressEvent::ToolResult { .. }
            | ProgressEvent::Completed { .. } | ProgressEvent::Error { .. } => is_relayed(
                report,
                None,
                None,
                session_id@,
                agent_id@,
                r,
            ),
            _ => r is None,
        },
{
    match report {
        ProgressEvent::Started => None,
        ProgressEvent::Generating { .. } => None,
        ProgressEvent::ContentDelta { .. } => None,
        ProgressEvent::ToolResultDelta { .. } => None,
        other => relay_progress(other, &None, &None, session_id, agent_id),
    }
}

/// When tools are hidden and reasoning is hidden, subscribers see neither.
pub proof fn law_hidden_work_is_not_told(
    report: ProgressEvent,
    session: Seq<char>,
    agent: Seq<char>,
    r: Option<GatewayEvent>,
)
    requires
        is_relayed(report, Some("off"@), Some("off"@), session, agent, r),
    ensures
        !(r matches Some(GatewayEvent::Thinking { .. })),
        !(r matches Some(GatewayEvent::ToolCalling { .. })),
        !(r matches Some(GatewayEvent::ToolResult { .. })),
{
}

} // verus!
