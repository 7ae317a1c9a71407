//! Inbound message dispatch: queue modes, the follow-up buffer, and what one
//! message to an agent sets in motion.
use vstd::prelude::*;
use vstd::string::*;

use super::config::opt_model;
use super::events::{
    idle, processing, says_error, says_idle, says_processing, GatewayEvent, TokenUsage,
};
use crate::error::SyscityError;
use crate::json::{unsigned_of, whole_model, Json, JsonModel};
use crate::strmap::StrMap;
use crate::text::{
    byte_len, bytes_of, chars_of, contains_text, cut_to, cut_within, is_some_text, join, joined,
    lemma_bytes_concat, lemma_cut_fits, occurs, opt_text, same, split_words, texts, words,
};

verus! {

// ---------------------------------------------------------------------------
// Messages
// ---------------------------------------------------------------------------

/// How a message treats the messages that are waiting in its session.
#[derive(Debug, Clone, Copy, PartialEq, Eq, Structural)]
pub enum QueueMode {
    /// Send it.
    Normal,
    /// Forget what is buffered and send it.
    Interrupt,
    /// Cancel the running turn and send it.
    Steer,
    /// Buffer it with the messages that follow.
    FollowUp,
    /// Send what is buffered.
    Collect,
}

/// A message with the agent that it is routed to.
#[derive(Debug)]
pub struct RoutedMessage {
    pub agent_id: String,
    pub session_id: String,
    pub user_id: String,
    pub content: String,
    /// The channel, if an external user wrote the message.
    pub channel: Option<String>,
    pub queue_mode: QueueMode,
    pub suppress_delivery: bool,
    /// Whether media were attached while the message came in.
    pub has_media: bool,
    /// Entity chips that the composer attached.
    pub mentions: Option<Json>,
}

/// A message that waits in its session's buffer.
#[derive(Debug)]
pub struct BufferedMessage {
    pub content: String,
    pub user_id: String,
    pub channel: String,
}

/// What happened to a message between its channel and its agent.
#[derive(Debug)]
pub struct ChannelObservation {
    pub debounced: bool,
    pub enriched: bool,
    pub route: Option<String>,
}

/// Payload for dispatching a single message to an agent.
#[derive(Debug)]
pub struct AgentDispatch {
    /// Target agent ID.
    pub agent_id: String,
    /// Target session ID.
    pub session_id: String,
    /// Message content.
    pub message: String,
    /// Originating user ID.
    pub user_id: String,
    /// Originating channel.
    pub channel: String,
    /// Optional thinking level from runtime settings.
    pub think_level: Option<String>,
    /// Optional queue mode override.
    pub queue_mode: Option<String>,
    /// Inbound channel-layer observation carried into the turn.
    pub channel_obs: Option<ChannelObservation>,
    /// Entity chips attached by the composer.
    pub mentions: Option<Json>,
}

/// What a group session says of the author of a message.
#[derive(Debug, Clone, Copy, PartialEq, Eq, Structural)]
pub struct GroupStanding {
    pub is_member: bool,
    /// Whether the member's role lets it take part, where the role is known.
    pub can_participate: Option<bool>,
}

/// Whether a group lets the author of a message take part.
pub open spec fn admitted(standing: Option<GroupStanding>) -> bool {
    match standing {
        Some(s) => s.is_member && s.can_participate != Some(false),
        None => true,
    }
}

/// What a routed message sets in motion.
#[derive(Debug)]
pub struct DispatchPlan {
    /// Cancel the agent's running turn first.
    pub cancel_agent: bool,
    /// Stop the session's follow-up timer.
    pub clear_timer: bool,
    /// Wait so long before sending, in milliseconds.
    pub delay_ms: u64,
    /// (Re)start the session's follow-up timer, in seconds.
    pub arm_timer_secs: Option<u64>,
    /// The message to send.
    pub send: Option<AgentDispatch>,
}

// ---------------------------------------------------------------------------
// The follow-up buffer
// ---------------------------------------------------------------------------

/// A waiting message.
pub struct Waiting {
    pub content: Seq<char>,
    pub user_id: Seq<char>,
    pub channel: Seq<char>,
}

impl View for BufferedMessage {
    type V = Waiting;

    open spec fn view(&self) -> Waiting {
        Waiting { content: self.content@, user_id: self.user_id@, channel: self.channel@ }
    }
}

/// The messages that wait in each session.
pub open spec fn waiting(buffers: StrMap<Vec<BufferedMessage>>) -> Map<Seq<char>, Seq<Waiting>> {
    buffers@.map_values(|v: Vec<BufferedMessage>| v@.map_values(|m: BufferedMessage| m@))
}

/// The messages that wait in a session.
pub open spec fn waiting_in(
    buffers: StrMap<Vec<BufferedMessage>>,
    session: Seq<char>,
) -> Seq<Waiting> {
    if waiting(buffers).dom().contains(session) {
        waiting(buffers)[session]
    } else {
        Seq::empty()
    }
}

/// The contents of waiting messages.
pub open spec fn contents(messages: Seq<Waiting>) -> Seq<Seq<char>> {
    messages.map_values(|m: Waiting| m.content)
}

/// Whether `d` sends all the waiting messages as one: their contents in order
/// with blank lines between, in the name of the first.
pub open spec fn is_flush(
    d: AgentDispatch,
    agent: Seq<char>,
    session: Seq<char>,
    messages: Seq<Waiting>,
    think_level: Option<Seq<char>>,
    queue_mode: Option<Seq<char>>,
) -> bool {
    &&& d.agent_id@ == agent
    &&& d.session_id@ == session
    &&& d.message@ == joined(contents(messages), "\n\n"@)
    &&& d.user_id@ == messages[0].user_id
    &&& d.channel@ == messages[0].channel
    &&& opt_text(d.think_level) == think_level
    &&& opt_text(d.queue_mode) == queue_mode
    &&& d.channel_obs matches Some(o) && o.debounced && !o.enriched && opt_text(o.route) == Some(
        agent,
    )
    &&& d.mentions is None
}

fn own_text(o: &Option<String>) -> (r: Option<String>)
    ensures
        opt_text(r) == opt_text(*o),
{
    o.clone()
}

/// Flush buffered messages for a session and send as a single batch.
pub fn flush_session_buffer(
    buffers: &mut StrMap<Vec<BufferedMessage>>,
    agent_id: &str,
    session_id: &str,
    think_level: &Option<String>,
    queue_mode: &Option<String>,
) -> (r: Option<AgentDispatch>)
    ensures
        waiting(*final(buffers)) == waiting(*old(buffers)).remove(session_id@),
        r is Some == (waiting_in(*old(buffers), session_id@).len() > 0),
        r matches Some(d) ==> is_flush(
            d,
            agent_id@,
            session_id@,
            waiting_in(*old(buffers), session_id@),
            opt_text(*think_level),
            opt_text(*queue_mode),
        ),
{
    let ghost before = waiting(*buffers);
    let ghost all = waiting_in(*buffers, session_id@);
    let r = match buffers.get(session_id) {
        None => None,
        Some(messages) => {
            if messages.is_empty() {
                None
            } else {
                let mut parts: Vec<String> = Vec::new();
                let mut i: usize = 0;
                while i < messages.len()
                    invariant
                        i <= messages@.len(),
                        texts(parts@) == contents(all).take(i as int),
                        all == messages@.map_values(|m: BufferedMessage| m@),
                    decreases messages.len() - i,
                {
                    let ghost mid = parts@;
                    parts.push(messages[i].content.clone());
                    proof {
                        assert(texts(parts@) =~= texts(mid).push(messages@[i as int].content@));
                        assert(contents(all).take(i + 1) =~= contents(all).take(i as int).push(
                            contents(all)[i as int],
                        ));
                    }
                    i += 1;
                }
                assert(contents(all).take(messages@.len() as int) =~= contents(all));
                let combined = join(parts.as_slice(), "\n\n");
                Some(
                    AgentDispatch {
                        agent_id: agent_id.to_string(),
                        session_id: session_id.to_string(),
                        message: combined,
                        user_id: messages[0].user_id.clone(),
                        channel: messages[0].channel.clone(),
                        think_level: own_text(think_level),
                        queue_mode: own_text(queue_mode),
                        channel_obs: Some(
                            ChannelObservation {
                                debounced: true,
                                enriched: false,
                                route: Some(agent_id.to_string()),
                            },
                        ),
                        mentions: None,
                    },
                )
            }
        },
    };
    buffers.remove(session_id);
    assert(waiting(*buffers) =~= before.remove(session_id@));
    r
}

/// Puts a message into its session's buffer; says how many wait there now.
fn buffer_message(
    buffers: &mut StrMap<Vec<BufferedMessage>>,
    session_id: &str,
    message: BufferedMessage,
) -> (r: usize)
    ensures
        r == waiting_in(*old(buffers), session_id@).len() + 1,
        waiting(*final(buffers)) == waiting(*old(buffers)).insert(
            session_id@,
            waiting_in(*old(buffers), session_id@).push(message@),
        ),
{
    let ghost before = waiting(*buffers);
    let ghost all = waiting_in(*buffers, session_id@);
    let mut list: Vec<BufferedMessage> = match buffers.get(session_id) {
        Some(messages) => copy_messages(messages),
        None => Vec::new(),
    };
    assert(list@.map_values(|m: BufferedMessage| m@) =~= all);
    let ghost old_list = list@;
    list.push(message);
    let n = list.len();
    let ghost model = list@.map_values(|m: BufferedMessage| m@);
    assert(model =~= all.push(message@));
    buffers.insert(session_id.to_string(), list);
    assert(waiting(*buffers) =~= before.insert(session_id@, model));
    n
}

fn copy_messages(messages: &Vec<BufferedMessage>) -> (r: Vec<BufferedMessage>)
    ensures
        r@.map_values(|m: BufferedMessage| m@) == messages@.map_values(|m: BufferedMessage| m@),
{
    let mut out: Vec<BufferedMessage> = Vec::new();
    let mut i: usize = 0;
    while i < messages.len()
        invariant
            i <= messages@.len(),
            out@.len() == i,
            forall|k: int| 0 <= k < i ==> (#[trigger] out@[k])@ == messages@[k]@,
        decreases messages.len() - i,
    {
        out.push(
            BufferedMessage {
                content: messages[i].content.clone(),
                user_id: messages[i].user_id.clone(),
                channel: messages[i].channel.clone(),
            },
        );
        i += 1;
    }
    assert(out@.map_values(|m: BufferedMessage| m@) =~= messages@.map_values(
        |m: BufferedMessage| m@,
    ));
    out
}

// ---------------------------------------------------------------------------
// Dispatch of a routed message
// ---------------------------------------------------------------------------

/// The channel that a message is answered on.
pub open spec fn channel_of(routed: RoutedMessage) -> Seq<char> {
    match routed.channel {
        Some(c) => c@,
        None => "unknown"@,
    }
}

/// Whether `d` sends the routed message itself.
pub open spec fn is_direct(
    d: AgentDispatch,
    routed: RoutedMessage,
    think_level: Option<Seq<char>>,
    queue_mode: Option<Seq<char>>,
) -> bool {
    &&& d.agent_id@ == routed.agent_id@
    &&& d.session_id@ == routed.session_id@
    &&& d.message@ == routed.content@
    &&& d.user_id@ == routed.user_id@
    &&& d.channel@ == channel_of(routed)
    &&& opt_text(d.think_level) == think_level
    &&& opt_text(d.queue_mode) == queue_mode
    &&& d.channel_obs matches Some(o) && !o.debounced && o.enriched == routed.has_media && opt_text(
        o.route,
    ) == Some(routed.agent_id@)
    &&& opt_model(d.mentions) == opt_model(routed.mentions)
}

fn direct(routed: &RoutedMessage, think_level: &Option<String>, queue_mode: &Option<String>) -> (r:
    AgentDispatch)
    ensures
        is_direct(r, *routed, opt_text(*think_level), opt_text(*queue_mode)),
{
    AgentDispatch {
        agent_id: routed.agent_id.clone(),
        session_id: routed.session_id.clone(),
        message: routed.content.clone(),
        user_id: routed.user_id.clone(),
        channel: match &routed.channel {
            Some(c) => c.clone(),
            None => "unknown".to_string(),
        },
        think_level: own_text(think_level),
        queue_mode: own_text(queue_mode),
        channel_obs: Some(
            ChannelObservation {
                debounced: false,
                enriched: routed.has_media,
                route: Some(routed.agent_id.clone()),
            },
        ),
        mentions: match &routed.mentions {
            Some(m) => Some(m.clone()),
            None => None,
        },
    }
}

/// The plan that does nothing.
pub open spec fn is_nothing(p: DispatchPlan) -> bool {
    !p.cancel_agent && !p.clear_timer && p.delay_ms == 0 && p.arm_timer_secs is None && p.send
        is None
}

/// A message waits in its session until so many wait there.
pub const MAX_BUFFERED: usize = 5;

/// Whether `p` is what a routed message sets in motion, `before` and `after`
/// being what waits in the sessions.
pub open spec fn is_plan(
    p: DispatchPlan,
    routed: RoutedMessage,
    standing: Option<GroupStanding>,
    think_level: Option<Seq<char>>,
    queue_mode: Option<Seq<char>>,
    before: Map<Seq<char>, Seq<Waiting>>,
    after: Map<Seq<char>, Seq<Waiting>>,
) -> bool {
    let session = routed.session_id@;
    let held = if before.dom().contains(session) {
        before[session]
    } else {
        Seq::empty()
    };
    if routed.suppress_delivery || !admitted(standing) {
        is_nothing(p) && after == before
    } else {
        match routed.queue_mode {
            QueueMode::Normal => {
                &&& !p.cancel_agent && !p.clear_timer && p.delay_ms == 0 && p.arm_timer_secs is None
                &&& p.send matches Some(d) && is_direct(d, routed, think_level, queue_mode)
                &&& after == before
            },
            QueueMode::Interrupt => {
                &&& !p.cancel_agent && p.clear_timer && p.delay_ms == 0 && p.arm_timer_secs is None
                &&& p.send matches Some(d) && is_direct(d, routed, think_level, queue_mode)
                &&& after == before.remove(session)
            },
            QueueMode::Steer => {
                &&& p.cancel_agent && p.clear_timer && p.delay_ms == 100 && p.arm_timer_secs is None
                &&& p.send matches Some(d) && is_direct(d, routed, think_level, queue_mode)
                &&& after == before
            },
            QueueMode::FollowUp => {
                let all = held.push(
                    Waiting {
                        content: routed.content@,
                        user_id: routed.user_id@,
                        channel: channel_of(routed),
                    },
                );
                &&& !p.cancel_agent && p.delay_ms == 0
                &&& if all.len() >= MAX_BUFFERED {
                    &&& p.clear_timer && p.arm_timer_secs is None
                    &&& p.send matches Some(d) && is_flush(
                        d,
                        routed.agent_id@,
                        session,
                        all,
                        think_level,
                        queue_mode,
                    )
                    &&& after == before.remove(session)
                } else {
                    &&& !p.clear_timer && p.arm_timer_secs == Some(3u64)
                    &&& p.send is None
                    &&& after == before.insert(session, all)
                }
            },
            QueueMode::Collect => {
                &&& !p.cancel_agent && p.clear_timer && p.delay_ms == 0 && p.arm_timer_secs is None
                &&& if held.len() > 0 {
                    &&& p.send matches Some(d) && is_flush(
                        d,
                        routed.agent_id@,
                        session,
                        held,
                        think_level,
                        queue_mode,
                    )
                    &&& after == before.remove(session)
                } else {
                    &&& p.send matches Some(d) && is_direct(d, routed, think_level, queue_mode)
                    &&& after == before
                }
            },
        }
    }
}

fn admits(standing: Option<GroupStanding>) -> (r: bool)
    ensures
        r == admitted(standing),
{
    match standing {
        Some(s) => s.is_member && match s.can_participate {
            Some(b) => b,
            None => true,
        },
        None => true,
    }
}

/// Dispatch a single `RoutedMessage`: what it sets in motion, and what it does to
/// the messages that wait.
pub fn dispatch_routed_message(
    buffers: &mut StrMap<Vec<BufferedMessage>>,
    routed: &RoutedMessage,
    standing: Option<GroupStanding>,
    think_level: &Option<String>,
    queue_mode: &Option<String>,
) -> (r: DispatchPlan)
    ensures
        is_plan(
            r,
            *routed,
            standing,
            opt_text(*think_level),
            opt_text(*queue_mode),
            waiting(*old(buffers)),
            waiting(*final(buffers)),
        ),
{
    let ghost before = waiting(*buffers);
    if routed.suppress_delivery || !admits(standing) {
        return DispatchPlan {
            cancel_agent: false,
            clear_timer: false,
            delay_ms: 0,
            arm_timer_secs: None,
            send: None,
        };
    }
    match routed.queue_mode {
        QueueMode::Interrupt => {
            buffers.remove(&routed.session_id);
            assert(waiting(*buffers) =~= before.remove(routed.session_id@));
            DispatchPlan {
                cancel_agent: false,
                clear_timer: true,
                delay_ms: 0,
                arm_timer_secs: None,
                send: Some(direct(routed, think_level, queue_mode)),
            }
        },
        QueueMode::Steer => DispatchPlan {
            cancel_agent: true,
            clear_timer: true,
            delay_ms: 100,
            arm_timer_secs: None,
            send: Some(direct(routed, think_level, queue_mode)),
        },
        QueueMode::FollowUp => {
            let message = BufferedMessage {
                content: routed.content.clone(),
                user_id: routed.user_id.clone(),
                channel: match &routed.channel {
                    Some(c) => c.clone(),
                    None => "unknown".to_string(),
                },
            };
            let ghost held = waiting_in(*buffers, routed.session_id@);
            let ghost all = held.push(message@);
            let n = buffer_message(buffers, &routed.session_id, message);
            if n >= MAX_BUFFERED {
                let send = flush_session_buffer(
                    buffers,
                    &routed.agent_id,
                    &routed.session_id,
                    think_level,
                    queue_mode,
                );
                assert(waiting(*buffers) =~= before.remove(routed.session_id@));
                DispatchPlan {
                    cancel_agent: false,
                    clear_timer: true,
                    delay_ms: 0,
                    arm_timer_secs: None,
                    send,
                }
            } else {
                DispatchPlan {
                    cancel_agent: false,
                    clear_timer: false,
                    delay_ms: 0,
                    arm_timer_secs: Some(3),
                    send: None,
                }
            }
        },
        QueueMode::Collect => {
            let has_buffered = match buffers.get(&routed.session_id) {
                Some(b) => !b.is_empty(),
                None => false,
            };
            let send = if has_buffered {
                flush_session_buffer(
                    buffers,
                    &routed.agent_id,
                    &routed.session_id,
                    think_level,
                    queue_mode,
                )
            } else {
                Some(direct(routed, think_level, queue_mode))
            };
            DispatchPlan {
                cancel_agent: false,
                clear_timer: true,
                delay_ms: 0,
                arm_timer_secs: None,
                send,
            }
        },
        QueueMode::Normal => DispatchPlan {
            cancel_agent: false,
            clear_timer: false,
            delay_ms: 0,
            arm_timer_secs: None,
            send: Some(direct(routed, think_level, queue_mode)),
        },
    }
}

/// The name under which a session's follow-up timer is registered.
pub fn follow_up_timer(session_id: &str) -> (r: String)
    ensures
        r@ == "followup:"@ + session_id@,
{
    crate::text::cat("followup:", session_id)
}

/// Whether fewer messages wait in every session than force a flush.
pub open spec fn buffers_bounded(w: Map<Seq<char>, Seq<Waiting>>) -> bool {
    forall|s: Seq<char>| #[trigger] w.dom().contains(s) ==> w[s].len() < MAX_BUFFERED
}

/// No session ever holds as many messages as force a flush.
pub proof fn law_buffers_stay_bounded(
    p: DispatchPlan,
    routed: RoutedMessage,
    standing: Option<GroupStanding>,
    think_level: Option<Seq<char>>,
    queue_mode: Option<Seq<char>>,
    before: Map<Seq<char>, Seq<Waiting>>,
    after: Map<Seq<char>, Seq<Waiting>>,
)
    requires
        is_plan(p, routed, standing, think_level, queue_mode, before, after),
        buffers_bounded(before),
    ensures
        buffers_bounded(after),
{
}

/// A dispatch touches no session but its own.
pub proof fn law_other_sessions_are_untouched(
    p: DispatchPlan,
    routed: RoutedMessage,
    standing: Option<GroupStanding>,
    think_level: Option<Seq<char>>,
    queue_mode: Option<Seq<char>>,
    before: Map<Seq<char>, Seq<Waiting>>,
    after: Map<Seq<char>, Seq<Waiting>>,
    other: Seq<char>,
)
    requires
        is_plan(p, routed, standing, think_level, queue_mode, before, after),
        other != routed.session_id@,
    ensures
        after.dom().contains(other) == before.dom().contains(other),
        after.dom().contains(other) ==> after[other] == before[other],
{
}

/// A delivered follow-up is never lost: it waits, or it is sent with everything
/// that waited before it.
pub proof fn law_follow_ups_are_kept_or_sent(
    p: DispatchPlan,
    routed: RoutedMessage,
    standing: Option<GroupStanding>,
    think_level: Option<Seq<char>>,
    queue_mode: Option<Seq<char>>,
    before: Map<Seq<char>, Seq<Waiting>>,
    after: Map<Seq<char>, Seq<Waiting>>,
)
    requires
        is_plan(p, routed, standing, think_level, queue_mode, before, after),
        !routed.suppress_delivery,
        admitted(standing),
        routed.queue_mode == QueueMode::FollowUp,
    ensures
        ({
            let session = routed.session_id@;
            let held = if before.dom().contains(session) {
                contents(before[session])
            } else {
                Seq::empty()
            };
            let all = held.push(routed.content@);
            match p.send {
                Some(d) => d.message@ == joined(all, "\n\n"@) && !after.dom().contains(session),
                None => after.dom().contains(session) && contents(after[session]) == all,
            }
        }),
{
    let session = routed.session_id@;
    let held = if before.dom().contains(session) {
        before[session]
    } else {
        Seq::empty()
    };
    let last = Waiting {
        content: routed.content@,
        user_id: routed.user_id@,
        channel: channel_of(routed),
    };
    assert(contents(held.push(last)) =~= contents(held).push(routed.content@));
    assert(contents(Seq::<Waiting>::empty()) =~= Seq::empty());
}

// ---------------------------------------------------------------------------
// Session names
// ---------------------------------------------------------------------------

/// Whether a character is markup that a session name does without.
pub open spec fn is_markup(c: char) -> bool {
    c == '#' || c == '*' || c == '`' || c == '>' || c == '-' || c == '|'
}

/// A line break as a blank, everything else as it is.
pub open spec fn unbroken(c: char) -> char {
    if c == '\n' || c == '\r' {
        ' '
    } else {
        c
    }
}

/// A text without markup, on one line.
pub open spec fn plain_line(s: Seq<char>) -> Seq<char> {
    s.filter(|c: char| !is_markup(c)).map_values(|c: char| unbroken(c))
}

/// The first six words of a text without markup.
pub open spec fn leading_words(content: Seq<char>) -> Seq<char> {
    let all = words(plain_line(content));
    joined(
        if all.len() <= 6 {
            all
        } else {
            all.take(6)
        },
        " "@,
    )
}

/// The name that a session gets from a response: its first six words without
/// markup; one of more than forty bytes is cut, at the last end of a character
/// before, and marked.
pub open spec fn session_name(content: Seq<char>) -> Seq<char> {
    let name = leading_words(content);
    if bytes_of(name).len() > 40 {
        cut_within(name, 40) + "..."@
    } else if name.len() == 0 {
        "New Session"@
    } else {
        name
    }
}

fn name_words(content: &str) -> (r: String)
    ensures
        r@ == leading_words(content@),
{
    let cs = chars_of(content);
    let ghost keep = |c: char| !is_markup(c);
    let ghost line = |c: char| unbroken(c);
    let mut cleaned = String::new();
    let mut i: usize = 0;
    while i < cs.len()
        invariant
            i <= cs@.len(),
            keep == |c: char| !is_markup(c),
            line == |c: char| unbroken(c),
            cleaned@ == cs@.take(i as int).filter(keep).map_values(line),
        decreases cs.len() - i,
    {
        let c = cs[i];
        proof {
            let before = cs@.take(i as int);
            assert(cs@.take(i + 1) =~= before.push(c));
            before.lemma_filter_push(c, keep);
            assert(before.filter(keep).push(c).map_values(line) =~= before.filter(keep).map_values(
                line,
            ).push(unbroken(c)));
        }
        if !(c == '#' || c == '*' || c == '`' || c == '>' || c == '-' || c == '|') {
            if c == '\n' || c == '\r' {
                cleaned.push(' ');
            } else {
                cleaned.push(c);
            }
        }
        i += 1;
    }
    assert(cs@.take(cs@.len() as int) =~= cs@);
    assert(cleaned@ == plain_line(content@));
    let mut parts = split_words(&cleaned);
    let ghost all = parts@;
    if parts.len() > 6 {
        parts.truncate(6);
        assert(texts(parts@) =~= texts(all).take(6));
    }
    join(parts.as_slice(), " ")
}

/// Extract a concise session name from the first assistant response.
/// Strips markdown, takes the first meaningful words, and limits length.
pub fn extract_session_name(content: &str) -> (r: String)
    ensures
        r@ == session_name(content@),
{
    let name = name_words(content);
    if byte_len(&name) > 40 {
        let mut cut = cut_to(&name, 40);
        cut.append("...");
        cut
    } else if name.as_str().is_empty() {
        "New Session".to_string()
    } else {
        name
    }
}

/// A session name is short, and never empty: whatever the response, it has at
/// most forty bytes, or forty-three with the mark of one that was cut.
pub proof fn law_session_names_are_short(content: Seq<char>)
    ensures
        session_name(content).len() > 0,
        bytes_of(session_name(content)).len() <= 43,
        bytes_of(leading_words(content)).len() > 40 ==> "..."@.is_suffix_of(session_name(content)),
{
    let name = leading_words(content);
    reveal_strlit("...");
    reveal_strlit("New Session");
    if bytes_of(name).len() > 40 {
        let head = cut_within(name, 40);
        lemma_cut_fits(name, 40);
        lemma_bytes_concat(head, "..."@);
        vstd::utf8::is_ascii_chars_encode_utf8("..."@);
        let all = head + "..."@;
        assert(all.subrange(all.len() - 3, all.len() as int) =~= "..."@);
    } else if name.len() == 0 {
        vstd::utf8::is_ascii_chars_encode_utf8("New Session"@);
    }
}

// ---------------------------------------------------------------------------
// Settings of a turn
// ---------------------------------------------------------------------------

/// The model of a session: the one pinned to it unless that is empty, else the
/// one bound to its agent.
pub open spec fn session_model(pin: Option<Seq<char>>, bound: Option<Seq<char>>) -> Option<
    Seq<char>,
> {
    if pin is Some && pin->0.len() > 0 {
        pin
    } else {
        bound
    }
}

/// What is under a key of a map of strings.
pub open spec fn bound_text(m: Map<Seq<char>, String>, key: Seq<char>) -> Option<Seq<char>> {
    if m.dom().contains(key) {
        Some(m[key]@)
    } else {
        None
    }
}

/// Resolve the effective concrete model ID for a session: the session's
/// explicit pin first, then the bound agent's configured model, else `None`
/// (the caller falls back to the global default).
pub fn resolve_session_model(
    pin: &Option<String>,
    agent_models: &StrMap<String>,
    agent_id: &str,
) -> (r: Option<String>)
    ensures
        opt_text(r) == session_model(opt_text(*pin), bound_text(agent_models@, agent_id@)),
{
    if let Some(m) = pin {
        if !m.as_str().is_empty() {
            return Some(m.clone());
        }
    }
    match agent_models.get(agent_id) {
        Some(m) => Some(m.clone()),
        None => None,
    }
}

/// The thinking budget of a level.
pub open spec fn thinking_budget(level: Seq<char>) -> Option<u64> {
    if level == "minimal"@ {
        Some(1024)
    } else if level == "low"@ {
        Some(4096)
    } else if level == "medium"@ {
        Some(16000)
    } else if level == "high"@ {
        Some(32000)
    } else {
        None
    }
}

/// Whether `j` asks for a thinking budget.
pub open spec fn asks_thinking(j: JsonModel, budget: u64) -> bool {
    &&& j matches JsonModel::Object(m)
    &&& m.len() == 1
    &&& m[0].0 == "thinking"@
    &&& m[0].1 matches JsonModel::Object(t)
    &&& t.len() == 2
    &&& t[0] == ("type"@, JsonModel::Text("enabled"@))
    &&& t[1] == ("budget_tokens"@, whole_model(budget))
}

/// The request parameters for a thinking level, if it is a known one.
pub fn thinking_params(level: &Option<String>) -> (r: Option<Json>)
    ensures
        match (opt_text(*level), r) {
            (Some(l), Some(j)) => thinking_budget(l) is Some && asks_thinking(
                j@,
                thinking_budget(l)->0,
            ),
            (Some(l), None) => thinking_budget(l) is None,
            (None, r) => r is None,
        },
{
    let level = match level {
        Some(l) => l,
        None => {
            return None;
        },
    };
    let budget: u64 = if same(level, "minimal") {
        1024
    } else if same(level, "low") {
        4096
    } else if same(level, "medium") {
        16000
    } else if same(level, "high") {
        32000
    } else {
        return None;
    };
    let inner = Json::Object(
        vec![
            ("type".to_string(), Json::text("enabled")),
            ("budget_tokens".to_string(), Json::whole(budget)),
        ],
    );
    proof {
        crate::json::lemma_model_parts(inner);
    }
    let outer = Json::Object(vec![("thinking".to_string(), inner)]);
    proof {
        crate::json::lemma_model_parts(outer);
        assert(outer@->Object_0[0].1 == inner@);
    }
    Some(outer)
}

/// What all turns together have used.
#[derive(Debug, Clone, Copy, PartialEq, Eq, Structural)]
pub struct UsageTotals {
    pub tokens: u64,
    pub calls: u64,
}

/// The totals after a turn: its tokens, its tool calls and the turn itself.
pub open spec fn usage_after(
    before: UsageTotals,
    usage: TokenUsage,
    tool_calls: Option<usize>,
) -> (int, int) {
    (
        before.tokens + usage.prompt_tokens + usage.completion_tokens,
        before.calls + (match tool_calls {
            Some(n) => n as int,
            None => 0,
        }) + 1,
    )
}

/// The whole number that is set under a key, 0 where there is none.
pub open spec fn number_set(settings: Map<Seq<char>, Json>, key: Seq<char>) -> u64 {
    if settings.dom().contains(key) {
        match unsigned_of(settings[key]@) {
            Some(n) => n,
            None => 0,
        }
    } else {
        0
    }
}

fn read_number(settings: &StrMap<Json>, key: &str) -> (r: u64)
    ensures
        r == number_set(settings@, key@),
{
    match settings.get(key) {
        Some(j) => match j.as_u64() {
            Some(n) => n,
            None => 0,
        },
        None => 0,
    }
}

/// The totals that the runtime settings hold.
pub open spec fn totals_set(settings: Map<Seq<char>, Json>) -> UsageTotals {
    UsageTotals {
        tokens: number_set(settings, "usage.tokens"@),
        calls: number_set(settings, "usage.calls"@),
    }
}

/// The runtime settings without the totals.
pub open spec fn other_settings(settings: Map<Seq<char>, Json>) -> Map<Seq<char>, Json> {
    settings.remove("usage.tokens"@).remove("usage.calls"@)
}

impl UsageTotals {
    /// The totals that the runtime settings hold.
    pub fn read(settings: &StrMap<Json>) -> (r: Self)
        ensures
            r == totals_set(settings@),
    {
        UsageTotals {
            tokens: read_number(settings, "usage.tokens"),
            calls: read_number(settings, "usage.calls"),
        }
    }

    /// Put the totals into the runtime settings, where they are read again.
    pub fn store(self, settings: &mut StrMap<Json>)
        ensures
            totals_set(final(settings)@) == self,
            other_settings(final(settings)@) == other_settings(old(settings)@),
    {
        proof {
            reveal_strlit("usage.tokens");
            reveal_strlit("usage.calls");
            assert("usage.tokens"@.len() == 12 && "usage.calls"@.len() == 11);
        }
        settings.insert("usage.tokens".to_string(), Json::whole(self.tokens));
        settings.insert("usage.calls".to_string(), Json::whole(self.calls));
        assert(other_settings(settings@) =~= other_settings(old(settings)@));
    }

    /// Adds a turn to the totals.
    pub fn count(self, usage: TokenUsage, tool_calls: Option<usize>) -> (r: Self)
        requires
            usage_after(self, usage, tool_calls).0 <= u64::MAX,
            usage_after(self, usage, tool_calls).1 <= u64::MAX,
        ensures
            (r.tokens as int, r.calls as int) == usage_after(self, usage, tool_calls),
    {
        let calls: u64 = match tool_calls {
            Some(n) => n as u64,
            None => 0,
        };
        UsageTotals {
            tokens: self.tokens + (usage.prompt_tokens as u64 + usage.completion_tokens as u64),
            calls: self.calls + calls + 1,
        }
    }
}

/// A machine-readable error code, where one is recognizable in the failure of an
/// outside service and the cloud relay is in use.
pub open spec fn error_code(e: SyscityError, cloud: bool) -> Option<Seq<char>> {
    match e {
        SyscityError::ExternalService(source) => if cloud && occurs(
            source@,
            "insufficient_credits"@,
        ) {
            Some("insufficient_credits"@)
        } else {
            None
        },
        _ => None,
    }
}

/// Extract a machine-readable error code from a provider failure when one
/// is recognizable.
pub fn extract_error_code(e: &SyscityError, cloud: bool) -> (r: Option<String>)
    ensures
        opt_text(r) == error_code(*e, cloud),
{
    match e {
        SyscityError::ExternalService(source) => {
            if cloud && contains_text(source, "insufficient_credits") {
                Some("insufficient_credits".to_string())
            } else {
                None
            }
        },
        _ => None,
    }
}

// ---------------------------------------------------------------------------
// Sending to an agent
// ---------------------------------------------------------------------------

/// A message as the agent receives it.
#[derive(Debug)]
pub struct IncomingMessage {
    pub user_id: String,
    pub session_id: String,
    pub content: String,
    /// The channel of the external user who wrote it, directly to the agent.
    pub channel: Option<String>,
    /// What else travels with the message.
    pub extra: Vec<(String, Json)>,
}

/// What an agent answers.
#[derive(Debug)]
pub struct Outgoing {
    pub content: String,
    pub reasoning_content: Option<String>,
    /// How many tool calls were made, where that is known.
    pub tool_calls: Option<usize>,
    /// The tool calls, serialized.
    pub tool_calls_json: Option<String>,
    pub usage: Option<TokenUsage>,
}

/// What is known of a session's name.
#[derive(Debug, Clone, Copy, PartialEq, Eq, Structural)]
pub enum NameState {
    /// There is no session store, or it could not be read.
    Unknown,
    Named,
    Unnamed,
}

/// Where the sending of a message stands.
#[derive(Debug)]
pub enum SendStage {
    /// Nothing has been done.
    Start,
    /// The message may be sent; the agent is looked up.
    LookingUp,
    /// The agent is being spawned.
    Spawning,
    /// The agent was spawned; its handle has been asked for so often.
    Polling(u32),
    /// The agent is there; its models are read.
    Preparing,
    /// The agent works on the message.
    Running,
    /// The response is saved; the session's name is read.
    Naming { content: String, usage: Option<TokenUsage> },
    /// The session's name is being saved.
    Renaming { content: String, usage: Option<TokenUsage>, name: String },
    /// Everything has been done.
    Done,
}

/// What happened since.
#[derive(Debug)]
pub enum SendEvent {
    /// The prompt hook has spoken: a reason refuses the message.
    PromptChecked { refusal: Option<String> },
    /// Whether the agent runs, and whether its personality is registered.
    AgentLookedUp { running: bool, registered: bool },
    SpawnFinished { ok: bool },
    HandlePolled { present: bool },
    /// The model pinned to the session, and the one that it is to use.
    ModelResolved { model: Option<String> },
    /// The turn ended well; `reasoning_hidden` says that reasoning is not shown.
    TurnCompleted { outgoing: Outgoing, reasoning_hidden: bool },
    /// The turn failed, with the error in words and its code.
    TurnFailed { error: String, code: Option<String> },
    NameRead { state: NameState },
    NameSaved { ok: bool },
}

/// What is to be done.
#[derive(Debug)]
pub enum SendAction {
    Emit(GatewayEvent),
    LookUpAgent,
    SpawnAgent,
    /// Ask for the agent's handle after so many milliseconds.
    PollAgent { after_ms: u64 },
    ResolveModel,
    SetExtraParams(Option<Json>),
    SetSessionModel(Option<String>),
    /// Cancel what the session's queue is working on.
    CancelSession,
    Execute(IncomingMessage),
    CountUsage { usage: TokenUsage, tool_calls: Option<usize> },
    SaveResponse {
        content: String,
        reasoning_content: Option<String>,
        tool_calls_json: Option<String>,
        run_id: String,
    },
    ReadSessionName,
    SaveSessionName(String),
    FireStopHook,
}

/// Whether `m` is the message of a dispatch as the agent receives it, with what
/// the channel layer observed and the chips of the composer.
pub open spec fn is_incoming(m: IncomingMessage, d: AgentDispatch) -> bool {
    &&& m.user_id@ == d.user_id@
    &&& m.session_id@ == d.session_id@
    &&& m.content@ == d.message@
    &&& opt_text(m.channel) == Some(d.channel@)
    &&& crate::json::member_models(m.extra@) == observation_extra(d) + mentions_extra(d)
}

/// The observation that travels with a message.
pub open spec fn observation_extra(d: AgentDispatch) -> Seq<(Seq<char>, JsonModel)> {
    match d.channel_obs {
        Some(o) => seq![
            (
                "channel_observation"@,
                JsonModel::Object(
                    seq![
                        ("debounced"@, JsonModel::Bool(o.debounced)),
                        ("enriched"@, JsonModel::Bool(o.enriched)),
                        (
                            "route"@,
                            match o.route {
                                Some(r) => JsonModel::Text(r@),
                                None => JsonModel::Null,
                            },
                        ),
                    ],
                ),
            ),
        ],
        None => Seq::empty(),
    }
}

/// The chips that travel with a message.
pub open spec fn mentions_extra(d: AgentDispatch) -> Seq<(Seq<char>, JsonModel)> {
    match d.mentions {
        Some(m) => seq![("mentions"@, m@)],
        None => Seq::empty(),
    }
}

fn make_incoming(d: &AgentDispatch) -> (r: IncomingMessage)
    ensures
        is_incoming(r, *d),
{
    let mut extra: Vec<(String, Json)> = Vec::new();
    if let Some(o) = &d.channel_obs {
        let route = match &o.route {
            Some(r) => Json::text(r),
            None => Json::Null,
        };
        let value = Json::Object(
            vec![
                ("debounced".to_string(), Json::Bool(o.debounced)),
                ("enriched".to_string(), Json::Bool(o.enriched)),
                ("route".to_string(), route),
            ],
        );
        proof {
            crate::json::lemma_model_parts(value);
            assert(value@->Object_0 =~= observation_extra(*d)[0].1->Object_0);
        }
        extra.push(("channel_observation".to_string(), value));
    }
    let ghost first = extra@;
    assert(crate::json::member_models(first) =~= observation_extra(*d));
    if let Some(m) = &d.mentions {
        extra.push(("mentions".to_string(), m.clone()));
    }
    assert(crate::json::member_models(extra@) =~= observation_extra(*d) + mentions_extra(*d));
    IncomingMessage {
        user_id: d.user_id.clone(),
        session_id: d.session_id.clone(),
        content: d.message.clone(),
        channel: Some(d.channel.clone()),
        extra,
    }
}

/// Whether `actions` end a turn: the response is told if there is one, the agent
/// is idle again, and the stop hook runs.
pub open spec fn ends_turn(
    actions: Seq<SendAction>,
    d: AgentDispatch,
    text: Seq<char>,
    used: Option<TokenUsage>,
) -> bool {
    &&& actions.len() == 3
    &&& actions[0] matches SendAction::Emit(
        GatewayEvent::AgentResponse {
            session_id,
            agent_id,
            content,
            channel,
            conversation_id,
            usage,
        },
    ) && session_id@ == d.session_id@ && agent_id@ == d.agent_id@ && content@ == text && channel@
        == d.channel@ && conversation_id@ == d.session_id@ && usage == used
    &&& actions[1] matches SendAction::Emit(e) && says_idle(e, d.agent_id@)
    &&& actions[2] is FireStopHook
}

/// Whether `actions` are nothing but the given one.
pub open spec fn only(actions: Seq<SendAction>, a: SendAction) -> bool {
    actions.len() == 1 && actions[0] == a
}

/// Whether sending a dispatch goes from `stage` by `event` to `next` with
/// `actions`. An event that does not belong to the stage ends the sending.
pub open spec fn is_send_step(
    d: AgentDispatch,
    stage: SendStage,
    event: SendEvent,
    run_id: String,
    next: SendStage,
    actions: Seq<SendAction>,
) -> bool {
    match (stage, event) {
        (SendStage::Start, SendEvent::PromptChecked { refusal }) => match refusal {
            Some(reason) => {
                &&& next is Done
                &&& actions.len() == 1
                &&& actions[0] matches SendAction::Emit(e) && says_error(
                    e,
                    d.session_id@,
                    d.agent_id@,
                    reason@,
                    None,
                )
            },
            None => next is LookingUp && only(actions, SendAction::LookUpAgent),
        },
        (SendStage::LookingUp, SendEvent::AgentLookedUp { running, registered }) => if running {
            next is Preparing && only(actions, SendAction::ResolveModel)
        } else if registered {
            next is Spawning && only(actions, SendAction::SpawnAgent)
        } else {
            next is Done && actions.len() == 0
        },
        (SendStage::Spawning, SendEvent::SpawnFinished { ok }) => if ok {
            next == SendStage::Polling(0) && only(actions, SendAction::PollAgent { after_ms: 0 })
        } else {
            next is Done && actions.len() == 0
        },
        (SendStage::Polling(n), SendEvent::HandlePolled { present }) => if present {
            next is Preparing && only(actions, SendAction::ResolveModel)
        } else if n < 9 {
            next == SendStage::Polling((n + 1) as u32) && only(
                actions,
                SendAction::PollAgent { after_ms: 100 },
            )
        } else {
            next is Done && actions.len() == 0
        },
        (SendStage::Preparing, SendEvent::ModelResolved { model }) => {
            let cancel: int = if opt_text(d.queue_mode) == Some("interrupt"@) {
                1
            } else {
                0
            };
            &&& next is Running
            &&& actions.len() == 4 + cancel
            &&& actions[0] matches SendAction::SetExtraParams(p) && match (
                opt_text(d.think_level),
                p,
            ) {
                (Some(l), Some(j)) => thinking_budget(l) is Some && asks_thinking(
                    j@,
                    thinking_budget(l)->0,
                ),
                (Some(l), None) => thinking_budget(l) is None,
                (None, q) => q is None,
            }
            &&& actions[1] == SendAction::SetSessionModel(model)
            &&& cancel == 1 ==> actions[2] is CancelSession
            &&& actions[2 + cancel] matches SendAction::Emit(e) && says_processing(
                e,
                d.agent_id@,
                d.session_id@,
            )
            &&& actions[3 + cancel] matches SendAction::Execute(m) && is_incoming(m, d)
        },
        (SendStage::Running, SendEvent::TurnCompleted { outgoing, reasoning_hidden }) => {
            let counted: int = if outgoing.usage is Some {
                1
            } else {
                0
            };
            &&& next == (SendStage::Naming { content: outgoing.content, usage: outgoing.usage })
            &&& actions.len() == 2 + counted
            &&& outgoing.usage matches Some(u) ==> actions[0] == (SendAction::CountUsage {
                usage: u,
                tool_calls: outgoing.tool_calls,
            })
            &&& actions[counted] matches SendAction::SaveResponse {
                content,
                reasoning_content,
                tool_calls_json,
                run_id: id,
            } && content == outgoing.content && reasoning_content == (if reasoning_hidden {
                None
            } else {
                outgoing.reasoning_content
            }) && tool_calls_json == outgoing.tool_calls_json && id == run_id
            &&& actions[counted + 1] is ReadSessionName
        },
        (SendStage::Running, SendEvent::TurnFailed { error, code }) => {
            &&& next is Done
            &&& actions.len() == 3
            &&& actions[0] matches SendAction::Emit(e) && says_error(
                e,
                d.session_id@,
                d.agent_id@,
                "Execution failed: "@ + error@,
                opt_text(code),
            )
            &&& actions[1] matches SendAction::Emit(e) && says_idle(e, d.agent_id@)
            &&& actions[2] is FireStopHook
        },
        (SendStage::Naming { content, usage }, SendEvent::NameRead { state }) => if state
            == NameState::Unnamed {
            &&& next matches SendStage::Renaming { content: c, usage: u, name } && c == content && u
                == usage && name@ == session_name(content@)
            &&& actions.len() == 1
            &&& actions[0] matches SendAction::SaveSessionName(name) && name@ == session_name(
                content@,
            )
        } else {
            next is Done && ends_turn(actions, d, content@, usage)
        },
        (SendStage::Renaming { content, usage, name }, SendEvent::NameSaved { ok }) => {
            &&& next is Done
            &&& if ok {
                &&& actions.len() == 4
                &&& actions[0] matches SendAction::Emit(
                    GatewayEvent::SessionRenamed { session_id, name: n },
                ) && session_id@ == d.session_id@ && n == name
                &&& ends_turn(actions.skip(1), d, content@, usage)
            } else {
                ends_turn(actions, d, content@, usage)
            }
        },
        _ => next is Done && actions.len() == 0,
    }
}

fn push_end(actions: &mut Vec<SendAction>, d: &AgentDispatch, content: String, usage: Option<
    TokenUsage,
>)
    ensures
        final(actions)@.len() == old(actions)@.len() + 3,
        final(actions)@.take(old(actions)@.len() as int) == old(actions)@,
        ends_turn(final(actions)@.skip(old(actions)@.len() as int), *d, content@, usage),
{
    let ghost before = actions@;
    actions.push(
        SendAction::Emit(
            GatewayEvent::AgentResponse {
                session_id: d.session_id.clone(),
                agent_id: d.agent_id.clone(),
                content,
                channel: d.channel.clone(),
                conversation_id: d.session_id.clone(),
                usage,
            },
        ),
    );
    actions.push(SendAction::Emit(idle(&d.agent_id)));
    actions.push(SendAction::FireStopHook);
    assert(actions@.take(before.len() as int) =~= before);
}

/// The next step of sending a message to an agent, with the identifier of the
/// run that a finished turn is saved under.
pub fn send_step(d: &AgentDispatch, stage: SendStage, event: SendEvent, run_id: String) -> (r: (
    SendStage,
    Vec<SendAction>,
))
    ensures
        is_send_step(*d, stage, event, run_id, r.0, r.1@),
{
    let mut actions: Vec<SendAction> = Vec::new();
    match (stage, event) {
        (SendStage::Start, SendEvent::PromptChecked { refusal }) => match refusal {
            Some(reason) => {
                actions.push(
                    SendAction::Emit(
                        GatewayEvent::ProcessingError {
                            session_id: d.session_id.clone(),
                            agent_id: d.agent_id.clone(),
                            message: reason,
                            code: None,
                        },
                    ),
                );
                (SendStage::Done, actions)
            },
            None => {
                actions.push(SendAction::LookUpAgent);
                (SendStage::LookingUp, actions)
            },
        },
        (SendStage::LookingUp, SendEvent::AgentLookedUp { running, registered }) => {
            if running {
                actions.push(SendAction::ResolveModel);
                (SendStage::Preparing, actions)
            } else if registered {
                actions.push(SendAction::SpawnAgent);
                (SendStage::Spawning, actions)
            } else {
                (SendStage::Done, actions)
            }
        },
        (SendStage::Spawning, SendEvent::SpawnFinished { ok }) => {
            if ok {
                actions.push(SendAction::PollAgent { after_ms: 0 });
                (SendStage::Polling(0), actions)
            } else {
                (SendStage::Done, actions)
            }
        },
        (SendStage::Polling(n), SendEvent::HandlePolled { present }) => {
            if present {
                actions.push(SendAction::ResolveModel);
                (SendStage::Preparing, actions)
            } else if n < 9 {
                actions.push(SendAction::PollAgent { after_ms: 100 });
                (SendStage::Polling(n + 1), actions)
            } else {
                (SendStage::Done, actions)
            }
        },
        (SendStage::Preparing, SendEvent::ModelResolved { model }) => {
            actions.push(SendAction::SetExtraParams(thinking_params(&d.think_level)));
            actions.push(SendAction::SetSessionModel(model));
            if is_some_text(&d.queue_mode, "interrupt") {
                actions.push(SendAction::CancelSession);
            }
            actions.push(SendAction::Emit(processing(&d.agent_id, &d.session_id)));
            actions.push(SendAction::Execute(make_incoming(d)));
            (SendStage::Running, actions)
        },
        (SendStage::Running, SendEvent::TurnCompleted { outgoing, reasoning_hidden }) => {
            if let Some(usage) = outgoing.usage {
                actions.push(
                    SendAction::CountUsage { usage, tool_calls: outgoing.tool_calls },
                );
            }
            let reasoning_content = if reasoning_hidden {
                None
            } else {
                outgoing.reasoning_content
            };
            actions.push(
                SendAction::SaveResponse {
                    content: outgoing.content.clone(),
                    reasoning_content,
                    tool_calls_json: outgoing.tool_calls_json,
                    run_id,
                },
            );
            actions.push(SendAction::ReadSessionName);
            (SendStage::Naming { content: outgoing.content, usage: outgoing.usage }, actions)
        },
        (SendStage::Running, SendEvent::TurnFailed { error, code }) => {
            actions.push(
                SendAction::Emit(
                    GatewayEvent::ProcessingError {
                        session_id: d.session_id.clone(),
                        agent_id: d.agent_id.clone(),
                        message: crate::text::cat("Execution failed: ", &error),
                        code,
                    },
                ),
            );
            actions.push(SendAction::Emit(idle(&d.agent_id)));
            actions.push(SendAction::FireStopHook);
            (SendStage::Done, actions)
        },
        (SendStage::Naming { content, usage }, SendEvent::NameRead { state }) => {
            if state == NameState::Unnamed {
                let name = extract_session_name(&content);
                actions.push(SendAction::SaveSessionName(name.clone()));
                (SendStage::Renaming { content, usage, name }, actions)
            } else {
                push_end(&mut actions, d, content, usage);
                assert(actions@.skip(0) =~= actions@);
                (SendStage::Done, actions)
            }
        },
        (SendStage::Renaming { content, usage, name }, SendEvent::NameSaved { ok }) => {
            if ok {
                actions.push(
                    SendAction::Emit(
                        GatewayEvent::SessionRenamed { session_id: d.session_id.clone(), name },
                    ),
                );
                let ghost first = actions@;
                push_end(&mut actions, d, content, usage);
                assert(actions@.take(1)[0] == actions@[0]);
            } else {
                push_end(&mut actions, d, content, usage);
                assert(actions@.skip(0) =~= actions@);
            }
            (SendStage::Done, actions)
        },
        _ => (SendStage::Done, actions),
    }
}

/// Whether a text has the form of a random identifier: thirty-two lowercase
/// hexadecimal digits in five groups, the third of which starts with the version.
pub open spec fn is_run_id(s: Seq<char>) -> bool {
    &&& s.len() == 36
    &&& s[8] == '-' && s[13] == '-' && s[18] == '-' && s[23] == '-'
    &&& s[14] == '4'
    &&& forall|i: int|
        0 <= i < 36 && i != 8 && i != 13 && i != 18 && i != 23 ==> ('0' <= #[trigger] s[i] <= '9'
            || 'a' <= s[i] <= 'f')
}

/// `Uuid::new_v4` of `uuid`, as text: some identifier of that form. That two of
/// them differ is not claimed: it rests on chance.
#[verifier::external_body]
pub(crate) fn new_run_id() -> (r: String)
    ensures
        is_run_id(r@),
{
    uuid::Uuid::new_v4().to_string()
}

/// Send a single message to an agent: the next step. A finished turn is saved
/// under a fresh run identifier.
pub fn send_to_agent(d: &AgentDispatch, stage: SendStage, event: SendEvent) -> (r: (
    SendStage,
    Vec<SendAction>,
))
    ensures
        exists|run_id: String| #[trigger]
            is_send_step(*d, stage, event, run_id, r.0, r.1@) && is_run_id(run_id@),
{
    let run_id = new_run_id();
    send_step(d, stage, event, run_id)
}

/// A message that the prompt hook refuses goes no further: no agent is looked up
/// or spawned, no status is told and nothing reaches the queue.
pub proof fn law_refused_prompt_goes_no_further(
    d: AgentDispatch,
    reason: String,
    run_id: String,
    next: SendStage,
    actions: Seq<SendAction>,
)
    requires
        is_send_step(
            d,
            SendStage::Start,
            SendEvent::PromptChecked { refusal: Some(reason) },
            run_id,
            next,
            actions,
        ),
    ensures
        next is Done,
        forall|i: int|
            0 <= i < actions.len() ==> (#[trigger] actions[i] matches SendAction::Emit(
                GatewayEvent::ProcessingError { .. },
            )),
{
}

/// However it ends, a turn that ran leaves its agent idle and fires the stop
/// hook, once and last.
pub proof fn law_a_turn_ends_idle(
    d: AgentDispatch,
    stage: SendStage,
    event: SendEvent,
    run_id: String,
    next: SendStage,
    actions: Seq<SendAction>,
)
    requires
        is_send_step(d, stage, event, run_id, next, actions),
        next is Done,
        (stage is Running && event is TurnFailed) || (stage is Naming && event is NameRead) || (
        stage is Renaming && event is NameSaved),
    ensures
        actions.len() >= 3,
        actions.last() is FireStopHook,
        actions[actions.len() - 2] matches SendAction::Emit(e) && says_idle(e, d.agent_id@),
        forall|i: int|
            0 <= i < actions.len() - 1 ==> !(#[trigger] actions[i] is FireStopHook),
{
    if stage is Renaming && event == (SendEvent::NameSaved { ok: true }) {
        assert(actions.skip(1)[0] == actions[1]);
        assert(actions.skip(1)[1] == actions[2]);
        assert(actions.skip(1)[2] == actions[3]);
    }
}

} // verus!
