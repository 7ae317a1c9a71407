//! Laws of the dispatch of messages.
use vstd::prelude::*;

use crate::gateway::config::opt_model;
use crate::gateway::dispatch::{
    channel_of, contents, dispatch_routed_message, flush_session_buffer, is_flush, is_plan, waiting,
    waiting_in, AgentDispatch, BufferedMessage, DispatchPlan, GroupStanding, QueueMode,
    RoutedMessage, Waiting,
};
use crate::strmap::StrMap;
use crate::text::{joined, opt_text};

verus! {

/// Whatever a routed message sends, directly or out of the buffer, goes to the
/// session that the message came in and to the agent that it is routed to, with
/// the settings of that session, and is observed under that agent's name.
pub proof fn law_what_is_sent_goes_where_the_message_was_routed(
    p: DispatchPlan,
    routed: RoutedMessage,
    standing: Option<GroupStanding>,
    think_level: Option<Seq<char>>,
    queue_mode: Option<Seq<char>>,
    before: Map<Seq<char>, Seq<Waiting>>,
    after: Map<Seq<char>, Seq<Waiting>>,
)
    requires
        is_plan(p, routed, standing, think_level, queue_mode, before, after),
    ensures
        p.send matches Some(d) ==> {
            &&& d.session_id@ == routed.session_id@
            &&& d.agent_id@ == routed.agent_id@
            &&& opt_text(d.think_level) == think_level
            &&& opt_text(d.queue_mode) == queue_mode
            &&& d.channel_obs is Some
            &&& opt_text(d.channel_obs->0.route) == Some(routed.agent_id@)
        },
{
}

/// A message that is not to wait is sent as it was written: its text, its author,
/// its channel and its mentions, marked as enriched just where media came with it
/// and never as debounced.
pub proof fn law_a_message_that_does_not_wait_is_sent_as_written(
    p: DispatchPlan,
    routed: RoutedMessage,
    standing: Option<GroupStanding>,
    think_level: Option<Seq<char>>,
    queue_mode: Option<Seq<char>>,
    before: Map<Seq<char>, Seq<Waiting>>,
    after: Map<Seq<char>, Seq<Waiting>>,
)
    requires
        is_plan(p, routed, standing, think_level, queue_mode, before, after),
        !routed.suppress_delivery,
        standing is None || (standing->0.is_member && standing->0.can_participate != Some(false)),
        routed.queue_mode == QueueMode::Normal || routed.queue_mode == QueueMode::Interrupt
            || routed.queue_mode == QueueMode::Steer || (routed.queue_mode == QueueMode::Collect
            && (before.dom().contains(routed.session_id@) ==> before[routed.session_id@].len()
            == 0)),
    ensures
        p.send matches Some(d) && {
            &&& d.message@ == routed.content@
            &&& d.user_id@ == routed.user_id@
            &&& routed.channel is Some ==> d.channel@ == routed.channel->0@
            &&& routed.channel is None ==> d.channel@ == "unknown"@
            &&& opt_model(d.mentions) == opt_model(routed.mentions)
            &&& d.channel_obs is Some
            &&& !d.channel_obs->0.debounced
            &&& d.channel_obs->0.enriched == routed.has_media
        },
{
}

/// A message that is suppressed, or whose author the group does not admit, sets
/// nothing in motion and leaves every buffer alone; every other message is sent
/// or waits.
pub proof fn law_only_admitted_messages_have_an_effect(
    p: DispatchPlan,
    routed: RoutedMessage,
    standing: Option<GroupStanding>,
    think_level: Option<Seq<char>>,
    queue_mode: Option<Seq<char>>,
    before: Map<Seq<char>, Seq<Waiting>>,
    after: Map<Seq<char>, Seq<Waiting>>,
)
    requires
        is_plan(p, routed, standing, think_level, queue_mode, before, after),
    ensures
        routed.suppress_delivery || (standing is Some && (!standing->0.is_member
            || standing->0.can_participate == Some(false))) ==> p.send is None && !p.cancel_agent
            && !p.clear_timer && p.delay_ms == 0 && p.arm_timer_secs is None && after == before,
        !routed.suppress_delivery && (standing is None || (standing->0.is_member
            && standing->0.can_participate != Some(false))) ==> p.send is Some || (
        after.dom().contains(routed.session_id@) && after[routed.session_id@].len() > 0),
{
}

/// What a mode does to the running turn, to the session's timer and to its
/// buffer: only steering cancels the turn, and waits; interrupting forgets the
/// buffer unsent; collecting hands all of it out; a plain message and a steering
/// one leave it as it is.
pub proof fn law_modes_differ_in_what_they_stop(
    p: DispatchPlan,
    routed: RoutedMessage,
    standing: Option<GroupStanding>,
    think_level: Option<Seq<char>>,
    queue_mode: Option<Seq<char>>,
    before: Map<Seq<char>, Seq<Waiting>>,
    after: Map<Seq<char>, Seq<Waiting>>,
)
    requires
        is_plan(p, routed, standing, think_level, queue_mode, before, after),
        !routed.suppress_delivery,
        standing is None || (standing->0.is_member && standing->0.can_participate != Some(false)),
    ensures
        p.cancel_agent <==> routed.queue_mode == QueueMode::Steer,
        p.delay_ms == (if routed.queue_mode == QueueMode::Steer {
            100u64
        } else {
            0u64
        }),
        routed.queue_mode == QueueMode::Normal ==> !p.clear_timer && after == before,
        routed.queue_mode == QueueMode::Steer ==> p.clear_timer && after == before,
        routed.queue_mode == QueueMode::Interrupt || routed.queue_mode == QueueMode::Collect
            ==> p.clear_timer && (after.dom().contains(routed.session_id@)
            ==> after[routed.session_id@].len() == 0),
        p.arm_timer_secs is Some <==> routed.queue_mode == QueueMode::FollowUp && p.send is None,
        p.arm_timer_secs is Some ==> p.arm_timer_secs == Some(3u64) && !p.clear_timer,
{
}

/// A buffer is sent as one message: the texts in the order in which they came, a
/// blank line between two, under the author and the channel of the first.
pub proof fn law_a_buffer_is_sent_as_one_message(
    p: DispatchPlan,
    routed: RoutedMessage,
    standing: Option<GroupStanding>,
    think_level: Option<Seq<char>>,
    queue_mode: Option<Seq<char>>,
    before: Map<Seq<char>, Seq<Waiting>>,
    after: Map<Seq<char>, Seq<Waiting>>,
)
    requires
        is_plan(p, routed, standing, think_level, queue_mode, before, after),
        !routed.suppress_delivery,
        standing is None || (standing->0.is_member && standing->0.can_participate != Some(false)),
        before.dom().contains(routed.session_id@),
        before[routed.session_id@].len() > 0,
        routed.queue_mode == QueueMode::Collect || routed.queue_mode == QueueMode::FollowUp,
    ensures
        p.send matches Some(d) ==> {
            let held = before[routed.session_id@];
            let sent = if routed.queue_mode == QueueMode::Collect {
                held.map_values(|m: Waiting| m.content)
            } else {
                held.map_values(|m: Waiting| m.content).push(routed.content@)
            };
            &&& d.message@ == joined(sent, "\n\n"@)
            &&& d.user_id@ == held[0].user_id
            &&& d.channel@ == held[0].channel
            &&& d.mentions is None
            &&& d.channel_obs is Some && d.channel_obs->0.debounced && !d.channel_obs->0.enriched
        },
        routed.queue_mode == QueueMode::Collect ==> p.send is Some,
        routed.queue_mode == QueueMode::FollowUp ==> (p.send is Some
            <==> before[routed.session_id@].len() >= 4),
{
    let held = before[routed.session_id@];
    let texts_held = held.map_values(|m: Waiting| m.content);
    assert(contents(held) =~= texts_held);
    if routed.queue_mode == QueueMode::FollowUp && p.send is Some {
        let w = Waiting {
            content: routed.content@,
            user_id: routed.user_id@,
            channel: channel_of(routed),
        };
        assert(is_flush(
            p.send->0,
            routed.agent_id@,
            routed.session_id@,
            held.push(w),
            think_level,
            queue_mode,
        ));
        assert(contents(held.push(w)) =~= texts_held.push(routed.content@));
    }
}

/// A message that waits keeps its text, its author and its channel, behind those
/// that already wait.
pub proof fn law_a_waiting_message_is_kept_whole(
    p: DispatchPlan,
    routed: RoutedMessage,
    standing: Option<GroupStanding>,
    think_level: Option<Seq<char>>,
    queue_mode: Option<Seq<char>>,
    before: Map<Seq<char>, Seq<Waiting>>,
    after: Map<Seq<char>, Seq<Waiting>>,
)
    requires
        is_plan(p, routed, standing, think_level, queue_mode, before, after),
        !routed.suppress_delivery,
        standing is None || (standing->0.is_member && standing->0.can_participate != Some(false)),
        p.send is None,
    ensures
        after.dom().contains(routed.session_id@),
        after[routed.session_id@].last().content == routed.content@,
        after[routed.session_id@].last().user_id == routed.user_id@,
        routed.channel is Some ==> after[routed.session_id@].last().channel == routed.channel->0@,
        routed.channel is None ==> after[routed.session_id@].last().channel == "unknown"@,
        before.dom().contains(routed.session_id@) ==> after[routed.session_id@].drop_last()
            == before[routed.session_id@],
        !before.dom().contains(routed.session_id@) ==> after[routed.session_id@].len() == 1,
{
    let held = if before.dom().contains(routed.session_id@) {
        before[routed.session_id@]
    } else {
        Seq::empty()
    };
    let w = after[routed.session_id@].last();
    assert(after[routed.session_id@] =~= held.push(w));
    assert(held.push(w).drop_last() =~= held);
}

/// What is dispatched for a message goes to its session and its agent, whatever
/// waits, and no message waits or leaves in any other session.
pub proof fn law_a_dispatch_stays_in_its_session(
    buffers: &mut StrMap<Vec<BufferedMessage>>,
    routed: &RoutedMessage,
    standing: Option<GroupStanding>,
    think_level: &Option<String>,
    queue_mode: &Option<String>,
    p: DispatchPlan,
    other: Seq<char>,
)
    requires
        call_ensures(
            dispatch_routed_message,
            (buffers, routed, standing, think_level, queue_mode),
            p,
        ),
    ensures
        p.send matches Some(d) ==> {
            &&& d.session_id@ == routed.session_id@
            &&& d.agent_id@ == routed.agent_id@
            &&& opt_text(d.think_level) == opt_text(*think_level)
            &&& opt_text(d.queue_mode) == opt_text(*queue_mode)
        },
        other != routed.session_id@ ==> waiting_in(*final(buffers), other) == waiting_in(
            *old(buffers),
            other,
        ),
{
    let before = waiting(*old(buffers));
    let after = waiting(*final(buffers));
    law_what_is_sent_goes_where_the_message_was_routed(
        p,
        *routed,
        standing,
        opt_text(*think_level),
        opt_text(*queue_mode),
        before,
        after,
    );
    if other != routed.session_id@ {
        crate::gateway::dispatch::law_other_sessions_are_untouched(
            p,
            *routed,
            standing,
            opt_text(*think_level),
            opt_text(*queue_mode),
            before,
            after,
            other,
        );
    }
}

/// A buffer that is flushed is sent whole to its own session, under the author of
/// its first message, and is empty afterwards; an empty one sends nothing, and the
/// buffers of other sessions stay.
pub proof fn law_a_flush_empties_one_buffer(
    buffers: &mut StrMap<Vec<BufferedMessage>>,
    agent_id: &str,
    session_id: &str,
    think_level: &Option<String>,
    queue_mode: &Option<String>,
    r: Option<AgentDispatch>,
    other: Seq<char>,
)
    requires
        call_ensures(
            flush_session_buffer,
            (buffers, agent_id, session_id, think_level, queue_mode),
            r,
        ),
    ensures
        r is Some <==> waiting_in(*old(buffers), session_id@).len() > 0,
        waiting_in(*final(buffers), session_id@).len() == 0,
        other != session_id@ ==> waiting_in(*final(buffers), other) == waiting_in(
            *old(buffers),
            other,
        ),
        r matches Some(d) ==> {
            let held = waiting_in(*old(buffers), session_id@);
            &&& d.session_id@ == session_id@
            &&& d.agent_id@ == agent_id@
            &&& d.message@ == joined(held.map_values(|m: Waiting| m.content), "\n\n"@)
            &&& d.user_id@ == held[0].user_id
            &&& d.channel@ == held[0].channel
            &&& opt_text(d.think_level) == opt_text(*think_level)
            &&& opt_text(d.queue_mode) == opt_text(*queue_mode)
        },
{
    let held = waiting_in(*old(buffers), session_id@);
    assert(contents(held) =~= held.map_values(|m: Waiting| m.content));
}

} // verus!
