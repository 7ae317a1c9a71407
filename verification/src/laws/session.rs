//! Laws of the commands on sessions and of help.
use vstd::prelude::*;

use crate::gateway::commands::{
    built_in_commands, command_models, CommandCategory, CommandDef, CommandModel, CommandTier,
    HelpArgs, Reply,
};
use crate::gateway::commands::session::{
    category_lines, command_line, context_lines, digits_end, duration_seconds, handle_compact,
    handle_context, handle_export_session, handle_help, handle_reset, handle_session, handle_status,
    handle_stop, handle_usage, handle_whoami, help_json, help_lines, help_page, of_tier, on_page,
    parse_duration, setting_lines, Compaction, ContextInfo, HelpPayload, SessionCommand,
    UsageCommand, UsageFigures,
};
use crate::json::{field, printed, unsigned_of, Json, JsonModel};
use crate::laws::answers::is_trim;
use crate::laws::text::{
    law_a_text_begins_with_its_first_word, law_a_text_occurs_where_it_stands,
    law_a_trimmed_text_stays, law_decimals_read_back, law_what_is_joined_holds_its_parts,
    lemma_occurs_in_more, lemma_occurs_through,
};
use crate::strmap::StrMap;
use crate::text::{
    decimal, is_digit, is_space, joined, lemma_decimal_digits, lemma_filter_has, occurs, texts,
    trimmed, u64_of,
};

verus! {

/// The seconds of a unit of time.
pub open spec fn seconds_in(unit: Seq<char>) -> nat {
    if unit == "s"@ || unit == "sec"@ || unit == "secs"@ {
        1
    } else if unit == "m"@ || unit == "min"@ || unit == "mins"@ {
        60
    } else if unit == "h"@ || unit == "hr"@ || unit == "hrs"@ {
        60 * 60
    } else if unit == "d"@ || unit == "day"@ || unit == "days"@ {
        24 * 60 * 60
    } else {
        0
    }
}

/// A number with a unit is so many times the seconds of the unit: a minute has 60
/// seconds, an hour 60 minutes, a day 24 hours. To switch a timeout off is to set
/// it to the longest time.
pub proof fn law_a_duration_is_its_number_of_units(
    s: &str,
    n: u64,
    unit: Seq<char>,
    r: Option<u64>,
)
    requires
        call_ensures(parse_duration, (s,), r),
    ensures
        s@ == decimal(n as nat) + unit && seconds_in(unit) > 0 && n * seconds_in(unit) <= u64::MAX
            ==> r == Some((n * seconds_in(unit)) as u64),
        s@ == "off"@ ==> r == Some(u64::MAX),
        s@ == decimal(n as nat) ==> r is None,
{
    lemma_decimal_digits(n as nat);
    reveal_strlit("off");
    assert("off"@.len() == 3 && "off"@[0] == 'o' && "off"@[2] == 'f');
    let d = decimal(n as nat);
    if s@ == "off"@ {
        law_a_trimmed_text_stays(s@);
    }
    if s@ == d + unit && seconds_in(unit) > 0 {
        lemma_units(unit);
        assert(s@[0] == d[0]);
        assert(s@.last() == unit.last());
        law_a_trimmed_text_stays(s@);
        lemma_digits_end(s@, d.len() as int, 0);
        assert(s@.take(d.len() as int) =~= d);
        assert(s@.skip(d.len() as int) =~= unit);
        law_decimals_read_back(n as nat);
        assert(u64_of(d) == Some(n));
    }
    if s@ == d {
        law_a_trimmed_text_stays(s@);
        lemma_digits_end(s@, d.len() as int, 0);
        assert(s@.skip(d.len() as int).len() == 0);
        lemma_units(s@.skip(d.len() as int));
    }
}

proof fn lemma_units(unit: Seq<char>)
    ensures
        seconds_in(unit) > 0 ==> unit.len() > 0 && !is_digit(unit[0]) && !is_space(unit.last()),
        seconds_in(unit) > 0 ==> crate::gateway::commands::session::unit_seconds(unit) == Some(
            seconds_in(unit),
        ),
        unit.len() == 0 ==> crate::gateway::commands::session::unit_seconds(unit) is None,
{
    reveal_strlit("s");
    reveal_strlit("sec");
    reveal_strlit("secs");
    reveal_strlit("m");
    reveal_strlit("min");
    reveal_strlit("mins");
    reveal_strlit("h");
    reveal_strlit("hr");
    reveal_strlit("hrs");
    reveal_strlit("d");
    reveal_strlit("day");
    reveal_strlit("days");
    assert("s"@.len() == 1 && "s"@[0] == 's');
    assert("sec"@.len() == 3 && "sec"@[0] == 's' && "sec"@[2] == 'c');
    assert("secs"@.len() == 4 && "secs"@[0] == 's' && "secs"@[3] == 's');
    assert("m"@.len() == 1 && "m"@[0] == 'm');
    assert("min"@.len() == 3 && "min"@[0] == 'm' && "min"@[2] == 'n');
    assert("mins"@.len() == 4 && "mins"@[0] == 'm' && "mins"@[3] == 's');
    assert("h"@.len() == 1 && "h"@[0] == 'h');
    assert("hr"@.len() == 2 && "hr"@[0] == 'h' && "hr"@[1] == 'r');
    assert("hrs"@.len() == 3 && "hrs"@[0] == 'h' && "hrs"@[2] == 's');
    assert("d"@.len() == 1 && "d"@[0] == 'd');
    assert("day"@.len() == 3 && "day"@[0] == 'd' && "day"@[2] == 'y');
    assert("days"@.len() == 4 && "days"@[0] == 'd' && "days"@[3] == 's');
}

proof fn lemma_digits_end(s: Seq<char>, end: int, from: int)
    requires
        0 <= from <= end <= s.len(),
        forall|i: int| 0 <= i < end ==> is_digit(#[trigger] s[i]),
        end == s.len() || !is_digit(s[end]),
    ensures
        digits_end(s, from) == end,
    decreases end - from,
{
    if from < end {
        lemma_digits_end(s, end, from + 1);
    }
}

/// The timeout that is set is the one that is named, to the duration that is
/// given and under its own key; the idle timeout and the age never stand for one
/// another.
pub proof fn law_the_named_timeout_is_set(
    args: &str,
    settings: &StrMap<Json>,
    sub: Seq<char>,
    value: Seq<char>,
    r: SessionCommand,
)
    requires
        call_ensures(handle_session, (args, settings), r),
        args@ == sub + seq![' '] + value,
        is_trim(value),
        sub == "idle"@ || sub == "max-age"@,
    ensures
        duration_seconds(value) is Some ==> (r matches SessionCommand::SetTimeout {
            seconds,
            key,
            value: v,
            reply,
        } && seconds == duration_seconds(value)->0 && key@ == "session."@ + sub && v@ == value
            && reply is Text),
        duration_seconds(value) is None ==> (r matches SessionCommand::Reply(
            Reply::Error { code, .. },
        ) && code@ == "INVALID_ARGS"@),
{
    reveal_strlit("idle");
    reveal_strlit("max-age");
    assert("idle"@.len() == 4 && "idle"@[0] == 'i' && "idle"@[1] == 'd' && "idle"@[2] == 'l'
        && "idle"@[3] == 'e');
    assert("max-age"@.len() == 7 && "max-age"@[0] == 'm' && "max-age"@[1] == 'a' && "max-age"@[2]
        == 'x' && "max-age"@[3] == '-' && "max-age"@[4] == 'a' && "max-age"@[5] == 'g'
        && "max-age"@[6] == 'e');
    assert(args@[0] == sub[0]);
    assert(args@.last() == value.last());
    law_a_trimmed_text_stays(args@);
    law_a_trimmed_text_stays(value);
    assert(!sub.contains(' ')) by {
        if sub.contains(' ') {
            let i = choose|i: int| 0 <= i < sub.len() && sub[i] == ' ';
            assert(sub[i] == ' ');
        }
    }
    law_a_text_begins_with_its_first_word(sub, value);
}

/// What is told of a user, of the gateway or of a session is told in full and of
/// that one.
pub proof fn law_questions_are_answered_about_their_subject(
    agents: usize,
    sessions: usize,
    status: Reply,
    user: &str,
    scopes: &[String],
    whoami: Reply,
    session: &Option<String>,
    stop: Reply,
    reset: Reply,
    i: int,
)
    requires
        call_ensures(handle_status, (agents, sessions), status),
        call_ensures(handle_whoami, (user, scopes), whoami),
        call_ensures(handle_stop, (session,), stop),
        call_ensures(handle_reset, (session,), reset),
    ensures
        status is Text && whoami is Text && stop is Text && reset is Text,
        status->Text_0@ == "📊 **Status**\n\nActive agents: "@ + decimal(agents as nat)
            + "\nActive sessions: "@ + decimal(sessions as nat) + "\nStatus: healthy"@,
        occurs(whoami->Text_0@, user@),
        0 <= i < scopes@.len() ==> occurs(whoami->Text_0@, scopes@[i]@),
        *session is Some ==> stop->Text_0@ == "⏹️ Stop signal sent for session `"@ + session->0@
            + "`."@ && reset->Text_0@ == "🔄 Session `"@ + session->0@ + "` reset."@,
        *session is None ==> stop->Text_0@ == "⏹️ No active session to stop."@ && reset->Text_0@
            == "🔄 No active session to reset."@,
{
    let none = Seq::<char>::empty();
    let list = joined(texts(scopes@), ", "@);
    let tail = "`\nScopes: `"@ + list + "`"@;
    law_a_text_occurs_where_it_stands("👤 **Whoami**\n\nUser: `"@, user@, tail, none);
    assert("👤 **Whoami**\n\nUser: `"@ + user@ + tail =~= whoami->Text_0@);
    if 0 <= i < scopes@.len() {
        assert(texts(scopes@)[i] == scopes@[i]@);
        law_what_is_joined_holds_its_parts(texts(scopes@), ", "@, i);
        let front = "👤 **Whoami**\n\nUser: `"@ + user@ + "`\nScopes: `"@;
        lemma_occurs_in_more(front, list, "`"@, scopes@[i]@);
        assert(front + list + "`"@ =~= whoami->Text_0@);
    }
}

/// The mode that is asked for is the one that is remembered; a mode that there is
/// not is refused. Without a mode the remembered one is shown, and all figures
/// where none is remembered.
pub proof fn law_usage_remembers_the_mode(
    args: &str,
    mode_setting: Option<&Json>,
    figures: &UsageFigures,
    r: UsageCommand,
)
    requires
        call_ensures(handle_usage, (args, mode_setting, figures), r),
    ensures
        r matches UsageCommand::SetMode { mode, .. } ==> mode@ == trimmed(args@),
        r is SetMode <==> trimmed(args@) == "off"@ || trimmed(args@) == "tokens"@ || trimmed(args@)
            == "full"@ || trimmed(args@) == "cost"@,
        r is Show <==> trimmed(args@).len() == 0,
        r matches UsageCommand::Show { mode, reply } ==> {
            &&& mode_setting is None ==> mode@ == "full"@
            &&& mode_setting is Some && (mode_setting->0@ is Text) ==> mode@
                == mode_setting->0@->Text_0
            &&& reply is Text
            &&& mode@ == "tokens"@ ==> occurs(reply->Text_0@, decimal(figures.tokens as nat))
                && occurs(reply->Text_0@, decimal(figures.calls as nat))
            &&& mode@ == "cost"@ ==> occurs(reply->Text_0@, figures.spend@)
            &&& mode@ == "full"@ ==> occurs(reply->Text_0@, decimal(figures.tokens as nat))
                && occurs(reply->Text_0@, figures.spend@) && (figures.exceeded ==> occurs(
                reply->Text_0@,
                "⚠️ Budget limit exceeded."@,
            )) && (figures.limit is Some ==> occurs(reply->Text_0@, figures.limit->0@))
            &&& mode@ == "off"@ ==> reply->Text_0@ == "📊 Usage tracking display is disabled."@
        },
{
    reveal_strlit("off");
    reveal_strlit("tokens");
    reveal_strlit("full");
    reveal_strlit("cost");
    assert("off"@.len() == 3 && "tokens"@.len() == 6 && "full"@.len() == 4 && "cost"@.len() == 4
        && "full"@[0] == 'f' && "cost"@[0] == 'c');
    let none = Seq::<char>::empty();
    let u = *figures;
    let tokens = decimal(u.tokens as nat);
    let calls = decimal(u.calls as nat);
    let spend = crate::gateway::commands::session::spend_line(u);
    let cents = " ("@ + decimal(u.spend_cents as nat) + " cents)"@;
    law_a_text_occurs_where_it_stands("Daily spend: $"@, u.spend@, cents, none);
    assert("Daily spend: $"@ + u.spend@ + cents =~= spend);
    let head = "📊 **Usage (tokens)**\n\nEstimated tokens: "@;
    let short = head + tokens + "\nTool calls: "@ + calls;
    law_a_text_occurs_where_it_stands(head, tokens, "\nTool calls: "@ + calls, none);
    assert(head + tokens + ("\nTool calls: "@ + calls) =~= short);
    law_a_text_occurs_where_it_stands(head + tokens + "\nTool calls: "@, calls, none, none);
    assert(head + tokens + "\nTool calls: "@ + calls + none =~= short);
    let back = "\nHourly actions: "@ + decimal(u.hourly_actions as nat);
    lemma_occurs_in_more("📊 **Usage (cost)**\n\n"@, spend, back, u.spend@);
    assert("📊 **Usage (cost)**\n\n"@ + spend + back =~= "📊 **Usage (cost)**\n\n"@ + spend
        + "\nHourly actions: "@ + decimal(u.hourly_actions as nat));
    let lines = crate::gateway::commands::session::usage_lines(u);
    let full = joined(lines, "\n"@);
    assert(lines[1] == "Estimated tokens: "@ + tokens);
    assert(lines[3] == spend);
    law_what_is_joined_holds_its_parts(lines, "\n"@, 1);
    law_a_text_occurs_where_it_stands("Estimated tokens: "@, tokens, none, none);
    assert("Estimated tokens: "@ + tokens + none =~= lines[1]);
    lemma_occurs_through(full, lines[1], tokens);
    law_what_is_joined_holds_its_parts(lines, "\n"@, 3);
    lemma_occurs_through(full, spend, u.spend@);
    if u.exceeded {
        assert(lines.last() == "⚠️ Budget limit exceeded."@);
        law_what_is_joined_holds_its_parts(lines, "\n"@, lines.len() - 1);
    }
    if u.limit is Some {
        assert(lines[5] == "Daily limit: $"@ + u.limit->0@);
        law_what_is_joined_holds_its_parts(lines, "\n"@, 5);
        law_a_text_occurs_where_it_stands("Daily limit: $"@, u.limit->0@, none, none);
        assert("Daily limit: $"@ + u.limit->0@ + none =~= lines[5]);
        lemma_occurs_through(full, lines[5], u.limit->0@);
    }
}

/// A session that is compacted or shown is told with its figures; one that is
/// exported with where it went, or why it did not.
pub proof fn law_sessions_are_told_with_their_figures(
    session: &Option<String>,
    done: Option<Compaction>,
    args: &str,
    r: Reply,
    exported: Result<String, String>,
    e: Reply,
)
    requires
        call_ensures(handle_compact, (session, done, args), r),
        call_ensures(handle_export_session, (session, exported), e),
    ensures
        *session is None ==> r is Text && r->Text_0@ == "🗜️ No active session to compact."@,
        *session is Some && done is None ==> r is Text && r->Text_0@
            == "🗜️ Agent not found for this session."@,
        *session is Some && done is Some ==> r is Text && occurs(r->Text_0@, session->0@) && (
        done->0.messages matches Some((before, after)) ==> occurs(
            r->Text_0@,
            decimal(before as nat),
        ) && (after < before ==> occurs(r->Text_0@, decimal(after as nat)))) && (
        done->0.transcript matches Ok(path) ==> occurs(r->Text_0@, path@)),
        *session is None ==> e is Text,
        *session is Some ==> (e is Text <==> exported is Ok),
        *session is Some && exported is Ok ==> occurs(e->Text_0@, exported->Ok_0@) && occurs(
            e->Text_0@,
            session->0@,
        ),
        *session is Some && exported is Err ==> (e matches Reply::Error { code, message } && code@
            == "EXPORT_FAILED"@ && message@ == "Failed to export session: "@ + exported->Err_0@),
{
    let none = Seq::<char>::empty();
    if *session is Some && done is Some {
        let sid = session->0@;
        let d = done->0;
        let lines = crate::gateway::commands::session::compact_lines(sid, d, trimmed(args@));
        let all = joined(lines, "\n"@);
        law_what_is_joined_holds_its_parts(lines, "\n"@, 0);
        law_what_is_joined_holds_its_parts(lines, "\n"@, 1);
        law_what_is_joined_holds_its_parts(lines, "\n"@, 2);
        law_a_text_occurs_where_it_stands("🗜️ **Compacted session `"@, sid, "`**"@, none);
        assert(lines[0] == "🗜️ **Compacted session `"@ + sid + "`**"@);
        lemma_occurs_through(all, lines[0], sid);
        if d.messages is Some {
            let (before, after) = d.messages->0;
            let b = decimal(before as nat);
            let a = decimal(after as nat);
            if after < before {
                law_a_text_occurs_where_it_stands("Messages compressed: "@, b, " → "@ + a, none);
                assert("Messages compressed: "@ + b + (" → "@ + a) =~= lines[1]);
                law_a_text_occurs_where_it_stands(
                    "Messages compressed: "@ + b + " → "@,
                    a,
                    none,
                    none,
                );
                assert("Messages compressed: "@ + b + " → "@ + a + none =~= lines[1]);
                lemma_occurs_through(all, lines[1], a);
            } else {
                law_a_text_occurs_where_it_stands(
                    "Messages: "@,
                    b,
                    " (no reduction needed)"@,
                    none,
                );
            }
            lemma_occurs_through(all, lines[1], b);
        }
        if d.transcript is Ok {
            let path = d.transcript->Ok_0@;
            law_a_text_occurs_where_it_stands("Transcript flushed to `"@, path, "`."@, none);
            assert(lines[2] == "Transcript flushed to `"@ + path + "`."@);
            lemma_occurs_through(all, lines[2], path);
        }
    }
    if *session is Some && exported is Ok {
        let sid = session->0@;
        let path = exported->Ok_0@;
        let tail = "` exported**\n\nHTML: `"@ + path + "`"@;
        law_a_text_occurs_where_it_stands("📄 **Session `"@, sid, tail, none);
        assert("📄 **Session `"@ + sid + tail =~= e->Text_0@);
        let front = "📄 **Session `"@ + sid + "` exported**\n\nHTML: `"@;
        law_a_text_occurs_where_it_stands(front, path, "`"@, none);
    }
}

/// Help shows the page that is asked for, or the nearest that there is, of the
/// commands of the tier that is asked for, and counts them all; each command on
/// the page is shown by its name and its description.
pub proof fn law_help_shows_the_commands_of_its_page(
    commands: &Vec<CommandDef>,
    asked: HelpArgs,
    r: HelpPayload,
    i: int,
)
    requires
        call_ensures(help_page, (commands, asked), r),
    ensures
        ({
            let listed = of_tier(command_models(commands@), asked.tier);
            &&& r.total_commands == listed.len()
            &&& 8 * (r.total_pages - 1) <= listed.len() <= 8 * r.total_pages
            &&& 1 <= r.page <= r.total_pages
            &&& 1 <= asked.page <= r.total_pages ==> r.page == asked.page
            &&& 8 * (r.page - 1) <= i < 8 * r.page && i < listed.len() ==> occurs(
                r.text@,
                "/"@ + listed[i].name,
            ) && occurs(r.text@, listed[i].description)
        }),
        asked.tier is None ==> r.total_commands == commands@.len(),
        r.tier == asked.tier,
{
    let listed = of_tier(command_models(commands@), asked.tier);
    if 8 * (r.page - 1) <= i < 8 * r.page && i < listed.len() {
        let page = on_page(listed, r.page as int);
        let start = (r.page - 1) * 8;
        let k = i - start;
        assert(0 <= k < page.len());
        assert(page[k] == listed[i]);
        lemma_help_line(page, k);
        let lines = help_lines(page);
        let line = command_line(page[k]);
        let at = choose|at: int| 0 <= at < lines.len() && lines[at] == line;
        law_what_is_joined_holds_its_parts(lines, "\n"@, at);
        lemma_command_line(page[k]);
        lemma_occurs_through(r.text@, line, "/"@ + listed[i].name);
        lemma_occurs_through(r.text@, line, listed[i].description);
    }
}

proof fn lemma_command_line(c: CommandModel)
    ensures
        occurs(command_line(c), "/"@ + c.name),
        occurs(command_line(c), c.description),
{
    let none = Seq::<char>::empty();
    let args = crate::gateway::commands::session::shown_args(c);
    let aliases = crate::gateway::commands::session::shown_aliases(c);
    let mark = if c.requires_admin {
        " `[admin]`"@
    } else {
        none
    };
    reveal_strlit("- `/");
    reveal_strlit("/");
    let tail = args + "`"@ + aliases + c.description + mark;
    law_a_text_occurs_where_it_stands(seq!['-', ' ', '`'], "/"@ + c.name, tail, none);
    assert("- `/"@ =~= seq!['-', ' ', '`'] + "/"@);
    assert(seq!['-', ' ', '`'] + ("/"@ + c.name) + tail =~= command_line(c));
    let front = "- `/"@ + c.name + args + "`"@ + aliases;
    law_a_text_occurs_where_it_stands(front, c.description, mark, none);
    assert(front + c.description + mark =~= command_line(c));
}

proof fn lemma_help_line(commands: Seq<CommandModel>, i: int)
    requires
        0 <= i < commands.len(),
    ensures
        help_lines(commands).contains(command_line(commands[i])),
{
    let line = command_line(commands[i]);
    let a = category_lines(commands, CommandCategory::Session, "🗂️ Session"@);
    let b = category_lines(commands, CommandCategory::Model, "🧠 Model"@);
    let c = category_lines(commands, CommandCategory::Status, "ℹ️ Status"@);
    let d = category_lines(commands, CommandCategory::Agents, "🤖 Agents"@);
    let e = category_lines(commands, CommandCategory::Tools, "🛠️ Tools"@);
    let f = category_lines(commands, CommandCategory::Admin, "🔒 Admin"@);
    let all = help_lines(commands);
    match commands[i].category {
        CommandCategory::Session => {
            lemma_category_line(commands, CommandCategory::Session, "🗂️ Session"@, i);
            let k = choose|k: int| 0 <= k < a.len() && a[k] == line;
            assert(all[2 + k] == line);
        },
        CommandCategory::Model => {
            lemma_category_line(commands, CommandCategory::Model, "🧠 Model"@, i);
            let k = choose|k: int| 0 <= k < b.len() && b[k] == line;
            assert(all[2 + a.len() + k] == line);
        },
        CommandCategory::Status => {
            lemma_category_line(commands, CommandCategory::Status, "ℹ️ Status"@, i);
            let k = choose|k: int| 0 <= k < c.len() && c[k] == line;
            assert(all[2 + a.len() + b.len() + k] == line);
        },
        CommandCategory::Agents => {
            lemma_category_line(commands, CommandCategory::Agents, "🤖 Agents"@, i);
            let k = choose|k: int| 0 <= k < d.len() && d[k] == line;
            assert(all[2 + a.len() + b.len() + c.len() + k] == line);
        },
        CommandCategory::Tools => {
            lemma_category_line(commands, CommandCategory::Tools, "🛠️ Tools"@, i);
            let k = choose|k: int| 0 <= k < e.len() && e[k] == line;
            assert(all[2 + a.len() + b.len() + c.len() + d.len() + k] == line);
        },
        CommandCategory::Admin => {
            lemma_category_line(commands, CommandCategory::Admin, "🔒 Admin"@, i);
            let k = choose|k: int| 0 <= k < f.len() && f[k] == line;
            assert(all[2 + a.len() + b.len() + c.len() + d.len() + e.len() + k] == line);
        },
    }
}

proof fn lemma_category_line(
    commands: Seq<CommandModel>,
    category: CommandCategory,
    title: Seq<char>,
    i: int,
)
    requires
        0 <= i < commands.len(),
        commands[i].category == category,
    ensures
        category_lines(commands, category, title).contains(command_line(commands[i])),
{
    let p = |c: CommandModel| c.category == category;
    let own = commands.filter(p);
    lemma_filter_has(commands, p, commands[i]);
    let k = choose|k: int| 0 <= k < own.len() && own[k] == commands[i];
    assert(own.len() > 0);
    assert(category_lines(commands, category, title)[1 + k] == command_line(commands[i]));
}

/// Only the commands of the tier that is asked for are listed.
pub proof fn law_help_keeps_to_its_tier(
    commands: Seq<CommandModel>,
    tier: CommandTier,
    c: CommandModel,
)
    ensures
        of_tier(commands, Some(tier)).contains(c) <==> commands.contains(c) && c.tier == tier,
        of_tier(commands, None) == commands,
{
    let p = |c: CommandModel| c.tier == tier;
    lemma_filter_has(commands, p, c);
}

/// Help on what was written shows the page of the catalog that was asked for.
pub proof fn law_help_answers_what_was_written(
    args: &str,
    asked: HelpArgs,
    commands: Vec<CommandDef>,
    r: HelpPayload,
    q: HelpPayload,
)
    requires
        call_ensures(handle_help, (args,), r),
        call_ensures(HelpArgs::parse, (args,), asked),
        call_ensures(built_in_commands, (), commands),
        call_ensures(help_page, (&commands, asked), q),
    ensures
        r.text@ == q.text@,
        r.page == q.page,
        r.total_pages == q.total_pages,
        r.total_commands == q.total_commands,
        r.tier == q.tier,
{
}

/// A page of help is written down with its figures, each under its own name.
pub proof fn law_a_page_of_help_is_written_with_its_figures(p: &HelpPayload, r: Json)
    requires
        call_ensures(help_json, (p,), r),
    ensures
        field(r@, "text"@) == Some(JsonModel::Text(p.text@)),
        field(r@, "page"@) is Some && unsigned_of(field(r@, "page"@)->0) == Some(p.page as u64),
        field(r@, "total_pages"@) is Some && unsigned_of(field(r@, "total_pages"@)->0) == Some(
            p.total_pages as u64,
        ),
        field(r@, "total_commands"@) is Some && unsigned_of(field(r@, "total_commands"@)->0)
            == Some(p.total_commands as u64),
        p.tier is None ==> field(r@, "tier"@) == Some(JsonModel::Null),
        p.tier == Some(CommandTier::Essential) ==> field(r@, "tier"@) == Some(
            JsonModel::Text("essential"@),
        ),
        p.tier == Some(CommandTier::Standard) ==> field(r@, "tier"@) == Some(
            JsonModel::Text("standard"@),
        ),
        p.tier == Some(CommandTier::Power) ==> field(r@, "tier"@) == Some(
            JsonModel::Text("power"@),
        ),
{
    reveal_strlit("text");
    reveal_strlit("page");
    reveal_strlit("total_pages");
    reveal_strlit("total_commands");
    reveal_strlit("tier");
    assert("text"@.len() == 4 && "text"@[0] == 't' && "text"@[1] == 'e');
    assert("page"@.len() == 4 && "page"@[0] == 'p');
    assert("total_pages"@.len() == 11);
    assert("total_commands"@.len() == 14);
    assert("tier"@.len() == 4 && "tier"@[0] == 't' && "tier"@[1] == 'i');
    reveal_with_fuel(crate::json::member, 6);
}

/// The context of a session is shown with its figures.
pub proof fn law_the_context_is_shown_with_its_figures(
    session: &Option<String>,
    info: ContextInfo,
    settings: &StrMap<Json>,
    r: Reply,
)
    requires
        call_ensures(handle_context, (session, Some(Some(info)), settings), r),
        *session is Some,
    ensures
        r is Text,
        occurs(r->Text_0@, session->0@),
        occurs(r->Text_0@, "Messages: "@ + decimal(info.messages as nat)),
        occurs(
            r->Text_0@,
            "Tokens: "@ + decimal(info.tokens as nat) + " / "@ + decimal(info.max_tokens as nat),
        ),
        occurs(r->Text_0@, "Tool iterations: "@ + decimal(info.tool_iterations as nat)),
{
    let sid = session->0@;
    let lines = context_lines(sid, info, settings.list());
    let all = joined(lines, "\n"@);
    let none = Seq::<char>::empty();
    assert(lines[0] == "📜 **Context for `"@ + sid + "`**"@);
    assert(lines[1] == "Messages: "@ + decimal(info.messages as nat));
    assert(lines[2] == "Tokens: "@ + decimal(info.tokens as nat) + " / "@ + decimal(
        info.max_tokens as nat,
    ));
    assert(lines[4] == "Tool iterations: "@ + decimal(info.tool_iterations as nat));
    law_what_is_joined_holds_its_parts(lines, "\n"@, 0);
    law_what_is_joined_holds_its_parts(lines, "\n"@, 1);
    law_what_is_joined_holds_its_parts(lines, "\n"@, 2);
    law_what_is_joined_holds_its_parts(lines, "\n"@, 4);
    law_a_text_occurs_where_it_stands("📜 **Context for `"@, sid, "`**"@, none);
    lemma_occurs_through(all, lines[0], sid);
}

/// Every setting that belongs to a context or a session is shown with it.
pub proof fn law_the_settings_of_a_context_are_shown(
    sid: Seq<char>,
    info: ContextInfo,
    settings: Seq<(String, Json)>,
    i: int,
)
    requires
        0 <= i < settings.len(),
        "context."@.is_prefix_of(settings[i].0@) || "session."@.is_prefix_of(settings[i].0@),
    ensures
        context_lines(sid, info, settings).contains(
            "  "@ + settings[i].0@ + " = "@ + printed(settings[i].1@),
        ),
{
    let line = "  "@ + settings[i].0@ + " = "@ + printed(settings[i].1@);
    lemma_setting(settings, i, line);
    let shown = setting_lines(settings);
    let k = choose|k: int| 0 <= k < shown.len() && shown[k] == line;
    assert(context_lines(sid, info, settings)[6 + k] == shown[k]);
}

proof fn lemma_setting(entries: Seq<(String, Json)>, i: int, line: Seq<char>)
    requires
        0 <= i < entries.len(),
        crate::gateway::commands::session::is_context_setting(entries[i].0@),
        line == "  "@ + entries[i].0@ + " = "@ + printed(entries[i].1@),
    ensures
        setting_lines(entries).contains(line),
    decreases entries.len(),
{
    let now = setting_lines(entries);
    let less = entries.drop_last();
    if i == entries.len() - 1 {
        assert(now.last() == line);
        assert(now[now.len() - 1] == line);
    } else {
        assert(less[i] == entries[i]);
        lemma_setting(less, i, line);
        let before = setting_lines(less);
        let k = choose|k: int| 0 <= k < before.len() && before[k] == line;
        assert(now[k] == before[k]);
    }
}

/// A timeout that is not given is shown: as it was set, or as the default where it
/// was not. One that is given is confirmed with its value.
pub proof fn law_a_timeout_is_shown_or_confirmed(
    args: &str,
    settings: &StrMap<Json>,
    sub: Seq<char>,
    value: Seq<char>,
    r: SessionCommand,
)
    requires
        call_ensures(handle_session, (args, settings), r),
        sub == "idle"@ || sub == "max-age"@,
        is_trim(value),
    ensures
        args@ == sub && !settings@.dom().contains("session."@ + sub) ==> (
        r matches SessionCommand::Reply(Reply::Text(t)) && t@ == "⏱️ Session "@ + sub + ": "@
            + "default"@),
        args@ == sub && settings@.dom().contains("session."@ + sub) && (settings@["session."@
            + sub]@ is Text) ==> (r matches SessionCommand::Reply(Reply::Text(t)) && t@
            == "⏱️ Session "@ + sub + ": "@ + settings@["session."@ + sub]@->Text_0),
        args@ == sub + seq![' '] + value ==> (r matches SessionCommand::SetTimeout {
            reply: Reply::Text(t),
            ..
        } ==> t@ == "⏱️ Session "@ + sub + " set to '"@ + value + "'."@),
{
    reveal_strlit("idle");
    reveal_strlit("max-age");
    assert("idle"@.len() == 4 && "idle"@[0] == 'i' && "idle"@[1] == 'd' && "idle"@[2] == 'l'
        && "idle"@[3] == 'e');
    assert("max-age"@.len() == 7 && "max-age"@[0] == 'm' && "max-age"@[1] == 'a' && "max-age"@[2]
        == 'x' && "max-age"@[3] == '-' && "max-age"@[4] == 'a' && "max-age"@[5] == 'g'
        && "max-age"@[6] == 'e');
    assert(!sub.contains(' ')) by {
        if sub.contains(' ') {
            let i = choose|i: int| 0 <= i < sub.len() && sub[i] == ' ';
            assert(sub[i] == ' ');
        }
    }
    law_a_trimmed_text_stays(sub);
    law_a_trimmed_text_stays(value);
    law_a_trimmed_text_stays(Seq::empty());
    law_a_text_begins_with_its_first_word(sub, value);
    if args@ == sub + seq![' '] + value {
        assert(args@[0] == sub[0]);
        assert(args@.last() == value.last());
        law_a_trimmed_text_stays(args@);
    }
}

/// A command is shown with the arguments that it takes.
pub proof fn law_a_command_is_shown_with_its_arguments(c: CommandModel)
    requires
        c.args is Some,
        c.args->0.len() > 0,
    ensures
        occurs(command_line(c), c.args->0),
{
    let none = Seq::<char>::empty();
    let args = crate::gateway::commands::session::shown_args(c);
    let aliases = crate::gateway::commands::session::shown_aliases(c);
    let mark = if c.requires_admin {
        " `[admin]`"@
    } else {
        none
    };
    law_a_text_occurs_where_it_stands(" `"@, c.args->0, "`"@, none);
    let back = "`"@ + aliases + c.description + mark;
    lemma_occurs_in_more("- `/"@ + c.name, args, back, c.args->0);
    assert("- `/"@ + c.name + args + back =~= command_line(c));
}

/// A command is shown with the other words that it goes by.
pub proof fn law_a_command_is_shown_with_its_other_words(c: CommandModel, i: int)
    requires
        0 <= i < c.aliases.len(),
    ensures
        occurs(command_line(c), "/"@ + c.aliases[i]),
{
    let none = Seq::<char>::empty();
    let args = crate::gateway::commands::session::shown_args(c);
    let aliases = crate::gateway::commands::session::shown_aliases(c);
    let mark = if c.requires_admin {
        " `[admin]`"@
    } else {
        none
    };
    let list = c.aliases.map_values(|a: Seq<char>| "/"@ + a);
    law_what_is_joined_holds_its_parts(list, ", "@, i);
    lemma_occurs_in_more(" (alias: "@, joined(list, ", "@), ")"@, list[i]);
    let front = "- `/"@ + c.name + args + "`"@;
    let back = c.description + mark;
    lemma_occurs_in_more(front, aliases, back, list[i]);
    assert(front + aliases + back =~= command_line(c));
}

/// A command without arguments and other words is shown by its name and its
/// description, and behind that by a mark just where it is for administrators.
pub proof fn law_administrators_commands_are_marked(c: CommandModel)
    requires
        c.args is None,
        c.aliases.len() == 0,
    ensures
        !c.requires_admin ==> command_line(c) == "- `/"@ + c.name + "`"@ + c.description,
        c.requires_admin ==> command_line(c) == "- `/"@ + c.name + "`"@ + c.description
            + " `[admin]`"@,
{
    let none = Seq::<char>::empty();
    assert("- `/"@ + c.name + none =~= "- `/"@ + c.name);
    assert("- `/"@ + c.name + "`"@ + none =~= "- `/"@ + c.name + "`"@);
    assert("- `/"@ + c.name + "`"@ + c.description + none =~= "- `/"@ + c.name + "`"@
        + c.description);
}

} // verus!
