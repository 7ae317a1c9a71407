//! Session and status commands.
use vstd::prelude::*;
use vstd::string::*;

use super::{
    built_in_commands, catalog, command_models, error_reply, help_asked, is_error, is_text,
    text_reply, CommandCategory, CommandDef, CommandModel, CommandTier, HelpArgs, Reply,
};
use crate::json::{json_text, printed, text_of, whole_model, Json, JsonModel};
use crate::strmap::StrMap;
use crate::text::{
    cat, chars_of, decimal, decimal_of, decimal_of_usize, head_and_rest, is_digit, is_digit_char,
    join, joined, parse_u64, same, split_head, starts_with, string_of_range, texts, trim, trimmed,
    u64_of,
};

verus! {

// ---------------------------------------------------------------------------
// /help
// ---------------------------------------------------------------------------

/// A page of the command list.
#[derive(Debug)]
pub struct HelpPayload {
    pub text: String,
    pub page: usize,
    pub total_pages: usize,
    pub total_commands: usize,
    pub tier: Option<CommandTier>,
}

/// The commands of a tier, or all of them.
pub open spec fn of_tier(commands: Seq<CommandModel>, tier: Option<CommandTier>) -> Seq<
    CommandModel,
> {
    match tier {
        Some(t) => commands.filter(|c: CommandModel| c.tier == t),
        None => commands,
    }
}

/// How many commands stand on a page.
pub const PAGE_SIZE: usize = 8;

/// How many pages so many commands take, at least one.
pub open spec fn pages_for(n: int) -> int {
    if n == 0 {
        1
    } else {
        (n + 7) / 8
    }
}

/// The page that is shown when `page` is asked for: the first one at least, and the
/// last one at most.
pub open spec fn shown_page(page: int, n: int) -> int {
    if page < 1 {
        1
    } else if page > pages_for(n) {
        pages_for(n)
    } else {
        page
    }
}

/// The commands on a page.
pub open spec fn on_page(commands: Seq<CommandModel>, page: int) -> Seq<CommandModel> {
    let start = (page - 1) * 8;
    let end = if start + 8 < commands.len() {
        start + 8
    } else {
        commands.len() as int
    };
    commands.subrange(start, end)
}

/// The aliases of a command as they are shown.
pub open spec fn shown_aliases(c: CommandModel) -> Seq<char> {
    if c.aliases.len() == 0 {
        Seq::empty()
    } else {
        " (alias: "@ + joined(c.aliases.map_values(|a: Seq<char>| "/"@ + a), ", "@) + ")"@
    }
}

/// The arguments of a command as they are shown.
pub open spec fn shown_args(c: CommandModel) -> Seq<char> {
    if c.args is Some && c.args->0.len() > 0 {
        " `"@ + c.args->0 + "`"@
    } else {
        Seq::empty()
    }
}

/// The line of a command.
pub open spec fn command_line(c: CommandModel) -> Seq<char> {
    "- `/"@ + c.name + shown_args(c) + "`"@ + shown_aliases(c) + c.description
        + if c.requires_admin {
        " `[admin]`"@
    } else {
        Seq::empty()
    }
}

/// The lines of the commands of a category, under its title; nothing for a
/// category without commands.
pub open spec fn category_lines(
    commands: Seq<CommandModel>,
    category: CommandCategory,
    title: Seq<char>,
) -> Seq<Seq<char>> {
    let of_category = commands.filter(|c: CommandModel| c.category == category);
    if of_category.len() == 0 {
        Seq::empty()
    } else {
        seq!["### "@ + title] + of_category.map_values(|c: CommandModel| command_line(c))
            + seq![Seq::empty()]
    }
}

/// The lines of a page.
pub open spec fn help_lines(commands: Seq<CommandModel>) -> Seq<Seq<char>> {
    seq!["📋 **Syscity Commands**"@, Seq::empty()] + category_lines(
        commands,
        CommandCategory::Session,
        "🗂️ Session"@,
    ) + category_lines(commands, CommandCategory::Model, "🧠 Model"@) + category_lines(
        commands,
        CommandCategory::Status,
        "ℹ️ Status"@,
    ) + category_lines(commands, CommandCategory::Agents, "🤖 Agents"@) + category_lines(
        commands,
        CommandCategory::Tools,
        "🛠️ Tools"@,
    ) + category_lines(commands, CommandCategory::Admin, "🔒 Admin"@)
}

fn slashed(aliases: &Vec<String>) -> (r: Vec<String>)
    ensures
        texts(r@) == texts(aliases@).map_values(|a: Seq<char>| "/"@ + a),
{
    let mut out: Vec<String> = Vec::new();
    let mut i: usize = 0;
    while i < aliases.len()
        invariant
            i <= aliases@.len(),
            out@.len() == i,
            forall|k: int| 0 <= k < i ==> (#[trigger] out@[k])@ == "/"@ + aliases@[k]@,
        decreases aliases.len() - i,
    {
        out.push(cat("/", &aliases[i]));
        i += 1;
    }
    assert(texts(out@) =~= texts(aliases@).map_values(|a: Seq<char>| "/"@ + a));
    out
}

fn line_of(c: &CommandDef) -> (r: String)
    ensures
        r@ == command_line(c@),
{
    let mut args = String::new();
    if let Some(a) = &c.args {
        if !a.as_str().is_empty() {
            args = " `".to_string();
            args.append(a);
            args.append("`");
        }
    }
    let mut alias = String::new();
    if !c.aliases.is_empty() {
        let list = slashed(&c.aliases);
        alias = " (alias: ".to_string();
        alias.append(&join(list.as_slice(), ", "));
        alias.append(")");
    }
    assert(args@ == shown_args(c@));
    assert(alias@ == shown_aliases(c@));
    let mut s = "- `/".to_string();
    s.append(&c.name);
    s.append(&args);
    s.append("`");
    s.append(&alias);
    s.append(&c.description);
    if c.requires_admin {
        s.append(" `[admin]`");
    } else {
        assert(s@ + Seq::<char>::empty() =~= s@);
    }
    s
}

fn push_category(
    lines: &mut Vec<String>,
    commands: &Vec<&CommandDef>,
    category: CommandCategory,
    title: &str,
)
    ensures
        texts(final(lines)@) == texts(old(lines)@) + category_lines(
            commands@.map_values(|c: &CommandDef| c@),
            category,
            title@,
        ),
{
    let ghost before = texts(lines@);
    let ghost all = commands@.map_values(|c: &CommandDef| c@);
    let ghost p = |c: CommandModel| c.category == category;
    let ghost f = |c: CommandModel| command_line(c);
    let mut found: Vec<String> = Vec::new();
    let mut i: usize = 0;
    assert(all.take(0) =~= Seq::empty());
    assert(texts(found@) =~= all.take(0).filter(p).map_values(f)) by {
        reveal(Seq::filter);
    }
    while i < commands.len()
        invariant
            i <= commands@.len(),
            all == commands@.map_values(|c: &CommandDef| c@),
            p == (|c: CommandModel| c.category == category),
            f == (|c: CommandModel| command_line(c)),
            texts(found@) == all.take(i as int).filter(p).map_values(f),
        decreases commands.len() - i,
    {
        let c = commands[i];
        let ghost mid = found@;
        proof {
            let head = all.take(i as int);
            assert(all[i as int] == c@);
            assert(all.take(i + 1) =~= head.push(c@));
            head.lemma_filter_push(c@, p);
            assert(head.filter(p).push(c@).map_values(f) =~= head.filter(p).map_values(f).push(
                command_line(c@),
            ));
        }
        if c.category == category {
            found.push(line_of(c));
            assert(texts(found@) =~= texts(mid).push(command_line(c@)));
        }
        i += 1;
    }
    assert(all.take(commands@.len() as int) =~= all);
    let ghost shown = texts(found@);
    assert(shown.len() == all.filter(p).len());
    if found.is_empty() {
        assert(before + Seq::<Seq<char>>::empty() =~= before);
        return ;
    }
    lines.push(cat("### ", title));
    let ghost mid = texts(lines@);
    assert(mid =~= before.push("### "@ + title@));
    lines.append(&mut found);
    assert(texts(lines@) =~= mid + shown);
    lines.push(String::new());
    assert(texts(lines@) =~= before + (seq!["### "@ + title@] + shown + seq![Seq::empty()]));
}

/// The page of the command list that the arguments ask for.
pub fn handle_help(args: &str) -> (r: HelpPayload)
    ensures
        ({
            let (page, tier) = help_asked(args@);
            let listed = of_tier(catalog(), tier);
            &&& r.tier == tier
            &&& r.total_commands == listed.len()
            &&& r.total_pages == pages_for(listed.len() as int)
            &&& r.page == shown_page(page as int, listed.len() as int)
            &&& r.text@ == joined(help_lines(on_page(listed, r.page as int)), "\n"@)
        }),
{
    let commands = built_in_commands();
    help_page(&commands, HelpArgs::parse(args))
}

/// The page of a list of commands that is asked for.
pub fn help_page(commands: &Vec<CommandDef>, asked: HelpArgs) -> (r: HelpPayload)
    ensures
        ({
            let listed = of_tier(command_models(commands@), asked.tier);
            &&& r.tier == asked.tier
            &&& r.total_commands == listed.len()
            &&& r.total_pages == pages_for(listed.len() as int)
            &&& r.page == shown_page(asked.page as int, listed.len() as int)
            &&& r.text@ == joined(help_lines(on_page(listed, r.page as int)), "\n"@)
        }),
{
    let ghost all = command_models(commands@);
    let ghost listed = of_tier(all, asked.tier);
    let mut filtered: Vec<&CommandDef> = Vec::new();
    let mut i: usize = 0;
    assert(all.take(0) =~= Seq::empty());
    assert(of_tier(all.take(0), asked.tier) =~= Seq::empty()) by {
        reveal(Seq::filter);
    }
    assert(filtered@.map_values(|c: &CommandDef| c@) =~= of_tier(all.take(0), asked.tier));
    while i < commands.len()
        invariant
            i <= commands@.len(),
            all == command_models(commands@),
            filtered@.map_values(|c: &CommandDef| c@) == of_tier(all.take(i as int), asked.tier),
            filtered@.len() <= i,
        decreases commands.len() - i,
    {
        let c = &commands[i];
        let ghost mid = filtered@;
        proof {
            assert(all[i as int] == c@);
            assert(all.take(i + 1) =~= all.take(i as int).push(c@));
            if asked.tier is Some {
                all.take(i as int).lemma_filter_push(
                    c@,
                    |c: CommandModel| c.tier == asked.tier->0,
                );
            }
        }
        let keep = match asked.tier {
            Some(t) => c.tier == t,
            None => true,
        };
        if keep {
            filtered.push(c);
            assert(filtered@.map_values(|c: &CommandDef| c@) =~= mid.map_values(
                |c: &CommandDef| c@,
            ).push(c@));
        }
        i += 1;
    }
    assert(all.take(commands@.len() as int) =~= all);
    let total_commands = filtered.len();
    let total_pages: usize = if total_commands == 0 {
        1
    } else {
        (total_commands - 1) / PAGE_SIZE + 1
    };
    let page: usize = if asked.page == 0 {
        1
    } else if asked.page > total_pages {
        total_pages
    } else {
        asked.page
    };
    assert(total_pages == pages_for(listed.len() as int));
    assert((page - 1) * 8 <= total_commands) by {
        assert(total_pages == 1 || (total_pages - 1) * 8 < total_commands);
    }
    let start: usize = (page - 1) * PAGE_SIZE;
    let end: usize = if total_commands - start > PAGE_SIZE {
        start + PAGE_SIZE
    } else {
        total_commands
    };
    let mut page_commands: Vec<&CommandDef> = Vec::new();
    let mut k: usize = start;
    while k < end
        invariant
            start <= k <= end <= filtered@.len(),
            page_commands@ == filtered@.subrange(start as int, k as int),
        decreases end - k,
    {
        page_commands.push(filtered[k]);
        k += 1;
    }
    let ghost shown = page_commands@.map_values(|c: &CommandDef| c@);
    assert(shown =~= on_page(listed, page as int));
    let mut lines: Vec<String> = vec!["📋 **Syscity Commands**".to_string(), String::new()];
    assert(texts(lines@) =~= seq!["📋 **Syscity Commands**"@, Seq::empty()]);
    push_category(&mut lines, &page_commands, CommandCategory::Session, "🗂️ Session");
    push_category(&mut lines, &page_commands, CommandCategory::Model, "🧠 Model");
    push_category(&mut lines, &page_commands, CommandCategory::Status, "ℹ️ Status");
    push_category(&mut lines, &page_commands, CommandCategory::Agents, "🤖 Agents");
    push_category(&mut lines, &page_commands, CommandCategory::Tools, "🛠️ Tools");
    push_category(&mut lines, &page_commands, CommandCategory::Admin, "🔒 Admin");
    HelpPayload {
        text: join(lines.as_slice(), "\n"),
        page,
        total_pages,
        total_commands,
        tier: asked.tier,
    }
}

/// A tier, as a payload names it.
pub open spec fn tier_model(tier: Option<CommandTier>) -> JsonModel {
    match tier {
        Some(CommandTier::Essential) => JsonModel::Text("essential"@),
        Some(CommandTier::Standard) => JsonModel::Text("standard"@),
        Some(CommandTier::Power) => JsonModel::Text("power"@),
        None => JsonModel::Null,
    }
}

/// The payload of a page of the command list.
pub fn help_json(p: &HelpPayload) -> (r: Json)
    ensures
        r@ == JsonModel::Object(
            seq![
                ("text"@, JsonModel::Text(p.text@)),
                ("page"@, whole_model(p.page as u64)),
                ("total_pages"@, whole_model(p.total_pages as u64)),
                ("total_commands"@, whole_model(p.total_commands as u64)),
                ("tier"@, tier_model(p.tier)),
            ],
        ),
{
    let tier = match p.tier {
        Some(CommandTier::Essential) => Json::text("essential"),
        Some(CommandTier::Standard) => Json::text("standard"),
        Some(CommandTier::Power) => Json::text("power"),
        None => Json::Null,
    };
    let r = Json::object(
        vec![
            ("text".to_string(), Json::text(&p.text)),
            ("page".to_string(), Json::whole(p.page as u64)),
            ("total_pages".to_string(), Json::whole(p.total_pages as u64)),
            ("total_commands".to_string(), Json::whole(p.total_commands as u64)),
            ("tier".to_string(), tier),
        ],
    );
    assert(r@->Object_0 =~= seq![
        ("text"@, JsonModel::Text(p.text@)),
        ("page"@, whole_model(p.page as u64)),
        ("total_pages"@, whole_model(p.total_pages as u64)),
        ("total_commands"@, whole_model(p.total_commands as u64)),
        ("tier"@, tier_model(p.tier)),
    ]);
    r
}

/// Every command of the list stands on exactly one page: the command at position
/// `i` on page `i / 8 + 1`, at place `i % 8`.
pub proof fn law_every_command_is_on_one_page(commands: Seq<CommandModel>, i: int)
    requires
        0 <= i < commands.len(),
    ensures
        1 <= i / 8 + 1 <= pages_for(commands.len() as int),
        shown_page(i / 8 + 1, commands.len() as int) == i / 8 + 1,
        i % 8 < on_page(commands, i / 8 + 1).len() <= 8,
        on_page(commands, i / 8 + 1)[i % 8] == commands[i],
{
}

// ---------------------------------------------------------------------------
// Status, identity, stop and reset
// ---------------------------------------------------------------------------

/// How many agents and sessions there are.
pub fn handle_status(agents: usize, sessions: usize) -> (r: Reply)
    ensures
        is_text(
            r,
            "📊 **Status**\n\nActive agents: "@ + decimal(agents as nat) + "\nActive sessions: "@
                + decimal(sessions as nat) + "\nStatus: healthy"@,
        ),
{
    let mut s = "📊 **Status**\n\nActive agents: ".to_string();
    s.append(&decimal_of_usize(agents));
    s.append("\nActive sessions: ");
    s.append(&decimal_of_usize(sessions));
    s.append("\nStatus: healthy");
    Reply::Text(s)
}

/// Who asks, and what the connection may do.
pub fn handle_whoami(user: &str, scopes: &[String]) -> (r: Reply)
    ensures
        is_text(
            r,
            "👤 **Whoami**\n\nUser: `"@ + user@ + "`\nScopes: `"@ + joined(texts(scopes@), ", "@)
                + "`"@,
        ),
{
    let mut s = "👤 **Whoami**\n\nUser: `".to_string();
    s.append(user);
    s.append("`\nScopes: `");
    s.append(&join(scopes, ", "));
    s.append("`");
    Reply::Text(s)
}

/// What is said when the connection's session is stopped.
pub fn handle_stop(session: &Option<String>) -> (r: Reply)
    ensures
        is_text(
            r,
            match *session {
                Some(sid) => "⏹️ Stop signal sent for session `"@ + sid@ + "`."@,
                None => "⏹️ No active session to stop."@,
            },
        ),
{
    match session {
        Some(sid) => {
            let mut s = "⏹️ Stop signal sent for session `".to_string();
            s.append(sid);
            s.append("`.");
            Reply::Text(s)
        },
        None => text_reply("⏹️ No active session to stop."),
    }
}

/// What is said when the connection's session is reset.
pub fn handle_reset(session: &Option<String>) -> (r: Reply)
    ensures
        is_text(
            r,
            match *session {
                Some(sid) => "🔄 Session `"@ + sid@ + "` reset."@,
                None => "🔄 No active session to reset."@,
            },
        ),
{
    match session {
        Some(sid) => {
            let mut s = "🔄 Session `".to_string();
            s.append(sid);
            s.append("` reset.");
            Reply::Text(s)
        },
        None => text_reply("🔄 No active session to reset."),
    }
}

// ---------------------------------------------------------------------------
// Compaction and context
// ---------------------------------------------------------------------------

/// What compacting did to a session.
#[derive(Debug)]
pub struct Compaction {
    /// How many messages there were and are, if there is a context.
    pub messages: Option<(usize, usize)>,
    /// Where the transcript was written, or why it was not.
    pub transcript: Result<String, String>,
}

/// What is said of the messages.
pub open spec fn messages_line(messages: Option<(usize, usize)>) -> Seq<char> {
    match messages {
        Some((before, after)) => if after < before {
            "Messages compressed: "@ + decimal(before as nat) + " → "@ + decimal(after as nat)
        } else {
            "Messages: "@ + decimal(before as nat) + " (no reduction needed)"@
        },
        None => "No context found to compact."@,
    }
}

/// What is said of the transcript.
pub open spec fn transcript_line(transcript: Result<String, String>) -> Seq<char> {
    match transcript {
        Ok(path) => "Transcript flushed to `"@ + path@ + "`."@,
        Err(e) => "Transcript export failed: "@ + e@,
    }
}

/// The lines of a compaction.
pub open spec fn compact_lines(sid: Seq<char>, done: Compaction, instructions: Seq<char>) -> Seq<
    Seq<char>,
> {
    seq![
        "🗜️ **Compacted session `"@ + sid + "`**"@,
        messages_line(done.messages),
        transcript_line(done.transcript),
    ] + if instructions.len() > 0 {
        seq!["Instructions: "@ + instructions]
    } else {
        Seq::empty()
    }
}

/// What is said of a compaction: there must be a session and its agent.
pub fn handle_compact(session: &Option<String>, done: Option<Compaction>, args: &str) -> (r: Reply)
    ensures
        match *session {
            None => is_text(r, "🗜️ No active session to compact."@),
            Some(sid) => match done {
                None => is_text(r, "🗜️ Agent not found for this session."@),
                Some(d) => is_text(r, joined(compact_lines(sid@, d, trimmed(args@)), "\n"@)),
            },
        },
{
    let sid = match session {
        Some(sid) => sid,
        None => {
            return text_reply("🗜️ No active session to compact.");
        },
    };
    let done = match done {
        Some(d) => d,
        None => {
            return text_reply("🗜️ Agent not found for this session.");
        },
    };
    let instructions = trim(args);
    let mut title = "🗜️ **Compacted session `".to_string();
    title.append(sid);
    title.append("`**");
    let messages = match done.messages {
        Some((before, after)) => {
            if after < before {
                let mut s = "Messages compressed: ".to_string();
                s.append(&decimal_of_usize(before));
                s.append(" → ");
                s.append(&decimal_of_usize(after));
                s
            } else {
                let mut s = "Messages: ".to_string();
                s.append(&decimal_of_usize(before));
                s.append(" (no reduction needed)");
                s
            }
        },
        None => "No context found to compact.".to_string(),
    };
    let ghost transcript_model = transcript_line(done.transcript);
    let transcript = match done.transcript {
        Ok(path) => {
            let mut s = "Transcript flushed to `".to_string();
            s.append(&path);
            s.append("`.");
            s
        },
        Err(e) => cat("Transcript export failed: ", &e),
    };
    let mut lines: Vec<String> = vec![title, messages, transcript];
    if !instructions.as_str().is_empty() {
        lines.push(cat("Instructions: ", &instructions));
    }
    assert(texts(lines@) =~= compact_lines(sid@, done, instructions@));
    Reply::Text(join(lines.as_slice(), "\n"))
}

/// What an agent knows of a session's context.
#[derive(Debug, Clone, Copy, PartialEq, Eq, Structural)]
pub struct ContextInfo {
    pub messages: usize,
    pub tokens: usize,
    pub max_tokens: usize,
    pub prompt_chars: usize,
    pub tool_iterations: usize,
}

/// Whether a runtime setting is shown with a context.
pub open spec fn is_context_setting(key: Seq<char>) -> bool {
    "context."@.is_prefix_of(key) || "session."@.is_prefix_of(key)
}

/// The lines of the runtime settings that are shown, in their order.
pub open spec fn setting_lines(entries: Seq<(String, Json)>) -> Seq<Seq<char>>
    decreases entries.len(),
{
    if entries.len() == 0 {
        Seq::empty()
    } else {
        let (k, v) = entries.last();
        if is_context_setting(k@) {
            setting_lines(entries.drop_last()).push("  "@ + k@ + " = "@ + printed(v@))
        } else {
            setting_lines(entries.drop_last())
        }
    }
}

/// The lines of a context.
pub open spec fn context_lines(
    sid: Seq<char>,
    info: ContextInfo,
    settings: Seq<(String, Json)>,
) -> Seq<Seq<char>> {
    seq![
        "📜 **Context for `"@ + sid + "`**"@,
        "Messages: "@ + decimal(info.messages as nat),
        "Tokens: "@ + decimal(info.tokens as nat) + " / "@ + decimal(info.max_tokens as nat),
        "System prompt length: "@ + decimal(info.prompt_chars as nat) + " chars"@,
        "Tool iterations: "@ + decimal(info.tool_iterations as nat),
    ] + if settings.len() > 0 {
        seq!["\nRuntime settings:"@] + setting_lines(settings)
    } else {
        Seq::empty()
    }
}

/// What is known of the context of the connection's session: `known` is what its
/// agent says, if it has one.
pub fn handle_context(
    session: &Option<String>,
    known: Option<Option<ContextInfo>>,
    settings: &StrMap<Json>,
) -> (r: Reply)
    ensures
        match (*session, known) {
            (None, _) => is_text(r, "📜 No active session to inspect."@),
            (Some(_), None) => is_text(r, "📜 Agent not found for this session."@),
            (Some(sid), Some(None)) => is_text(
                r,
                "📜 No context found for session `"@ + sid@ + "`."@,
            ),
            (Some(sid), Some(Some(info))) => is_text(
                r,
                joined(context_lines(sid@, info, settings.list()), "\n"@),
            ),
        },
{
    let sid = match session {
        Some(sid) => sid,
        None => {
            return text_reply("📜 No active session to inspect.");
        },
    };
    let info = match known {
        None => {
            return text_reply("📜 Agent not found for this session.");
        },
        Some(None) => {
            let mut s = "📜 No context found for session `".to_string();
            s.append(sid);
            s.append("`.");
            return Reply::Text(s);
        },
        Some(Some(info)) => info,
    };
    let mut title = "📜 **Context for `".to_string();
    title.append(sid);
    title.append("`**");
    let mut tokens = cat("Tokens: ", &decimal_of_usize(info.tokens));
    tokens.append(" / ");
    tokens.append(&decimal_of_usize(info.max_tokens));
    let mut prompt = cat("System prompt length: ", &decimal_of_usize(info.prompt_chars));
    prompt.append(" chars");
    let mut lines: Vec<String> = vec![
        title,
        cat("Messages: ", &decimal_of_usize(info.messages)),
        tokens,
        prompt,
        cat("Tool iterations: ", &decimal_of_usize(info.tool_iterations)),
    ];
    let ghost head = texts(lines@);
    let n = settings.len();
    let ghost entries = settings.list();
    if n > 0 {
        lines.push("\nRuntime settings:".to_string());
        let ghost base = texts(lines@);
        assert(base =~= head + seq!["\nRuntime settings:"@]);
        let mut i: usize = 0;
        assert(base + setting_lines(entries.take(0)) =~= base);
        while i < n
            invariant
                i <= n,
                n == entries.len(),
                entries == settings.list(),
                texts(lines@) == base + setting_lines(entries.take(i as int)),
            decreases n - i,
        {
            let k = settings.key_at(i);
            let v = settings.value_at(i);
            let ghost mid = lines@;
            proof {
                assert(entries.take(i + 1).drop_last() =~= entries.take(i as int));
                assert(entries.take(i + 1).last() == entries[i as int]);
            }
            if starts_with(k, "context.") || starts_with(k, "session.") {
                let mut s = cat("  ", k);
                s.append(" = ");
                s.append(&json_text(v));
                let ghost line = s@;
                lines.push(s);
                proof {
                    assert(texts(lines@) =~= texts(mid).push(line));
                    assert(line == "  "@ + k@ + " = "@ + printed(v@));
                    let shown = setting_lines(entries.take(i as int));
                    assert(setting_lines(entries.take(i + 1)) == shown.push(line));
                    assert(texts(lines@) =~= base + shown.push(line));
                }
            }
            i += 1;
        }
        assert(entries.take(n as int) =~= entries);
        assert(texts(lines@) =~= head + (seq!["\nRuntime settings:"@] + setting_lines(entries)));
    } else {
        assert(head + Seq::<Seq<char>>::empty() =~= head);
    }
    assert(texts(lines@) =~= context_lines(sid@, info, entries));
    Reply::Text(join(lines.as_slice(), "\n"))
}

// ---------------------------------------------------------------------------
// Usage
// ---------------------------------------------------------------------------

/// What was used, with the amounts of money as they are shown.
#[derive(Debug)]
pub struct UsageFigures {
    pub tokens: u64,
    pub calls: u64,
    /// Today's spending in dollars, with two decimals, and in cents.
    pub spend: String,
    pub spend_cents: u64,
    pub hourly_actions: u64,
    /// The daily limit in dollars, with two decimals, if there is one.
    pub limit: Option<String>,
    /// The hourly limit of actions (0 = none).
    pub hourly_limit: u64,
    pub exceeded: bool,
}

/// What the `/usage` command does.
#[derive(Debug)]
pub enum UsageCommand {
    /// Remember the display mode and say so.
    SetMode { mode: String, reply: Reply },
    /// Answer, in a display mode.
    Show { mode: String, reply: Reply },
    /// Refuse the argument.
    Refuse(Reply),
}

/// Whether a text is a display mode.
pub open spec fn is_usage_mode(mode: Seq<char>) -> bool {
    mode == "off"@ || mode == "tokens"@ || mode == "full"@ || mode == "cost"@
}

/// The line of today's spending.
pub open spec fn spend_line(u: UsageFigures) -> Seq<char> {
    "Daily spend: $"@ + u.spend@ + " ("@ + decimal(u.spend_cents as nat) + " cents)"@
}

/// The lines of the full display.
pub open spec fn usage_lines(u: UsageFigures) -> Seq<Seq<char>> {
    seq![
        "📊 **Usage**"@,
        "Estimated tokens: "@ + decimal(u.tokens as nat),
        "Tool calls: "@ + decimal(u.calls as nat),
        spend_line(u),
        "Hourly actions: "@ + decimal(u.hourly_actions as nat),
    ] + (match u.limit {
        Some(l) => seq!["Daily limit: $"@ + l@],
        None => Seq::empty(),
    }) + (if u.hourly_limit > 0 {
        seq!["Hourly action limit: "@ + decimal(u.hourly_limit as nat)]
    } else {
        Seq::empty()
    }) + (if u.exceeded {
        seq!["⚠️ Budget limit exceeded."@]
    } else {
        Seq::empty()
    })
}

/// What is shown in a display mode.
pub open spec fn usage_text(mode: Seq<char>, u: UsageFigures) -> Seq<char> {
    if mode == "off"@ {
        "📊 Usage tracking display is disabled."@
    } else if mode == "tokens"@ {
        "📊 **Usage (tokens)**\n\nEstimated tokens: "@ + decimal(u.tokens as nat)
            + "\nTool calls: "@ + decimal(u.calls as nat)
    } else if mode == "cost"@ {
        "📊 **Usage (cost)**\n\n"@ + spend_line(u) + "\nHourly actions: "@ + decimal(
            u.hourly_actions as nat,
        )
    } else {
        joined(usage_lines(u), "\n"@)
    }
}

fn spend_of(u: &UsageFigures) -> (r: String)
    ensures
        r@ == spend_line(*u),
{
    let mut s = cat("Daily spend: $", &u.spend);
    s.append(" (");
    s.append(&decimal_of(u.spend_cents));
    s.append(" cents)");
    s
}

/// What is shown in a display mode.
pub fn show_usage(mode: &str, u: &UsageFigures) -> (r: String)
    ensures
        r@ == usage_text(mode@, *u),
{
    if same(mode, "off") {
        "📊 Usage tracking display is disabled.".to_string()
    } else if same(mode, "tokens") {
        let mut s = "📊 **Usage (tokens)**\n\nEstimated tokens: ".to_string();
        s.append(&decimal_of(u.tokens));
        s.append("\nTool calls: ");
        s.append(&decimal_of(u.calls));
        s
    } else if same(mode, "cost") {
        let mut s = "📊 **Usage (cost)**\n\n".to_string();
        s.append(&spend_of(u));
        s.append("\nHourly actions: ");
        s.append(&decimal_of(u.hourly_actions));
        s
    } else {
        let mut lines: Vec<String> = vec![
            "📊 **Usage**".to_string(),
            cat("Estimated tokens: ", &decimal_of(u.tokens)),
            cat("Tool calls: ", &decimal_of(u.calls)),
            spend_of(u),
            cat("Hourly actions: ", &decimal_of(u.hourly_actions)),
        ];
        if let Some(l) = &u.limit {
            lines.push(cat("Daily limit: $", l));
        }
        if u.hourly_limit > 0 {
            lines.push(cat("Hourly action limit: ", &decimal_of(u.hourly_limit)));
        }
        if u.exceeded {
            lines.push("⚠️ Budget limit exceeded.".to_string());
        }
        assert(texts(lines@) =~= usage_lines(*u));
        join(lines.as_slice(), "\n")
    }
}

/// What the `/usage` command does: an argument sets the display mode, and without
/// one the figures are shown in the mode that was set, `full` if none was.
pub fn handle_usage(args: &str, mode_setting: Option<&Json>, figures: &UsageFigures) -> (r:
    UsageCommand)
    ensures
        ({
            let arg = trimmed(args@);
            if arg.len() == 0 {
                let shown = match mode_setting {
                    Some(j) => match text_of(j@) {
                        Some(m) => m,
                        None => "full"@,
                    },
                    None => "full"@,
                };
                r matches UsageCommand::Show { mode, reply } && mode@ == shown && is_text(
                    reply,
                    usage_text(shown, *figures),
                )
            } else if is_usage_mode(arg) {
                r matches UsageCommand::SetMode { mode, reply } && mode@ == arg && is_text(
                    reply,
                    "📊 Usage display mode set to '"@ + arg + "'."@,
                )
            } else {
                r matches UsageCommand::Refuse(reply) && is_error(
                    reply,
                    "INVALID_ARGS"@,
                    "Usage: /usage [off|tokens|full|cost]"@,
                )
            }
        }),
{
    let arg = trim(args);
    if arg.as_str().is_empty() {
        let mut mode = "full".to_string();
        if let Some(j) = mode_setting {
            if let Some(m) = j.as_str() {
                mode = m.clone();
            }
        }
        let text = show_usage(&mode, figures);
        UsageCommand::Show { mode, reply: Reply::Text(text) }
    } else if same(&arg, "off") || same(&arg, "tokens") || same(&arg, "full") || same(
        &arg,
        "cost",
    ) {
        let mut s = "📊 Usage display mode set to '".to_string();
        s.append(&arg);
        s.append("'.");
        UsageCommand::SetMode { mode: arg, reply: Reply::Text(s) }
    } else {
        UsageCommand::Refuse(
            error_reply("INVALID_ARGS", "Usage: /usage [off|tokens|full|cost]"),
        )
    }
}

// ---------------------------------------------------------------------------
// Timeouts
// ---------------------------------------------------------------------------

/// How many digits stand at or after `from` without a break.
pub open spec fn digits_end(s: Seq<char>, from: int) -> int
    decreases s.len() - from,
{
    if 0 <= from < s.len() && is_digit(s[from]) {
        digits_end(s, from + 1)
    } else {
        from
    }
}

/// The seconds of a unit of time.
pub open spec fn unit_seconds(unit: Seq<char>) -> Option<nat> {
    if unit == "s"@ || unit == "sec"@ || unit == "secs"@ {
        Some(1)
    } else if unit == "m"@ || unit == "min"@ || unit == "mins"@ {
        Some(60)
    } else if unit == "h"@ || unit == "hr"@ || unit == "hrs"@ {
        Some(3600)
    } else if unit == "d"@ || unit == "day"@ || unit == "days"@ {
        Some(86400)
    } else {
        None
    }
}

/// The seconds that a text stands for: `off` for as long as can be, else a number
/// of at most 64 bits with a unit.
pub open spec fn duration_seconds(text: Seq<char>) -> Option<nat> {
    let s = trimmed(text);
    if s == "off"@ {
        Some(u64::MAX as nat)
    } else {
        let end = digits_end(s, 0);
        if end == 0 {
            None
        } else {
            match (u64_of(s.take(end)), unit_seconds(s.skip(end))) {
                (Some(n), Some(unit)) => Some(n as nat * unit),
                _ => None,
            }
        }
    }
}

/// Whether the seconds that a text stands for can be counted in 64 bits.
pub open spec fn can_time(text: Seq<char>) -> bool {
    duration_seconds(text) is Some ==> duration_seconds(text)->0 <= u64::MAX
}

fn unit_of(unit: &str) -> (r: Option<u64>)
    ensures
        match r {
            Some(n) => unit_seconds(unit@) == Some(n as nat) && 1 <= n <= 86400,
            None => unit_seconds(unit@) is None,
        },
{
    if same(unit, "s") || same(unit, "sec") || same(unit, "secs") {
        Some(1)
    } else if same(unit, "m") || same(unit, "min") || same(unit, "mins") {
        Some(60)
    } else if same(unit, "h") || same(unit, "hr") || same(unit, "hrs") {
        Some(3600)
    } else if same(unit, "d") || same(unit, "day") || same(unit, "days") {
        Some(86400)
    } else {
        None
    }
}

/// The number and the unit that a text is made of, `off` aside.
fn duration_parts(s: &String) -> (r: Option<(u64, u64)>)
    ensures
        ({
            let end = digits_end(s@, 0);
            match r {
                Some((n, unit)) => end > 0 && u64_of(s@.take(end)) == Some(n) && unit_seconds(
                    s@.skip(end),
                ) == Some(unit as nat) && 1 <= unit <= 86400,
                None => end == 0 || u64_of(s@.take(end)) is None || unit_seconds(s@.skip(end))
                    is None,
            }
        }),
{
    let cs = chars_of(s);
    let mut end: usize = 0;
    while end < cs.len() && is_digit_char(cs[end])
        invariant
            end <= cs@.len(),
            cs@ == s@,
            digits_end(s@, 0) == digits_end(s@, end as int),
        decreases cs.len() - end,
    {
        end += 1;
    }
    if end == 0 {
        return None;
    }
    let number = string_of_range(&cs, 0, end);
    let unit = string_of_range(&cs, end, cs.len());
    assert(number@ =~= s@.take(end as int));
    assert(unit@ =~= s@.skip(end as int));
    match (parse_u64(&number), unit_of(&unit)) {
        (Some(n), Some(u)) => Some((n, u)),
        _ => None,
    }
}

/// Whether the seconds that a text stands for can be counted in 64 bits.
pub fn duration_fits(s: &str) -> (r: bool)
    ensures
        r == can_time(s@),
{
    let s = trim(s);
    if same(&s, "off") {
        return true;
    }
    match duration_parts(&s) {
        Some((n, unit)) => {
            assert(n * unit <= u64::MAX * 86400) by (nonlinear_arith)
                requires
                    0 <= n <= u64::MAX,
                    1 <= unit <= 86400,
            ;
            n as u128 * unit as u128 <= u64::MAX as u128
        },
        None => true,
    }
}

/// The seconds that a text like `30m`, `1h`, `2d` or `off` stands for.
pub fn parse_duration(s: &str) -> (r: Option<u64>)
    requires
        can_time(s@),
    ensures
        match r {
            Some(n) => duration_seconds(s@) == Some(n as nat),
            None => duration_seconds(s@) is None,
        },
{
    let s = trim(s);
    if same(&s, "off") {
        return Some(u64::MAX);
    }
    match duration_parts(&s) {
        Some((n, unit)) => Some(n * unit),
        None => None,
    }
}

/// What the `/session` command does.
#[derive(Debug)]
pub enum SessionCommand {
    /// Answer.
    Reply(Reply),
    /// Set the timeout, remember the setting and say so.
    SetTimeout { seconds: u64, key: String, value: String, reply: Reply },
}

/// The setting of a timeout as it was made.
pub open spec fn current_timeout(settings: Map<Seq<char>, Json>, key: Seq<char>) -> Seq<char> {
    if settings.dom().contains(key) {
        match text_of(settings[key]@) {
            Some(s) => s,
            None => "default"@,
        }
    } else {
        "default"@
    }
}

/// Whether `r` is what the `/session` command does with its arguments.
pub open spec fn is_session_command(
    args: Seq<char>,
    settings: Map<Seq<char>, Json>,
    r: SessionCommand,
) -> bool {
    let (sub, rest) = head_and_rest(trimmed(args));
    let value = trimmed(rest);
    if sub == "idle"@ || sub == "max-age"@ {
        if value.len() == 0 {
            r matches SessionCommand::Reply(reply) && is_text(
                reply,
                "⏱️ Session "@ + sub + ": "@ + current_timeout(settings, "session."@ + sub),
            )
        } else {
            match duration_seconds(value) {
                Some(n) => r matches SessionCommand::SetTimeout {
                    seconds,
                    key,
                    value: v,
                    reply,
                } && seconds == n && key@ == "session."@ + sub && v@ == value && is_text(
                    reply,
                    "⏱️ Session "@ + sub + " set to '"@ + value + "'."@,
                ),
                None => r matches SessionCommand::Reply(reply) && is_error(
                    reply,
                    "INVALID_ARGS"@,
                    "Invalid duration. Use: 30m, 1h, 2d, or off"@,
                ),
            }
        }
    } else {
        r matches SessionCommand::Reply(reply) && is_error(
            reply,
            "INVALID_ARGS"@,
            "Usage: /session idle|max-age <duration|off>"@,
        )
    }
}

/// Whether the arguments of the `/session` command set no timeout, or one whose
/// seconds can be counted in 64 bits.
pub open spec fn can_set_session(args: Seq<char>) -> bool {
    let (sub, rest) = head_and_rest(trimmed(args));
    (sub == "idle"@ || sub == "max-age"@) ==> can_time(trimmed(rest))
}

/// Whether the arguments of the `/session` command set no timeout, or one whose
/// seconds can be counted in 64 bits.
pub fn session_fits(args: &str) -> (r: bool)
    ensures
        r == can_set_session(args@),
{
    let (sub, rest) = split_head(&trim(args));
    !(same(&sub, "idle") || same(&sub, "max-age")) || duration_fits(&trim(&rest))
}

/// What the `/session` command does: `idle` and `max-age` show or set a timeout.
pub fn handle_session(args: &str, settings: &StrMap<Json>) -> (r: SessionCommand)
    requires
        can_set_session(args@),
    ensures
        is_session_command(args@, settings@, r),
{
    let trimmed_args = trim(args);
    let (sub, rest) = split_head(&trimmed_args);
    let value = trim(&rest);
    if same(&sub, "idle") || same(&sub, "max-age") {
        let key = cat("session.", &sub);
        if value.as_str().is_empty() {
            let mut current = "default".to_string();
            if let Some(j) = settings.get(&key) {
                if let Some(s) = j.as_str() {
                    current = s.clone();
                }
            }
            let mut s = cat("⏱️ Session ", &sub);
            s.append(": ");
            s.append(&current);
            return SessionCommand::Reply(Reply::Text(s));
        }
        match parse_duration(&value) {
            Some(seconds) => {
                let mut s = cat("⏱️ Session ", &sub);
                s.append(" set to '");
                s.append(&value);
                s.append("'.");
                SessionCommand::SetTimeout { seconds, key, value, reply: Reply::Text(s) }
            },
            None => SessionCommand::Reply(
                error_reply("INVALID_ARGS", "Invalid duration. Use: 30m, 1h, 2d, or off"),
            ),
        }
    } else {
        SessionCommand::Reply(
            error_reply("INVALID_ARGS", "Usage: /session idle|max-age <duration|off>"),
        )
    }
}

// ---------------------------------------------------------------------------
// Export
// ---------------------------------------------------------------------------

/// What is said of an exported session: `exported` is where it was written, or
/// why it was not.
pub fn handle_export_session(session: &Option<String>, exported: Result<String, String>) -> (r:
    Reply)
    ensures
        match (*session, exported) {
            (None, _) => is_text(r, "📄 No active session to export."@),
            (Some(sid), Ok(path)) => is_text(
                r,
                "📄 **Session `"@ + sid@ + "` exported**\n\nHTML: `"@ + path@ + "`"@,
            ),
            (Some(_), Err(e)) => is_error(
                r,
                "EXPORT_FAILED"@,
                "Failed to export session: "@ + e@,
            ),
        },
{
    match (session, exported) {
        (None, _) => text_reply("📄 No active session to export."),
        (Some(sid), Ok(path)) => {
            let mut s = cat("📄 **Session `", sid);
            s.append("` exported**\n\nHTML: `");
            s.append(&path);
            s.append("`");
            Reply::Text(s)
        },
        (Some(_), Err(e)) => error_reply(
            "EXPORT_FAILED",
            &cat("Failed to export session: ", &e),
        ),
    }
}

} // verus!
