//! Tool, skill and approval commands.
use vstd::prelude::*;
use vstd::string::*;

use super::{error_reply, is_error, is_text, text_reply, Reply, UserLevel};
use crate::text::{
    cat, decimal, decimal_of_usize, head_and_rest, join, joined, opt_text, same, signed_decimal,
    signed_decimal_of, split_first, split_head, split_once, texts, trim, trimmed,
};

verus! {

// ---------------------------------------------------------------------------
// /tools
// ---------------------------------------------------------------------------

/// The lines of a list under a title.
pub open spec fn listed(title: Seq<char>, items: Seq<Seq<char>>) -> Seq<Seq<char>> {
    seq![title] + items.map_values(|n: Seq<char>| "- "@ + n)
}

/// A list under a title, one item in a line.
fn listing(title: &str, items: &[String]) -> (r: Reply)
    ensures
        is_text(r, joined(listed(title@, texts(items@)), "\n"@)),
{
    let mut lines: Vec<String> = vec![title.to_string()];
    let mut i: usize = 0;
    while i < items.len()
        invariant
            i <= items@.len(),
            lines@.len() == i + 1,
            lines@[0]@ == title@,
            forall|k: int| 0 <= k < i ==> (#[trigger] lines@[k + 1])@ == "- "@ + items@[k]@,
        decreases items.len() - i,
    {
        lines.push(cat("- ", &items[i]));
        i += 1;
    }
    assert forall|k: int| 0 <= k < lines@.len() implies texts(lines@)[k] == listed(
        title@,
        texts(items@),
    )[k] by {
        if k > 0 {
            assert(lines@[(k - 1) + 1]@ == "- "@ + items@[k - 1]@);
        }
    }
    assert(texts(lines@) =~= listed(title@, texts(items@)));
    Reply::Text(join(lines.as_slice(), "\n"))
}

/// The tools, one in a line when asked to be verbose.
pub fn handle_tools(args: &str, names: &[String]) -> (r: Reply)
    ensures
        is_text(
            r,
            if trimmed(args@) == "verbose"@ {
                joined(listed("🛠️ **Available Tools**"@, texts(names@)), "\n"@)
            } else {
                "🛠️ **Tools** ("@ + decimal(names@.len()) + " total): "@ + joined(
                    texts(names@),
                    ", "@,
                )
            },
        ),
{
    if same(&trim(args), "verbose") {
        listing("🛠️ **Available Tools**", names)
    } else {
        let mut s = cat("🛠️ **Tools** (", &decimal_of_usize(names.len()));
        s.append(" total): ");
        s.append(&join(names, ", "));
        Reply::Text(s)
    }
}

// ---------------------------------------------------------------------------
// /bash
// ---------------------------------------------------------------------------

/// The command to run, or why there is none.
pub fn handle_bash(args: &str) -> (r: Result<String, Reply>)
    ensures
        if trimmed(args@).len() == 0 {
            r matches Err(e) && is_error(e, "INVALID_ARGS"@, "Usage: /bash <command>"@)
        } else {
            r matches Ok(command) && command@ == trimmed(args@)
        },
{
    let command = trim(args);
    if command.as_str().is_empty() {
        Err(error_reply("INVALID_ARGS", "Usage: /bash <command>"))
    } else {
        Ok(command)
    }
}

/// What a command left behind.
#[derive(Debug)]
pub struct CommandOutput {
    pub stdout: String,
    pub stderr: String,
    /// The exit code, if the command was not killed.
    pub code: Option<i32>,
}

/// The lines of a stream, under its name; nothing for an empty stream.
pub open spec fn stream_lines(title: Seq<char>, text: Seq<char>) -> Seq<Seq<char>> {
    if text.len() > 0 {
        seq![title, text]
    } else {
        Seq::empty()
    }
}

/// The lines of the report on a command.
pub open spec fn bash_lines(command: Seq<char>, out: CommandOutput) -> Seq<Seq<char>> {
    seq!["💻 `$ "@ + command + "`"@] + stream_lines("\nstdout:"@, out.stdout@) + stream_lines(
        "\nstderr:"@,
        out.stderr@,
    ) + seq![
        "\nexit code: "@ + signed_decimal(
            match out.code {
                Some(c) => c as int,
                None => -1,
            },
        ),
    ]
}

/// The report on a command that was run, or on why it could not be.
pub fn bash_report(command: &str, outcome: Result<CommandOutput, String>) -> (r: Reply)
    ensures
        match outcome {
            Ok(out) => is_text(r, joined(bash_lines(command@, out), "\n"@)),
            Err(e) => is_error(r, "EXEC_FAILED"@, "Failed to execute: "@ + e@),
        },
{
    let out = match outcome {
        Ok(out) => out,
        Err(e) => {
            return error_reply("EXEC_FAILED", &cat("Failed to execute: ", &e));
        },
    };
    let mut title = cat("💻 `$ ", command);
    title.append("`");
    let mut lines: Vec<String> = vec![title];
    let no_out = out.stdout.as_str().is_empty();
    let no_err = out.stderr.as_str().is_empty();
    let code: i32 = match out.code {
        Some(c) => c,
        None => -1,
    };
    if !no_out {
        lines.push("\nstdout:".to_string());
        lines.push(out.stdout.clone());
    }
    if !no_err {
        lines.push("\nstderr:".to_string());
        lines.push(out.stderr.clone());
    }
    lines.push(cat("\nexit code: ", &signed_decimal_of(code as i64)));
    assert(texts(lines@) =~= bash_lines(command@, out));
    Reply::Text(join(lines.as_slice(), "\n"))
}

// ---------------------------------------------------------------------------
// /skill
// ---------------------------------------------------------------------------

/// What is known of a skill.
#[derive(Debug)]
pub struct SkillInfo {
    pub name: String,
    pub version: String,
    pub description: String,
    pub enabled: bool,
    pub is_eligible: bool,
}

/// The skill that is asked for; none asks for the list.
pub fn handle_skill(args: &str) -> (r: Option<String>)
    ensures
        opt_text(r) == if trimmed(args@).len() == 0 {
            None
        } else {
            Some(head_and_rest(trimmed(args@)).0)
        },
{
    let rest = trim(args);
    if rest.as_str().is_empty() {
        None
    } else {
        let (name, _) = split_head(&rest);
        Some(name)
    }
}

/// The list of skills.
pub fn skill_list(names: &[String]) -> (r: Reply)
    ensures
        is_text(
            r,
            "🎯 **Skills** ("@ + decimal(names@.len()) + " total): "@ + joined(
                texts(names@),
                ", "@,
            ),
        ),
{
    let mut s = cat("🎯 **Skills** (", &decimal_of_usize(names.len()));
    s.append(" total): ");
    s.append(&join(names, ", "));
    Reply::Text(s)
}

/// A truth value in words.
pub open spec fn truth(b: bool) -> Seq<char> {
    if b {
        "true"@
    } else {
        "false"@
    }
}

fn truth_of(b: bool) -> (r: String)
    ensures
        r@ == truth(b),
{
    if b {
        "true".to_string()
    } else {
        "false".to_string()
    }
}

/// What is said of a skill, or that there is none of that name.
pub fn skill_reply(name: &str, skill: &Option<SkillInfo>) -> (r: Reply)
    ensures
        match *skill {
            Some(s) => is_text(
                r,
                "🎯 **Skill: "@ + s.name@ + "**\n\nVersion: "@ + s.version@ + "\nDescription: "@
                    + s.description@ + "\nEnabled: "@ + truth(s.enabled) + "\nEligible: "@ + truth(
                    s.is_eligible,
                ),
            ),
            None => is_error(r, "SKILL_NOT_FOUND"@, "Skill '"@ + name@ + "' not found."@),
        },
{
    match skill {
        Some(k) => {
            let mut s = cat("🎯 **Skill: ", &k.name);
            s.append("**\n\nVersion: ");
            s.append(&k.version);
            s.append("\nDescription: ");
            s.append(&k.description);
            s.append("\nEnabled: ");
            s.append(&truth_of(k.enabled));
            s.append("\nEligible: ");
            s.append(&truth_of(k.is_eligible));
            Reply::Text(s)
        },
        None => {
            let mut s = cat("Skill '", name);
            s.append("' not found.");
            error_reply("SKILL_NOT_FOUND", &s)
        },
    }
}

// ---------------------------------------------------------------------------
// /allowlist
// ---------------------------------------------------------------------------

/// What the `/allowlist` command does.
#[derive(Debug)]
pub enum AllowlistCommand {
    List,
    Grant { user: String, level: UserLevel },
    Clear { user: String },
    Refuse(Reply),
}

/// The level that a text names; an unknown name is that of a user.
pub open spec fn level_named(name: Seq<char>) -> UserLevel {
    if name == "chat"@ {
        UserLevel::Chat
    } else if name == "admin"@ {
        UserLevel::Admin
    } else {
        UserLevel::User
    }
}

/// The second and the third of the parts between blanks, the third being all
/// that is left.
pub open spec fn second_and_third(rest: Seq<char>) -> (Seq<char>, Option<Seq<char>>) {
    match split_first(rest, " "@) {
        Some((a, b)) => (a, Some(b)),
        None => (rest, None),
    }
}

/// Whether `r` is what the `/allowlist` command does with its arguments.
pub open spec fn is_allowlist_command(args: Seq<char>, r: AllowlistCommand) -> bool {
    let all = trimmed(args);
    let (sub, rest) = head_and_rest(all);
    let (second, third) = second_and_third(rest);
    let who = trimmed(second);
    if all.len() == 0 || all == "list"@ {
        r is List
    } else if sub == "add"@ {
        if who.len() == 0 {
            r matches AllowlistCommand::Refuse(e) && is_error(
                e,
                "INVALID_ARGS"@,
                "Usage: /allowlist add <user> [chat|user|admin]"@,
            )
        } else {
            r matches AllowlistCommand::Grant { user, level } && user@ == who && level == match third {
                Some(t) => level_named(trimmed(t)),
                None => UserLevel::User,
            }
        }
    } else if sub == "remove"@ {
        if who.len() == 0 {
            r matches AllowlistCommand::Refuse(e) && is_error(
                e,
                "INVALID_ARGS"@,
                "Usage: /allowlist remove <user>"@,
            )
        } else {
            r matches AllowlistCommand::Clear { user } && user@ == who
        }
    } else {
        r matches AllowlistCommand::Refuse(e) && is_error(
            e,
            "INVALID_ARGS"@,
            "Usage: /allowlist [list|add|remove]"@,
        )
    }
}

/// What the `/allowlist` command does with its arguments.
pub fn handle_allowlist(args: &str) -> (r: AllowlistCommand)
    ensures
        is_allowlist_command(args@, r),
{
    let all = trim(args);
    if all.as_str().is_empty() || same(&all, "list") {
        return AllowlistCommand::List;
    }
    let (sub, rest) = split_head(&all);
    let (second, third) = match split_once(&rest, " ") {
        Some((a, b)) => (a, Some(b)),
        None => (rest, None),
    };
    let user = trim(&second);
    if same(&sub, "add") {
        if user.as_str().is_empty() {
            return AllowlistCommand::Refuse(
                error_reply("INVALID_ARGS", "Usage: /allowlist add <user> [chat|user|admin]"),
            );
        }
        let level = match third {
            Some(t) => {
                let name = trim(&t);
                if same(&name, "chat") {
                    UserLevel::Chat
                } else if same(&name, "admin") {
                    UserLevel::Admin
                } else {
                    UserLevel::User
                }
            },
            None => UserLevel::User,
        };
        AllowlistCommand::Grant { user, level }
    } else if same(&sub, "remove") {
        if user.as_str().is_empty() {
            return AllowlistCommand::Refuse(
                error_reply("INVALID_ARGS", "Usage: /allowlist remove <user>"),
            );
        }
        AllowlistCommand::Clear { user }
    } else {
        AllowlistCommand::Refuse(
            error_reply("INVALID_ARGS", "Usage: /allowlist [list|add|remove]"),
        )
    }
}

/// The users with a level of their own, each with the level's label.
pub fn allowlist_reply(levels: &[(String, String)]) -> (r: Reply)
    ensures
        is_text(
            r,
            if levels@.len() == 0 {
                "🛡️ No custom user levels configured."@
            } else {
                joined(
                    listed(
                        "🛡️ **User Levels**"@,
                        levels@.map_values(|l: (String, String)| l.0@ + ": "@ + l.1@),
                    ),
                    "\n"@,
                )
            },
        ),
{
    if levels.len() == 0 {
        return text_reply("🛡️ No custom user levels configured.");
    }
    let mut items: Vec<String> = Vec::new();
    let mut i: usize = 0;
    while i < levels.len()
        invariant
            i <= levels@.len(),
            items@.len() == i,
            forall|k: int|
                0 <= k < i ==> (#[trigger] items@[k])@ == levels@[k].0@ + ": "@ + levels@[k].1@,
        decreases levels.len() - i,
    {
        let mut item = cat(&levels[i].0, ": ");
        item.append(&levels[i].1);
        items.push(item);
        i += 1;
    }
    assert(texts(items@) =~= levels@.map_values(|l: (String, String)| l.0@ + ": "@ + l.1@));
    listing("🛡️ **User Levels**", items.as_slice())
}

/// What is said when a user got a level, given the level's label.
pub fn level_set_reply(user: &str, label: &str) -> (r: Reply)
    ensures
        is_text(r, "🛡️ Set "@ + user@ + " to level '"@ + label@ + "'."@),
{
    let mut s = cat("🛡️ Set ", user);
    s.append(" to level '");
    s.append(label);
    s.append("'.");
    Reply::Text(s)
}

/// What is said when a user's level was cleared.
pub fn level_cleared_reply(user: &str) -> (r: Reply)
    ensures
        is_text(r, "🛡️ Cleared level for '"@ + user@ + "'."@),
{
    let mut s = cat("🛡️ Cleared level for '", user);
    s.append("'.");
    Reply::Text(s)
}

// ---------------------------------------------------------------------------
// /approve
// ---------------------------------------------------------------------------

/// What the `/approve` command does.
#[derive(Debug)]
pub enum ApproveCommand {
    List,
    /// Resolve an approval; a reason denies it.
    Resolve { id: String, denial: Option<String> },
    Refuse(Reply),
}

/// Whether `r` is what the `/approve` command does with its arguments.
pub open spec fn is_approve_command(args: Seq<char>, r: ApproveCommand) -> bool {
    let all = trimmed(args);
    let (which, rest) = head_and_rest(all);
    let decision = trimmed(rest);
    if all.len() == 0 || all == "list"@ {
        r is List
    } else if which.len() == 0 || decision.len() == 0 {
        r matches ApproveCommand::Refuse(e) && is_error(
            e,
            "INVALID_ARGS"@,
            "Usage: /approve <id> approve|deny [reason]"@,
        )
    } else if decision == "approve"@ || decision == "yes"@ || decision == "y"@ {
        r matches ApproveCommand::Resolve { id, denial } && id@ == which && denial is None
    } else if decision == "deny"@ || decision == "no"@ || decision == "n"@ {
        r matches ApproveCommand::Resolve { id, denial } && id@ == which && opt_text(denial)
            == Some("Denied via /approve command."@)
    } else {
        r matches ApproveCommand::Refuse(e) && is_error(
            e,
            "INVALID_ARGS"@,
            "Decision must be 'approve' or 'deny'."@,
        )
    }
}

/// What the `/approve` command does with its arguments.
pub fn handle_approve(args: &str) -> (r: ApproveCommand)
    ensures
        is_approve_command(args@, r),
{
    let all = trim(args);
    if all.as_str().is_empty() || same(&all, "list") {
        return ApproveCommand::List;
    }
    let (id, rest) = split_head(&all);
    let decision = trim(&rest);
    if id.as_str().is_empty() || decision.as_str().is_empty() {
        return ApproveCommand::Refuse(
            error_reply("INVALID_ARGS", "Usage: /approve <id> approve|deny [reason]"),
        );
    }
    if same(&decision, "approve") || same(&decision, "yes") || same(&decision, "y") {
        ApproveCommand::Resolve { id, denial: None }
    } else if same(&decision, "deny") || same(&decision, "no") || same(&decision, "n") {
        ApproveCommand::Resolve { id, denial: Some("Denied via /approve command.".to_string()) }
    } else {
        ApproveCommand::Refuse(
            error_reply("INVALID_ARGS", "Decision must be 'approve' or 'deny'."),
        )
    }
}

/// An approval that waits.
#[derive(Debug)]
pub struct PendingApproval {
    pub id: String,
    pub tool_name: String,
    pub risk_level: String,
    pub requested_by: String,
}

/// What is said of an approval that waits.
pub open spec fn pending_text(p: PendingApproval) -> Seq<char> {
    p.id@ + ": "@ + p.tool_name@ + " (risk: "@ + p.risk_level@ + ", by: "@ + p.requested_by@ + ")"@
}

/// The approvals that wait.
pub fn pending_reply(pending: &[PendingApproval]) -> (r: Reply)
    ensures
        is_text(
            r,
            if pending@.len() == 0 {
                "✅ No pending approvals."@
            } else {
                joined(
                    listed(
                        "⏳ **Pending Approvals** ("@ + decimal(pending@.len()) + ")"@,
                        pending@.map_values(|p: PendingApproval| pending_text(p)),
                    ),
                    "\n"@,
                )
            },
        ),
{
    if pending.len() == 0 {
        return text_reply("✅ No pending approvals.");
    }
    let mut title = cat("⏳ **Pending Approvals** (", &decimal_of_usize(pending.len()));
    title.append(")");
    let mut items: Vec<String> = Vec::new();
    let mut i: usize = 0;
    while i < pending.len()
        invariant
            i <= pending@.len(),
            items@.len() == i,
            forall|k: int| 0 <= k < i ==> (#[trigger] items@[k])@ == pending_text(pending@[k]),
        decreases pending.len() - i,
    {
        let p = &pending[i];
        let mut item = cat(&p.id, ": ");
        item.append(&p.tool_name);
        item.append(" (risk: ");
        item.append(&p.risk_level);
        item.append(", by: ");
        item.append(&p.requested_by);
        item.append(")");
        items.push(item);
        i += 1;
    }
    assert(texts(items@) =~= pending@.map_values(|p: PendingApproval| pending_text(p)));
    listing(&title, items.as_slice())
}

/// What is said of an approval that was to be resolved.
pub fn resolved_reply(id: &str, resolved: bool) -> (r: Reply)
    ensures
        if resolved {
            is_text(r, "✅ Approval '"@ + id@ + "' resolved."@)
        } else {
            is_error(
                r,
                "NOT_FOUND"@,
                "Approval '"@ + id@ + "' not found or already resolved."@,
            )
        },
{
    if resolved {
        let mut s = cat("✅ Approval '", id);
        s.append("' resolved.");
        Reply::Text(s)
    } else {
        let mut s = cat("Approval '", id);
        s.append("' not found or already resolved.");
        error_reply("NOT_FOUND", &s)
    }
}

// ---------------------------------------------------------------------------
// /btw and /learn
// ---------------------------------------------------------------------------

/// The question to ask, or why there is none.
pub fn handle_btw(args: &str) -> (r: Result<String, Reply>)
    ensures
        if trimmed(args@).len() == 0 {
            r matches Err(e) && is_error(e, "INVALID_ARGS"@, "Usage: /btw <question>"@)
        } else {
            r matches Ok(question) && question@ == trimmed(args@)
        },
{
    let question = trim(args);
    if question.as_str().is_empty() {
        Err(error_reply("INVALID_ARGS", "Usage: /btw <question>"))
    } else {
        Ok(question)
    }
}

/// The answer to a side question, given by a model, or that there is none.
pub fn btw_reply(answer: Result<(String, String), String>) -> (r: Reply)
    ensures
        match answer {
            Ok((model, content)) => is_text(
                r,
                "💡 **Side question** ("@ + model@ + "):\n\n"@ + content@,
            ),
            Err(e) => is_error(r, "COMPLETION_FAILED"@, "Failed to get response: "@ + e@),
        },
{
    match answer {
        Ok((model, content)) => {
            let mut s = cat("💡 **Side question** (", &model);
            s.append("):\n\n");
            s.append(&content);
            Reply::Text(s)
        },
        Err(e) => error_reply("COMPLETION_FAILED", &cat("Failed to get response: ", &e)),
    }
}

/// A message that is sent as if it had been composed.
#[derive(Debug)]
pub struct ChatSend {
    pub method: String,
    pub message: String,
    pub session_id: Option<String>,
}

/// Learning is a turn like any other: the prompt is sent as the next message of
/// the session in which the command was run.
pub fn handle_learn(prompt: String, session_id: Option<String>) -> (r: ChatSend)
    ensures
        r.method@ == "chat.send"@,
        r.message == prompt,
        r.session_id == session_id,
{
    ChatSend { method: "chat.send".to_string(), message: prompt, session_id }
}

} // verus!
