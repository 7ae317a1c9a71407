//! Laws of what the slash commands answer and ask for.
use vstd::prelude::*;

use crate::gateway::commands::Reply;
use crate::gateway::commands::tools::{
    allowlist_reply, bash_report, btw_reply, handle_allowlist, handle_approve, handle_bash,
    handle_btw, handle_learn, handle_skill, handle_tools, level_cleared_reply, level_set_reply,
    listed, pending_reply, pending_text, resolved_reply, skill_list, skill_reply, stream_lines,
    AllowlistCommand, ApproveCommand, ChatSend, CommandOutput, PendingApproval, SkillInfo,
};
use crate::laws::text::{
    law_a_text_begins_with_its_first_word, law_a_text_occurs_where_it_stands,
    law_a_trimmed_text_stays, law_what_is_joined_holds_its_parts, lemma_occurs_in_more,
    lemma_occurs_through,
};
use crate::text::{is_space, joined, occurs, opt_text, signed_decimal, texts, trimmed};

verus! {

/// Whether a text is one word.
pub open spec fn is_word(s: Seq<char>) -> bool {
    s.len() > 0 && forall|i: int| 0 <= i < s.len() ==> !is_space(#[trigger] s[i])
}

/// Whether a text neither begins nor ends with space.
pub open spec fn is_trim(s: Seq<char>) -> bool {
    s.len() > 0 && !is_space(s[0]) && !is_space(s.last())
}

/// An approval is resolved as it was decided: approved by yes, denied, with a
/// reason, by no; it is the approval whose id comes first. Without a decision it
/// is refused, and without anything the approvals are listed.
pub proof fn law_an_approval_is_resolved_as_decided(
    args: &str,
    id: Seq<char>,
    decision: Seq<char>,
    r: ApproveCommand,
)
    requires
        call_ensures(handle_approve, (args,), r),
    ensures
        trimmed(args@).len() == 0 ==> r is List,
        is_word(id) && is_trim(decision) && args@ == id + seq![' '] + decision ==> {
            &&& decision == "approve"@ || decision == "yes"@ || decision == "y"@ ==> (
            r matches ApproveCommand::Resolve { id: i, denial } && i@ == id && denial is None)
            &&& decision == "deny"@ || decision == "no"@ || decision == "n"@ ==> (
            r matches ApproveCommand::Resolve { id: i, denial } && i@ == id && denial is Some)
            &&& r matches ApproveCommand::Resolve { id: i, denial } ==> i@ == id && (denial is None
                <==> decision == "approve"@ || decision == "yes"@ || decision == "y"@)
        },
        is_word(id) && args@ == id && id != "list"@ ==> r is Refuse,
{
    if is_word(id) && is_trim(decision) && args@ == id + seq![' '] + decision {
        lemma_word(id);
        law_a_trimmed_text_stays(args@);
        law_a_text_begins_with_its_first_word(id, decision);
        law_a_trimmed_text_stays(decision);
        reveal_strlit("list");
        assert("list"@.len() == 4);
        if args@ == "list"@ {
            assert(args@[id.len() as int] == ' ');
            assert("list"@[1] == 'i' && "list"@[2] == 's' && "list"@[3] == 't');
        }
        lemma_decisions_differ();
    }
    if is_word(id) && args@ == id {
        lemma_word(id);
        law_a_trimmed_text_stays(args@);
        law_a_text_begins_with_its_first_word(id, Seq::empty());
        law_a_trimmed_text_stays(Seq::empty());
    }
}

proof fn lemma_word(s: Seq<char>)
    requires
        is_word(s),
    ensures
        !s.contains(' '),
        is_trim(s),
{
    if s.contains(' ') {
        let i = choose|i: int| 0 <= i < s.len() && s[i] == ' ';
        assert(is_space(s[i]));
    }
}

proof fn lemma_decisions_differ()
    ensures
        "approve"@ != "deny"@ && "approve"@ != "no"@ && "approve"@ != "n"@,
        "yes"@ != "deny"@ && "yes"@ != "no"@ && "yes"@ != "n"@,
        "y"@ != "deny"@ && "y"@ != "no"@ && "y"@ != "n"@,
{
    reveal_strlit("approve");
    reveal_strlit("deny");
    reveal_strlit("yes");
    reveal_strlit("no");
    reveal_strlit("y");
    reveal_strlit("n");
    assert("approve"@[0] == 'a' && "deny"@[0] == 'd' && "yes"@[0] == 'y' && "no"@[0] == 'n');
    assert("y"@[0] == 'y' && "n"@[0] == 'n');
}

/// A user is put on the list with the level that is named, as a user where none
/// is, and is taken off it; it is the user that is named in either case.
pub proof fn law_the_named_user_gets_the_named_level(
    args: &str,
    user: Seq<char>,
    level: Seq<char>,
    r: AllowlistCommand,
)
    requires
        call_ensures(handle_allowlist, (args,), r),
        is_word(user),
        is_trim(level),
    ensures
        args@ == "add"@ + seq![' '] + user ==> (r matches AllowlistCommand::Grant {
            user: who,
            level: l,
        } && who@ == user && l is User),
        args@ == "add"@ + seq![' '] + (user + seq![' '] + level) ==> (
        r matches AllowlistCommand::Grant { user: who, level: l } && who@ == user && (l is Admin
            <==> level == "admin"@) && (l is Chat <==> level == "chat"@)),
        args@ == "remove"@ + seq![' '] + user ==> (r matches AllowlistCommand::Clear { user: who }
            && who@ == user),
        r matches AllowlistCommand::Clear { .. } ==> "remove"@.is_prefix_of(trimmed(args@)),
        r matches AllowlistCommand::Grant { .. } ==> "add"@.is_prefix_of(trimmed(args@)),
{
    lemma_word(user);
    reveal_strlit("add");
    reveal_strlit("remove");
    reveal_strlit("list");
    reveal_strlit(" ");
    reveal_strlit("admin");
    reveal_strlit("chat");
    assert("add"@.len() == 3 && "add"@[0] == 'a' && "add"@[1] == 'd' && "add"@[2] == 'd');
    assert("remove"@.len() == 6 && "remove"@[0] == 'r' && "remove"@[1] == 'e' && "remove"@[2] == 'm'
        && "remove"@[3] == 'o' && "remove"@[4] == 'v' && "remove"@[5] == 'e');
    assert("list"@.len() == 4 && "list"@[0] == 'l');
    assert("admin"@.len() == 5 && "chat"@.len() == 4);
    assert(" "@ =~= seq![' ']);
    law_a_trimmed_text_stays(user);
    law_a_trimmed_text_stays(level);
    law_a_text_begins_with_its_first_word(user, level);
    lemma_second(user, level);
    let all = trimmed(args@);
    let heads = crate::text::head_and_rest(all);
    lemma_head_is_prefix(all);
    if args@ == "add"@ + seq![' '] + user {
        assert(args@[0] == 'a');
        assert(args@.last() == user.last());
        law_a_trimmed_text_stays(args@);
        law_a_text_begins_with_its_first_word("add"@, user);
    }
    if args@ == "add"@ + seq![' '] + (user + seq![' '] + level) {
        assert(args@[0] == 'a');
        assert(args@.last() == level.last());
        law_a_trimmed_text_stays(args@);
        law_a_text_begins_with_its_first_word("add"@, user + seq![' '] + level);
    }
    if args@ == "remove"@ + seq![' '] + user {
        assert(args@[0] == 'r');
        assert(args@.last() == user.last());
        law_a_trimmed_text_stays(args@);
        law_a_text_begins_with_its_first_word("remove"@, user);
    }
}

proof fn lemma_second(user: Seq<char>, level: Seq<char>)
    requires
        !user.contains(' '),
    ensures
        crate::gateway::commands::tools::second_and_third(user + seq![' '] + level) == (
            user,
            Some(level),
        ),
        crate::gateway::commands::tools::second_and_third(user) == (user, None::<Seq<char>>),
{
    reveal_strlit(" ");
    assert(" "@ =~= seq![' ']);
    law_a_text_begins_with_its_first_word(user, level);
    crate::laws::text::law_a_text_is_split_at_the_first_separator(user, seq![' ']);
    let s = user + seq![' '] + level;
    crate::laws::text::law_a_text_is_split_at_the_first_separator(s, seq![' ']);
    law_a_text_occurs_where_it_stands(user, seq![' '], level, s);
    if crate::text::split_first(user, seq![' ']) is Some {
        let p = crate::text::split_first(user, seq![' '])->0;
        assert((p.0 + seq![' '] + p.1)[p.0.len() as int] == ' ');
        assert(user.contains(' '));
    }
}

proof fn lemma_head_is_prefix(s: Seq<char>)
    ensures
        crate::text::head_and_rest(s).0.is_prefix_of(s),
{
    crate::laws::text::law_a_text_is_split_at_the_first_separator(s, " "@);
    let h = crate::text::head_and_rest(s);
    if crate::text::split_first(s, " "@) is Some {
        assert(s.take(h.0.len() as int) =~= h.0);
    }
}

/// What is run, asked aside or learned is what was written, without the space
/// around it; nothing is not run or asked.
pub proof fn law_what_is_written_is_what_is_done(
    args: &str,
    run: Result<String, Reply>,
    asked: Result<String, Reply>,
    prompt: String,
    session_id: Option<String>,
    sent: ChatSend,
)
    requires
        call_ensures(handle_bash, (args,), run),
        call_ensures(handle_btw, (args,), asked),
        call_ensures(handle_learn, (prompt, session_id), sent),
    ensures
        run is Ok <==> trimmed(args@).len() > 0,
        asked is Ok <==> trimmed(args@).len() > 0,
        run is Ok ==> run->Ok_0@ == trimmed(args@),
        asked is Ok ==> asked->Ok_0@ == trimmed(args@),
        sent.method@ == "chat.send"@,
        sent.message@ == prompt@,
        opt_text(sent.session_id) == opt_text(session_id),
{
}

/// What a command printed is shown in full, both streams, with the code that it
/// ended with.
pub proof fn law_the_output_of_a_command_is_shown(
    command: &str,
    outcome: Result<CommandOutput, String>,
    r: Reply,
)
    requires
        call_ensures(bash_report, (command, outcome), r),
    ensures
        outcome is Ok ==> r is Text && occurs(r->Text_0@, command@) && occurs(
            r->Text_0@,
            outcome->Ok_0.stdout@,
        ) && occurs(r->Text_0@, outcome->Ok_0.stderr@) && occurs(
            r->Text_0@,
            signed_decimal(
                if outcome->Ok_0.code is Some {
                    outcome->Ok_0.code->0 as int
                } else {
                    -1
                },
            ),
        ),
        outcome matches Err(e) ==> (r matches Reply::Error { code, message } && code@
            == "EXEC_FAILED"@ && message@ == "Failed to execute: "@ + e@),
{
    if outcome is Ok {
        let out = outcome->Ok_0;
        let lines = crate::gateway::commands::tools::bash_lines(command@, out);
        let all = joined(lines, "\n"@);
        let none = Seq::<char>::empty();
        let a = stream_lines("\nstdout:"@, out.stdout@);
        let b = stream_lines("\nstderr:"@, out.stderr@);
        law_what_is_joined_holds_its_parts(lines, "\n"@, 0);
        law_a_text_occurs_where_it_stands("💻 `$ "@, command@, "`"@, none);
        lemma_occurs_through(all, lines[0], command@);
        law_a_text_occurs_where_it_stands(none, none, all, none);
        assert(none + none + all =~= all);
        if out.stdout@.len() > 0 {
            assert(lines[2] == out.stdout@);
            law_what_is_joined_holds_its_parts(lines, "\n"@, 2);
        } else {
            assert(out.stdout@ =~= none);
        }
        if out.stderr@.len() > 0 {
            let k = 1 + a.len() + 1;
            assert(lines[k as int] == out.stderr@);
            law_what_is_joined_holds_its_parts(lines, "\n"@, k as int);
        } else {
            assert(out.stderr@ =~= none);
        }
        let code = signed_decimal(
            match out.code {
                Some(c) => c as int,
                None => -1,
            },
        );
        law_what_is_joined_holds_its_parts(lines, "\n"@, lines.len() - 1);
        law_a_text_occurs_where_it_stands("\nexit code: "@, code, none, none);
        assert("\nexit code: "@ + code + none =~= lines.last());
        lemma_occurs_through(all, lines[lines.len() - 1], code);
    }
}

/// The tools, the skills, the levels and the approvals that are listed are all of
/// them.
pub proof fn law_lists_are_complete(
    args: &str,
    names: &[String],
    t: Reply,
    s: Reply,
    levels: &[(String, String)],
    l: Reply,
    pending: &[PendingApproval],
    p: Reply,
    i: int,
)
    requires
        call_ensures(handle_tools, (args, names), t),
        call_ensures(skill_list, (names,), s),
        call_ensures(allowlist_reply, (levels,), l),
        call_ensures(pending_reply, (pending,), p),
    ensures
        t is Text && s is Text && l is Text && p is Text,
        0 <= i < names@.len() ==> occurs(t->Text_0@, names@[i]@) && occurs(
            s->Text_0@,
            names@[i]@,
        ),
        0 <= i < levels@.len() ==> occurs(l->Text_0@, levels@[i].0@ + ": "@ + levels@[i].1@),
        0 <= i < pending@.len() ==> occurs(p->Text_0@, pending@[i].id@) && occurs(
            p->Text_0@,
            pending@[i].tool_name@,
        ),
{
    let list = texts(names@);
    let none = Seq::<char>::empty();
    if 0 <= i < names@.len() {
        assert(list[i] == names@[i]@);
        law_what_is_joined_holds_its_parts(list, ", "@, i);
        let head = "🛠️ **Tools** ("@ + crate::text::decimal(names@.len()) + " total): "@;
        lemma_occurs_in_more(head, joined(list, ", "@), none, list[i]);
        assert(head + joined(list, ", "@) + none =~= head + joined(list, ", "@));
        let other = "🎯 **Skills** ("@ + crate::text::decimal(names@.len()) + " total): "@;
        lemma_occurs_in_more(other, joined(list, ", "@), none, list[i]);
        assert(other + joined(list, ", "@) + none =~= other + joined(list, ", "@));
        lemma_listed("🛠️ **Available Tools**"@, list, i);
    }
    if 0 <= i < levels@.len() {
        let items = levels@.map_values(|l: (String, String)| l.0@ + ": "@ + l.1@);
        lemma_listed("🛡️ **User Levels**"@, items, i);
    }
    if 0 <= i < pending@.len() {
        let items = pending@.map_values(|p: PendingApproval| pending_text(p));
        lemma_listed(
            "⏳ **Pending Approvals** ("@ + crate::text::decimal(pending@.len()) + ")"@,
            items,
            i,
        );
        let one = pending@[i];
        let back = " (risk: "@ + one.risk_level@ + ", by: "@ + one.requested_by@ + ")"@;
        let tail = ": "@ + one.tool_name@ + back;
        law_a_text_occurs_where_it_stands(none, one.id@, tail, none);
        assert(none + one.id@ + tail =~= pending_text(one));
        law_a_text_occurs_where_it_stands(one.id@ + ": "@, one.tool_name@, back, none);
        assert(one.id@ + ": "@ + one.tool_name@ + back =~= pending_text(one));
        lemma_occurs_through(p->Text_0@, pending_text(one), one.id@);
        lemma_occurs_through(p->Text_0@, pending_text(one), one.tool_name@);
    }
}

proof fn lemma_listed(title: Seq<char>, items: Seq<Seq<char>>, i: int)
    requires
        0 <= i < items.len(),
    ensures
        occurs(joined(listed(title, items), "\n"@), items[i]),
{
    let lines = listed(title, items);
    let none = Seq::<char>::empty();
    assert(lines[i + 1] == "- "@ + items[i]);
    law_what_is_joined_holds_its_parts(lines, "\n"@, i + 1);
    law_a_text_occurs_where_it_stands("- "@, items[i], none, none);
    assert("- "@ + items[i] + none =~= lines[i + 1]);
    lemma_occurs_through(joined(lines, "\n"@), lines[i + 1], items[i]);
}

/// The skill that is asked for is the first word; what is shown of it is its own,
/// and a skill that is not there is said to be missing.
pub proof fn law_the_skill_asked_for_is_shown(
    args: &str,
    word: Seq<char>,
    asked: Option<String>,
    name: &str,
    skill: &Option<SkillInfo>,
    r: Reply,
)
    requires
        call_ensures(handle_skill, (args,), asked),
        call_ensures(skill_reply, (name, skill), r),
        is_word(word),
    ensures
        trimmed(args@).len() == 0 ==> asked is None,
        args@ == word ==> asked is Some && asked->0@ == word,
        *skill is None ==> (r matches Reply::Error { code, message } && code@
            == "SKILL_NOT_FOUND"@ && occurs(message@, name@)),
        *skill is Some ==> r is Text && occurs(r->Text_0@, skill->0.name@) && occurs(
            r->Text_0@,
            skill->0.description@,
        ),
{
    lemma_word(word);
    law_a_trimmed_text_stays(word);
    law_a_text_begins_with_its_first_word(word, Seq::empty());
    let none = Seq::<char>::empty();
    law_a_text_occurs_where_it_stands("Skill '"@, name@, "' not found."@, none);
    if *skill is Some {
        let s = skill->0;
        let back = "\nEnabled: "@ + crate::gateway::commands::tools::truth(s.enabled)
            + "\nEligible: "@ + crate::gateway::commands::tools::truth(s.is_eligible);
        let mid = "**\n\nVersion: "@ + s.version@ + "\nDescription: "@ + s.description@ + back;
        law_a_text_occurs_where_it_stands("🎯 **Skill: "@, s.name@, mid, none);
        assert("🎯 **Skill: "@ + s.name@ + mid =~= r->Text_0@);
        let front = "🎯 **Skill: "@ + s.name@ + "**\n\nVersion: "@ + s.version@
            + "\nDescription: "@;
        law_a_text_occurs_where_it_stands(front, s.description@, back, none);
        assert(front + s.description@ + back =~= r->Text_0@);
    }
}

/// What was done to a user or an approval is told of that user or approval.
pub proof fn law_replies_name_whom_they_are_about(
    user: &str,
    label: &str,
    a: Reply,
    b: Reply,
    id: &str,
    resolved: bool,
    c: Reply,
    answer: Result<(String, String), String>,
    d: Reply,
)
    requires
        call_ensures(level_set_reply, (user, label), a),
        call_ensures(level_cleared_reply, (user,), b),
        call_ensures(resolved_reply, (id, resolved), c),
        call_ensures(btw_reply, (answer,), d),
    ensures
        a matches Reply::Text(t) && t@ == "🛡️ Set "@ + user@ + " to level '"@ + label@ + "'."@,
        b matches Reply::Text(t) && t@ == "🛡️ Cleared level for '"@ + user@ + "'."@,
        resolved <==> c is Text,
        c matches Reply::Text(t) ==> t@ == "✅ Approval '"@ + id@ + "' resolved."@,
        c matches Reply::Error { code, message } ==> code@ == "NOT_FOUND"@ && occurs(
            message@,
            id@,
        ),
        d is Text <==> answer is Ok,
        answer is Ok ==> occurs(d->Text_0@, answer->Ok_0.1@),
        answer matches Err(e) ==> (d matches Reply::Error { code, message } && message@
            == "Failed to get response: "@ + e@),
{
    let none = Seq::<char>::empty();
    law_a_text_occurs_where_it_stands(
        "Approval '"@,
        id@,
        "' not found or already resolved."@,
        none,
    );
    if answer is Ok {
        let (model, content) = answer->Ok_0;
        let front = "💡 **Side question** ("@ + model@ + "):\n\n"@;
        law_a_text_occurs_where_it_stands(front, content@, none, none);
        assert(front + content@ + none =~= d->Text_0@);
    }
}

/// A skill is shown with its version and whether it is enabled and eligible; an
/// approval with its risk and with who asked for it.
pub proof fn law_details_are_shown(
    name: &str,
    skill: &Option<SkillInfo>,
    r: Reply,
    pending: &[PendingApproval],
    p: Reply,
    i: int,
)
    requires
        call_ensures(skill_reply, (name, skill), r),
        call_ensures(pending_reply, (pending,), p),
    ensures
        *skill is Some ==> (r matches Reply::Text(t) && t@ == "🎯 **Skill: "@ + skill->0.name@
            + "**\n\nVersion: "@ + skill->0.version@ + "\nDescription: "@ + skill->0.description@
            + "\nEnabled: "@ + (if skill->0.enabled {
            "true"@
        } else {
            "false"@
        }) + "\nEligible: "@ + (if skill->0.is_eligible {
            "true"@
        } else {
            "false"@
        })),
        0 <= i < pending@.len() ==> p is Text && occurs(
            p->Text_0@,
            pending@[i].id@ + ": "@ + pending@[i].tool_name@ + " (risk: "@ + pending@[i].risk_level@
                + ", by: "@ + pending@[i].requested_by@ + ")"@,
        ),
        pending@.len() == 0 ==> p is Text && p->Text_0@ == "✅ No pending approvals."@,
{
    if 0 <= i < pending@.len() {
        let items = pending@.map_values(|p: PendingApproval| pending_text(p));
        lemma_listed(
            "⏳ **Pending Approvals** ("@ + crate::text::decimal(pending@.len()) + ")"@,
            items,
            i,
        );
        assert(items[i] == pending_text(pending@[i]));
    }
}

} // verus!
