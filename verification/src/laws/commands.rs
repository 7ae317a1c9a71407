//! Laws of the slash commands.
use vstd::prelude::*;

use crate::gateway::commands::{
    answer_json, built_in_commands, catalog, find_command, handle_commands_execute,
    handle_commands_list, handler_for, handler_of, help_request, lemma_words_differ, lookup_from,
    normalized, parse_params, payload_text, place_of, recording_session, result_text, tier_named,
    CommandDef, CommandHandler, CommandModel, CommandRun, CommandScope, CommandTier, HelpArgs,
    Reply, UserLevel, Verdict,
};
use crate::json::{Json, JsonModel};
use crate::text::{lowercase, opt_text, usize_of, words};

verus! {

/// The word that a handler answers to.
pub open spec fn word_of(h: CommandHandler) -> Seq<char> {
    match h {
        CommandHandler::Help => "help"@,
        CommandHandler::Status => "status"@,
        CommandHandler::Whoami => "whoami"@,
        CommandHandler::Stop => "stop"@,
        CommandHandler::Reset => "reset"@,
        CommandHandler::Model => "model"@,
        CommandHandler::Think => "think"@,
        CommandHandler::Verbose => "verbose"@,
        CommandHandler::Trace => "trace"@,
        CommandHandler::Fast => "fast"@,
        CommandHandler::Reasoning => "reasoning"@,
        CommandHandler::Queue => "queue"@,
        CommandHandler::Tools => "tools"@,
        CommandHandler::Usage => "usage"@,
        CommandHandler::Context => "context"@,
        CommandHandler::Compact => "compact"@,
        CommandHandler::Session => "session"@,
        CommandHandler::ExportSession => "export-session"@,
        CommandHandler::Subagents => "subagents"@,
        CommandHandler::Acp => "acp"@,
        CommandHandler::Steer => "steer"@,
        CommandHandler::Kill => "kill"@,
        CommandHandler::Focus => "focus"@,
        CommandHandler::Unfocus => "unfocus"@,
        CommandHandler::Skill => "skill"@,
        CommandHandler::Allowlist => "allowlist"@,
        CommandHandler::Approve => "approve"@,
        CommandHandler::Btw => "btw"@,
        CommandHandler::Config => "config"@,
        CommandHandler::Plugins => "plugins"@,
        CommandHandler::Mcp => "mcp"@,
        CommandHandler::Debug => "debug"@,
        CommandHandler::Restart => "restart"@,
        CommandHandler::Bash => "bash"@,
        CommandHandler::Goal => "goal"@,
    }
}

/// The other word that a handler answers to, if it has one.
pub open spec fn other_word_of(h: CommandHandler) -> Option<Seq<char>> {
    match h {
        CommandHandler::Help => Some("commands"@),
        CommandHandler::Steer => Some("tell"@),
        CommandHandler::Approve => Some("y"@),
        _ => None,
    }
}

/// Whether a handler acts on the gateway itself or on its host.
pub open spec fn is_for_admins(h: CommandHandler) -> bool {
    h is Config || h is Plugins || h is Mcp || h is Debug || h is Restart || h is Bash
}

/// Each handler answers to its own word and to no other's: its word gives that
/// handler, and what a key gives is a handler whose word the key is.
pub proof fn law_a_key_gives_the_handler_of_that_word(
    key: &str,
    r: Option<CommandHandler>,
    h: CommandHandler,
)
    requires
        call_ensures(handler_for, (key,), r),
    ensures
        key@ == word_of(h) ==> r == Some(h),
        r == Some(h) ==> key@ == word_of(h) || other_word_of(h) == Some(key@),
{
    lemma_words_differ();
    assert(place_of(word_of(h)) >= 1);
}

/// Each built-in command that is not local runs its own handler: its key is the
/// word of the handler that its key gives, so that two commands never share or
/// exchange their handlers.
pub proof fn law_built_in_commands_run_their_own_handlers(i: int, j: int)
    requires
        0 <= i < catalog().len(),
        0 <= j < catalog().len(),
        !catalog()[i].local,
        !catalog()[j].local,
    ensures
        handler_of(catalog()[i].key) matches Some(h) && word_of(h) == catalog()[i].key,
        i != j ==> handler_of(catalog()[i].key) != handler_of(catalog()[j].key),
{
    lemma_words_differ();
    lemma_places(i);
    lemma_places(j);
    lemma_own_handler(i);
    lemma_own_handler(j);
}

proof fn lemma_places(i: int)
    requires
        0 <= i < catalog().len(),
    ensures
        place_of(catalog()[i].key) == i,
{
    lemma_words_differ();
}

proof fn lemma_own_handler(i: int)
    requires
        0 <= i < catalog().len(),
        !catalog()[i].local,
    ensures
        handler_of(catalog()[i].key) matches Some(h) && word_of(h) == catalog()[i].key,
{
    lemma_words_differ();
}

/// The catalog has each handler's command once, under its word: the words of the
/// catalog are the handlers' words and that of the one command that channels
/// answer themselves.
pub proof fn law_every_handler_has_its_command(h: CommandHandler)
    ensures
        exists|i: int| 0 <= i < catalog().len() && #[trigger] catalog()[i].key == word_of(h),
{
    lemma_words_differ();
    assert(catalog()[place_of(word_of(h))].key == word_of(h));
}

/// A command is listed under its key; it takes another word just where its
/// handler has one. The commands that act on the gateway or its host are the
/// administrators' and are power commands, and no other is; only starting a
/// session is left to channels; all are valid everywhere.
pub proof fn law_the_catalog_says_who_may_run_what(i: int, h: CommandHandler)
    requires
        0 <= i < catalog().len(),
        catalog()[i].key == word_of(h),
    ensures
        catalog()[i].name == word_of(h),
        !catalog()[i].local,
        catalog()[i].requires_admin <==> is_for_admins(h),
        catalog()[i].tier == CommandTier::Power <==> is_for_admins(h),
        catalog()[i].scope == CommandScope::Global,
        other_word_of(h) is Some ==> catalog()[i].aliases == seq![other_word_of(h)->0],
        other_word_of(h) is None ==> catalog()[i].aliases.len() == 0,
{
    lemma_words_differ();
    assert(i == place_of(word_of(h)));
}

/// The command that stands for a word is the first that goes by it, as its key,
/// its name or one of its other words; none stands for a word by which none goes.
pub proof fn law_a_word_finds_the_first_command_that_goes_by_it(
    commands: &Vec<CommandDef>,
    name: &str,
    r: Option<usize>,
)
    requires
        call_ensures(find_command, (commands, name), r),
    ensures
        r matches Some(i) ==> i < commands@.len() && has_word(commands@[i as int]@, name@)
            && forall|j: int| 0 <= j < i ==> !has_word(#[trigger] commands@[j]@, name@),
        r is None ==> forall|j: int|
            0 <= j < commands@.len() ==> !has_word(#[trigger] commands@[j]@, name@),
{
    let models = crate::gateway::commands::command_models(commands@);
    lemma_lookup(models, name@, 0);
    assert forall|j: int| 0 <= j < commands@.len() implies #[trigger] commands@[j]@
        == models[j] by {}
}

/// Whether a word is a command's key, its name or one of its other words.
pub open spec fn has_word(c: CommandModel, word: Seq<char>) -> bool {
    c.key == word || c.name == word || exists|k: int|
        0 <= k < c.aliases.len() && #[trigger] c.aliases[k] == word
}

proof fn lemma_lookup(commands: Seq<CommandModel>, name: Seq<char>, from: int)
    requires
        0 <= from,
    ensures
        lookup_from(commands, name, from) matches Some(i) ==> from <= i < commands.len()
            && has_word(commands[i], name) && forall|j: int|
            from <= j < i ==> !has_word(#[trigger] commands[j], name),
        lookup_from(commands, name, from) is None ==> forall|j: int|
            from <= j < commands.len() ==> !has_word(#[trigger] commands[j], name),
    decreases commands.len() - from,
{
    if from < commands.len() {
        let c = commands[from];
        assert(c.goes_by(name) <==> has_word(c, name));
        if !c.goes_by(name) {
            lemma_lookup(commands, name, from + 1);
        }
    }
}

/// What runs is what was asked for: the handler whose word the command is, once
/// it is lowered and stripped of its slashes.
pub proof fn law_what_runs_is_what_was_asked_for(
    command: &str,
    args: &str,
    admin_scope: bool,
    level: UserLevel,
    r: CommandRun,
    h: CommandHandler,
)
    requires
        call_ensures(handle_commands_execute, (command, args, admin_scope, level), r),
    ensures
        r.verdict == Verdict::Run(h) ==> normalized(command@) == word_of(h) || other_word_of(h)
            == Some(normalized(command@)),
{
    lemma_words_differ();
    let name = normalized(command@);
    lemma_lookup(catalog(), name, 0);
    match lookup_from(catalog(), name, 0) {
        Some(i) => {
            if r.verdict == Verdict::Run(h) {
                lemma_own_handler(i);
                law_the_catalog_says_who_may_run_what(i, h);
            }
        },
        None => {},
    }
}

/// Who may run what: an administrator on a connection with that scope runs every
/// command, a user every command but the administrators', and whoever may only
/// chat none. The administrators' commands are forbidden to a connection without
/// their scope, whatever the level.
pub proof fn law_commands_run_for_whom_they_are_meant(
    command: &str,
    args: &str,
    admin_scope: bool,
    level: UserLevel,
    r: CommandRun,
    h: CommandHandler,
)
    requires
        call_ensures(handle_commands_execute, (command, args, admin_scope, level), r),
        normalized(command@) == word_of(h) || other_word_of(h) == Some(normalized(command@)),
    ensures
        r.verdict == Verdict::Run(h) <==> (level is Admin && (is_for_admins(h) ==> admin_scope))
            || (level is User && !is_for_admins(h)),
        is_for_admins(h) && !admin_scope ==> r.verdict is Forbidden,
        level is Chat && !is_for_admins(h) ==> (r.verdict matches Verdict::Refused(
            Reply::Error { code, .. },
        ) && code@ == "INSUFFICIENT_TIER"@),
        !(level is Admin) && is_for_admins(h) && admin_scope ==> (r.verdict matches Verdict::Refused(
            Reply::Error { code, .. },
        ) && code@ == "INSUFFICIENT_TIER"@),
{
    lemma_words_differ();
    let name = normalized(command@);
    let i = place_of(name);
    assert(place_of(word_of(h)) == i);
    assert(catalog()[i].key == word_of(h));
    law_the_catalog_says_who_may_run_what(i, h);
    assert(has_word(catalog()[i], name)) by {
        if name != word_of(h) {
            assert(catalog()[i].aliases[0] == name);
        }
    }
    lemma_lookup(catalog(), name, 0);
    let at = lookup_from(catalog(), name, 0)->0;
    if at != i {
        assert(has_word(catalog()[at], name));
        assert(catalog()[at].goes_by(name));
        assert(catalog()[i].goes_by(name));
        crate::gateway::commands::law_a_word_names_at_most_one_command(name, i, at);
    }
    lemma_own_handler(i);
    lemma_words_tell_handlers(handler_of(catalog()[i].key)->0, h);
}

proof fn lemma_words_tell_handlers(g: CommandHandler, h: CommandHandler)
    requires
        word_of(g) == word_of(h),
    ensures
        g == h,
{
    lemma_words_differ();
    lemma_number(g);
    lemma_number(h);
}

/// Where the command of a handler stands in the catalog.
spec fn number_of_handler(h: CommandHandler) -> int {
    match h {
        CommandHandler::Help => 12,
        CommandHandler::Status => 13,
        CommandHandler::Whoami => 15,
        CommandHandler::Stop => 2,
        CommandHandler::Reset => 1,
        CommandHandler::Model => 5,
        CommandHandler::Think => 6,
        CommandHandler::Verbose => 7,
        CommandHandler::Trace => 9,
        CommandHandler::Fast => 8,
        CommandHandler::Reasoning => 10,
        CommandHandler::Queue => 11,
        CommandHandler::Tools => 14,
        CommandHandler::Usage => 16,
        CommandHandler::Context => 17,
        CommandHandler::Compact => 3,
        CommandHandler::Session => 21,
        CommandHandler::ExportSession => 4,
        CommandHandler::Subagents => 18,
        CommandHandler::Acp => 19,
        CommandHandler::Steer => 23,
        CommandHandler::Kill => 22,
        CommandHandler::Focus => 24,
        CommandHandler::Unfocus => 25,
        CommandHandler::Skill => 20,
        CommandHandler::Allowlist => 26,
        CommandHandler::Approve => 27,
        CommandHandler::Btw => 28,
        CommandHandler::Config => 29,
        CommandHandler::Plugins => 30,
        CommandHandler::Mcp => 31,
        CommandHandler::Debug => 32,
        CommandHandler::Restart => 33,
        CommandHandler::Bash => 34,
        CommandHandler::Goal => 35,
    }
}

proof fn lemma_number(h: CommandHandler)
    ensures
        place_of(word_of(h)) == number_of_handler(h),
{
    lemma_words_differ();
}

/// A word that no command goes by is unknown, and said to be so under that word;
/// starting a session is refused here to whoever asks.
pub proof fn law_other_words_are_refused(
    command: &str,
    args: &str,
    admin_scope: bool,
    level: UserLevel,
    r: CommandRun,
)
    requires
        call_ensures(handle_commands_execute, (command, args, admin_scope, level), r),
    ensures
        normalized(command@) == "new"@ || normalized(command@) == "clear"@ ==> (
        r.verdict matches Verdict::Refused(Reply::Error { code, .. }) && code@
            == "LOCAL_COMMAND_NOT_AVAILABLE"@),
        place_of(normalized(command@)) == -1 ==> (r.verdict matches Verdict::Refused(
            Reply::Error { code, message },
        ) && code@ == "COMMAND_NOT_FOUND"@ && message@ == "Unknown command: /"@ + normalized(
            command@,
        )),
{
    lemma_words_differ();
    let name = normalized(command@);
    lemma_lookup(catalog(), name, 0);
    if name == "new"@ || name == "clear"@ {
        assert(catalog()[0].aliases[0] == "clear"@);
        assert(has_word(catalog()[0], name));
    } else if place_of(name) == -1 {
        match lookup_from(catalog(), name, 0) {
            Some(i) => {
                let c = catalog()[i];
                if c.key != name && c.name != name {
                    let k = choose|k: int| 0 <= k < c.aliases.len() && #[trigger] c.aliases[k] == name;
                    assert(k == 0);
                }
            },
            None => {},
        }
    }
}

/// A command without arguments is recorded by the word that it stands for, one
/// with arguments as it was written, both behind a slash.
pub proof fn law_commands_are_recorded(
    command: &str,
    args: &str,
    admin_scope: bool,
    level: UserLevel,
    r: CommandRun,
)
    requires
        call_ensures(handle_commands_execute, (command, args, admin_scope, level), r),
    ensures
        args@.len() == 0 ==> r.user_text@ == "/"@ + normalized(command@),
        args@.len() > 0 ==> r.user_text@ == "/"@ + command@,
{
}

/// A command means the same in capitals and behind any number of slashes.
pub proof fn law_slashes_and_capitals_do_not_matter(command: Seq<char>, other: Seq<char>)
    ensures
        lowercase(command) == lowercase(other) ==> normalized(command) == normalized(other),
        lowercase(other) == seq!['/'] + lowercase(command) ==> normalized(command) == normalized(
            other,
        ),
        lowercase(command).len() > 0 && lowercase(command)[0] != '/' ==> normalized(command)
            == lowercase(command),
        normalized(command).len() > 0 ==> normalized(command)[0] != '/',
{
    let s = lowercase(command);
    crate::laws::text::law_trimming_a_character_takes_only_that(s, '/');
    assert(s.skip(0) =~= s);
    if lowercase(other) == seq!['/'] + s {
        lemma_one_slash_more(s, lowercase(other), 0);
        let n = crate::text::past_char(s, '/', 0);
        assert(crate::text::past_char(lowercase(other), '/', 0) == n + 1);
        crate::laws::text::lemma_past_char(s, '/', 0);
        assert(lowercase(other).skip(n + 1) =~= s.skip(n));
    }
}

proof fn lemma_one_slash_more(s: Seq<char>, t: Seq<char>, from: int)
    requires
        0 <= from <= s.len(),
        t == seq!['/'] + s,
    ensures
        crate::text::past_char(t, '/', from + 1) == crate::text::past_char(s, '/', from) + 1,
    decreases s.len() - from,
{
    if from < s.len() {
        assert(t[from + 1] == s[from]);
        if s[from] == '/' {
            lemma_one_slash_more(s, t, from + 1);
        }
    }
}

/// The session that a command names records it; only where it names none does the
/// session that is followed.
pub proof fn law_the_named_session_records(
    named: Option<String>,
    followed: &Option<String>,
    r: Option<String>,
)
    requires
        call_ensures(recording_session, (named, followed), r),
    ensures
        named is Some ==> r is Some && r->0@ == named->0@,
        named is None ==> opt_text(r) == opt_text(*followed),
{
}

/// An answer is recorded as it is given, an error as an error.
pub proof fn law_answers_are_recorded_as_given(reply: &Reply, r: String)
    requires
        call_ensures(result_text, (reply,), r),
    ensures
        *reply matches Reply::Text(t) ==> r@ == t@,
        *reply matches Reply::Error { message, .. } ==> r@ == "Command error: "@ + message@,
{
}

/// A level may do what a lower one may: nothing is open to a level and closed to
/// the one above it.
pub proof fn law_levels_are_ordered(a: UserLevel, b: UserLevel, r: bool, q: bool)
    requires
        call_ensures(UserLevel::is_below, (a, b), r),
        call_ensures(UserLevel::is_below, (b, a), q),
    ensures
        r && q ==> false,
        !r && !q <==> a == b,
        a is Chat && !(b is Chat) ==> r,
        b is Admin && !(a is Admin) ==> r,
{
}

/// A tier is named by its own name, however it is capitalized.
pub proof fn law_tiers_go_by_their_names(s: &str, r: Option<CommandTier>)
    requires
        call_ensures(HelpArgs::parse_tier, (s,), r),
    ensures
        r == Some(CommandTier::Essential) <==> lowercase(s@) == "essential"@,
        r == Some(CommandTier::Standard) <==> lowercase(s@) == "standard"@,
        r == Some(CommandTier::Power) <==> lowercase(s@) == "power"@,
{
    reveal_strlit("essential");
    reveal_strlit("standard");
    reveal_strlit("power");
    assert("essential"@.len() == 9 && "standard"@.len() == 8 && "power"@.len() == 5);
}

/// What a further word says to help: a number is the page, and the tier stays; a
/// tier is the tier, and the page stays; any other word changes nothing. Without
/// words it is the first page of all tiers.
pub proof fn law_help_reads_word_by_word(
    args: &str,
    more: &str,
    word: Seq<char>,
    r: HelpArgs,
    q: HelpArgs,
)
    requires
        call_ensures(HelpArgs::parse, (args,), r),
        call_ensures(HelpArgs::parse, (more,), q),
        words(more@) == words(args@).push(word),
        words(args@).len() > 0 ==> words(args@).last() != "--tier"@,
    ensures
        words(args@).len() == 0 ==> r.page == 1 && r.tier is None,
        r.page >= 1,
        "--tier="@.is_prefix_of(word) ==> q.page == r.page && q.tier == tier_named(word.skip(7)),
        !"--tier="@.is_prefix_of(word) && word != "--tier"@ ==> q.tier == r.tier && (usize_of(
            word,
        ) is Some ==> q.page == (if usize_of(word)->0 == 0 {
            1
        } else {
            usize_of(word)->0
        })) && (usize_of(word) is None ==> q.page == r.page),
        word == "--tier"@ ==> q.page == r.page && q.tier == r.tier,
{
    let tokens = words(args@);
    reveal_strlit("--tier=");
    reveal_strlit("--tier");
    assert("--tier="@.len() == 7 && "--tier"@.len() == 6);
    lemma_help_goes_on(tokens, word, 0, 1, None);
    let all = tokens.push(word);
    assert(all[tokens.len() as int] == word);
    reveal_with_fuel(help_request, 2);
    if tokens.len() == 0 {
        assert(help_request(tokens, 0, 1, None) == (1usize, None::<CommandTier>));
    }
}

proof fn lemma_help_goes_on(
    tokens: Seq<Seq<char>>,
    word: Seq<char>,
    i: int,
    page: usize,
    tier: Option<CommandTier>,
)
    requires
        0 <= i <= tokens.len(),
        tokens.len() > 0 ==> tokens.last() != "--tier"@,
    ensures
        ({
            let r = help_request(tokens, i, page, tier);
            help_request(tokens.push(word), i, page, tier) == help_request(
                tokens.push(word),
                tokens.len() as int,
                r.0,
                r.1,
            )
        }),
    decreases tokens.len() - i,
{
    let all = tokens.push(word);
    if i < tokens.len() {
        assert(all[i] == tokens[i]);
        match crate::text::without_prefix(tokens[i], "--tier="@) {
            Some(name) => {
                lemma_help_goes_on(tokens, word, i + 1, page, tier_named(name));
            },
            None => {
                if tokens[i] == "--tier"@ {
                    assert(i + 1 < tokens.len());
                    assert(all[i + 1] == tokens[i + 1]);
                    lemma_help_goes_on(tokens, word, i + 2, page, tier_named(tokens[i + 1]));
                } else {
                    match usize_of(tokens[i]) {
                        Some(n) => lemma_help_goes_on(tokens, word, i + 1, n, tier),
                        None => lemma_help_goes_on(tokens, word, i + 1, page, tier),
                    }
                }
            },
        }
    }
}

/// A tier that follows its option is the tier that help shows.
pub proof fn law_help_reads_the_word_behind_its_option(
    args: &str,
    more: &str,
    name: Seq<char>,
    r: HelpArgs,
    q: HelpArgs,
)
    requires
        call_ensures(HelpArgs::parse, (args,), r),
        call_ensures(HelpArgs::parse, (more,), q),
        words(more@) == words(args@).push("--tier"@).push(name),
        words(args@).len() > 0 ==> words(args@).last() != "--tier"@,
    ensures
        q.page == r.page,
        q.tier == tier_named(name),
{
    let tokens = words(args@);
    let all = words(more@);
    reveal_strlit("--tier=");
    reveal_strlit("--tier");
    assert("--tier="@.len() == 7 && "--tier"@.len() == 6);
    lemma_help_goes_on_by_two(tokens, name, 0, 1, None);
    let n = tokens.len() as int;
    assert(all[n] == "--tier"@ && all[n + 1] == name);
    let h = help_request(tokens, 0, 1, None);
    assert(help_request(all, n + 2, h.0, tier_named(name)) == (h.0, tier_named(name)));
}

proof fn lemma_help_goes_on_by_two(
    tokens: Seq<Seq<char>>,
    name: Seq<char>,
    i: int,
    page: usize,
    tier: Option<CommandTier>,
)
    requires
        0 <= i <= tokens.len(),
        tokens.len() > 0 ==> tokens.last() != "--tier"@,
    ensures
        ({
            let r = help_request(tokens, i, page, tier);
            let all = tokens.push("--tier"@).push(name);
            help_request(all, i, page, tier) == help_request(all, tokens.len() as int, r.0, r.1)
        }),
    decreases tokens.len() - i,
{
    let all = tokens.push("--tier"@).push(name);
    if i < tokens.len() {
        assert(all[i] == tokens[i]);
        match crate::text::without_prefix(tokens[i], "--tier="@) {
            Some(t) => {
                lemma_help_goes_on_by_two(tokens, name, i + 1, page, tier_named(t));
            },
            None => {
                if tokens[i] == "--tier"@ {
                    assert(i + 1 < tokens.len());
                    assert(all[i + 1] == tokens[i + 1]);
                    lemma_help_goes_on_by_two(tokens, name, i + 2, page, tier_named(tokens[i + 1]));
                } else {
                    match usize_of(tokens[i]) {
                        Some(n) => lemma_help_goes_on_by_two(tokens, name, i + 1, n, tier),
                        None => lemma_help_goes_on_by_two(tokens, name, i + 1, page, tier),
                    }
                }
            },
        }
    }
}

/// The commands that are listed are those that can be looked up: the catalog,
/// which every list shows alike.
pub proof fn law_the_catalog_is_listed(r: Vec<CommandDef>, q: Vec<CommandDef>, i: int)
    requires
        call_ensures(built_in_commands, (), r),
        call_ensures(handle_commands_list, (), q),
    ensures
        r@.len() == q@.len(),
        0 <= i < r@.len() ==> r@[i]@ == q@[i]@,
        0 <= i < r@.len() && !r@[i].local ==> exists|h: CommandHandler|
            #[trigger] word_of(h) == r@[i].key@,
{
    let a = crate::gateway::commands::command_models(r@);
    let b = crate::gateway::commands::command_models(q@);
    assert(a.len() == r@.len() && b.len() == q@.len());
    if 0 <= i < r@.len() {
        assert(a[i] == r@[i]@ && b[i] == q@[i]@);
        if !r@[i].local {
            lemma_own_handler(i);
            let h = handler_of(catalog()[i].key)->0;
            assert(word_of(h) == r@[i].key@);
        }
    }
}

/// Parameters are taken as they were parsed; parameters that are missing are told
/// from those that do not parse.
pub proof fn law_parameters_are_taken_as_parsed<T>(
    parsed: Option<Result<T, String>>,
    r: Result<T, Reply>,
)
    requires
        call_ensures(parse_params::<T>, (parsed,), r),
    ensures
        r is Ok <==> parsed is Some && parsed->0 is Ok,
        r is Ok ==> r->Ok_0 == parsed->0->Ok_0,
        parsed is None ==> (r matches Err(Reply::Error { code, message }) && code@
            == "INVALID_PARAMS"@ && message@ == "Missing parameters"@),
        parsed is Some && parsed->0 is Err ==> (r matches Err(Reply::Error { code, message })
            && code@ == "INVALID_PARAMS"@ && message@ == "Invalid parameters: "@
            + parsed->0->Err_0@),
{
}

/// The text of an answer is read back from it.
pub proof fn law_the_text_of_an_answer_is_read_back(
    text: &str,
    mode: &Option<String>,
    r: Json,
    payload: &Option<Json>,
    q: String,
)
    requires
        call_ensures(answer_json, (text, mode), r),
        call_ensures(payload_text, (payload,), q),
    ensures
        *payload is Some && payload->0@ == r@ ==> q@ == text@,
        *payload is None ==> q@.len() == 0,
        *mode is Some ==> crate::json::field(r@, "mode"@) == Some(JsonModel::Text(mode->0@)),
        *mode is None ==> crate::json::field(r@, "mode"@) is None,
{
    reveal_strlit("text");
    reveal_strlit("mode");
    assert("text"@[0] == 't' && "mode"@[0] == 'm');
    reveal_with_fuel(crate::json::member, 3);
}

/// A user who is not trusted enough is told so: which level the command needs and
/// which level the user has, each by its name.
pub proof fn law_a_refusal_names_both_levels(
    command: &str,
    args: &str,
    admin_scope: bool,
    level: UserLevel,
    r: CommandRun,
    h: CommandHandler,
    has: String,
)
    requires
        call_ensures(handle_commands_execute, (command, args, admin_scope, level), r),
        call_ensures(UserLevel::name, (level,), has),
        normalized(command@) == word_of(h),
        admin_scope,
    ensures
        has@ == (match level {
            UserLevel::Chat => "Chat"@,
            UserLevel::User => "User"@,
            UserLevel::Admin => "Admin"@,
        }),
        level is Chat && !is_for_admins(h) ==> (r.verdict matches Verdict::Refused(
            Reply::Error { message, .. },
        ) && message@ == "Command /"@ + word_of(h) + " requires "@ + "User"@ + " access; you have "@
            + has@),
        !(level is Admin) && is_for_admins(h) ==> (r.verdict matches Verdict::Refused(
            Reply::Error { message, .. },
        ) && message@ == "Command /"@ + word_of(h) + " requires "@ + "Admin"@
            + " access; you have "@ + has@),
{
    lemma_words_differ();
    let name = normalized(command@);
    let i = place_of(name);
    assert(catalog()[i].key == word_of(h));
    law_the_catalog_says_who_may_run_what(i, h);
    assert(has_word(catalog()[i], name));
    lemma_lookup(catalog(), name, 0);
    let at = lookup_from(catalog(), name, 0)->0;
    if at != i {
        assert(has_word(catalog()[at], name));
        assert(catalog()[at].goes_by(name));
        assert(catalog()[i].goes_by(name));
        crate::gateway::commands::law_a_word_names_at_most_one_command(name, i, at);
    }
}

} // verus!
