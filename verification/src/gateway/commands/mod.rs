//! Slash commands: the catalog, who may run which, and what each answers.
use vstd::prelude::*;
use vstd::string::*;

use crate::json::{field, text_of, Json, JsonModel};
use crate::text::{
    cat, is_one_of, lowercase, opt_text, parse_usize, same, split_words, strip_prefix, texts,
    trim_start_char, trimmed_start_of, usize_of, without_prefix, words,
};

pub mod session;
pub mod tools;

verus! {

// ---------------------------------------------------------------------------
// Command definitions
// ---------------------------------------------------------------------------

/// Command category for grouping
#[derive(Debug, Clone, Copy, PartialEq, Eq, Structural)]
pub enum CommandCategory {
    Session,
    Model,
    Status,
    Agents,
    Tools,
    Admin,
}

/// Command tier for progressive disclosure
#[derive(Debug, Clone, Copy, PartialEq, Eq, Structural)]
pub enum CommandTier {
    Essential,
    Standard,
    Power,
}

/// Where a command is valid
#[derive(Debug, Clone, Copy, PartialEq, Eq, Structural)]
pub enum CommandScope {
    /// Works everywhere (default)
    Global,
    /// DM only
    DirectMessage,
    /// Channel only
    Channel,
}

impl Default for CommandScope {
    fn default() -> (r: Self)
        ensures
            r == CommandScope::Global,
    {
        CommandScope::Global
    }
}

/// Which provider and model a command should run on, and why
#[derive(Debug, Clone)]
pub struct CommandProviderHint {
    pub provider: Option<String>,
    pub model: Option<String>,
    pub reason: String,
}

/// What a hint is.
pub struct HintModel {
    pub provider: Option<Seq<char>>,
    pub model: Option<Seq<char>>,
    pub reason: Seq<char>,
}

impl View for CommandProviderHint {
    type V = HintModel;

    open spec fn view(&self) -> HintModel {
        HintModel {
            provider: opt_text(self.provider),
            model: opt_text(self.model),
            reason: self.reason@,
        }
    }
}

/// Metadata for a single slash command
#[derive(Debug, Clone)]
pub struct CommandDef {
    pub key: String,
    pub name: String,
    pub description: String,
    pub args: Option<String>,
    pub category: CommandCategory,
    pub tier: CommandTier,
    pub local: bool,
    pub requires_admin: bool,
    pub aliases: Vec<String>,
    pub scope: CommandScope,
    pub provider_hint: Option<CommandProviderHint>,
}

/// What a command is.
pub struct CommandModel {
    pub key: Seq<char>,
    pub name: Seq<char>,
    pub description: Seq<char>,
    pub args: Option<Seq<char>>,
    pub category: CommandCategory,
    pub tier: CommandTier,
    pub local: bool,
    pub requires_admin: bool,
    pub aliases: Seq<Seq<char>>,
    pub scope: CommandScope,
    pub provider_hint: Option<HintModel>,
}

impl View for CommandDef {
    type V = CommandModel;

    open spec fn view(&self) -> CommandModel {
        CommandModel {
            key: self.key@,
            name: self.name@,
            description: self.description@,
            args: opt_text(self.args),
            category: self.category,
            tier: self.tier,
            local: self.local,
            requires_admin: self.requires_admin,
            aliases: texts(self.aliases@),
            scope: self.scope,
            provider_hint: match self.provider_hint {
                Some(h) => Some(h@),
                None => None,
            },
        }
    }
}

/// What the commands of a list are.
pub open spec fn command_models(commands: Seq<CommandDef>) -> Seq<CommandModel> {
    commands.map_values(|c: CommandDef| c@)
}

/// A command of the standard tier, for everybody, everywhere.
pub open spec fn command(
    key: Seq<char>,
    name: Seq<char>,
    description: Seq<char>,
    category: CommandCategory,
) -> CommandModel {
    CommandModel {
        key,
        name,
        description,
        args: None,
        category,
        tier: CommandTier::Standard,
        local: false,
        requires_admin: false,
        aliases: Seq::empty(),
        scope: CommandScope::Global,
        provider_hint: None,
    }
}

impl CommandModel {
    /// The command, with arguments.
    pub open spec fn taking(self, args: Seq<char>) -> CommandModel {
        CommandModel { args: Some(args), ..self }
    }

    /// The command, with an alias.
    pub open spec fn called(self, alias: Seq<char>) -> CommandModel {
        CommandModel { aliases: seq![alias], ..self }
    }

    /// The command, in channels only.
    pub open spec fn in_channels(self) -> CommandModel {
        CommandModel { local: true, ..self }
    }

    /// The command, for administrators only.
    pub open spec fn for_admins(self) -> CommandModel {
        CommandModel { requires_admin: true, ..self }
    }

    /// The command, in the essential tier.
    pub open spec fn as_essential(self) -> CommandModel {
        CommandModel { tier: CommandTier::Essential, ..self }
    }

    /// The command, in the power tier.
    pub open spec fn as_power(self) -> CommandModel {
        CommandModel { tier: CommandTier::Power, ..self }
    }

    /// Whether the command goes by a name.
    pub open spec fn goes_by(self, name: Seq<char>) -> bool {
        self.key == name || self.name == name || self.aliases.contains(name)
    }
}

impl CommandDef {
    fn new(key: &str, name: &str, description: &str, category: CommandCategory) -> (r: Self)
        ensures
            r@ == command(key@, name@, description@, category),
    {
        let r = CommandDef {
            key: key.to_string(),
            name: name.to_string(),
            description: description.to_string(),
            args: None,
            category,
            tier: CommandTier::Standard,
            local: false,
            requires_admin: false,
            aliases: Vec::new(),
            scope: CommandScope::Global,
            provider_hint: None,
        };
        assert(r@.aliases =~= Seq::empty());
        r
    }

    fn with_args(self, args: &str) -> (r: Self)
        ensures
            r@ == self@.taking(args@),
    {
        CommandDef { args: Some(args.to_string()), ..self }
    }

    fn with_aliases(self, aliases: &[&str; 1]) -> (r: Self)
        ensures
            r@ == self@.called(aliases@[0]@),
    {
        let r = CommandDef { aliases: vec![aliases[0].to_string()], ..self };
        assert(r@.aliases =~= seq![aliases@[0]@]);
        r
    }

    fn local(self) -> (r: Self)
        ensures
            r@ == self@.in_channels(),
    {
        CommandDef { local: true, ..self }
    }

    fn admin(self) -> (r: Self)
        ensures
            r@ == self@.for_admins(),
    {
        CommandDef { requires_admin: true, ..self }
    }

    fn essential(self) -> (r: Self)
        ensures
            r@ == self@.as_essential(),
    {
        CommandDef { tier: CommandTier::Essential, ..self }
    }

    fn power(self) -> (r: Self)
        ensures
            r@ == self@.as_power(),
    {
        CommandDef { tier: CommandTier::Power, ..self }
    }
}

/// The built-in commands.
pub open spec fn catalog() -> Seq<CommandModel> {
    seq![
        command("new"@, "new"@, "Start a new session"@, CommandCategory::Session)
            .taking("[model]"@)
            .called("clear"@)
            .in_channels()
            .as_essential(),
        command("reset"@, "reset"@, "Reset the current session"@, CommandCategory::Session)
            .taking("[soft|hard]"@)
            .as_essential(),
        command("stop"@, "stop"@, "Abort the current run"@, CommandCategory::Session)
            .as_essential(),
        command("compact"@, "compact"@, "Compact the session context"@, CommandCategory::Session)
            .taking("[instructions]"@),
        command(
            "export-session"@,
            "export-session"@,
            "Export session to HTML"@,
            CommandCategory::Session,
        ).taking("[path]"@),
        command("model"@, "model"@, "Show or switch the active model"@, CommandCategory::Model)
            .taking("[name|#|status]"@),
        command("think"@, "think"@, "Set thinking level"@, CommandCategory::Model)
            .taking("<level>"@),
        command("verbose"@, "verbose"@, "Toggle verbose output"@, CommandCategory::Model)
            .taking("on|off|full"@),
        command("fast"@, "fast"@, "Show or set fast mode"@, CommandCategory::Model)
            .taking("[on|off|status]"@),
        command("trace"@, "trace"@, "Toggle plugin trace"@, CommandCategory::Model)
            .taking("on|off"@),
        command("reasoning"@, "reasoning"@, "Set reasoning visibility"@, CommandCategory::Model)
            .taking("[on|off|stream]"@),
        command("queue"@, "queue"@, "Set queue behavior"@, CommandCategory::Model)
            .taking("<mode>"@),
        command("help"@, "help"@, "Show help summary"@, CommandCategory::Status)
            .called("commands"@)
            .as_essential(),
        command("status"@, "status"@, "Show runtime status"@, CommandCategory::Status)
            .as_essential(),
        command("tools"@, "tools"@, "Show available tools"@, CommandCategory::Status)
            .taking("[compact|verbose]"@),
        command("whoami"@, "whoami"@, "Show your sender ID"@, CommandCategory::Status)
            .as_essential(),
        command("usage"@, "usage"@, "Show usage statistics"@, CommandCategory::Status)
            .taking("[off|tokens|full|cost]"@),
        command("context"@, "context"@, "Show context assembly info"@, CommandCategory::Status)
            .taking("[list|detail|json]"@),
        command("subagents"@, "subagents"@, "Manage sub-agents"@, CommandCategory::Agents)
            .taking("list|kill|log|info|send|steer|spawn"@),
        command("acp"@, "acp"@, "Manage ACP sessions"@, CommandCategory::Agents)
            .taking("spawn|cancel|steer|close|sessions|status|..."@),
        command("skill"@, "skill"@, "List or show skill details"@, CommandCategory::Agents)
            .taking("[name]"@),
        command("session"@, "session"@, "Manage session timeouts"@, CommandCategory::Session)
            .taking("idle|max-age <duration|off>"@),
        command("kill"@, "kill"@, "Abort sub-agent runs"@, CommandCategory::Agents)
            .taking("<id|#|all>"@),
        command("steer"@, "steer"@, "Send steering to a sub-agent"@, CommandCategory::Agents)
            .taking("<id> <message>"@)
            .called("tell"@),
        command("focus"@, "focus"@, "Bind thread to session target"@, CommandCategory::Agents)
            .taking("<target>"@),
        command("unfocus"@, "unfocus"@, "Remove thread binding"@, CommandCategory::Agents),
        command("allowlist"@, "allowlist"@, "Manage command allowlist"@, CommandCategory::Agents)
            .taking("[list|add|remove] ..."@),
        command("approve"@, "approve"@, "Resolve an approval prompt"@, CommandCategory::Agents)
            .taking("<id> <decision>"@)
            .called("y"@),
        command("btw"@, "btw"@, "Side question without changing context"@, CommandCategory::Agents)
            .taking("<question>"@),
        command("config"@, "config"@, "Read or write config"@, CommandCategory::Admin)
            .taking("show|get|set|unset"@)
            .for_admins()
            .as_power(),
        command("plugins"@, "plugins"@, "Inspect or toggle plugins"@, CommandCategory::Admin)
            .taking("list|install|enable|disable"@)
            .for_admins()
            .as_power(),
        command("mcp"@, "mcp"@, "Manage MCP server connections"@, CommandCategory::Admin)
            .taking("show|connect|disconnect|tools|resources|prompts|call|read"@)
            .for_admins()
            .as_power(),
        command("debug"@, "debug"@, "Runtime debug overrides"@, CommandCategory::Admin)
            .taking("show|set|unset|reset"@)
            .for_admins()
            .as_power(),
        command("restart"@, "restart"@, "Restart the gateway"@, CommandCategory::Admin)
            .for_admins()
            .as_power(),
        command("bash"@, "bash"@, "Run a host shell command"@, CommandCategory::Admin)
            .taking("<command>"@)
            .for_admins()
            .as_power(),
        command(
            "goal"@,
            "goal"@,
            "Execute a goal with auto-check conditions"@,
            CommandCategory::Agents,
        ).taking("<description> [--max-rounds N]"@),
    ]
}

/// Built-in command catalog
pub fn built_in_commands() -> (r: Vec<CommandDef>)
    ensures
        command_models(r@) == catalog(),
{
    let r = vec![
        CommandDef::new("new", "new", "Start a new session", CommandCategory::Session)
            .with_args("[model]")
            .with_aliases(&["clear"])
            .local()
            .essential(),
        CommandDef::new("reset", "reset", "Reset the current session", CommandCategory::Session)
            .with_args("[soft|hard]")
            .essential(),
        CommandDef::new("stop", "stop", "Abort the current run", CommandCategory::Session)
            .essential(),
        CommandDef::new(
            "compact",
            "compact",
            "Compact the session context",
            CommandCategory::Session,
        ).with_args("[instructions]"),
        CommandDef::new(
            "export-session",
            "export-session",
            "Export session to HTML",
            CommandCategory::Session,
        ).with_args("[path]"),
        CommandDef::new("model", "model", "Show or switch the active model", CommandCategory::Model)
            .with_args("[name|#|status]"),
        CommandDef::new("think", "think", "Set thinking level", CommandCategory::Model)
            .with_args("<level>"),
        CommandDef::new("verbose", "verbose", "Toggle verbose output", CommandCategory::Model)
            .with_args("on|off|full"),
        CommandDef::new("fast", "fast", "Show or set fast mode", CommandCategory::Model)
            .with_args("[on|off|status]"),
        CommandDef::new("trace", "trace", "Toggle plugin trace", CommandCategory::Model)
            .with_args("on|off"),
        CommandDef::new(
            "reasoning",
            "reasoning",
            "Set reasoning visibility",
            CommandCategory::Model,
        ).with_args("[on|off|stream]"),
        CommandDef::new("queue", "queue", "Set queue behavior", CommandCategory::Model)
            .with_args("<mode>"),
        CommandDef::new("help", "help", "Show help summary", CommandCategory::Status)
            .with_aliases(&["commands"])
            .essential(),
        CommandDef::new("status", "status", "Show runtime status", CommandCategory::Status)
            .essential(),
        CommandDef::new("tools", "tools", "Show available tools", CommandCategory::Status)
            .with_args("[compact|verbose]"),
        CommandDef::new("whoami", "whoami", "Show your sender ID", CommandCategory::Status)
            .essential(),
        CommandDef::new("usage", "usage", "Show usage statistics", CommandCategory::Status)
            .with_args("[off|tokens|full|cost]"),
        CommandDef::new("context", "context", "Show context assembly info", CommandCategory::Status)
            .with_args("[list|detail|json]"),
        CommandDef::new("subagents", "subagents", "Manage sub-agents", CommandCategory::Agents)
            .with_args("list|kill|log|info|send|steer|spawn"),
        CommandDef::new("acp", "acp", "Manage ACP sessions", CommandCategory::Agents)
            .with_args("spawn|cancel|steer|close|sessions|status|..."),
        CommandDef::new("skill", "skill", "List or show skill details", CommandCategory::Agents)
            .with_args("[name]"),
        CommandDef::new("session", "session", "Manage session timeouts", CommandCategory::Session)
            .with_args("idle|max-age <duration|off>"),
        CommandDef::new("kill", "kill", "Abort sub-agent runs", CommandCategory::Agents)
            .with_args("<id|#|all>"),
        CommandDef::new("steer", "steer", "Send steering to a sub-agent", CommandCategory::Agents)
            .with_args("<id> <message>")
            .with_aliases(&["tell"]),
        CommandDef::new("focus", "focus", "Bind thread to session target", CommandCategory::Agents)
            .with_args("<target>"),
        CommandDef::new("unfocus", "unfocus", "Remove thread binding", CommandCategory::Agents),
        CommandDef::new(
            "allowlist",
            "allowlist",
            "Manage command allowlist",
            CommandCategory::Agents,
        ).with_args("[list|add|remove] ..."),
        CommandDef::new("approve", "approve", "Resolve an approval prompt", CommandCategory::Agents)
            .with_args("<id> <decision>")
            .with_aliases(&["y"]),
        CommandDef::new(
            "btw",
            "btw",
            "Side question without changing context",
            CommandCategory::Agents,
        ).with_args("<question>"),
        CommandDef::new("config", "config", "Read or write config", CommandCategory::Admin)
            .with_args("show|get|set|unset")
            .admin()
            .power(),
        CommandDef::new("plugins", "plugins", "Inspect or toggle plugins", CommandCategory::Admin)
            .with_args("list|install|enable|disable")
            .admin()
            .power(),
        CommandDef::new("mcp", "mcp", "Manage MCP server connections", CommandCategory::Admin)
            .with_args("show|connect|disconnect|tools|resources|prompts|call|read")
            .admin()
            .power(),
        CommandDef::new("debug", "debug", "Runtime debug overrides", CommandCategory::Admin)
            .with_args("show|set|unset|reset")
            .admin()
            .power(),
        CommandDef::new("restart", "restart", "Restart the gateway", CommandCategory::Admin)
            .admin()
            .power(),
        CommandDef::new("bash", "bash", "Run a host shell command", CommandCategory::Admin)
            .with_args("<command>")
            .admin()
            .power(),
        CommandDef::new(
            "goal",
            "goal",
            "Execute a goal with auto-check conditions",
            CommandCategory::Agents,
        ).with_args("<description> [--max-rounds N]"),
    ];
    assert(command_models(r@) =~= catalog());
    r
}

/// The command catalog that clients are given.
pub fn handle_commands_list() -> (r: Vec<CommandDef>)
    ensures
        command_models(r@) == catalog(),
{
    built_in_commands()
}

// ---------------------------------------------------------------------------
// Arguments of /help
// ---------------------------------------------------------------------------

/// Parsed arguments for the `/help` command
#[derive(Debug)]
pub struct HelpArgs {
    pub page: usize,
    pub tier: Option<CommandTier>,
}

impl Default for HelpArgs {
    fn default() -> (r: Self)
        ensures
            r.page == 0,
            r.tier is None,
    {
        HelpArgs { page: 0, tier: None }
    }
}

/// The tier of a name, in whatever case it is written.
pub open spec fn tier_named(name: Seq<char>) -> Option<CommandTier> {
    tier_of(lowercase(name))
}

/// The tier of a name in lower case.
pub open spec fn tier_of(name: Seq<char>) -> Option<CommandTier> {
    if name == "essential"@ {
        Some(CommandTier::Essential)
    } else if name == "standard"@ {
        Some(CommandTier::Standard)
    } else if name == "power"@ {
        Some(CommandTier::Power)
    } else {
        None
    }
}

/// The page and the tier that the tokens from `i` on ask for, where what came
/// before asked for `page` and `tier`: `--tier=<name>` and `--tier <name>` set
/// the tier, a number sets the page, the last one counts, and everything else is
/// passed over.
pub open spec fn help_request(
    tokens: Seq<Seq<char>>,
    i: int,
    page: usize,
    tier: Option<CommandTier>,
) -> (usize, Option<CommandTier>)
    decreases tokens.len() - i,
{
    if i < 0 || i >= tokens.len() {
        (page, tier)
    } else {
        match without_prefix(tokens[i], "--tier="@) {
            Some(name) => help_request(tokens, i + 1, page, tier_named(name)),
            None => if tokens[i] == "--tier"@ {
                if i + 1 < tokens.len() {
                    help_request(tokens, i + 2, page, tier_named(tokens[i + 1]))
                } else {
                    help_request(tokens, i + 1, page, tier)
                }
            } else {
                match usize_of(tokens[i]) {
                    Some(n) => help_request(tokens, i + 1, n, tier),
                    None => help_request(tokens, i + 1, page, tier),
                }
            },
        }
    }
}

/// The page, the first one at least, and the tier that a text asks for.
pub open spec fn help_asked(args: Seq<char>) -> (usize, Option<CommandTier>) {
    let asked = help_request(words(args), 0, 1, None);
    (
        if asked.0 == 0 {
            1
        } else {
            asked.0
        },
        asked.1,
    )
}

impl HelpArgs {
    /// The page and the tier that a text asks for.
    pub fn parse(args: &str) -> (r: Self)
        ensures
            (r.page, r.tier) == help_asked(args@),
    {
        let tokens = split_words(args);
        let ghost all = words(args@);
        let mut page: usize = 1;
        let mut tier: Option<CommandTier> = None;
        let mut i: usize = 0;
        while i < tokens.len()
            invariant
                i <= tokens@.len(),
                texts(tokens@) == all,
                help_request(all, 0, 1, None) == help_request(all, i as int, page, tier),
            decreases tokens.len() - i,
        {
            assert(all[i as int] == tokens@[i as int]@);
            let t = &tokens[i];
            match strip_prefix(t, "--tier=") {
                Some(name) => {
                    tier = HelpArgs::parse_tier(&name);
                },
                None => {
                    if same(t, "--tier") {
                        if i + 1 < tokens.len() {
                            assert(all[i + 1] == tokens@[i + 1]@);
                            tier = HelpArgs::parse_tier(&tokens[i + 1]);
                            i += 1;
                        }
                    } else {
                        match parse_usize(t) {
                            Some(n) => {
                                page = n;
                            },
                            None => {},
                        }
                    }
                },
            }
            i += 1;
        }
        if page == 0 {
            page = 1;
        }
        HelpArgs { page, tier }
    }

    /// The tier of a name, in whatever case it is written.
    pub fn parse_tier(s: &str) -> (r: Option<CommandTier>)
        ensures
            r == tier_named(s@),
    {
        HelpArgs::tier_of_lower(&s.to_lowercase())
    }

    /// The tier of a name in lower case.
    pub fn tier_of_lower(s: &str) -> (r: Option<CommandTier>)
        ensures
            r == tier_of(s@),
    {
        if same(s, "essential") {
            Some(CommandTier::Essential)
        } else if same(s, "standard") {
            Some(CommandTier::Standard)
        } else if same(s, "power") {
            Some(CommandTier::Power)
        } else {
            None
        }
    }
}

// ---------------------------------------------------------------------------
// Replies
// ---------------------------------------------------------------------------

/// What a command answers.
#[derive(Debug)]
pub enum Reply {
    Text(String),
    Error { code: String, message: String },
}

/// Whether a reply is a text.
pub open spec fn is_text(r: Reply, text: Seq<char>) -> bool {
    r matches Reply::Text(t) && t@ == text
}

/// Whether a reply is an error.
pub open spec fn is_error(r: Reply, with_code: Seq<char>, text: Seq<char>) -> bool {
    r matches Reply::Error { code, message } && code@ == with_code && message@ == text
}

/// An error reply.
pub fn error_reply(code: &str, message: &str) -> (r: Reply)
    ensures
        is_error(r, code@, message@),
{
    Reply::Error { code: code.to_string(), message: message.to_string() }
}

/// A text reply.
pub fn text_reply(text: &str) -> (r: Reply)
    ensures
        is_text(r, text@),
{
    Reply::Text(text.to_string())
}

/// The parameters of a request, or why there are none: `parsed` is what parsing
/// them gave, if the request has any.
pub fn parse_params<T>(parsed: Option<Result<T, String>>) -> (r: Result<T, Reply>)
    ensures
        match parsed {
            Some(Ok(v)) => r matches Ok(w) && w == v,
            Some(Err(e)) => r matches Err(x) && is_error(
                x,
                "INVALID_PARAMS"@,
                "Invalid parameters: "@ + e@,
            ),
            None => r matches Err(x) && is_error(x, "INVALID_PARAMS"@, "Missing parameters"@),
        },
{
    match parsed {
        Some(Ok(v)) => Ok(v),
        Some(Err(e)) => Err(error_reply("INVALID_PARAMS", &cat("Invalid parameters: ", &e))),
        None => Err(error_reply("INVALID_PARAMS", "Missing parameters")),
    }
}

// ---------------------------------------------------------------------------
// Executing a command
// ---------------------------------------------------------------------------

/// How far a user is trusted, from the least to the most.
#[derive(Debug, Clone, Copy, PartialEq, Eq, Structural)]
pub enum UserLevel {
    Chat,
    User,
    Admin,
}

impl UserLevel {
    /// The place of a level in the order of trust.
    pub open spec fn rank(self) -> int {
        match self {
            UserLevel::Chat => 0,
            UserLevel::User => 1,
            UserLevel::Admin => 2,
        }
    }

    /// The level by its name.
    pub open spec fn named(self) -> Seq<char> {
        match self {
            UserLevel::Chat => "Chat"@,
            UserLevel::User => "User"@,
            UserLevel::Admin => "Admin"@,
        }
    }

    /// The level by its name.
    pub fn name(self) -> (r: String)
        ensures
            r@ == self.named(),
    {
        match self {
            UserLevel::Chat => "Chat".to_string(),
            UserLevel::User => "User".to_string(),
            UserLevel::Admin => "Admin".to_string(),
        }
    }

    /// Whether this level is below another.
    pub fn is_below(self, other: UserLevel) -> (r: bool)
        ensures
            r == (self.rank() < other.rank()),
    {
        match (self, other) {
            (_, UserLevel::Chat) => false,
            (UserLevel::Chat, _) => true,
            (_, UserLevel::User) => false,
            (UserLevel::User, UserLevel::Admin) => true,
            (UserLevel::Admin, UserLevel::Admin) => false,
        }
    }
}

/// The level that a tier asks for.
pub open spec fn required_level(tier: CommandTier) -> UserLevel {
    match tier {
        CommandTier::Essential => UserLevel::User,
        CommandTier::Standard => UserLevel::User,
        CommandTier::Power => UserLevel::Admin,
    }
}

/// What answers a command.
#[derive(Debug, Clone, Copy, PartialEq, Eq, Structural)]
pub enum CommandHandler {
    Help,
    Status,
    Whoami,
    Stop,
    Reset,
    Model,
    Think,
    Verbose,
    Trace,
    Fast,
    Reasoning,
    Queue,
    Tools,
    Usage,
    Context,
    Compact,
    Session,
    ExportSession,
    Subagents,
    Acp,
    Steer,
    Kill,
    Focus,
    Unfocus,
    Skill,
    Allowlist,
    Approve,
    Btw,
    Config,
    Plugins,
    Mcp,
    Debug,
    Restart,
    Bash,
    Goal,
}

/// What answers the command of a key.
pub open spec fn handler_of(key: Seq<char>) -> Option<CommandHandler> {
    if key == "help"@ {
        Some(CommandHandler::Help)
    } else if key == "commands"@ {
        Some(CommandHandler::Help)
    } else if key == "status"@ {
        Some(CommandHandler::Status)
    } else if key == "whoami"@ {
        Some(CommandHandler::Whoami)
    } else if key == "stop"@ {
        Some(CommandHandler::Stop)
    } else if key == "reset"@ {
        Some(CommandHandler::Reset)
    } else if key == "model"@ {
        Some(CommandHandler::Model)
    } else if key == "think"@ {
        Some(CommandHandler::Think)
    } else if key == "verbose"@ {
        Some(CommandHandler::Verbose)
    } else if key == "trace"@ {
        Some(CommandHandler::Trace)
    } else if key == "fast"@ {
        Some(CommandHandler::Fast)
    } else if key == "reasoning"@ {
        Some(CommandHandler::Reasoning)
    } else if key == "queue"@ {
        Some(CommandHandler::Queue)
    } else if key == "tools"@ {
        Some(CommandHandler::Tools)
    } else if key == "usage"@ {
        Some(CommandHandler::Usage)
    } else if key == "context"@ {
        Some(CommandHandler::Context)
    } else if key == "compact"@ {
        Some(CommandHandler::Compact)
    } else if key == "session"@ {
        Some(CommandHandler::Session)
    } else if key == "export-session"@ {
        Some(CommandHandler::ExportSession)
    } else if key == "subagents"@ {
        Some(CommandHandler::Subagents)
    } else if key == "acp"@ {
        Some(CommandHandler::Acp)
    } else if key == "steer"@ {
        Some(CommandHandler::Steer)
    } else if key == "tell"@ {
        Some(CommandHandler::Steer)
    } else if key == "kill"@ {
        Some(CommandHandler::Kill)
    } else if key == "focus"@ {
        Some(CommandHandler::Focus)
    } else if key == "unfocus"@ {
        Some(CommandHandler::Unfocus)
    } else if key == "skill"@ {
        Some(CommandHandler::Skill)
    } else if key == "allowlist"@ {
        Some(CommandHandler::Allowlist)
    } else if key == "approve"@ {
        Some(CommandHandler::Approve)
    } else if key == "btw"@ {
        Some(CommandHandler::Btw)
    } else if key == "config"@ {
        Some(CommandHandler::Config)
    } else if key == "plugins"@ {
        Some(CommandHandler::Plugins)
    } else if key == "mcp"@ {
        Some(CommandHandler::Mcp)
    } else if key == "debug"@ {
        Some(CommandHandler::Debug)
    } else if key == "restart"@ {
        Some(CommandHandler::Restart)
    } else if key == "bash"@ {
        Some(CommandHandler::Bash)
    } else if key == "goal"@ {
        Some(CommandHandler::Goal)
    } else {
        None
    }
}

/// What answers the command of a key.
pub fn handler_for(key: &str) -> (r: Option<CommandHandler>)
    ensures
        r == handler_of(key@),
{
    if same(key, "help") {
        Some(CommandHandler::Help)
    } else if same(key, "commands") {
        Some(CommandHandler::Help)
    } else if same(key, "status") {
        Some(CommandHandler::Status)
    } else if same(key, "whoami") {
        Some(CommandHandler::Whoami)
    } else if same(key, "stop") {
        Some(CommandHandler::Stop)
    } else if same(key, "reset") {
        Some(CommandHandler::Reset)
    } else if same(key, "model") {
        Some(CommandHandler::Model)
    } else if same(key, "think") {
        Some(CommandHandler::Think)
    } else if same(key, "verbose") {
        Some(CommandHandler::Verbose)
    } else if same(key, "trace") {
        Some(CommandHandler::Trace)
    } else if same(key, "fast") {
        Some(CommandHandler::Fast)
    } else if same(key, "reasoning") {
        Some(CommandHandler::Reasoning)
    } else if same(key, "queue") {
        Some(CommandHandler::Queue)
    } else if same(key, "tools") {
        Some(CommandHandler::Tools)
    } else if same(key, "usage") {
        Some(CommandHandler::Usage)
    } else if same(key, "context") {
        Some(CommandHandler::Context)
    } else if same(key, "compact") {
        Some(CommandHandler::Compact)
    } else if same(key, "session") {
        Some(CommandHandler::Session)
    } else if same(key, "export-session") {
        Some(CommandHandler::ExportSession)
    } else if same(key, "subagents") {
        Some(CommandHandler::Subagents)
    } else if same(key, "acp") {
        Some(CommandHandler::Acp)
    } else if same(key, "steer") {
        Some(CommandHandler::Steer)
    } else if same(key, "tell") {
        Some(CommandHandler::Steer)
    } else if same(key, "kill") {
        Some(CommandHandler::Kill)
    } else if same(key, "focus") {
        Some(CommandHandler::Focus)
    } else if same(key, "unfocus") {
        Some(CommandHandler::Unfocus)
    } else if same(key, "skill") {
        Some(CommandHandler::Skill)
    } else if same(key, "allowlist") {
        Some(CommandHandler::Allowlist)
    } else if same(key, "approve") {
        Some(CommandHandler::Approve)
    } else if same(key, "btw") {
        Some(CommandHandler::Btw)
    } else if same(key, "config") {
        Some(CommandHandler::Config)
    } else if same(key, "plugins") {
        Some(CommandHandler::Plugins)
    } else if same(key, "mcp") {
        Some(CommandHandler::Mcp)
    } else if same(key, "debug") {
        Some(CommandHandler::Debug)
    } else if same(key, "restart") {
        Some(CommandHandler::Restart)
    } else if same(key, "bash") {
        Some(CommandHandler::Bash)
    } else if same(key, "goal") {
        Some(CommandHandler::Goal)
    } else {
        None
    }
}

/// The command as it is looked up: in lower case, without leading slashes.
pub open spec fn normalized(command: Seq<char>) -> Seq<char> {
    trimmed_start_of(lowercase(command), '/')
}

/// The first command at or after `i` that goes by a name.
pub open spec fn lookup_from(commands: Seq<CommandModel>, name: Seq<char>, i: int) -> Option<int>
    decreases commands.len() - i,
{
    if i < 0 || i >= commands.len() {
        None
    } else if commands[i].goes_by(name) {
        Some(i)
    } else {
        lookup_from(commands, name, i + 1)
    }
}

/// What is decided about a command.
#[derive(Debug)]
pub enum Verdict {
    /// Let the handler answer it.
    Run(CommandHandler),
    /// Answer with an error.
    Refused(Reply),
    /// The connection lacks the administrator's scope.
    Forbidden,
}

/// What is decided about a command, given whether the connection has the
/// administrator's scope and how far the user is trusted: it must be known, open
/// to the connection, available outside channels, and not above the user's
/// level, in this order.
pub open spec fn is_verdict(
    v: Verdict,
    commands: Seq<CommandModel>,
    name: Seq<char>,
    admin_scope: bool,
    level: UserLevel,
) -> bool {
    match lookup_from(commands, name, 0) {
        None => v matches Verdict::Refused(e) && is_error(
            e,
            "COMMAND_NOT_FOUND"@,
            "Unknown command: /"@ + name,
        ),
        Some(i) => {
            let c = commands[i];
            if c.requires_admin && !admin_scope {
                v is Forbidden
            } else if c.local {
                v matches Verdict::Refused(e) && is_error(
                    e,
                    "LOCAL_COMMAND_NOT_AVAILABLE"@,
                    "Command /"@ + c.key + " is only available in channel conversations"@,
                )
            } else if c.scope == CommandScope::Channel {
                v matches Verdict::Refused(e) && is_error(
                    e,
                    "WRONG_SCOPE"@,
                    "Command /"@ + c.key + " is only available in channels"@,
                )
            } else if level.rank() < required_level(c.tier).rank() {
                v matches Verdict::Refused(e) && is_error(
                    e,
                    "INSUFFICIENT_TIER"@,
                    "Command /"@ + c.key + " requires "@ + required_level(c.tier).named()
                        + " access; you have "@ + level.named(),
                )
            } else {
                match handler_of(c.key) {
                    Some(h) => v == Verdict::Run(h),
                    None => v matches Verdict::Refused(e) && is_error(
                        e,
                        "NOT_HANDLED"@,
                        "Command /"@ + c.key + " is not handled server-side"@,
                    ),
                }
            }
        },
    }
}

/// The position of the first command that goes by a name.
pub fn find_command(commands: &Vec<CommandDef>, name: &str) -> (r: Option<usize>)
    ensures
        match r {
            Some(i) => lookup_from(command_models(commands@), name@, 0) == Some(i as int) && i
                < commands@.len(),
            None => lookup_from(command_models(commands@), name@, 0) is None,
        },
{
    let ghost all = command_models(commands@);
    let mut i: usize = 0;
    while i < commands.len()
        invariant
            i <= commands@.len(),
            all == command_models(commands@),
            lookup_from(all, name@, 0) == lookup_from(all, name@, i as int),
        decreases commands.len() - i,
    {
        let c = &commands[i];
        assert(all[i as int] == c@);
        if same(&c.key, name) || same(&c.name, name) || is_one_of(c.aliases.as_slice(), name) {
            return Some(i);
        }
        i += 1;
    }
    None
}

fn about(key: &str, what: &str) -> (r: String)
    ensures
        r@ == "Command /"@ + key@ + what@,
{
    let mut s = "Command /".to_string();
    s.append(key);
    s.append(what);
    s
}

/// What is decided about a command of a list.
pub fn decide_command(
    commands: &Vec<CommandDef>,
    name: &str,
    admin_scope: bool,
    level: UserLevel,
) -> (r: Verdict)
    ensures
        is_verdict(r, command_models(commands@), name@, admin_scope, level),
{
    let i = match find_command(commands, name) {
        Some(i) => i,
        None => {
            return Verdict::Refused(
                error_reply("COMMAND_NOT_FOUND", &cat("Unknown command: /", name)),
            );
        },
    };
    let c = &commands[i];
    assert(command_models(commands@)[i as int] == c@);
    if c.requires_admin && !admin_scope {
        return Verdict::Forbidden;
    }
    if c.local {
        return Verdict::Refused(
            error_reply(
                "LOCAL_COMMAND_NOT_AVAILABLE",
                &about(&c.key, " is only available in channel conversations"),
            ),
        );
    }
    if c.scope == CommandScope::Channel {
        return Verdict::Refused(
            error_reply("WRONG_SCOPE", &about(&c.key, " is only available in channels")),
        );
    }
    let required = match c.tier {
        CommandTier::Essential => UserLevel::User,
        CommandTier::Standard => UserLevel::User,
        CommandTier::Power => UserLevel::Admin,
    };
    if level.is_below(required) {
        let mut message = about(&c.key, " requires ");
        message.append(&required.name());
        message.append(" access; you have ");
        message.append(&level.name());
        return Verdict::Refused(error_reply("INSUFFICIENT_TIER", &message));
    }
    match handler_for(&c.key) {
        Some(h) => Verdict::Run(h),
        None => Verdict::Refused(
            error_reply("NOT_HANDLED", &about(&c.key, " is not handled server-side")),
        ),
    }
}

/// What is done with a command: how the session's history records it, and what
/// is decided about it.
#[derive(Debug)]
pub struct CommandRun {
    /// The command as the history records it.
    pub user_text: String,
    pub verdict: Verdict,
}

/// Parse a command and decide about it. The history records the normalized
/// command when it has no arguments, and the command as written when it has.
pub fn handle_commands_execute(
    command: &str,
    args: &str,
    admin_scope: bool,
    level: UserLevel,
) -> (r: CommandRun)
    ensures
        r.user_text@ == "/"@ + (if args@.len() == 0 {
            normalized(command@)
        } else {
            command@
        }),
        is_verdict(r.verdict, catalog(), normalized(command@), admin_scope, level),
{
    let name = trim_start_char(&command.to_lowercase(), '/');
    let user_text = if args.is_empty() {
        cat("/", &name)
    } else {
        cat("/", command)
    };
    let commands = built_in_commands();
    CommandRun { user_text, verdict: decide_command(&commands, &name, admin_scope, level) }
}

/// The session whose history records a command: the one that was named, else the one
/// that the connection follows.
pub fn recording_session(named: Option<String>, followed: &Option<String>) -> (r: Option<String>)
    ensures
        opt_text(r) == (match opt_text(named) {
            Some(s) => Some(s),
            None => opt_text(*followed),
        }),
{
    match named {
        Some(s) => Some(s),
        None => followed.clone(),
    }
}

/// The payload of an answer: its text, and the display mode where it has one.
pub fn answer_json(text: &str, mode: &Option<String>) -> (r: Json)
    ensures
        r@ == JsonModel::Object(
            match opt_text(*mode) {
                Some(m) => seq![("text"@, JsonModel::Text(text@)), ("mode"@, JsonModel::Text(m))],
                None => seq![("text"@, JsonModel::Text(text@))],
            },
        ),
{
    let mut members: Vec<(String, Json)> = Vec::new();
    members.push(("text".to_string(), Json::text(text)));
    if let Some(m) = mode {
        members.push(("mode".to_string(), Json::text(m)));
    }
    let r = Json::object(members);
    assert(r@->Object_0 =~= match opt_text(*mode) {
        Some(m) => seq![("text"@, JsonModel::Text(text@)), ("mode"@, JsonModel::Text(m))],
        None => seq![("text"@, JsonModel::Text(text@))],
    });
    r
}

/// What the session's history records of a reply.
pub open spec fn recorded(reply: Reply) -> Seq<char> {
    match reply {
        Reply::Text(t) => t@,
        Reply::Error { message, .. } => "Command error: "@ + message@,
    }
}

/// What the session's history records of a reply.
pub fn result_text(reply: &Reply) -> (r: String)
    ensures
        r@ == recorded(*reply),
{
    match reply {
        Reply::Text(t) => t.clone(),
        Reply::Error { message, .. } => cat("Command error: ", message),
    }
}

/// What the session's history records of a successful response: the text in its
/// payload, nothing if there is none.
pub fn payload_text(payload: &Option<Json>) -> (r: String)
    ensures
        r@ == (match *payload {
            Some(p) => match field(p@, "text"@) {
                Some(t) => match text_of(t) {
                    Some(s) => s,
                    None => Seq::empty(),
                },
                None => Seq::empty(),
            },
            None => Seq::empty(),
        }),
{
    match payload {
        Some(p) => match p.get("text") {
            Some(t) => match t.as_str() {
                Some(s) => s.clone(),
                None => String::new(),
            },
            None => String::new(),
        },
        None => String::new(),
    }
}

// ---------------------------------------------------------------------------
// Laws
// ---------------------------------------------------------------------------

/// No built-in command that is available outside channels lacks a handler.
pub proof fn law_built_in_commands_are_handled(i: int)
    requires
        0 <= i < catalog().len(),
        !catalog()[i].local,
    ensures
        handler_of(catalog()[i].key) is Some,
{
}

/// Where the command that a word names stands in the catalog.
pub open spec fn place_of(word: Seq<char>) -> int {
    if word == "new"@ || word == "clear"@ {
        0
    } else if word == "reset"@ {
        1
    } else if word == "stop"@ {
        2
    } else if word == "compact"@ {
        3
    } else if word == "export-session"@ {
        4
    } else if word == "model"@ {
        5
    } else if word == "think"@ {
        6
    } else if word == "verbose"@ {
        7
    } else if word == "fast"@ {
        8
    } else if word == "trace"@ {
        9
    } else if word == "reasoning"@ {
        10
    } else if word == "queue"@ {
        11
    } else if word == "help"@ || word == "commands"@ {
        12
    } else if word == "status"@ {
        13
    } else if word == "tools"@ {
        14
    } else if word == "whoami"@ {
        15
    } else if word == "usage"@ {
        16
    } else if word == "context"@ {
        17
    } else if word == "subagents"@ {
        18
    } else if word == "acp"@ {
        19
    } else if word == "skill"@ {
        20
    } else if word == "session"@ {
        21
    } else if word == "kill"@ {
        22
    } else if word == "steer"@ || word == "tell"@ {
        23
    } else if word == "focus"@ {
        24
    } else if word == "unfocus"@ {
        25
    } else if word == "allowlist"@ {
        26
    } else if word == "approve"@ || word == "y"@ {
        27
    } else if word == "btw"@ {
        28
    } else if word == "config"@ {
        29
    } else if word == "plugins"@ {
        30
    } else if word == "mcp"@ {
        31
    } else if word == "debug"@ {
        32
    } else if word == "restart"@ {
        33
    } else if word == "bash"@ {
        34
    } else if word == "goal"@ {
        35
    } else {
        -1
    }
}

/// The words of the catalog differ, so each is a word of one command.
pub proof fn lemma_words_differ()
    ensures
        place_of("new"@) == 0,
        place_of("clear"@) == 0,
        place_of("reset"@) == 1,
        place_of("stop"@) == 2,
        place_of("compact"@) == 3,
        place_of("export-session"@) == 4,
        place_of("model"@) == 5,
        place_of("think"@) == 6,
        place_of("verbose"@) == 7,
        place_of("fast"@) == 8,
        place_of("trace"@) == 9,
        place_of("reasoning"@) == 10,
        place_of("queue"@) == 11,
        place_of("help"@) == 12,
        place_of("commands"@) == 12,
        place_of("status"@) == 13,
        place_of("tools"@) == 14,
        place_of("whoami"@) == 15,
        place_of("usage"@) == 16,
        place_of("context"@) == 17,
        place_of("subagents"@) == 18,
        place_of("acp"@) == 19,
        place_of("skill"@) == 20,
        place_of("session"@) == 21,
        place_of("kill"@) == 22,
        place_of("steer"@) == 23,
        place_of("tell"@) == 23,
        place_of("focus"@) == 24,
        place_of("unfocus"@) == 25,
        place_of("allowlist"@) == 26,
        place_of("approve"@) == 27,
        place_of("y"@) == 27,
        place_of("btw"@) == 28,
        place_of("config"@) == 29,
        place_of("plugins"@) == 30,
        place_of("mcp"@) == 31,
        place_of("debug"@) == 32,
        place_of("restart"@) == 33,
        place_of("bash"@) == 34,
        place_of("goal"@) == 35,
{
    reveal_strlit("new");
    reveal_strlit("clear");
    reveal_strlit("reset");
    reveal_strlit("stop");
    reveal_strlit("compact");
    reveal_strlit("export-session");
    reveal_strlit("model");
    reveal_strlit("think");
    reveal_strlit("verbose");
    reveal_strlit("fast");
    reveal_strlit("trace");
    reveal_strlit("reasoning");
    reveal_strlit("queue");
    reveal_strlit("help");
    reveal_strlit("commands");
    reveal_strlit("status");
    reveal_strlit("tools");
    reveal_strlit("whoami");
    reveal_strlit("usage");
    reveal_strlit("context");
    reveal_strlit("subagents");
    reveal_strlit("acp");
    reveal_strlit("skill");
    reveal_strlit("session");
    reveal_strlit("kill");
    reveal_strlit("steer");
    reveal_strlit("tell");
    reveal_strlit("focus");
    reveal_strlit("unfocus");
    reveal_strlit("allowlist");
    reveal_strlit("approve");
    reveal_strlit("y");
    reveal_strlit("btw");
    reveal_strlit("config");
    reveal_strlit("plugins");
    reveal_strlit("mcp");
    reveal_strlit("debug");
    reveal_strlit("restart");
    reveal_strlit("bash");
    reveal_strlit("goal");
    assert("new"@.len() == 3 && "new"@[0] == 'n' && "new"@[1] == 'e');
    assert("clear"@.len() == 5 && "clear"@[0] == 'c' && "clear"@[1] == 'l');
    assert("reset"@.len() == 5 && "reset"@[0] == 'r' && "reset"@[1] == 'e');
    assert("stop"@.len() == 4 && "stop"@[0] == 's' && "stop"@[1] == 't');
    assert("compact"@.len() == 7 && "compact"@[0] == 'c' && "compact"@[1] == 'o');
    assert("compact"@[2] == 'm');
    assert("export-session"@.len() == 14 && "export-session"@[0] == 'e' && "export-session"@[1] == 'x');
    assert("model"@.len() == 5 && "model"@[0] == 'm' && "model"@[1] == 'o');
    assert("think"@.len() == 5 && "think"@[0] == 't' && "think"@[1] == 'h');
    assert("verbose"@.len() == 7 && "verbose"@[0] == 'v' && "verbose"@[1] == 'e');
    assert("fast"@.len() == 4 && "fast"@[0] == 'f' && "fast"@[1] == 'a');
    assert("trace"@.len() == 5 && "trace"@[0] == 't' && "trace"@[1] == 'r');
    assert("reasoning"@.len() == 9 && "reasoning"@[0] == 'r' && "reasoning"@[1] == 'e');
    assert("queue"@.len() == 5 && "queue"@[0] == 'q' && "queue"@[1] == 'u');
    assert("help"@.len() == 4 && "help"@[0] == 'h' && "help"@[1] == 'e');
    assert("commands"@.len() == 8 && "commands"@[0] == 'c' && "commands"@[1] == 'o');
    assert("status"@.len() == 6 && "status"@[0] == 's' && "status"@[1] == 't');
    assert("tools"@.len() == 5 && "tools"@[0] == 't' && "tools"@[1] == 'o');
    assert("whoami"@.len() == 6 && "whoami"@[0] == 'w' && "whoami"@[1] == 'h');
    assert("usage"@.len() == 5 && "usage"@[0] == 'u' && "usage"@[1] == 's');
    assert("context"@.len() == 7 && "context"@[0] == 'c' && "context"@[1] == 'o');
    assert("context"@[2] == 'n');
    assert("subagents"@.len() == 9 && "subagents"@[0] == 's' && "subagents"@[1] == 'u');
    assert("acp"@.len() == 3 && "acp"@[0] == 'a' && "acp"@[1] == 'c');
    assert("skill"@.len() == 5 && "skill"@[0] == 's' && "skill"@[1] == 'k');
    assert("session"@.len() == 7 && "session"@[0] == 's' && "session"@[1] == 'e');
    assert("kill"@.len() == 4 && "kill"@[0] == 'k' && "kill"@[1] == 'i');
    assert("steer"@.len() == 5 && "steer"@[0] == 's' && "steer"@[1] == 't');
    assert("tell"@.len() == 4 && "tell"@[0] == 't' && "tell"@[1] == 'e');
    assert("focus"@.len() == 5 && "focus"@[0] == 'f' && "focus"@[1] == 'o');
    assert("unfocus"@.len() == 7 && "unfocus"@[0] == 'u' && "unfocus"@[1] == 'n');
    assert("allowlist"@.len() == 9 && "allowlist"@[0] == 'a' && "allowlist"@[1] == 'l');
    assert("approve"@.len() == 7 && "approve"@[0] == 'a' && "approve"@[1] == 'p');
    assert("y"@.len() == 1 && "y"@[0] == 'y');
    assert("btw"@.len() == 3 && "btw"@[0] == 'b' && "btw"@[1] == 't');
    assert("config"@.len() == 6 && "config"@[0] == 'c' && "config"@[1] == 'o');
    assert("plugins"@.len() == 7 && "plugins"@[0] == 'p' && "plugins"@[1] == 'l');
    assert("mcp"@.len() == 3 && "mcp"@[0] == 'm' && "mcp"@[1] == 'c');
    assert("debug"@.len() == 5 && "debug"@[0] == 'd' && "debug"@[1] == 'e');
    assert("restart"@.len() == 7 && "restart"@[0] == 'r' && "restart"@[1] == 'e');
    assert("bash"@.len() == 4 && "bash"@[0] == 'b' && "bash"@[1] == 'a');
    assert("goal"@.len() == 4 && "goal"@[0] == 'g' && "goal"@[1] == 'o');
}

/// A word names at most one built-in command: by its key, its name or an alias.
pub proof fn law_a_word_names_at_most_one_command(word: Seq<char>, i: int, j: int)
    requires
        0 <= i < catalog().len(),
        0 <= j < catalog().len(),
        catalog()[i].goes_by(word),
        catalog()[j].goes_by(word),
    ensures
        i == j,
{
    lemma_place(word, i);
    lemma_place(word, j);
}

proof fn lemma_place(word: Seq<char>, i: int)
    requires
        0 <= i < catalog().len(),
        catalog()[i].goes_by(word),
    ensures
        place_of(word) == i,
{
    lemma_words_differ();
    let c = catalog()[i];
    if c.key != word && c.name != word {
        let k = choose|k: int| 0 <= k < c.aliases.len() && c.aliases[k] == word;
        assert(k == 0);
    }
}

/// An administrator's command is a power command, so it runs only for an
/// administrator on a connection with the administrator's scope.
pub proof fn law_admin_commands_need_scope_and_level(
    v: Verdict,
    name: Seq<char>,
    admin_scope: bool,
    level: UserLevel,
    i: int,
)
    requires
        is_verdict(v, catalog(), name, admin_scope, level),
        lookup_from(catalog(), name, 0) == Some(i),
        catalog()[i].requires_admin,
        v is Run,
    ensures
        admin_scope,
        level == UserLevel::Admin,
{
    lemma_lookup_in_range(catalog(), name, 0);
    assert(forall|k: int|
        0 <= k < catalog().len() && (#[trigger] catalog()[k]).requires_admin ==> catalog()[k].tier
            == CommandTier::Power);
}

/// What is looked up is a command that goes by the name, the first of the list.
pub proof fn lemma_lookup_in_range(commands: Seq<CommandModel>, name: Seq<char>, from: int)
    requires
        0 <= from,
    ensures
        match lookup_from(commands, name, from) {
            Some(i) => from <= i < commands.len() && commands[i].goes_by(name) && (forall|j: int|
                from <= j < i ==> !(#[trigger] commands[j]).goes_by(name)),
            None => forall|j: int|
                from <= j < commands.len() ==> !(#[trigger] commands[j]).goes_by(name),
        },
    decreases commands.len() - from,
{
    if from < commands.len() && !commands[from].goes_by(name) {
        lemma_lookup_in_range(commands, name, from + 1);
    }
}

} // verus!
