//! Slash commands: what a person types into the prompt, and what it asks for.
use crate::text;
use vstd::prelude::*;
use vstd::string::*;

verus! {

/// What a slash command does.
#[derive(Clone, Copy, Debug, PartialEq, Eq, Structural)]
pub enum SlashCommandKind {
    Btw,
    Compact,
    Exit,
    Plan,
    Steer,
    Todo,
}

/// A slash command as the menu lists it.
#[derive(Clone, Copy, Debug, PartialEq, Eq)]
pub struct SlashCommandSpec {
    pub name: &'static str,
    pub usage: &'static str,
    pub description: &'static str,
    pub kind: SlashCommandKind,
    pub takes_arguments: bool,
}

/// What an entry of the menu holds.
#[verifier::ext_equal]
pub struct SlashSpecView {
    pub name: Seq<char>,
    pub usage: Seq<char>,
    pub description: Seq<char>,
    pub kind: SlashCommandKind,
    pub takes_arguments: bool,
}

impl DeepView for SlashCommandSpec {
    type V = SlashSpecView;

    open spec fn deep_view(&self) -> SlashSpecView {
        SlashSpecView {
            name: self.name@,
            usage: self.usage@,
            description: self.description@,
            kind: self.kind,
            takes_arguments: self.takes_arguments,
        }
    }
}

/// All slash commands, in the order of the menu.
pub open spec fn command_table() -> Seq<SlashSpecView> {
    seq![
        SlashSpecView {
            name: "btw"@,
            usage: "/btw <question>"@,
            description: "Ask outside the main conversation"@,
            kind: SlashCommandKind::Btw,
            takes_arguments: true,
        },
        SlashSpecView {
            name: "compact"@,
            usage: "/compact [instructions]"@,
            description: "Summarize old context and keep recent turns"@,
            kind: SlashCommandKind::Compact,
            takes_arguments: true,
        },
        SlashSpecView {
            name: "exit"@,
            usage: "/exit"@,
            description: "Exit MyCode cleanly"@,
            kind: SlashCommandKind::Exit,
            takes_arguments: false,
        },
        SlashSpecView {
            name: "plan"@,
            usage: "/plan <goal>"@,
            description: "Research and submit a plan for review"@,
            kind: SlashCommandKind::Plan,
            takes_arguments: true,
        },
        SlashSpecView {
            name: "steer"@,
            usage: "/steer <instruction>"@,
            description: "Redirect the active main task"@,
            kind: SlashCommandKind::Steer,
            takes_arguments: true,
        },
        SlashSpecView {
            name: "todo"@,
            usage: "/todo"@,
            description: "Edit the session todo list"@,
            kind: SlashCommandKind::Todo,
            takes_arguments: false,
        },
    ]
}

/// All slash commands, in the order of the menu.
pub fn slash_commands() -> (r: Vec<SlashCommandSpec>)
    ensures
        r.deep_view() == command_table(),
{
    let r = vec![
        SlashCommandSpec {
            name: "btw",
            usage: "/btw <question>",
            description: "Ask outside the main conversation",
            kind: SlashCommandKind::Btw,
            takes_arguments: true,
        },
        SlashCommandSpec {
            name: "compact",
            usage: "/compact [instructions]",
            description: "Summarize old context and keep recent turns",
            kind: SlashCommandKind::Compact,
            takes_arguments: true,
        },
        SlashCommandSpec {
            name: "exit",
            usage: "/exit",
            description: "Exit MyCode cleanly",
            kind: SlashCommandKind::Exit,
            takes_arguments: false,
        },
        SlashCommandSpec {
            name: "plan",
            usage: "/plan <goal>",
            description: "Research and submit a plan for review",
            kind: SlashCommandKind::Plan,
            takes_arguments: true,
        },
        SlashCommandSpec {
            name: "steer",
            usage: "/steer <instruction>",
            description: "Redirect the active main task",
            kind: SlashCommandKind::Steer,
            takes_arguments: true,
        },
        SlashCommandSpec {
            name: "todo",
            usage: "/todo",
            description: "Edit the session todo list",
            kind: SlashCommandKind::Todo,
            takes_arguments: false,
        },
    ];
    assert(r.deep_view() =~= command_table());
    r
}

/// Whether `s` holds white space.
pub open spec fn has_space(s: Seq<char>) -> bool {
    exists|i: int| 0 <= i < s.len() && text::white_space(#[trigger] s[i])
}

/// The part of a command name that an input has typed: what follows its slash, as long as that is
/// no second slash and holds no white space.
pub open spec fn typed_prefix(input: Seq<char>) -> Option<Seq<char>> {
    let rest = input.subrange(1, input.len() as int);
    if input.len() == 0 || input[0] != '/' || (rest.len() > 0 && rest[0] == '/') || has_space(
        rest,
    ) {
        None
    } else {
        Some(rest)
    }
}

/// The menu entries that an input can be completed to.
pub open spec fn candidates_of(input: Seq<char>) -> Seq<SlashSpecView> {
    match typed_prefix(input) {
        Some(prefix) => command_table().filter(
            |entry: SlashSpecView| text::starts_with(entry.name, prefix),
        ),
        None => Seq::empty(),
    }
}

/// The index of the first white space of `s`, if it holds any.
fn first_space(s: &Vec<char>) -> (r: Option<usize>)
    ensures
        r is Some <==> has_space(s@),
        r matches Some(at) ==> at < s@.len() && text::white_space(s@[at as int]) && forall|i: int|
            0 <= i < at ==> !text::white_space(#[trigger] s@[i]),
{
    let mut i: usize = 0;
    while i < s.len()
        invariant
            i <= s@.len(),
            forall|j: int| 0 <= j < i ==> !text::white_space(#[trigger] s@[j]),
        decreases s@.len() - i,
    {
        if text::is_whitespace(s[i]) {
            return Some(i);
        }
        i += 1;
    }
    None
}

/// The part of a command name that an input has typed.
pub fn slash_command_prefix(input: &str) -> (r: Option<String>)
    ensures
        r.deep_view() == typed_prefix(input@),
{
    let chars = text::chars_of(input);
    if chars.len() == 0 || chars[0] != '/' {
        return None;
    }
    if chars.len() > 1 && chars[1] == '/' {
        assert(input@.subrange(1, input@.len() as int)[0] == '/');
        return None;
    }
    let rest = text::string_range(&chars, 1, chars.len());
    if first_space(&text::chars_of(rest.as_str())).is_some() {
        return None;
    }
    Some(rest)
}

/// The menu entries that an input can be completed to.
pub fn slash_command_candidates(input: &str) -> (r: Vec<SlashCommandSpec>)
    ensures
        r.deep_view() == candidates_of(input@),
{
    let mut out: Vec<SlashCommandSpec> = Vec::new();
    assert(out.deep_view() =~= Seq::empty());
    let prefix = match slash_command_prefix(input) {
        Some(prefix) => prefix,
        None => {
            return out;
        },
    };
    let table = slash_commands();
    let ghost all = command_table();
    let ghost fits = |entry: SlashSpecView| text::starts_with(entry.name, prefix@);
    let mut i: usize = 0;
    proof {
        reveal(Seq::filter);
    }
    while i < table.len()
        invariant
            table.deep_view() == all,
            fits == (|entry: SlashSpecView| text::starts_with(entry.name, prefix@)),
            i <= table@.len(),
            out.deep_view() == all.take(i as int).filter(fits),
        decreases table@.len() - i,
    {
        let entry = table[i];
        let ghost before = out.deep_view();
        proof {
            reveal(Seq::filter);
            assert(all.take(i + 1).drop_last() =~= all.take(i as int));
            assert(all[i as int] == entry.deep_view());
        }
        if text::has_prefix(entry.name, prefix.as_str()) {
            out.push(entry);
            assert(out.deep_view() =~= before.push(entry.deep_view()));
        }
        i += 1;
    }
    assert(all.take(i as int) =~= all);
    out
}

/// A slash command with its arguments.
#[derive(Debug, PartialEq, Eq)]
pub enum SlashCommand {
    Btw(String),
    Compact(Option<String>),
    Exit,
    Plan(String),
    Steer(String),
    Todo,
}

/// What a person submits: a prompt for the model or a command.
#[derive(Debug, PartialEq, Eq)]
pub enum UserSubmission {
    Prompt(String),
    Command(SlashCommand),
}

/// Why a submission is refused.
#[derive(Debug, PartialEq, Eq)]
pub enum SlashCommandError {
    InvalidUsage(&'static str),
    Unknown(String),
}

/// What a command says.
pub enum SlashCommandView {
    Btw(Seq<char>),
    Compact(Option<Seq<char>>),
    Exit,
    Plan(Seq<char>),
    Steer(Seq<char>),
    Todo,
}

/// What a submission says.
pub enum SubmissionView {
    Prompt(Seq<char>),
    Command(SlashCommandView),
}

/// What a refusal says.
pub enum SlashErrorView {
    InvalidUsage(Seq<char>),
    Unknown(Seq<char>),
}

impl DeepView for SlashCommand {
    type V = SlashCommandView;

    open spec fn deep_view(&self) -> SlashCommandView {
        match self {
            SlashCommand::Btw(s) => SlashCommandView::Btw(s@),
            SlashCommand::Compact(s) => SlashCommandView::Compact(s.deep_view()),
            SlashCommand::Exit => SlashCommandView::Exit,
            SlashCommand::Plan(s) => SlashCommandView::Plan(s@),
            SlashCommand::Steer(s) => SlashCommandView::Steer(s@),
            SlashCommand::Todo => SlashCommandView::Todo,
        }
    }
}

impl DeepView for UserSubmission {
    type V = SubmissionView;

    open spec fn deep_view(&self) -> SubmissionView {
        match self {
            UserSubmission::Prompt(s) => SubmissionView::Prompt(s@),
            UserSubmission::Command(c) => SubmissionView::Command(c.deep_view()),
        }
    }
}

impl DeepView for SlashCommandError {
    type V = SlashErrorView;

    open spec fn deep_view(&self) -> SlashErrorView {
        match self {
            SlashCommandError::InvalidUsage(s) => SlashErrorView::InvalidUsage(s@),
            SlashCommandError::Unknown(s) => SlashErrorView::Unknown(s@),
        }
    }
}

impl SlashCommandError {
    /// The message for a person.
    pub fn message(&self) -> (r: String)
        ensures
            r@ == match self.deep_view() {
                SlashErrorView::InvalidUsage(usage) => "usage: "@ + usage,
                SlashErrorView::Unknown(name) => "unknown slash command: /"@ + name,
            },
    {
        match self {
            SlashCommandError::InvalidUsage(usage) => text::cat("usage: ", usage),
            SlashCommandError::Unknown(name) => text::cat(
                "unknown slash command: /",
                name.as_str(),
            ),
        }
    }
}

/// The length of the name that begins a command: up to its first white space.
pub open spec fn name_len(command: Seq<char>) -> nat
    decreases command.len(),
{
    if command.len() == 0 || text::white_space(command[0]) {
        0
    } else {
        1 + name_len(command.subrange(1, command.len() as int))
    }
}

/// The arguments of a command: what follows the white space behind its name, trimmed.
pub open spec fn arguments_of(command: Seq<char>) -> Seq<char> {
    let at = name_len(command) as int;
    if at < command.len() {
        text::trimmed(command.subrange(at + 1, command.len() as int))
    } else {
        Seq::empty()
    }
}

/// The command of a kind with the given arguments; some kinds need arguments, some take none.
pub open spec fn command_with(entry: SlashSpecView, arguments: Seq<char>) -> Result<
    SlashCommandView,
    SlashErrorView,
> {
    let given = arguments.len() > 0;
    let misused = Err(SlashErrorView::InvalidUsage(entry.usage));
    match entry.kind {
        SlashCommandKind::Btw => if given {
            Ok(SlashCommandView::Btw(arguments))
        } else {
            misused
        },
        SlashCommandKind::Compact => Ok(
            SlashCommandView::Compact(
                if given {
                    Some(arguments)
                } else {
                    None
                },
            ),
        ),
        SlashCommandKind::Exit => if given {
            misused
        } else {
            Ok(SlashCommandView::Exit)
        },
        SlashCommandKind::Plan => if given {
            Ok(SlashCommandView::Plan(arguments))
        } else {
            misused
        },
        SlashCommandKind::Steer => if given {
            Ok(SlashCommandView::Steer(arguments))
        } else {
            misused
        },
        SlashCommandKind::Todo => if given {
            misused
        } else {
            Ok(SlashCommandView::Todo)
        },
    }
}

/// The entry of the table with this name, from `from` on.
pub open spec fn entry_named(table: Seq<SlashSpecView>, name: Seq<char>, from: int) -> Option<
    SlashSpecView,
>
    decreases table.len() - from,
{
    if from < 0 || from >= table.len() {
        None
    } else if table[from].name == name {
        Some(table[from])
    } else {
        entry_named(table, name, from + 1)
    }
}

/// What a submitted text asks for.
pub open spec fn submission_of(s: Seq<char>) -> Result<SubmissionView, SlashErrorView> {
    if text::starts_with(s, "//"@) {
        Ok(SubmissionView::Prompt("/"@ + s.subrange(2, s.len() as int)))
    } else if !text::starts_with(s, "/"@) {
        Ok(SubmissionView::Prompt(s))
    } else {
        let command = s.subrange(1, s.len() as int);
        let name = command.subrange(0, name_len(command) as int);
        match entry_named(command_table(), name, 0) {
            Some(entry) => match command_with(entry, arguments_of(command)) {
                Ok(asked) => Ok(SubmissionView::Command(asked)),
                Err(error) => Err(error),
            },
            None => Err(SlashErrorView::Unknown(name)),
        }
    }
}

proof fn lemma_name_len(command: Seq<char>, at: int)
    requires
        0 <= at <= command.len(),
        forall|i: int| 0 <= i < at ==> !text::white_space(#[trigger] command[i]),
        at < command.len() ==> text::white_space(command[at]),
    ensures
        name_len(command) == at,
    decreases at,
{
    if at > 0 {
        lemma_name_len(command.subrange(1, command.len() as int), at - 1);
    }
}

/// The command of a kind with the given arguments.
fn build_command(spec: SlashCommandSpec, arguments: String) -> (r: Result<
    SlashCommand,
    SlashCommandError,
>)
    ensures
        match command_with(spec.deep_view(), arguments@) {
            Ok(asked) => r matches Ok(c) && c.deep_view() == asked,
            Err(error) => r matches Err(e) && e.deep_view() == error,
        },
{
    let given = !arguments.as_str().is_empty();
    match spec.kind {
        SlashCommandKind::Btw => if given {
            Ok(SlashCommand::Btw(arguments))
        } else {
            Err(SlashCommandError::InvalidUsage(spec.usage))
        },
        SlashCommandKind::Compact => if given {
            Ok(SlashCommand::Compact(Some(arguments)))
        } else {
            Ok(SlashCommand::Compact(None))
        },
        SlashCommandKind::Exit => if given {
            Err(SlashCommandError::InvalidUsage(spec.usage))
        } else {
            Ok(SlashCommand::Exit)
        },
        SlashCommandKind::Plan => if given {
            Ok(SlashCommand::Plan(arguments))
        } else {
            Err(SlashCommandError::InvalidUsage(spec.usage))
        },
        SlashCommandKind::Steer => if given {
            Ok(SlashCommand::Steer(arguments))
        } else {
            Err(SlashCommandError::InvalidUsage(spec.usage))
        },
        SlashCommandKind::Todo => if given {
            Err(SlashCommandError::InvalidUsage(spec.usage))
        } else {
            Ok(SlashCommand::Todo)
        },
    }
}

/// Reads a submitted text: two slashes stand for a prompt that begins with one, one slash begins
/// a command, anything else is a prompt.
pub fn parse_submission(text: String) -> (r: Result<UserSubmission, SlashCommandError>)
    ensures
        match submission_of(text@) {
            Ok(asked) => r matches Ok(s) && s.deep_view() == asked,
            Err(error) => r matches Err(e) && e.deep_view() == error,
        },
{
    proof {
        reveal_strlit("/");
        reveal_strlit("//");
    }
    if let Some(literal) = text::strip_prefix(text.as_str(), "//") {
        return Ok(UserSubmission::Prompt(text::cat("/", literal.as_str())));
    }
    let command = match text::strip_prefix(text.as_str(), "/") {
        Some(command) => command,
        None => {
            return Ok(UserSubmission::Prompt(text));
        },
    };
    let chars = text::chars_of(command.as_str());
    let space = first_space(&chars);
    let at: usize = match space {
        Some(at) => at,
        None => chars.len(),
    };
    proof {
        lemma_name_len(command@, at as int);
    }
    let name = text::string_range(&chars, 0, at);
    let arguments = if at < chars.len() {
        let tail = text::string_range(&chars, at + 1, chars.len());
        text::trim(tail.as_str())
    } else {
        String::new()
    };
    assert(arguments@ =~= arguments_of(command@));
    match command_named(name.as_str()) {
        Some(entry) => match build_command(entry, arguments) {
            Ok(asked) => Ok(UserSubmission::Command(asked)),
            Err(error) => Err(error),
        },
        None => Err(SlashCommandError::Unknown(name)),
    }
}

/// The slash command with this name.
fn command_named(name: &str) -> (r: Option<SlashCommandSpec>)
    ensures
        r.deep_view() == entry_named(command_table(), name@, 0),
{
    let table = slash_commands();
    let ghost all = command_table();
    let mut i: usize = 0;
    while i < table.len()
        invariant
            all == command_table(),
            table.deep_view() == all,
            i <= table@.len(),
            entry_named(all, name@, 0) == entry_named(all, name@, i as int),
        decreases table@.len() - i,
    {
        let entry = table[i];
        assert(all[i as int] == entry.deep_view());
        if text::str_eq(entry.name, name) {
            return Some(entry);
        }
        i += 1;
    }
    None
}

/// Every text can be sent as a prompt: one that begins with a slash with a second slash before
/// it, another as it is.
pub proof fn law_every_prompt_can_be_typed(prompt: Seq<char>)
    ensures
        text::starts_with(prompt, "/"@) ==> submission_of("/"@ + prompt) == Ok::<
            SubmissionView,
            SlashErrorView,
        >(SubmissionView::Prompt(prompt)),
        !text::starts_with(prompt, "/"@) ==> submission_of(prompt) == Ok::<
            SubmissionView,
            SlashErrorView,
        >(SubmissionView::Prompt(prompt)),
{
    reveal_strlit("/");
    reveal_strlit("//");
    if text::starts_with(prompt, "/"@) {
        let typed = "/"@ + prompt;
        assert(prompt.subrange(0, 1)[0] == '/');
        assert(typed.subrange(0, 2) =~= "//"@);
        assert("/"@ + typed.subrange(2, typed.len() as int) =~= prompt);
    } else if text::starts_with(prompt, "//"@) {
        assert(prompt.subrange(0, 2)[0] == '/');
        assert(prompt.subrange(0, 1) =~= "/"@);
    }
}

/// A menu entry is offered exactly while its name begins with what was typed behind the slash.
pub proof fn law_candidates(input: Seq<char>, entry: SlashSpecView)
    ensures
        candidates_of(input).contains(entry) <==> command_table().contains(entry) && (
        typed_prefix(input) matches Some(prefix) && text::starts_with(entry.name, prefix)),
{
    broadcast use vstd::seq_lib::group_filter_ensures;

    if let Some(prefix) = typed_prefix(input) {
        let fits = |e: SlashSpecView| text::starts_with(e.name, prefix);
        let all = command_table();
        if all.contains(entry) && fits(entry) {
            let i = choose|i: int| 0 <= i < all.len() && all[i] == entry;
            all.lemma_filter_contains(fits, i);
        }
        if all.filter(fits).contains(entry) {
            all.lemma_filter_contains_rev(fits, entry);
        }
    }
}

} // verus!
