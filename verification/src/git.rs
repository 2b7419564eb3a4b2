//! The Git plugin: the commands it may run, and what it tells of them.
use crate::json::{object, said_text, Json, JsonView, ObjectBuilder};
use crate::protocol::{CallToolParams, ToolResult, ToolSpec};
use crate::tools::{
    any_text_schema, build_any_text_schema, build_choice_schema, build_record_schema,
    choice_schema, push_tool, record_schema, ToolSpecView,
};
use crate::{text, unicode};
use vstd::prelude::*;
use vstd::string::*;

verus! {

/// Why a Git command is not run or has no output.
#[derive(Debug, PartialEq, Eq)]
pub enum GitError {
    MissingStringArgument { name: &'static str },
    InvalidArguments,
    InvalidOperation { tool: String, operation: String },
    InvalidPath,
    ForbiddenOption,
    NotRepositoryRoot,
    OutputTooLarge { limit: usize },
}

/// What such an error says.
pub enum GitErrorView {
    MissingStringArgument { name: Seq<char> },
    InvalidArguments,
    InvalidOperation { tool: Seq<char>, operation: Seq<char> },
    InvalidPath,
    ForbiddenOption,
    NotRepositoryRoot,
    OutputTooLarge { limit: usize },
}

impl DeepView for GitError {
    type V = GitErrorView;

    open spec fn deep_view(&self) -> GitErrorView {
        match self {
            GitError::MissingStringArgument { name } => GitErrorView::MissingStringArgument {
                name: name@,
            },
            GitError::InvalidArguments => GitErrorView::InvalidArguments,
            GitError::InvalidOperation { tool, operation } => GitErrorView::InvalidOperation {
                tool: tool@,
                operation: operation@,
            },
            GitError::InvalidPath => GitErrorView::InvalidPath,
            GitError::ForbiddenOption => GitErrorView::ForbiddenOption,
            GitError::NotRepositoryRoot => GitErrorView::NotRepositoryRoot,
            GitError::OutputTooLarge { limit } => GitErrorView::OutputTooLarge { limit: *limit },
        }
    }
}

/// Whether an option of a reading command could have an effect.
pub open spec fn is_forbidden(argument: Seq<char>) -> bool {
    argument.contains('\0') || argument == "-c"@ || argument == "-C"@ || argument == "--help"@
        || argument == "-h"@ || argument == "--ext-diff"@ || argument == "--textconv"@ || argument
        == "--no-index"@ || text::starts_with(argument, "--output"@) || text::starts_with(
        argument,
        "--git-dir"@,
    ) || text::starts_with(argument, "--work-tree"@) || text::starts_with(
        argument,
        "--exec-path"@,
    ) || text::starts_with(argument, "--config-env"@)
}

/// Whether the options of a reading command are harmless.
pub open spec fn are_harmless(arguments: Seq<Seq<char>>) -> bool {
    forall|i: int| 0 <= i < arguments.len() ==> !is_forbidden(#[trigger] arguments[i])
}

/// Whether a path names something in the repository, and not what Git keeps there: it does not
/// start at the root or like an option, and has no component `..` or `.git`.
pub open spec fn is_repository_path(raw: Seq<char>) -> bool {
    &&& raw.len() > 0
    &&& raw[0] != '-'
    &&& raw[0] != '/'
    &&& !text::split(raw, '/').contains(".."@)
    &&& !text::split(raw, '/').contains(".git"@)
}

/// Whether paths are given, all of them in the repository.
pub open spec fn are_repository_paths(paths: Seq<Seq<char>>) -> bool {
    &&& paths.len() > 0
    &&& forall|i: int| 0 <= i < paths.len() ==> is_repository_path(#[trigger] paths[i])
}

/// Whether a character is in a text.
fn has_char(s: &str, c: char) -> (r: bool)
    ensures
        r == s@.contains(c),
{
    let chars = text::chars_of(s);
    let mut i: usize = 0;
    while i < chars.len()
        invariant
            chars@ == s@,
            i <= chars@.len(),
            forall|j: int| 0 <= j < i ==> s@[j] != c,
        decreases chars@.len() - i,
    {
        if chars[i] == c {
            assert(s@[i as int] == c);
            return true;
        }
        i += 1;
    }
    false
}

/// Whether an option of a reading command could have an effect.
fn forbidden(argument: &str) -> (r: bool)
    ensures
        r == is_forbidden(argument@),
{
    has_char(argument, '\0') || text::str_eq(argument, "-c") || text::str_eq(argument, "-C")
        || text::str_eq(argument, "--help") || text::str_eq(argument, "-h") || text::str_eq(
        argument,
        "--ext-diff",
    ) || text::str_eq(argument, "--textconv") || text::str_eq(argument, "--no-index")
        || text::has_prefix(argument, "--output") || text::has_prefix(argument, "--git-dir")
        || text::has_prefix(argument, "--work-tree") || text::has_prefix(argument, "--exec-path")
        || text::has_prefix(argument, "--config-env")
}

/// Checks the options of a reading command.
pub fn validate_read_arguments(arguments: &Vec<String>) -> (r: Result<(), GitError>)
    ensures
        if are_harmless(arguments.deep_view()) {
            r is Ok
        } else {
            r matches Err(e) && e.deep_view() == GitErrorView::ForbiddenOption
        },
{
    let ghost all = arguments.deep_view();
    let mut i: usize = 0;
    while i < arguments.len()
        invariant
            all == arguments.deep_view(),
            i <= arguments@.len(),
            forall|j: int| 0 <= j < i ==> !is_forbidden(#[trigger] all[j]),
        decreases arguments@.len() - i,
    {
        assert(all[i as int] == arguments@[i as int]@);
        if forbidden(arguments[i].as_str()) {
            return Err(GitError::ForbiddenOption);
        }
        i += 1;
    }
    Ok(())
}

/// Whether a path names something in the repository.
pub fn valid_path(raw: &str) -> (r: bool)
    ensures
        r == is_repository_path(raw@),
{
    let chars = text::chars_of(raw);
    if chars.len() == 0 || chars[0] == '-' || chars[0] == '/' {
        return false;
    }
    let parts = text::split_by(raw, '/');
    let ghost all = parts.deep_view();
    let mut i: usize = 0;
    while i < parts.len()
        invariant
            all == parts.deep_view(),
            all == text::split(raw@, '/'),
            i <= parts@.len(),
            forall|j: int| 0 <= j < i ==> #[trigger] all[j] != ".."@ && all[j] != ".git"@,
        decreases parts@.len() - i,
    {
        assert(all[i as int] == parts@[i as int]@);
        let part = parts[i].as_str();
        if text::str_eq(part, "..") || text::str_eq(part, ".git") {
            assert(all.contains(part@));
            return false;
        }
        i += 1;
    }
    true
}

/// Checks the paths of a writing command.
pub fn validate_paths(paths: &Vec<String>) -> (r: Result<(), GitError>)
    ensures
        if are_repository_paths(paths.deep_view()) {
            r is Ok
        } else {
            r matches Err(e) && e.deep_view() == GitErrorView::InvalidPath
        },
{
    let ghost all = paths.deep_view();
    if paths.len() == 0 {
        return Err(GitError::InvalidPath);
    }
    let mut i: usize = 0;
    while i < paths.len()
        invariant
            all == paths.deep_view(),
            0 < paths@.len(),
            i <= paths@.len(),
            forall|j: int| 0 <= j < i ==> is_repository_path(#[trigger] all[j]),
        decreases paths@.len() - i,
    {
        assert(all[i as int] == paths@[i as int]@);
        if !valid_path(paths[i].as_str()) {
            return Err(GitError::InvalidPath);
        }
        i += 1;
    }
    Ok(())
}

/// The words of a reading command before its options.
pub open spec fn read_words(operation: Seq<char>) -> Option<Seq<Seq<char>>> {
    if operation == "status"@ {
        Some(seq!["status"@])
    } else if operation == "diff"@ {
        Some(seq!["diff"@, "--no-ext-diff"@, "--no-textconv"@])
    } else if operation == "log"@ {
        Some(seq!["log"@, "--no-ext-diff"@, "--no-textconv"@])
    } else if operation == "show"@ {
        Some(seq!["show"@, "--no-ext-diff"@, "--no-textconv"@])
    } else if operation == "rev_parse"@ {
        Some(seq!["rev-parse"@])
    } else {
        None
    }
}

/// The words of a writing command before its paths.
pub open spec fn write_words(operation: Seq<char>) -> Option<Seq<Seq<char>>> {
    if operation == "add"@ {
        Some(seq!["add"@, "--"@])
    } else if operation == "restore_staged"@ {
        Some(seq!["restore"@, "--staged"@, "--"@])
    } else {
        None
    }
}

/// The command that a tool runs for an operation, or why it runs none.
pub open spec fn argv_of(tool: Seq<char>, operation: Seq<char>, arguments: Seq<Seq<char>>) -> Result<
    Seq<Seq<char>>,
    GitErrorView,
> {
    let unknown = GitErrorView::InvalidOperation { tool, operation };
    if tool == "git_read"@ {
        match read_words(operation) {
            Some(words) => if are_harmless(arguments) {
                Ok(words + arguments)
            } else {
                Err(GitErrorView::ForbiddenOption)
            },
            None => if operation == "branch_current"@ && arguments.len() == 0 {
                Ok(seq!["branch"@, "--show-current"@])
            } else {
                Err(unknown)
            },
        }
    } else if tool == "git_write"@ {
        match write_words(operation) {
            Some(words) => if are_repository_paths(arguments) {
                Ok(words + arguments)
            } else {
                Err(GitErrorView::InvalidPath)
            },
            None => if operation == "commit"@ && arguments.len() == 1 && arguments[0].len() > 0 {
                Ok(seq!["commit"@, "--no-verify"@, "-m"@, arguments[0]])
            } else {
                Err(unknown)
            },
        }
    } else {
        Err(unknown)
    }
}

/// Words as texts, followed by more.
fn words_and(words: &[&str], more: &Vec<String>) -> (r: Vec<String>)
    ensures
        r.deep_view() == words.deep_view() + more.deep_view(),
{
    let ghost start = words.deep_view();
    let ghost all = more.deep_view();
    let mut out: Vec<String> = Vec::new();
    let mut i: usize = 0;
    assert(out.deep_view() =~= start.take(0));
    while i < words.len()
        invariant
            start == words.deep_view(),
            i <= words@.len(),
            out.deep_view() == start.take(i as int),
        decreases words@.len() - i,
    {
        push_word(&mut out, words[i]);
        assert(out.deep_view() =~= start.take(i + 1));
        i += 1;
    }
    assert(start.take(i as int) =~= start);
    let mut k: usize = 0;
    assert(start + all.take(0) =~= start);
    while k < more.len()
        invariant
            all == more.deep_view(),
            k <= more@.len(),
            out.deep_view() == start + all.take(k as int),
        decreases more@.len() - k,
    {
        assert(all[k as int] == more@[k as int]@);
        push_word(&mut out, more[k].as_str());
        assert(out.deep_view() =~= start + all.take(k + 1));
        k += 1;
    }
    assert(all.take(k as int) =~= all);
    out
}

/// Adds a word.
fn push_word(words: &mut Vec<String>, word: &str)
    ensures
        final(words).deep_view() == old(words).deep_view().push(word@),
{
    let ghost before = words.deep_view();
    words.push(word.to_owned());
    assert(words.deep_view() =~= before.push(word@));
}

/// The command of a reading operation whose options are harmless.
fn read_argv(words: &[&str], arguments: &Vec<String>) -> (r: Result<Vec<String>, GitError>)
    ensures
        if are_harmless(arguments.deep_view()) {
            r matches Ok(argv) && argv.deep_view() == words.deep_view() + arguments.deep_view()
        } else {
            r matches Err(e) && e.deep_view() == GitErrorView::ForbiddenOption
        },
{
    match validate_read_arguments(arguments) {
        Ok(()) => Ok(words_and(words, arguments)),
        Err(error) => Err(error),
    }
}

/// The command of a writing operation whose paths are in the repository.
fn write_argv(words: &[&str], paths: &Vec<String>) -> (r: Result<Vec<String>, GitError>)
    ensures
        if are_repository_paths(paths.deep_view()) {
            r matches Ok(argv) && argv.deep_view() == words.deep_view() + paths.deep_view()
        } else {
            r matches Err(e) && e.deep_view() == GitErrorView::InvalidPath
        },
{
    match validate_paths(paths) {
        Ok(()) => Ok(words_and(words, paths)),
        Err(error) => Err(error),
    }
}

/// The error for an operation that a tool does not have.
fn unknown_operation(tool: &str, operation: &str) -> (r: GitError)
    ensures
        r.deep_view() == (GitErrorView::InvalidOperation { tool: tool@, operation: operation@ }),
{
    GitError::InvalidOperation { tool: tool.to_owned(), operation: operation.to_owned() }
}

/// The command of an operation of the reading tool.
fn reading(operation: &str, arguments: &Vec<String>) -> (r: Result<Vec<String>, GitError>)
    ensures
        match argv_of("git_read"@, operation@, arguments.deep_view()) {
            Ok(argv) => r matches Ok(a) && a.deep_view() == argv,
            Err(error) => r matches Err(e) && e.deep_view() == error,
        },
{
    if text::str_eq(operation, "status") {
        let words = ["status"];
        assert(words.deep_view() =~= seq!["status"@]);
        read_argv(&words, arguments)
    } else if text::str_eq(operation, "diff") {
        let words = ["diff", "--no-ext-diff", "--no-textconv"];
        assert(words.deep_view() =~= seq!["diff"@, "--no-ext-diff"@, "--no-textconv"@]);
        read_argv(&words, arguments)
    } else if text::str_eq(operation, "log") {
        let words = ["log", "--no-ext-diff", "--no-textconv"];
        assert(words.deep_view() =~= seq!["log"@, "--no-ext-diff"@, "--no-textconv"@]);
        read_argv(&words, arguments)
    } else if text::str_eq(operation, "show") {
        let words = ["show", "--no-ext-diff", "--no-textconv"];
        assert(words.deep_view() =~= seq!["show"@, "--no-ext-diff"@, "--no-textconv"@]);
        read_argv(&words, arguments)
    } else if text::str_eq(operation, "rev_parse") {
        let words = ["rev-parse"];
        assert(words.deep_view() =~= seq!["rev-parse"@]);
        read_argv(&words, arguments)
    } else if text::str_eq(operation, "branch_current") && arguments.len() == 0 {
        let words = ["branch", "--show-current"];
        assert(words.deep_view() =~= seq!["branch"@, "--show-current"@]);
        let argv = words_and(&words, arguments);
        assert(argv.deep_view() =~= seq!["branch"@, "--show-current"@]);
        Ok(argv)
    } else {
        Err(unknown_operation("git_read", operation))
    }
}

/// The command of an operation of the writing tool.
fn writing(operation: &str, arguments: &Vec<String>) -> (r: Result<Vec<String>, GitError>)
    ensures
        match argv_of("git_write"@, operation@, arguments.deep_view()) {
            Ok(argv) => r matches Ok(a) && a.deep_view() == argv,
            Err(error) => r matches Err(e) && e.deep_view() == error,
        },
{
    proof {
        reveal_strlit("git_read");
        reveal_strlit("git_write");
        assert("git_read"@.len() == 8 && "git_write"@.len() == 9);
    }
    if text::str_eq(operation, "add") {
        let words = ["add", "--"];
        assert(words.deep_view() =~= seq!["add"@, "--"@]);
        write_argv(&words, arguments)
    } else if text::str_eq(operation, "restore_staged") {
        let words = ["restore", "--staged", "--"];
        assert(words.deep_view() =~= seq!["restore"@, "--staged"@, "--"@]);
        write_argv(&words, arguments)
    } else if text::str_eq(operation, "commit") && arguments.len() == 1
        && !arguments[0].as_str().is_empty() {
        let words = ["commit", "--no-verify", "-m"];
        assert(words.deep_view() =~= seq!["commit"@, "--no-verify"@, "-m"@]);
        let argv = words_and(&words, arguments);
        assert(arguments.deep_view()[0] == arguments@[0]@);
        assert(argv.deep_view() =~= seq![
            "commit"@,
            "--no-verify"@,
            "-m"@,
            arguments.deep_view()[0],
        ]);
        Ok(argv)
    } else {
        proof {
            if arguments@.len() == 1 {
                assert(arguments.deep_view()[0] == arguments@[0]@);
            }
        }
        Err(unknown_operation("git_write", operation))
    }
}

/// The command that a tool runs for an operation.
pub fn verified_argv(tool: &str, operation: &str, arguments: &Vec<String>) -> (r: Result<
    Vec<String>,
    GitError,
>)
    ensures
        match argv_of(tool@, operation@, arguments.deep_view()) {
            Ok(argv) => r matches Ok(a) && a.deep_view() == argv,
            Err(error) => r matches Err(e) && e.deep_view() == error,
        },
{
    if text::str_eq(tool, "git_read") {
        reading(operation, arguments)
    } else if text::str_eq(tool, "git_write") {
        writing(operation, arguments)
    } else {
        Err(unknown_operation(tool, operation))
    }
}

/// The reading tool runs reading commands alone: each starts with one of six words, and no option
/// behind it could have an effect.
pub proof fn law_reading_only_reads(operation: Seq<char>, arguments: Seq<Seq<char>>)
    ensures
        argv_of("git_read"@, operation, arguments) matches Ok(argv) ==> {
            &&& argv.len() > 0
            &&& argv[0] == "status"@ || argv[0] == "diff"@ || argv[0] == "log"@ || argv[0]
                == "show"@ || argv[0] == "rev-parse"@ || argv[0] == "branch"@
            &&& argv[0] == "branch"@ ==> argv == seq!["branch"@, "--show-current"@]
            &&& are_harmless(argv)
        },
{
    if let Ok(argv) = argv_of("git_read"@, operation, arguments) {
        lemma_words_are_harmless();
        match read_words(operation) {
            Some(words) => {
                assert forall|i: int| 0 <= i < argv.len() implies !is_forbidden(
                    #[trigger] argv[i],
                ) by {
                    if i >= words.len() {
                        assert(argv[i] == arguments[i - words.len()]);
                    }
                }
                reveal_strlit("branch");
                reveal_strlit("status");
                reveal_strlit("diff");
                reveal_strlit("log");
                reveal_strlit("show");
                reveal_strlit("rev-parse");
                assert("branch"@[0] == 'b' && "status"@[0] == 's' && "diff"@[0] == 'd'
                    && "log"@[0] == 'l' && "show"@[0] == 's' && "rev-parse"@[0] == 'r');
            },
            None => {},
        }
    }
}

proof fn lemma_not_forbidden(word: Seq<char>)
    requires
        word.len() > 0,
        word[0] != '-',
        !word.contains('\0'),
    ensures
        !is_forbidden(word),
{
    reveal_strlit("-c");
    reveal_strlit("-C");
    reveal_strlit("--help");
    reveal_strlit("-h");
    reveal_strlit("--ext-diff");
    reveal_strlit("--textconv");
    reveal_strlit("--no-index");
    reveal_strlit("--output");
    reveal_strlit("--git-dir");
    reveal_strlit("--work-tree");
    reveal_strlit("--exec-path");
    reveal_strlit("--config-env");
    assert("-c"@[0] == '-' && "-C"@[0] == '-' && "--help"@[0] == '-' && "-h"@[0] == '-'
        && "--ext-diff"@[0] == '-' && "--textconv"@[0] == '-' && "--no-index"@[0] == '-');
    assert("--output"@[0] == '-' && "--git-dir"@[0] == '-' && "--work-tree"@[0] == '-'
        && "--exec-path"@[0] == '-' && "--config-env"@[0] == '-');
    assert(text::starts_with(word, "--output"@) ==> word[0] == "--output"@[0]);
    assert(text::starts_with(word, "--git-dir"@) ==> word[0] == "--git-dir"@[0]);
    assert(text::starts_with(word, "--work-tree"@) ==> word[0] == "--work-tree"@[0]);
    assert(text::starts_with(word, "--exec-path"@) ==> word[0] == "--exec-path"@[0]);
    assert(text::starts_with(word, "--config-env"@) ==> word[0] == "--config-env"@[0]);
}

proof fn lemma_words_are_harmless()
    ensures
        !is_forbidden("status"@),
        !is_forbidden("diff"@),
        !is_forbidden("log"@),
        !is_forbidden("show"@),
        !is_forbidden("rev-parse"@),
        !is_forbidden("branch"@),
        !is_forbidden("--no-ext-diff"@),
        !is_forbidden("--no-textconv"@),
        !is_forbidden("--show-current"@),
{
    reveal_strlit("status");
    reveal_strlit("diff");
    reveal_strlit("log");
    reveal_strlit("show");
    reveal_strlit("rev-parse");
    reveal_strlit("branch");
    lemma_not_forbidden("status"@);
    lemma_not_forbidden("diff"@);
    lemma_not_forbidden("log"@);
    lemma_not_forbidden("show"@);
    lemma_not_forbidden("rev-parse"@);
    lemma_not_forbidden("branch"@);
    lemma_negative_words();
}

proof fn lemma_negative_words()
    ensures
        !is_forbidden("--no-ext-diff"@),
        !is_forbidden("--no-textconv"@),
        !is_forbidden("--show-current"@),
{
    reveal_strlit("--no-ext-diff");
    reveal_strlit("--no-textconv");
    reveal_strlit("--show-current");
    reveal_strlit("-c");
    reveal_strlit("-C");
    reveal_strlit("--help");
    reveal_strlit("-h");
    reveal_strlit("--ext-diff");
    reveal_strlit("--textconv");
    reveal_strlit("--no-index");
    reveal_strlit("--output");
    reveal_strlit("--git-dir");
    reveal_strlit("--work-tree");
    reveal_strlit("--exec-path");
    reveal_strlit("--config-env");
    let a = "--no-ext-diff"@;
    let b = "--no-textconv"@;
    let c = "--show-current"@;
    assert(a[2] == 'n' && b[2] == 'n' && c[2] == 's');
    assert(a.len() == 13 && b.len() == 13 && c.len() == 14);
    assert("--output"@[2] == 'o' && "--git-dir"@[2] == 'g' && "--work-tree"@[2] == 'w'
        && "--exec-path"@[2] == 'e' && "--config-env"@[2] == 'c');
    assert("-c"@.len() == 2 && "-C"@.len() == 2 && "--help"@.len() == 6 && "-h"@.len() == 2
        && "--ext-diff"@.len() == 10 && "--textconv"@.len() == 10 && "--no-index"@.len() == 10);
    assert(!a.contains('\0') && !b.contains('\0') && !c.contains('\0'));
}

/// The writing tool stages, unstages and commits alone: every path that it names is in the
/// repository, and a commit has nothing but its message.
pub proof fn law_writing_stays_inside(operation: Seq<char>, arguments: Seq<Seq<char>>)
    ensures
        argv_of("git_write"@, operation, arguments) matches Ok(argv) ==> {
            ||| argv == seq!["add"@, "--"@] + arguments && are_repository_paths(arguments)
            ||| argv == seq!["restore"@, "--staged"@, "--"@] + arguments
                && are_repository_paths(arguments)
            ||| arguments.len() == 1 && argv == seq![
                "commit"@,
                "--no-verify"@,
                "-m"@,
                arguments[0],
            ]
        },
{
    reveal_strlit("git_read");
    reveal_strlit("git_write");
    assert("git_read"@.len() == 8 && "git_write"@.len() == 9);
}

/// The texts of a list; none where one is no text.
pub open spec fn texts_of(items: Seq<JsonView>) -> Option<Seq<Seq<char>>>
    decreases items.len(),
{
    if items.len() == 0 {
        Some(Seq::empty())
    } else {
        match (texts_of(items.drop_last()), items.last().text()) {
            (Some(before), Some(s)) => Some(before.push(s)),
            _ => None,
        }
    }
}

proof fn lemma_texts_none(items: Seq<JsonView>, upto: int)
    requires
        0 <= upto <= items.len(),
        texts_of(items.take(upto)) is None,
    ensures
        texts_of(items) is None,
    decreases items.len(),
{
    if upto < items.len() {
        assert(items.drop_last().take(upto) =~= items.take(upto));
        lemma_texts_none(items.drop_last(), upto);
    } else {
        assert(items.take(upto) =~= items);
    }
}

/// The argument of this name, which must be a text.
pub fn required_string<'a>(arguments: &'a Json, name: &'static str) -> (r: Result<&'a str, GitError>)
    ensures
        match arguments.deep_view().member_text(name@) {
            Some(s) => r matches Ok(t) && t@ == s,
            None => r matches Err(e) && e.deep_view() == (GitErrorView::MissingStringArgument {
                name: name@,
            }),
        },
{
    match arguments.get_str(name) {
        Some(s) => Ok(s),
        None => Err(GitError::MissingStringArgument { name }),
    }
}

/// The arguments of the command that is asked for.
pub open spec fn arguments_of(arguments: JsonView) -> Option<Seq<Seq<char>>> {
    match arguments.member("arguments"@) {
        Some(value) => match value.items() {
            Some(items) => texts_of(items),
            None => None,
        },
        None => None,
    }
}

/// The texts of a list.
fn required_texts(items: &Vec<Json>) -> (r: Result<Vec<String>, GitError>)
    ensures
        match texts_of(items.deep_view()) {
            Some(texts) => r matches Ok(v) && v.deep_view() == texts,
            None => r matches Err(e) && e.deep_view() == GitErrorView::InvalidArguments,
        },
{
    let ghost all = items.deep_view();
    let mut out: Vec<String> = Vec::new();
    let mut i: usize = 0;
    assert(out.deep_view() =~= Seq::empty());
    while i < items.len()
        invariant
            all == items.deep_view(),
            i <= items@.len(),
            texts_of(all.take(i as int)) == Some(out.deep_view()),
        decreases items@.len() - i,
    {
        assert(all.take(i + 1).drop_last() =~= all.take(i as int));
        assert(all[i as int] == items@[i as int].deep_view());
        match items[i].as_str() {
            Some(word) => push_word(&mut out, word),
            None => {
                proof {
                    lemma_texts_none(all, i + 1);
                }
                return Err(GitError::InvalidArguments);
            },
        }
        i += 1;
    }
    assert(all.take(i as int) =~= all);
    Ok(out)
}

/// The arguments of the command that is asked for.
pub fn required_arguments(arguments: &Json) -> (r: Result<Vec<String>, GitError>)
    ensures
        match arguments_of(arguments.deep_view()) {
            Some(texts) => r matches Ok(v) && v.deep_view() == texts,
            None => r matches Err(e) && e.deep_view() == GitErrorView::InvalidArguments,
        },
{
    match arguments.get("arguments") {
        Some(value) => match value.as_array() {
            Some(items) => required_texts(items),
            None => Err(GitError::InvalidArguments),
        },
        None => Err(GitError::InvalidArguments),
    }
}

/// The command of a call, or why there is none.
pub open spec fn command_of(available: bool, name: Seq<char>, arguments: JsonView) -> Result<
    Seq<Seq<char>>,
    GitErrorView,
> {
    if !available {
        Err(GitErrorView::NotRepositoryRoot)
    } else {
        match arguments.member_text("operation"@) {
            Some(operation) => match arguments_of(arguments) {
                Some(texts) => argv_of(name, operation, texts),
                None => Err(GitErrorView::InvalidArguments),
            },
            None => Err(GitErrorView::MissingStringArgument { name: "operation"@ }),
        }
    }
}

/// The command of a call. There is none outside the root of a repository.
pub fn command_for(available: bool, call: &CallToolParams) -> (r: Result<Vec<String>, GitError>)
    ensures
        match command_of(available, call.name@, call.arguments.deep_view()) {
            Ok(argv) => r matches Ok(a) && a.deep_view() == argv,
            Err(error) => r matches Err(e) && e.deep_view() == error,
        },
{
    if !available {
        return Err(GitError::NotRepositoryRoot);
    }
    let operation = match required_string(&call.arguments, "operation") {
        Ok(operation) => operation,
        Err(error) => {
            return Err(error);
        },
    };
    match required_arguments(&call.arguments) {
        Ok(arguments) => verified_argv(call.name.as_str(), operation, &arguments),
        Err(error) => Err(error),
    }
}

/// The words that `git` is run with: no locks that are not needed, and no hooks.
pub fn git_words(argv: &Vec<String>) -> (r: Vec<String>)
    ensures
        r.deep_view() == seq!["--no-optional-locks"@, "-c"@, "core.hooksPath=/dev/null"@]
            + argv.deep_view(),
{
    let words = ["--no-optional-locks", "-c", "core.hooksPath=/dev/null"];
    assert(words.deep_view() =~= seq![
        "--no-optional-locks"@,
        "-c"@,
        "core.hooksPath=/dev/null"@,
    ]);
    words_and(&words, argv)
}

/// The root that `git` reports, without the white space around it.
pub fn reported_root(stdout: &[u8]) -> (r: String)
    ensures
        r@ == text::trimmed(unicode::lossy(stdout@)),
{
    text::trim(unicode::text_lossy(stdout).as_str())
}

/// What a command printed, as the tool tells it: its output, its errors under a heading, and its
/// status where it failed.
pub open spec fn told(stdout: Seq<char>, stderr: Seq<char>, failed: Option<Seq<char>>) -> Seq<char> {
    let output = if stderr.len() == 0 {
        stdout
    } else if stdout.len() == 0 {
        "[stderr]\n"@ + stderr
    } else {
        stdout.push('\n') + "[stderr]\n"@ + stderr
    };
    match failed {
        Some(status) => output + "\n[exit status: "@ + status + "]"@,
        None => output,
    }
}

/// What a command printed, as the tool tells it. `failed` is the status of a command that failed.
pub fn command_result(stdout: &[u8], stderr: &[u8], failed: Option<&str>) -> (r: ToolResult)
    ensures
        r.output@ == told(
            unicode::lossy(stdout@),
            unicode::lossy(stderr@),
            match failed {
                Some(status) => Some(status@),
                None => None,
            },
        ),
        !r.truncated,
{
    let errors = unicode::text_lossy(stderr);
    let mut output = unicode::text_lossy(stdout);
    output = told_output(output, errors.as_str(), failed);
    ToolResult { output, truncated: false }
}

/// What a command printed, once it is text.
pub fn told_output(stdout: String, stderr: &str, failed: Option<&str>) -> (r: String)
    ensures
        r@ == told(
            stdout@,
            stderr@,
            match failed {
                Some(status) => Some(status@),
                None => None,
            },
        ),
{
    let mut output = stdout;
    if !stderr.is_empty() {
        if !output.as_str().is_empty() {
            output.push('\n');
        }
        let ghost before = output@;
        output.append("[stderr]\n");
        output.append(stderr);
        assert(output@ =~= before + "[stderr]\n"@ + stderr@);
        assert(stdout@.len() == 0 ==> output@ =~= "[stderr]\n"@ + stderr@);
    }
    if let Some(status) = failed {
        output.append("\n[exit status: ");
        output.append(status);
        output.append("]");
    }
    output
}

/// Adds a piece of output to what was read of it. More than `limit` bytes are refused.
pub fn take_output(bytes: &mut Vec<u8>, piece: &[u8], limit: usize) -> (r: Result<(), GitError>)
    requires
        old(bytes)@.len() <= limit,
    ensures
        final(bytes)@.len() <= limit,
        if old(bytes)@.len() + piece@.len() > limit {
            &&& r matches Err(e) && e.deep_view() == (GitErrorView::OutputTooLarge { limit })
            &&& final(bytes)@ == old(bytes)@
        } else {
            &&& r is Ok
            &&& final(bytes)@ == old(bytes)@ + piece@
        },
{
    if piece.len() > limit - bytes.len() {
        return Err(GitError::OutputTooLarge { limit });
    }
    bytes.extend_from_slice(piece);
    assert(bytes@ =~= old(bytes)@ + piece@);
    Ok(())
}

/// The schema of a tool with these operations.
pub open spec fn operation_schema(operations: Seq<Seq<char>>) -> JsonView {
    record_schema(
        seq![
            ("operation"@, choice_schema(operations)),
            (
                "arguments"@,
                object(seq![("type"@, said_text("array"@)), ("items"@, any_text_schema())]),
            ),
            ("command"@, any_text_schema()),
        ],
        seq!["operation"@, "arguments"@],
    )
}

/// The tools of the plugin: none outside the root of a repository.
pub open spec fn git_tools(available: bool) -> Seq<ToolSpecView> {
    if available {
        seq![
            ToolSpecView {
                name: "git_read"@,
                description: "Internal verified read-only Git effect."@,
                input_schema: operation_schema(
                    seq!["status"@, "diff"@, "log"@, "show"@, "rev_parse"@, "branch_current"@],
                ),
            },
            ToolSpecView {
                name: "git_write"@,
                description: "Internal verified mutating Git effect. Requires approval."@,
                input_schema: operation_schema(seq!["add"@, "restore_staged"@, "commit"@]),
            },
        ]
    } else {
        Seq::empty()
    }
}

fn build_operation_schema(operations: &[&str]) -> (r: Json)
    ensures
        r.deep_view() == operation_schema(operations.deep_view()),
{
    let list = ObjectBuilder::new().text("type", "array").with("items", build_any_text_schema());
    assert(list.said() =~= seq![("type"@, said_text("array"@)), ("items"@, any_text_schema())]);
    let properties = ObjectBuilder::new().with("operation", build_choice_schema(operations)).with(
        "arguments",
        list.build(),
    ).with("command", build_any_text_schema());
    assert(properties.said() =~= seq![
        ("operation"@, choice_schema(operations.deep_view())),
        ("arguments"@, object(list.said())),
        ("command"@, any_text_schema()),
    ]);
    let required = ["operation", "arguments"];
    assert(required.deep_view() =~= seq!["operation"@, "arguments"@]);
    build_record_schema(properties, &required)
}

/// The tools of the plugin.
pub fn tools(available: bool) -> (r: Vec<ToolSpec>)
    ensures
        r.deep_view() == git_tools(available),
{
    let mut out: Vec<ToolSpec> = Vec::new();
    assert(out.deep_view() =~= Seq::empty());
    if available {
        let reads = ["status", "diff", "log", "show", "rev_parse", "branch_current"];
        assert(reads.deep_view() =~= seq![
            "status"@,
            "diff"@,
            "log"@,
            "show"@,
            "rev_parse"@,
            "branch_current"@,
        ]);
        push_tool(
            &mut out,
            ToolSpec {
                name: "git_read".to_owned(),
                description: "Internal verified read-only Git effect.".to_owned(),
                input_schema: build_operation_schema(&reads),
            },
        );
        let writes = ["add", "restore_staged", "commit"];
        assert(writes.deep_view() =~= seq!["add"@, "restore_staged"@, "commit"@]);
        push_tool(
            &mut out,
            ToolSpec {
                name: "git_write".to_owned(),
                description: "Internal verified mutating Git effect. Requires approval.".to_owned(),
                input_schema: build_operation_schema(&writes),
            },
        );
        assert(out.deep_view() =~= git_tools(true));
    }
    out
}

impl GitError {
    /// What the host is told.
    pub open spec fn said(self) -> Seq<char> {
        match self.deep_view() {
            GitErrorView::MissingStringArgument { name } => "argument "@ + name
                + " must be a string"@,
            GitErrorView::InvalidArguments => "argument arguments must be an array of strings"@,
            GitErrorView::InvalidOperation { tool, operation } => "operation "@ + operation
                + " is not valid for tool "@ + tool,
            GitErrorView::InvalidPath => "Git path must be a non-empty relative path inside the repository"@,
            GitErrorView::ForbiddenOption => "Git command contains an option outside the verified subset"@,
            GitErrorView::NotRepositoryRoot => "the configured workspace must be the root of a Git repository"@,
            GitErrorView::OutputTooLarge { limit } => "Git output exceeded "@ + text::decimal(
                limit as nat,
            ) + " bytes"@,
        }
    }

    /// What the host is told.
    pub fn message(&self) -> (r: String)
        ensures
            r@ == self.said(),
    {
        match self {
            GitError::MissingStringArgument { name } => {
                let mut message = text::cat("argument ", name);
                message.append(" must be a string");
                message
            },
            GitError::InvalidArguments => "argument arguments must be an array of strings".to_owned(),
            GitError::InvalidOperation { tool, operation } => {
                let mut message = text::cat("operation ", operation.as_str());
                message.append(" is not valid for tool ");
                message.append(tool.as_str());
                message
            },
            GitError::InvalidPath => "Git path must be a non-empty relative path inside the repository".to_owned(),
            GitError::ForbiddenOption => "Git command contains an option outside the verified subset".to_owned(),
            GitError::NotRepositoryRoot => "the configured workspace must be the root of a Git repository".to_owned(),
            GitError::OutputTooLarge { limit } => {
                let mut message = text::cat(
                    "Git output exceeded ",
                    text::number(*limit as u64).as_str(),
                );
                message.append(" bytes");
                message
            },
        }
    }
}

} // verus!
