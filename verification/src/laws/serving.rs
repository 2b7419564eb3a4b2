//! What the tools of the workspace and of Git tell and do.
use crate::git::{self, GitError, GitErrorView};
use crate::json::{JsonNumberView, JsonView};
use crate::paths;
use crate::protocol::ToolResult;
use crate::text;
use crate::workspace::{
    self, FileJob, FileTask, ToolStart, WorkspaceError, WorkspaceErrorView,
};
use vstd::prelude::*;
use vstd::utf8::encode_utf8;

verus! {

/// What the bash tool tells of a command begins with everything that the command printed; where
/// there are no errors and the command succeeded, it is exactly that.
pub proof fn law_commands_are_told_whole(
    stdout: Seq<char>,
    stderr: Seq<char>,
    failed: Option<Seq<char>>,
)
    ensures
        ({
            let said = workspace::shell_said(stdout, stderr, failed);
            &&& stdout.is_prefix_of(said)
            &&& stderr.len() == 0 && failed is None ==> said == stdout
            &&& stderr.len() > 0 ==> (stdout + "\n[stderr]\n"@ + stderr).is_prefix_of(said)
            &&& stderr.len() > 0 && failed is None ==> said == stdout + "\n[stderr]\n"@ + stderr
            &&& failed matches Some(status) ==> {
                let end = "\n[exit status: "@ + status + "]"@;
                &&& end.is_suffix_of(said)
                &&& said.len() == stdout.len() + end.len() + (if stderr.len() == 0 {
                    0
                } else {
                    "\n[stderr]\n"@.len() + stderr.len()
                })
            }
        }),
{
    let said = workspace::shell_said(stdout, stderr, failed);
    assert(stdout =~= said.subrange(0, stdout.len() as int));
    if stderr.len() > 0 {
        let both = stdout + "\n[stderr]\n"@ + stderr;
        assert(both =~= said.subrange(0, both.len() as int));
    }
    if let Some(status) = failed {
        let end = "\n[exit status: "@ + status + "]"@;
        assert(end =~= said.subrange(said.len() - end.len(), said.len() as int));
    }
}

/// What the Git tools tell of a command begins with everything that it printed; its errors and
/// its status stand behind that.
pub proof fn law_git_is_told_whole(
    stdout: Seq<char>,
    stderr: Seq<char>,
    failed: Option<Seq<char>>,
)
    ensures
        ({
            let said = git::told(stdout, stderr, failed);
            &&& stdout.is_prefix_of(said)
            &&& stderr.len() == 0 && failed is None ==> said == stdout
            &&& stderr.len() > 0 && stdout.len() == 0 ==> ("[stderr]\n"@ + stderr).is_prefix_of(said)
            &&& stderr.len() > 0 && stdout.len() > 0 ==> (stdout + seq!['\n'] + "[stderr]\n"@
                + stderr).is_prefix_of(said)
            &&& failed is None ==> said.len() == stdout.len() + (if stderr.len() == 0 {
                0
            } else {
                "[stderr]\n"@.len() + stderr.len() + (if stdout.len() == 0 {
                    0int
                } else {
                    1
                })
            })
            &&& failed matches Some(status) ==> {
                let end = "\n[exit status: "@ + status + "]"@;
                &&& end.is_suffix_of(said)
                &&& said.len() == end.len() + git::told(stdout, stderr, None).len()
            }
        }),
{
    let said = git::told(stdout, stderr, failed);
    assert(stdout =~= said.subrange(0, stdout.len() as int));
    if stderr.len() > 0 && stdout.len() == 0 {
        let both = "[stderr]\n"@ + stderr;
        assert(both =~= said.subrange(0, both.len() as int));
    }
    if stderr.len() > 0 && stdout.len() > 0 {
        let both = stdout + seq!['\n'] + "[stderr]\n"@ + stderr;
        assert(both =~= said.subrange(0, both.len() as int));
    }
    if let Some(status) = failed {
        let end = "\n[exit status: "@ + status + "]"@;
        assert(end =~= said.subrange(said.len() - end.len(), said.len() as int));
    }
}

/// What a tool tells is handed on whole, and never marked as cut, or refused for its size.
pub proof fn law_results_are_whole(said: Seq<char>, r: Result<ToolResult, WorkspaceError>)
    requires
        workspace::results(said, r),
    ensures
        r matches Ok(result) ==> result.output@ == said && !result.truncated,
        r is Ok <==> encode_utf8(said).len() <= 262_144,
        r matches Err(error) ==> error.deep_view() == (WorkspaceErrorView::OutputTooLarge {
            limit: 262_144,
        }),
{
}

/// The bash tool runs the command that it was given, for the time that it was given or for two
/// minutes.
pub proof fn law_commands_are_run(
    directory: Seq<u8>,
    arguments: JsonView,
    wanted: Seq<char>,
    r: Result<ToolStart, WorkspaceError>,
)
    requires
        workspace::starts(directory, "bash"@, arguments, r),
        arguments.member("command"@) == Some(JsonView::Text(wanted)),
    ensures
        arguments.member("timeoutMs"@) is None ==> (r matches Ok(
            ToolStart::Shell { command, timeout_ms },
        ) && command@ == wanted && timeout_ms == 120_000),
        r matches Ok(start) ==> (start matches ToolStart::Shell { command, timeout_ms } && command@
            == wanted && 1 <= timeout_ms <= 300_000),
        r matches Err(error) ==> error.deep_view() == WorkspaceErrorView::InvalidTimeout,
{
    reveal_strlit("bash");
    reveal_strlit("read");
    reveal_strlit("write");
    reveal_strlit("edit");
    assert("bash"@[0] != "read"@[0]);
    assert("bash"@[0] != "edit"@[0]);
    assert("bash"@.len() != "write"@.len());
}

/// The file that a tool reads or edits is the one that was found; the one that it writes stands
/// in the directory that was found. What it writes, looks for and puts in its place are its
/// arguments.
pub proof fn law_files_are_the_ones_named(
    directory: Seq<u8>,
    arguments: JsonView,
    job: FileJob,
    resolved: Seq<u8>,
    r: Result<FileTask, WorkspaceError>,
)
    requires
        workspace::tasks_for(directory, arguments, job, resolved, r),
    ensures
        r matches Ok(FileTask::Read { path }) ==> job == FileJob::Read && path@ == resolved,
        r matches Ok(FileTask::Write { path, content }) ==> (job matches FileJob::Write { name }
            && resolved.is_prefix_of(path@) && name@.is_suffix_of(path@))
            && arguments.member("content"@) == Some(JsonView::Text(content@)),
        r matches Ok(FileTask::Edit { path, old_text, new_text }) ==> job == FileJob::Edit && path@
            == resolved && arguments.member("oldText"@) == Some(JsonView::Text(old_text@))
            && arguments.member("newText"@) == Some(JsonView::Text(new_text@)),
        r matches Err(error) ==> error.deep_view() == WorkspaceErrorView::PathEscapesWorkspace
            || error.deep_view() is MissingStringArgument,
        job == FileJob::Read && paths::lies_under(directory, resolved) ==> r is Ok,
{
    if let Ok(FileTask::Write { path, content }) = r {
        if let FileJob::Write { name } = job {
            assert(resolved =~= path@.subrange(0, resolved.len() as int));
            assert(name@ =~= path@.subrange(path@.len() - name@.len(), path@.len() as int));
        }
    }
}

/// A text that stands once in a file is replaced there and nowhere else; one that does not stand
/// in it, or is empty, is not replaced.
pub proof fn law_single_texts_are_replaced(
    before: Seq<char>,
    old_text: Seq<char>,
    after: Seq<char>,
    new_text: Seq<char>,
)
    requires
        old_text.len() > 0,
        forall|k: int|
            0 <= k && k + old_text.len() <= (before + old_text + after).len() && k != before.len()
                ==> #[trigger] (before + old_text + after).subrange(k, k + old_text.len())
                != old_text,
    ensures
        workspace::replaced_once(before + old_text + after, old_text, new_text) == Some(
            before + new_text + after,
        ),
{
    let content = before + old_text + after;
    let at = before.len() as int;
    assert(content.subrange(at, at + old_text.len()) =~= old_text);
    assert(text::occurs_at(content, old_text, at));
    text::lemma_find(content, old_text, 0);
    let rest = content.skip(at + old_text.len());
    assert forall|j: int| !text::occurs_at(rest, old_text, j) by {
        if text::occurs_at(rest, old_text, j) {
            let k = at + old_text.len() + j;
            assert(content.subrange(k, k + old_text.len()) =~= rest.subrange(
                j,
                j + old_text.len(),
            ));
        }
    }
    assert(content.take(at) =~= before);
    assert(rest =~= after);
}

/// A text that does not stand in a file, or that stands in it twice one behind the other, is not
/// replaced; neither is an empty one.
pub proof fn law_other_texts_are_not_replaced(
    content: Seq<char>,
    old_text: Seq<char>,
    new_text: Seq<char>,
)
    ensures
        old_text.len() == 0 ==> workspace::replaced_once(content, old_text, new_text) is None,
        (forall|k: int|
            0 <= k && k + old_text.len() <= content.len() ==> #[trigger] content.subrange(
                k,
                k + old_text.len(),
            ) != old_text) ==> workspace::replaced_once(content, old_text, new_text) is None,
        (exists|a: Seq<char>, b: Seq<char>, c: Seq<char>|
            content == #[trigger] (a + old_text + b + old_text + c)) ==> workspace::replaced_once(
            content,
            old_text,
            new_text,
        ) is None,
{
    text::lemma_find(content, old_text, 0);
    if old_text.len() > 0 && exists|a: Seq<char>, b: Seq<char>, c: Seq<char>|
        content == #[trigger] (a + old_text + b + old_text + c) {
        let (a, b, c) = choose|a: Seq<char>, b: Seq<char>, c: Seq<char>|
            content == #[trigger] (a + old_text + b + old_text + c);
        let first = a.len() as int;
        let second = (a.len() + old_text.len() + b.len()) as int;
        assert(content.subrange(first, first + old_text.len()) =~= old_text);
        assert(text::occurs_at(content, old_text, first));
        let at = text::find_from(content, old_text, 0)->0;
        assert(at <= first);
        let rest = content.skip(at + old_text.len());
        let there = second - at - old_text.len();
        assert(content.subrange(second, second + old_text.len()) =~= old_text);
        assert(rest.subrange(there, there + old_text.len()) =~= content.subrange(
            second,
            second + old_text.len(),
        ));
        assert(text::occurs_at(rest, old_text, there));
    }
}

/// The arguments that a Git tool was given stand in the command as they were given, behind the
/// words of the operation.
pub proof fn law_git_arguments_are_kept(
    name: Seq<char>,
    operation: Seq<char>,
    arguments: Seq<Seq<char>>,
)
    ensures
        git::argv_of(name, operation, arguments) matches Ok(argv) ==> {
            &&& arguments.is_suffix_of(argv)
            &&& argv.len() <= arguments.len() + 3
            &&& operation != "rev_parse"@ && operation != "restore_staged"@ && operation
                != "branch_current"@ ==> argv[0] == operation
            &&& operation == "rev_parse"@ ==> argv == seq!["rev-parse"@] + arguments
            &&& operation == "restore_staged"@ ==> argv == seq![
                "restore"@,
                "--staged"@,
                "--"@,
            ] + arguments
            &&& operation == "branch_current"@ ==> argv == seq!["branch"@, "--show-current"@]
        },
        git::argv_of(name, operation, arguments) matches Err(error) ==> error
            == GitErrorView::ForbiddenOption || error == GitErrorView::InvalidPath || error == (
        GitErrorView::InvalidOperation { tool: name, operation }),
{
    let argv = git::argv_of(name, operation, arguments);
    if let Ok(argv) = argv {
        assert(arguments =~= argv.subrange(argv.len() - arguments.len(), argv.len() as int));
    }
    reveal_strlit("status");
    reveal_strlit("diff");
    reveal_strlit("log");
    reveal_strlit("show");
    reveal_strlit("rev_parse");
    reveal_strlit("branch_current");
    reveal_strlit("add");
    reveal_strlit("restore_staged");
    reveal_strlit("commit");
    assert("rev_parse"@.len() == 9);
    assert("restore_staged"@.len() == 14);
    assert("branch_current"@.len() == 14);
    assert("restore_staged"@[0] != "branch_current"@[0]);
    assert("status"@.len() == 6 && "diff"@.len() == 4 && "log"@.len() == 3 && "show"@.len() == 4
        && "add"@.len() == 3 && "commit"@.len() == 6);
}

/// The arguments of a Git tool are the texts of the list that was given, all of them and in order.
pub proof fn law_git_arguments_are_read(items: Seq<JsonView>, texts: Seq<Seq<char>>)
    ensures
        git::texts_of(texts.map_values(|s: Seq<char>| JsonView::Text(s))) == Some(texts),
        git::texts_of(items) matches Some(read) ==> read.len() == items.len() && forall|i: int|
            0 <= i < items.len() ==> items[i] == JsonView::Text(#[trigger] read[i]),
    decreases items.len() + texts.len(),
{
    let given = texts.map_values(|s: Seq<char>| JsonView::Text(s));
    if texts.len() > 0 {
        law_git_arguments_are_read(Seq::empty(), texts.drop_last());
        assert(given.drop_last() =~= texts.drop_last().map_values(
            |s: Seq<char>| JsonView::Text(s),
        ));
        assert(texts.drop_last().push(texts.last()) =~= texts);
    }
    if items.len() > 0 && git::texts_of(items) is Some {
        law_git_arguments_are_read(items.drop_last(), Seq::empty());
        let read = git::texts_of(items)->0;
        assert(read.drop_last() =~= git::texts_of(items.drop_last())->0);
        assert forall|i: int| 0 <= i < items.len() implies items[i] == JsonView::Text(
            #[trigger] read[i],
        ) by {
            if i < items.len() - 1 {
                assert(items.drop_last()[i] == items[i]);
                assert((git::texts_of(items.drop_last())->0)[i] == read[i]);
            }
        }
    }
}

/// A command runs for the time it was given, up to five minutes; a time that is none, or longer,
/// is refused.
pub proof fn law_times_are_kept(
    directory: Seq<u8>,
    arguments: JsonView,
    wanted: Seq<char>,
    n: u64,
    r: Result<ToolStart, WorkspaceError>,
)
    requires
        workspace::starts(directory, "bash"@, arguments, r),
        arguments.member("command"@) == Some(JsonView::Text(wanted)),
        arguments.member("timeoutMs"@) == Some(JsonView::Number(JsonNumberView::Unsigned(n))),
    ensures
        1 <= n <= 300_000 ==> (r matches Ok(ToolStart::Shell { command, timeout_ms }) && command@
            == wanted && timeout_ms == n),
        n == 0 || n > 300_000 ==> (r matches Err(error) && error.deep_view()
            == WorkspaceErrorView::InvalidTimeout),
{
    reveal_strlit("bash");
    reveal_strlit("read");
    reveal_strlit("write");
    reveal_strlit("edit");
    assert("bash"@[0] != "read"@[0]);
    assert("bash"@[0] != "edit"@[0]);
    assert("bash"@.len() != "write"@.len());
}

/// A refusal says what is missing or how much is allowed.
pub proof fn law_refusals_say_why(error: WorkspaceError, refusal: GitError)
    ensures
        error.deep_view() matches WorkspaceErrorView::MissingStringArgument { name } ==> error.said()
            == "argument "@ + name + " must be a string"@,
        error.deep_view() matches WorkspaceErrorView::OutputTooLarge { limit } ==> error.said()
            == "tool output exceeded "@ + text::decimal(limit as nat) + " bytes"@,
        refusal.deep_view() matches GitErrorView::MissingStringArgument { name } ==> refusal.said()
            == "argument "@ + name + " must be a string"@,
        refusal.deep_view() matches GitErrorView::InvalidOperation { tool, operation }
            ==> refusal.said() == "operation "@ + operation + " is not valid for tool "@ + tool,
{
}

} // verus!
