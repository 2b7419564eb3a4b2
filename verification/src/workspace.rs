//! The workspace plugin: files inside the workspace, and commands run in it.
use crate::json::{object, said_number, said_text, Json, JsonNumber, JsonView, ObjectBuilder};
use crate::paths::{self, joined_path, lies_under};
use crate::protocol::{CallToolParams, ToolResult, ToolSpec, DEFAULT_MAX_TOOL_OUTPUT_BYTES};
use crate::tools::{
    any_text_schema, build_any_text_schema, build_record_schema, push_tool, record_schema,
    ToolSpecView,
};
use crate::{text, unicode};
use vstd::prelude::*;
use vstd::string::*;
use vstd::utf8::*;

verus! {

/// The longest that a command may be given, in milliseconds.
pub const MAX_BASH_TIMEOUT_MS: u64 = 300_000;

/// How long a command is given unless told otherwise, in milliseconds.
pub const DEFAULT_BASH_TIMEOUT_MS: u64 = 120_000;

/// The most bytes of a file that is edited.
pub const MAX_EDIT_FILE_BYTES: usize = 4 * 1024 * 1024;

/// Why a tool has no result.
#[derive(Clone, Copy, Debug, PartialEq, Eq)]
pub enum WorkspaceError {
    MissingStringArgument { name: &'static str },
    InvalidTimeout,
    InvalidRelativePath,
    PathEscapesWorkspace,
    MissingParent,
    UnknownTool,
    InvalidUtf8,
    EditMatchCount,
    OutputTooLarge { limit: usize },
}

/// What such an error says.
pub enum WorkspaceErrorView {
    MissingStringArgument { name: Seq<char> },
    InvalidTimeout,
    InvalidRelativePath,
    PathEscapesWorkspace,
    MissingParent,
    UnknownTool,
    InvalidUtf8,
    EditMatchCount,
    OutputTooLarge { limit: usize },
}

impl DeepView for WorkspaceError {
    type V = WorkspaceErrorView;

    open spec fn deep_view(&self) -> WorkspaceErrorView {
        match self {
            WorkspaceError::MissingStringArgument { name } => WorkspaceErrorView::MissingStringArgument {
                name: name@,
            },
            WorkspaceError::InvalidTimeout => WorkspaceErrorView::InvalidTimeout,
            WorkspaceError::InvalidRelativePath => WorkspaceErrorView::InvalidRelativePath,
            WorkspaceError::PathEscapesWorkspace => WorkspaceErrorView::PathEscapesWorkspace,
            WorkspaceError::MissingParent => WorkspaceErrorView::MissingParent,
            WorkspaceError::UnknownTool => WorkspaceErrorView::UnknownTool,
            WorkspaceError::InvalidUtf8 => WorkspaceErrorView::InvalidUtf8,
            WorkspaceError::EditMatchCount => WorkspaceErrorView::EditMatchCount,
            WorkspaceError::OutputTooLarge { limit } => WorkspaceErrorView::OutputTooLarge {
                limit: *limit,
            },
        }
    }
}

impl WorkspaceError {
    /// What the host is told.
    pub open spec fn said(self) -> Seq<char> {
        match self.deep_view() {
            WorkspaceErrorView::MissingStringArgument { name } => "argument "@ + name
                + " must be a string"@,
            WorkspaceErrorView::InvalidTimeout => "argument timeoutMs must be an integer between 1 and 300000"@,
            WorkspaceErrorView::InvalidRelativePath => "path must be a non-empty relative path"@,
            WorkspaceErrorView::PathEscapesWorkspace => "path resolves outside the configured workspace"@,
            WorkspaceErrorView::MissingParent => "path parent does not exist"@,
            WorkspaceErrorView::UnknownTool => "tool is not declared by this plugin"@,
            WorkspaceErrorView::InvalidUtf8 => "file content is not valid UTF-8"@,
            WorkspaceErrorView::EditMatchCount => "the expected text must occur exactly once"@,
            WorkspaceErrorView::OutputTooLarge { limit } => "tool output exceeded "@
                + text::decimal(limit as nat) + " bytes"@,
        }
    }

    /// What the host is told.
    pub fn message(&self) -> (r: String)
        ensures
            r@ == self.said(),
    {
        match self {
            WorkspaceError::MissingStringArgument { name } => {
                let mut message = text::cat("argument ", name);
                message.append(" must be a string");
                message
            },
            WorkspaceError::InvalidTimeout => "argument timeoutMs must be an integer between 1 and 300000".to_owned(),
            WorkspaceError::InvalidRelativePath => "path must be a non-empty relative path".to_owned(),
            WorkspaceError::PathEscapesWorkspace => "path resolves outside the configured workspace".to_owned(),
            WorkspaceError::MissingParent => "path parent does not exist".to_owned(),
            WorkspaceError::UnknownTool => "tool is not declared by this plugin".to_owned(),
            WorkspaceError::InvalidUtf8 => "file content is not valid UTF-8".to_owned(),
            WorkspaceError::EditMatchCount => "the expected text must occur exactly once".to_owned(),
            WorkspaceError::OutputTooLarge { limit } => {
                let mut message = text::cat(
                    "tool output exceeded ",
                    text::number(*limit as u64).as_str(),
                );
                message.append(" bytes");
                message
            },
        }
    }
}

/// The argument of this name, which must be a text.
pub fn required_string<'a>(arguments: &'a Json, name: &'static str) -> (r: Result<
    &'a str,
    WorkspaceError,
>)
    ensures
        match arguments.deep_view().member_text(name@) {
            Some(s) => r matches Ok(t) && t@ == s,
            None => r matches Err(e) && e.deep_view() == (
            WorkspaceErrorView::MissingStringArgument { name: name@ }),
        },
{
    match arguments.get_str(name) {
        Some(s) => Ok(s),
        None => Err(WorkspaceError::MissingStringArgument { name }),
    }
}

/// How long a command is given; none where what is asked for is no time or too long.
pub open spec fn timeout_of(arguments: JsonView) -> Option<u64> {
    match arguments.member("timeoutMs"@) {
        Some(value) => match value.unsigned() {
            Some(n) => if 1 <= n <= MAX_BASH_TIMEOUT_MS {
                Some(n)
            } else {
                None
            },
            None => None,
        },
        None => Some(DEFAULT_BASH_TIMEOUT_MS),
    }
}

/// How long a command is given.
pub fn optional_timeout(arguments: &Json) -> (r: Result<u64, WorkspaceError>)
    ensures
        match timeout_of(arguments.deep_view()) {
            Some(n) => r == Ok::<u64, WorkspaceError>(n),
            None => r matches Err(e) && e.deep_view() == WorkspaceErrorView::InvalidTimeout,
        },
{
    match arguments.get("timeoutMs") {
        Some(value) => match value.as_u64() {
            Some(n) => if 1 <= n && n <= MAX_BASH_TIMEOUT_MS {
                Ok(n)
            } else {
                Err(WorkspaceError::InvalidTimeout)
            },
            None => Err(WorkspaceError::InvalidTimeout),
        },
        None => Ok(DEFAULT_BASH_TIMEOUT_MS),
    }
}

/// Whether a path is relative and never goes up.
pub open spec fn goes_down(raw: Seq<char>) -> bool {
    &&& raw.len() > 0
    &&& raw[0] != '/'
    &&& !text::split(raw, '/').contains(".."@)
}

/// The path in the workspace that is meant, as far as the words say.
pub fn lexical_workspace_path(workspace: &[u8], raw_path: &str) -> (r: Result<
    Vec<u8>,
    WorkspaceError,
>)
    ensures
        if goes_down(raw_path@) {
            r matches Ok(path) && path@ == joined_path(workspace@, encode_utf8(raw_path@))
        } else {
            r matches Err(e) && e.deep_view() == WorkspaceErrorView::InvalidRelativePath
        },
{
    let chars = text::chars_of(raw_path);
    if chars.len() == 0 || chars[0] == '/' {
        return Err(WorkspaceError::InvalidRelativePath);
    }
    let parts = text::split_by(raw_path, '/');
    let ghost all = parts.deep_view();
    let mut i: usize = 0;
    while i < parts.len()
        invariant
            all == parts.deep_view(),
            all == text::split(raw_path@, '/'),
            i <= parts@.len(),
            forall|j: int| 0 <= j < i ==> #[trigger] all[j] != ".."@,
        decreases parts@.len() - i,
    {
        assert(all[i as int] == parts@[i as int]@);
        if text::str_eq(parts[i].as_str(), "..") {
            assert(all.contains(".."@));
            return Err(WorkspaceError::InvalidRelativePath);
        }
        i += 1;
    }
    Ok(paths::join_path(workspace, raw_path.as_bytes()))
}

/// Checks that a path lies in the workspace.
pub fn ensure_under_workspace(workspace: &[u8], candidate: &[u8]) -> (r: Result<(), WorkspaceError>)
    ensures
        if lies_under(workspace@, candidate@) {
            r is Ok
        } else {
            r matches Err(e) && e.deep_view() == WorkspaceErrorView::PathEscapesWorkspace
        },
{
    if paths::is_under(workspace, candidate) {
        Ok(())
    } else {
        Err(WorkspaceError::PathEscapesWorkspace)
    }
}

/// Whether a component names a file: it is not the root, a dot or two dots.
pub open spec fn names_file(component: Seq<u8>) -> bool {
    component != seq![paths::SLASH] && component != seq![paths::DOT] && component != seq![
        paths::DOT,
        paths::DOT,
    ]
}

/// A path of these components.
pub open spec fn path_of(components: Seq<Seq<u8>>) -> Seq<u8>
    decreases components.len(),
{
    if components.len() == 0 {
        Seq::empty()
    } else {
        joined_path(path_of(components.drop_last()), components.last())
    }
}

/// The directory of a file that is to be written, and its name.
#[derive(Debug, PartialEq, Eq)]
pub struct WriteTarget {
    pub parent: Vec<u8>,
    pub name: Vec<u8>,
}

/// A path of these components.
fn build_path(components: &Vec<Vec<u8>>, upto: usize) -> (r: Vec<u8>)
    requires
        upto <= components@.len(),
    ensures
        r@ == path_of(components.deep_view().take(upto as int)),
{
    let ghost all = components.deep_view();
    let mut out: Vec<u8> = Vec::new();
    let mut i: usize = 0;
    while i < upto
        invariant
            all == components.deep_view(),
            i <= upto <= components@.len(),
            out@ == path_of(all.take(i as int)),
        decreases upto - i,
    {
        assert(all.take(i + 1).drop_last() =~= all.take(i as int));
        assert(all[i as int] == components@[i as int].deep_view());
        assert(components@[i as int].deep_view() =~= components@[i as int]@);
        out = paths::join_path(out.as_slice(), components[i].as_slice());
        i += 1;
    }
    out
}

/// The directory of a file that is to be written, and its name. The root has no directory, and
/// what does not end in a name cannot be written.
pub fn write_target(candidate: &[u8]) -> (r: Result<WriteTarget, WorkspaceError>)
    ensures
        ({
            let all = paths::components_of(candidate@);
            if all.len() == 0 || all.last() == seq![paths::SLASH] {
                r matches Err(e) && e.deep_view() == WorkspaceErrorView::MissingParent
            } else if !names_file(all.last()) {
                r matches Err(e) && e.deep_view() == WorkspaceErrorView::InvalidRelativePath
            } else {
                r matches Ok(target) && target.parent@ == path_of(all.drop_last())
                    && target.name@ == all.last()
            }
        }),
{
    let components = paths::components(candidate);
    let ghost all = components.deep_view();
    let count = components.len();
    if count == 0 {
        return Err(WorkspaceError::MissingParent);
    }
    let last = &components[count - 1];
    assert(all.last() == last.deep_view());
    assert(last.deep_view() =~= last@);
    let slash = last.len() == 1 && last[0] == paths::SLASH;
    let dot = last.len() == 1 && last[0] == paths::DOT;
    let dots = last.len() == 2 && last[0] == paths::DOT && last[1] == paths::DOT;
    assert(slash == (last@ =~= seq![paths::SLASH]));
    assert(dot == (last@ =~= seq![paths::DOT]));
    assert(dots == (last@ =~= seq![paths::DOT, paths::DOT]));
    if slash {
        return Err(WorkspaceError::MissingParent);
    }
    if dot || dots {
        return Err(WorkspaceError::InvalidRelativePath);
    }
    let parent = build_path(&components, count - 1);
    assert(all.take(count - 1) =~= all.drop_last());
    let mut name: Vec<u8> = Vec::new();
    name.extend_from_slice(last.as_slice());
    assert(name@ =~= last@);
    Ok(WriteTarget { parent, name })
}

/// What a file is resolved for.
#[derive(Debug, PartialEq, Eq)]
pub enum FileJob {
    Read,
    Write { name: Vec<u8> },
    Edit,
}

/// How a call starts: a path is resolved, or a command is run.
#[derive(Debug, PartialEq, Eq)]
pub enum ToolStart {
    Resolve { path: Vec<u8>, job: FileJob },
    Shell { command: String, timeout_ms: u64 },
}

/// How a call of a file tool starts.
pub open spec fn file_starts(
    workspace: Seq<u8>,
    arguments: JsonView,
    writes: bool,
    edits: bool,
    r: Result<ToolStart, WorkspaceError>,
) -> bool {
    match arguments.member_text("path"@) {
        Some(raw) => if !goes_down(raw) {
            r matches Err(e) && e.deep_view() == WorkspaceErrorView::InvalidRelativePath
        } else {
            let candidate = joined_path(workspace, encode_utf8(raw));
            let all = paths::components_of(candidate);
            if !writes {
                r matches Ok(ToolStart::Resolve { path, job }) && path@ == candidate && job == (
                if edits {
                    FileJob::Edit
                } else {
                    FileJob::Read
                })
            } else if all.len() == 0 || all.last() == seq![paths::SLASH] {
                r matches Err(e) && e.deep_view() == WorkspaceErrorView::MissingParent
            } else if !names_file(all.last()) {
                r matches Err(e) && e.deep_view() == WorkspaceErrorView::InvalidRelativePath
            } else {
                r matches Ok(ToolStart::Resolve { path, job }) && path@ == path_of(all.drop_last())
                    && (job matches FileJob::Write { name } && name@ == all.last())
            }
        },
        None => r matches Err(e) && e.deep_view() == (
        WorkspaceErrorView::MissingStringArgument { name: "path"@ }),
    }
}

/// How a call starts.
pub open spec fn starts(
    workspace: Seq<u8>,
    tool: Seq<char>,
    arguments: JsonView,
    r: Result<ToolStart, WorkspaceError>,
) -> bool {
    if tool == "read"@ {
        file_starts(workspace, arguments, false, false, r)
    } else if tool == "write"@ {
        file_starts(workspace, arguments, true, false, r)
    } else if tool == "edit"@ {
        file_starts(workspace, arguments, false, true, r)
    } else if tool == "bash"@ {
        match arguments.member_text("command"@) {
            Some(wanted) => match timeout_of(arguments) {
                Some(n) => r matches Ok(ToolStart::Shell { command, timeout_ms }) && command@
                    == wanted && timeout_ms == n,
                None => r matches Err(e) && e.deep_view() == WorkspaceErrorView::InvalidTimeout,
            },
            None => r matches Err(e) && e.deep_view() == (
            WorkspaceErrorView::MissingStringArgument { name: "command"@ }),
        }
    } else {
        r matches Err(e) && e.deep_view() == WorkspaceErrorView::UnknownTool
    }
}

/// How a call of a file tool starts.
fn start_file(workspace: &[u8], arguments: &Json, writes: bool, edits: bool) -> (r: Result<
    ToolStart,
    WorkspaceError,
>)
    ensures
        file_starts(workspace@, arguments.deep_view(), writes, edits, r),
{
    let raw = match required_string(arguments, "path") {
        Ok(raw) => raw,
        Err(error) => {
            return Err(error);
        },
    };
    let candidate = match lexical_workspace_path(workspace, raw) {
        Ok(candidate) => candidate,
        Err(error) => {
            return Err(error);
        },
    };
    if !writes {
        let job = if edits {
            FileJob::Edit
        } else {
            FileJob::Read
        };
        return Ok(ToolStart::Resolve { path: candidate, job });
    }
    match write_target(candidate.as_slice()) {
        Ok(target) => Ok(
            ToolStart::Resolve {
                path: target.parent,
                job: FileJob::Write { name: target.name },
            },
        ),
        Err(error) => Err(error),
    }
}

/// How a call starts.
pub fn start_tool(workspace: &[u8], call: &CallToolParams) -> (r: Result<ToolStart, WorkspaceError>)
    ensures
        starts(workspace@, call.name@, call.arguments.deep_view(), r),
{
    let name = call.name.as_str();
    proof {
        reveal_strlit("read");
        reveal_strlit("write");
        reveal_strlit("edit");
        reveal_strlit("bash");
        assert("read"@[0] == 'r' && "write"@[0] == 'w' && "edit"@[0] == 'e' && "bash"@[0] == 'b');
    }
    if text::str_eq(name, "read") {
        start_file(workspace, &call.arguments, false, false)
    } else if text::str_eq(name, "write") {
        start_file(workspace, &call.arguments, true, false)
    } else if text::str_eq(name, "edit") {
        start_file(workspace, &call.arguments, false, true)
    } else if text::str_eq(name, "bash") {
        let command = match required_string(&call.arguments, "command") {
            Ok(command) => command,
            Err(error) => {
                return Err(error);
            },
        };
        match optional_timeout(&call.arguments) {
            Ok(timeout_ms) => Ok(ToolStart::Shell { command: command.to_owned(), timeout_ms }),
            Err(error) => Err(error),
        }
    } else {
        Err(WorkspaceError::UnknownTool)
    }
}

/// What is done with a file, once its path is resolved.
#[derive(Debug, PartialEq, Eq)]
pub enum FileTask {
    Read { path: Vec<u8> },
    Write { path: Vec<u8>, content: String },
    Edit { path: Vec<u8>, old_text: String, new_text: String },
}

impl FileTask {
    /// The file.
    pub open spec fn path(self) -> Seq<u8> {
        match self {
            FileTask::Read { path } => path@,
            FileTask::Write { path, .. } => path@,
            FileTask::Edit { path, .. } => path@,
        }
    }
}

/// What is done with a file, once the path is resolved to `resolved`: that must lie in the
/// workspace.
pub open spec fn tasks_for(
    workspace: Seq<u8>,
    arguments: JsonView,
    job: FileJob,
    resolved: Seq<u8>,
    r: Result<FileTask, WorkspaceError>,
) -> bool {
    if !lies_under(workspace, resolved) {
        r matches Err(e) && e.deep_view() == WorkspaceErrorView::PathEscapesWorkspace
    } else {
        match job {
            FileJob::Read => r matches Ok(FileTask::Read { path }) && path@ == resolved,
            FileJob::Write { name } => match arguments.member_text("content"@) {
                Some(wanted) => r matches Ok(FileTask::Write { path, content }) && path@
                    == joined_path(resolved, name@) && content@ == wanted,
                None => r matches Err(e) && e.deep_view() == (
                WorkspaceErrorView::MissingStringArgument { name: "content"@ }),
            },
            FileJob::Edit => match arguments.member_text("oldText"@) {
                Some(before) => match arguments.member_text("newText"@) {
                    Some(after) => r matches Ok(FileTask::Edit { path, old_text, new_text }) && path@
                        == resolved && old_text@ == before && new_text@ == after,
                    None => r matches Err(e) && e.deep_view() == (
                    WorkspaceErrorView::MissingStringArgument { name: "newText"@ }),
                },
                None => r matches Err(e) && e.deep_view() == (
                WorkspaceErrorView::MissingStringArgument { name: "oldText"@ }),
            },
        }
    }
}

/// What is done with a file, once the path is resolved.
pub fn file_task(workspace: &[u8], arguments: &Json, job: FileJob, resolved: Vec<u8>) -> (r: Result<
    FileTask,
    WorkspaceError,
>)
    ensures
        tasks_for(workspace@, arguments.deep_view(), job, resolved@, r),
{
    match ensure_under_workspace(workspace, resolved.as_slice()) {
        Ok(()) => {},
        Err(error) => {
            return Err(error);
        },
    }
    match job {
        FileJob::Read => Ok(FileTask::Read { path: resolved }),
        FileJob::Write { name } => {
            let path = paths::join_path(resolved.as_slice(), name.as_slice());
            match required_string(arguments, "content") {
                Ok(content) => Ok(FileTask::Write { path, content: content.to_owned() }),
                Err(error) => Err(error),
            }
        },
        FileJob::Edit => {
            let old_text = match required_string(arguments, "oldText") {
                Ok(old_text) => old_text,
                Err(error) => {
                    return Err(error);
                },
            };
            match required_string(arguments, "newText") {
                Ok(new_text) => Ok(
                    FileTask::Edit {
                        path: resolved,
                        old_text: old_text.to_owned(),
                        new_text: new_text.to_owned(),
                    },
                ),
                Err(error) => Err(error),
            }
        },
    }
}

/// No file outside the workspace is touched: whatever a call asks for and wherever its path leads,
/// the file that is read or written lies in the workspace. A file that is written is the named
/// file of the directory that was resolved, whose name is a single component.
pub proof fn law_files_stay_inside(
    workspace: Seq<u8>,
    arguments: JsonView,
    job: FileJob,
    resolved: Seq<u8>,
    r: Result<FileTask, WorkspaceError>,
)
    requires
        tasks_for(workspace, arguments, job, resolved, r),
        job matches FileJob::Write { name } ==> !paths::is_absolute(name@),
    ensures
        r matches Ok(task) ==> lies_under(workspace, task.path()),
        !lies_under(workspace, resolved) ==> r is Err,
{
    if lies_under(workspace, resolved) {
        if let FileJob::Write { name } = job {
            paths::law_joined_paths_lie_under(resolved, name@);
            paths::law_lying_under_is_transitive(
                workspace,
                resolved,
                joined_path(resolved, name@),
            );
        }
    }
}

proof fn lemma_kept_is_relative(parts: Seq<Seq<u8>>, absolute: bool, i: int)
    requires
        forall|k: int, j: int|
            0 <= k < parts.len() && 0 <= j < parts[k].len() ==> #[trigger] parts[k][j]
                != paths::SLASH,
        0 <= i < paths::kept_parts(parts, absolute).len(),
    ensures
        !paths::is_absolute(paths::kept_parts(parts, absolute)[i]),
    decreases parts.len(),
{
    let before = paths::kept_parts(parts.drop_last(), absolute);
    if i < before.len() {
        assert forall|k: int, j: int|
            0 <= k < parts.drop_last().len() && 0 <= j < parts.drop_last()[k].len()
                implies #[trigger] parts.drop_last()[k][j] != paths::SLASH by {
            assert(parts[k][j] != paths::SLASH);
        }
        lemma_kept_is_relative(parts.drop_last(), absolute, i);
    } else {
        let last = parts[parts.len() - 1];
        if last.len() > 0 {
            assert(parts[parts.len() - 1][0] != paths::SLASH);
        }
    }
}

proof fn lemma_parts_hold_no_slash(path: Seq<u8>)
    ensures
        paths::slash_parts(path).len() > 0,
        forall|k: int, j: int|
            0 <= k < paths::slash_parts(path).len() && 0 <= j < paths::slash_parts(path)[k].len()
                ==> #[trigger] paths::slash_parts(path)[k][j] != paths::SLASH,
    decreases path.len(),
{
    if path.len() > 0 {
        lemma_parts_hold_no_slash(path.drop_last());
        let before = paths::slash_parts(path.drop_last());
        let after = paths::slash_parts(path);
        assert forall|k: int, j: int|
            0 <= k < after.len() && 0 <= j < after[k].len() implies #[trigger] after[k][j]
                != paths::SLASH by {
            if k < before.len() - 1 {
                assert(after[k] == before[k]);
                assert(before[k][j] != paths::SLASH);
            } else if path.last() == paths::SLASH {
                if k < before.len() {
                    assert(after[k] == before[k]);
                    assert(before[k][j] != paths::SLASH);
                }
            } else {
                assert(after[k] == before[k].push(path.last()));
                if j < before[k].len() {
                    assert(before[k][j] != paths::SLASH);
                }
            }
        }
    }
}

/// The name of a file that is to be written holds no way up or out: it is one component.
pub proof fn law_written_names_are_components(
    workspace: Seq<u8>,
    arguments: JsonView,
    r: Result<ToolStart, WorkspaceError>,
)
    requires
        starts(workspace, "write"@, arguments, r),
    ensures
        r matches Ok(start) ==> (start matches ToolStart::Resolve { path, job } && (
        job matches FileJob::Write { name } && names_file(name@) && !paths::is_absolute(name@))),
{
    reveal_strlit("read");
    reveal_strlit("write");
    assert("read"@[0] == 'r' && "write"@[0] == 'w');
    if let Some(raw) = arguments.member_text("path"@) {
        let candidate = joined_path(workspace, encode_utf8(raw));
        let all = paths::components_of(candidate);
        let absolute = paths::is_absolute(candidate);
        let kept = paths::kept_parts(paths::slash_parts(candidate), absolute);
        lemma_parts_hold_no_slash(candidate);
        if all.len() > 0 && all.last() != seq![paths::SLASH] {
            assert(kept.len() > 0);
            assert(all.last() == kept.last());
            lemma_kept_is_relative(paths::slash_parts(candidate), absolute, kept.len() - 1);
        }
    }
}

/// The content with the only occurrence of a text replaced; none where it does not occur exactly
/// once.
pub open spec fn replaced_once(content: Seq<char>, old_text: Seq<char>, new_text: Seq<char>) -> Option<
    Seq<char>,
> {
    if old_text.len() == 0 {
        None
    } else {
        match text::find_from(content, old_text, 0) {
            Some(at) => if text::contains_text(content.skip(at + old_text.len()), old_text) {
                None
            } else {
                Some(content.take(at) + new_text + content.skip(at + old_text.len()))
            },
            None => None,
        }
    }
}

/// The content of a file after an edit.
pub fn edited_content(bytes: Vec<u8>, old_text: &str, new_text: &str) -> (r: Result<
    String,
    WorkspaceError,
>)
    ensures
        if !valid_utf8(bytes@) {
            r matches Err(e) && e.deep_view() == WorkspaceErrorView::InvalidUtf8
        } else {
            match replaced_once(decode_utf8(bytes@), old_text@, new_text@) {
                Some(content) => r matches Ok(s) && s@ == content,
                None => r matches Err(e) && e.deep_view() == WorkspaceErrorView::EditMatchCount,
            }
        },
{
    let content = match unicode::text_of_utf8(bytes) {
        Some(content) => content,
        None => {
            return Err(WorkspaceError::InvalidUtf8);
        },
    };
    let all = text::chars_of(content.as_str());
    let length = text::char_count(old_text);
    if length == 0 {
        return Err(WorkspaceError::EditMatchCount);
    }
    proof {
        text::lemma_find(content@, old_text@, 0);
    }
    match text::find(content.as_str(), old_text) {
        Some(at) => {
            assert(text::occurs_at(content@, old_text@, at as int));
            let total = all.len();
            let before = text::string_range(&all, 0, at);
            let rest = text::string_range(&all, at + length, total);
            assert(before@ =~= content@.take(at as int));
            assert(rest@ =~= content@.skip(at + length));
            if text::contains(rest.as_str(), old_text) {
                return Err(WorkspaceError::EditMatchCount);
            }
            let mut out = before;
            out.append(new_text);
            out.append(rest.as_str());
            Ok(out)
        },
        None => Err(WorkspaceError::EditMatchCount),
    }
}

/// An edit keeps everything but the text it replaces: what stands before and behind it is the
/// same, and undoing the edit gives the content back.
pub proof fn law_edits_are_local(content: Seq<char>, old_text: Seq<char>, new_text: Seq<char>)
    ensures
        replaced_once(content, old_text, new_text) matches Some(edited) ==> exists|at: int|
            0 <= at && at + old_text.len() <= content.len() && content == content.take(at)
                + old_text + content.skip(at + old_text.len()) && edited == #[trigger] content.take(
                at,
            ) + new_text + content.skip(at + old_text.len()),
{
    text::lemma_find(content, old_text, 0);
    if let Some(edited) = replaced_once(content, old_text, new_text) {
        let at = text::find_from(content, old_text, 0)->0;
        assert(text::occurs_at(content, old_text, at));
        assert(content =~= content.take(at) + old_text + content.skip(at + old_text.len()));
    }
}

/// A result whose output keeps the limit.
pub fn bounded_output(output: String) -> (r: Result<ToolResult, WorkspaceError>)
    ensures
        if text::utf8_len(output@) > DEFAULT_MAX_TOOL_OUTPUT_BYTES {
            r matches Err(e) && e.deep_view() == (WorkspaceErrorView::OutputTooLarge {
                limit: DEFAULT_MAX_TOOL_OUTPUT_BYTES,
            })
        } else {
            r matches Ok(result) && result.output == output && !result.truncated
        },
{
    if text::byte_len(output.as_str()) > DEFAULT_MAX_TOOL_OUTPUT_BYTES {
        return Err(WorkspaceError::OutputTooLarge { limit: DEFAULT_MAX_TOOL_OUTPUT_BYTES });
    }
    Ok(ToolResult { output, truncated: false })
}

/// The result of a tool that says this, where it keeps the limit.
pub open spec fn results(said: Seq<char>, r: Result<ToolResult, WorkspaceError>) -> bool {
    if text::utf8_len(said) > DEFAULT_MAX_TOOL_OUTPUT_BYTES {
        r matches Err(e) && e.deep_view() == (WorkspaceErrorView::OutputTooLarge {
            limit: DEFAULT_MAX_TOOL_OUTPUT_BYTES,
        })
    } else {
        r matches Ok(result) && result.output@ == said && !result.truncated
    }
}

/// The result of reading a file.
pub fn read_result(bytes: Vec<u8>) -> (r: Result<ToolResult, WorkspaceError>)
    ensures
        if valid_utf8(bytes@) {
            results(decode_utf8(bytes@), r)
        } else {
            r matches Err(e) && e.deep_view() == WorkspaceErrorView::InvalidUtf8
        },
{
    match unicode::text_of_utf8(bytes) {
        Some(content) => bounded_output(content),
        None => Err(WorkspaceError::InvalidUtf8),
    }
}

/// The result of writing a file.
pub fn write_result(content: &str, path: &str) -> (r: Result<ToolResult, WorkspaceError>)
    ensures
        results(
            "Wrote "@ + text::decimal(text::utf8_len(content@)) + " bytes to "@ + path@ + "."@,
            r,
        ),
{
    let mut message = text::cat("Wrote ", text::number(text::byte_len(content) as u64).as_str());
    message.append(" bytes to ");
    message.append(path);
    message.append(".");
    bounded_output(message)
}

/// The result of editing a file.
pub fn edit_result(path: &str) -> (r: Result<ToolResult, WorkspaceError>)
    ensures
        results("Edited "@ + path@ + "."@, r),
{
    let mut message = text::cat("Edited ", path);
    message.append(".");
    bounded_output(message)
}

/// What a command printed, as the tool tells it: its output, its errors under a heading, and its
/// status where it failed.
pub open spec fn shell_said(
    stdout: Seq<char>,
    stderr: Seq<char>,
    failed: Option<Seq<char>>,
) -> Seq<char> {
    let output = if stderr.len() == 0 {
        stdout
    } else {
        stdout + "\n[stderr]\n"@ + stderr
    };
    match failed {
        Some(status) => output + "\n[exit status: "@ + status + "]"@,
        None => output,
    }
}

/// What a command printed, once it is text.
pub fn shell_text(stdout: String, stderr: &str, failed: Option<&str>) -> (r: String)
    ensures
        r@ == shell_said(
            stdout@,
            stderr@,
            match failed {
                Some(status) => Some(status@),
                None => None,
            },
        ),
{
    let mut output = stdout;
    if !stderr.is_empty() {
        output.append("\n[stderr]\n");
        output.append(stderr);
    }
    if let Some(status) = failed {
        output.append("\n[exit status: ");
        output.append(status);
        output.append("]");
    }
    output
}

/// The result of a command. `failed` is the status of a command that failed.
pub fn shell_result(stdout: &[u8], stderr: &[u8], failed: Option<&str>) -> (r: Result<
    ToolResult,
    WorkspaceError,
>)
    ensures
        results(
            shell_said(
                unicode::lossy(stdout@),
                unicode::lossy(stderr@),
                match failed {
                    Some(status) => Some(status@),
                    None => None,
                },
            ),
            r,
        ),
{
    let errors = unicode::text_lossy(stderr);
    bounded_output(shell_text(unicode::text_lossy(stdout), errors.as_str(), failed))
}

/// Adds a piece of a file or of output to what was read of it. More than `limit` bytes are
/// refused.
pub fn take_bytes(bytes: &mut Vec<u8>, piece: &[u8], limit: usize) -> (r: Result<
    (),
    WorkspaceError,
>)
    requires
        old(bytes)@.len() <= limit,
    ensures
        final(bytes)@.len() <= limit,
        if old(bytes)@.len() + piece@.len() > limit {
            &&& r matches Err(e) && e.deep_view() == (WorkspaceErrorView::OutputTooLarge { limit })
            &&& final(bytes)@ == old(bytes)@
        } else {
            &&& r is Ok
            &&& final(bytes)@ == old(bytes)@ + piece@
        },
{
    if piece.len() > limit - bytes.len() {
        return Err(WorkspaceError::OutputTooLarge { limit });
    }
    bytes.extend_from_slice(piece);
    assert(bytes@ =~= old(bytes)@ + piece@);
    Ok(())
}

/// The schema of an object whose properties are texts, all of them required.
pub open spec fn texts_schema(names: Seq<Seq<char>>) -> JsonView {
    record_schema(names.map_values(|name: Seq<char>| (name, any_text_schema())), names)
}

/// The tools of the plugin.
pub open spec fn workspace_tools() -> Seq<ToolSpecView> {
    seq![
        ToolSpecView {
            name: "read"@,
            description: "Read a UTF-8 text file inside the workspace."@,
            input_schema: texts_schema(seq!["path"@]),
        },
        ToolSpecView {
            name: "write"@,
            description: "Replace a UTF-8 text file inside the workspace. Requires approval."@,
            input_schema: texts_schema(seq!["path"@, "content"@]),
        },
        ToolSpecView {
            name: "edit"@,
            description: "Replace exactly one text occurrence inside a UTF-8 workspace file. Requires approval."@,
            input_schema: texts_schema(seq!["path"@, "oldText"@, "newText"@]),
        },
        ToolSpecView {
            name: "bash"@,
            description: "Run one shell command from the workspace. Requires approval."@,
            input_schema: record_schema(
                seq![
                    ("command"@, any_text_schema()),
                    (
                        "timeoutMs"@,
                        object(
                            seq![
                                ("type"@, said_text("integer"@)),
                                ("minimum"@, said_number(1)),
                                ("maximum"@, said_number(MAX_BASH_TIMEOUT_MS)),
                            ],
                        ),
                    ),
                ],
                seq!["command"@],
            ),
        },
    ]
}

fn build_texts_schema(names: &[&str]) -> (r: Json)
    ensures
        r.deep_view() == texts_schema(names.deep_view()),
{
    let ghost wanted = names.deep_view().map_values(
        |name: Seq<char>| (name, any_text_schema()),
    );
    let mut properties = ObjectBuilder::new();
    let mut i: usize = 0;
    assert(properties.said() =~= wanted.take(0));
    while i < names.len()
        invariant
            wanted == names.deep_view().map_values(|name: Seq<char>| (name, any_text_schema())),
            i <= names@.len(),
            properties.said() == wanted.take(i as int),
        decreases names@.len() - i,
    {
        properties = properties.with(names[i], build_any_text_schema());
        assert(properties.said() =~= wanted.take(i + 1));
        i += 1;
    }
    assert(wanted.take(i as int) =~= wanted);
    build_record_schema(properties, names)
}

fn build_shell_schema() -> (r: Json)
    ensures
        r.deep_view() == workspace_tools()[3].input_schema,
{
    let limits = ObjectBuilder::new().text("type", "integer").with(
        "minimum",
        Json::Number(JsonNumber::Unsigned(1)),
    ).with("maximum", Json::Number(JsonNumber::Unsigned(MAX_BASH_TIMEOUT_MS)));
    assert(limits.said() =~= seq![
        ("type"@, said_text("integer"@)),
        ("minimum"@, said_number(1)),
        ("maximum"@, said_number(MAX_BASH_TIMEOUT_MS)),
    ]);
    let properties = ObjectBuilder::new().with("command", build_any_text_schema()).with(
        "timeoutMs",
        limits.build(),
    );
    assert(properties.said() =~= seq![
        ("command"@, any_text_schema()),
        ("timeoutMs"@, object(limits.said())),
    ]);
    let required = ["command"];
    assert(required.deep_view() =~= seq!["command"@]);
    build_record_schema(properties, &required)
}

/// The tools of the plugin.
pub fn tools() -> (r: Vec<ToolSpec>)
    ensures
        r.deep_view() == workspace_tools(),
{
    let mut out: Vec<ToolSpec> = Vec::new();
    assert(out.deep_view() =~= Seq::empty());
    let names = ["path"];
    assert(names.deep_view() =~= seq!["path"@]);
    push_tool(
        &mut out,
        ToolSpec {
            name: "read".to_owned(),
            description: "Read a UTF-8 text file inside the workspace.".to_owned(),
            input_schema: build_texts_schema(&names),
        },
    );
    let names = ["path", "content"];
    assert(names.deep_view() =~= seq!["path"@, "content"@]);
    push_tool(
        &mut out,
        ToolSpec {
            name: "write".to_owned(),
            description: "Replace a UTF-8 text file inside the workspace. Requires approval.".to_owned(),
            input_schema: build_texts_schema(&names),
        },
    );
    let names = ["path", "oldText", "newText"];
    assert(names.deep_view() =~= seq!["path"@, "oldText"@, "newText"@]);
    push_tool(
        &mut out,
        ToolSpec {
            name: "edit".to_owned(),
            description: "Replace exactly one text occurrence inside a UTF-8 workspace file. Requires approval.".to_owned(),
            input_schema: build_texts_schema(&names),
        },
    );
    push_tool(
        &mut out,
        ToolSpec {
            name: "bash".to_owned(),
            description: "Run one shell command from the workspace. Requires approval.".to_owned(),
            input_schema: build_shell_schema(),
        },
    );
    assert(out.deep_view() =~= workspace_tools());
    out
}

} // verus!
