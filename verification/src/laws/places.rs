//! Which files and which Git commands the tools reach.
use crate::git::{self, GitErrorView};
use crate::json::JsonView;
use crate::paths;
use crate::text;
use crate::workspace::{self, FileJob, ToolStart, WorkspaceError, WorkspaceErrorView};
use vstd::prelude::*;
use vstd::utf8::encode_utf8;

verus! {

/// Parts of a path with a slash between one and the next.
pub open spec fn with_slashes(parts: Seq<Seq<u8>>) -> Seq<u8>
    decreases parts.len(),
{
    if parts.len() == 0 {
        Seq::empty()
    } else if parts.len() == 1 {
        parts[0]
    } else {
        with_slashes(parts.drop_last()) + seq![0x2fu8] + parts.last()
    }
}

/// Whether this is the name of a file or a directory: not empty, without a slash, and not the
/// directory itself.
pub open spec fn is_name(part: Seq<u8>) -> bool {
    part.len() > 0 && !part.contains(0x2fu8) && part != seq![0x2eu8]
}

proof fn lemma_slash_behind(s: Seq<u8>, more: Seq<u8>)
    requires
        !more.contains(0x2fu8),
    ensures
        paths::slash_parts(s).len() > 0,
        paths::slash_parts(s + more) == paths::slash_parts(s).drop_last().push(
            paths::slash_parts(s).last() + more,
        ),
    decreases more.len(), s.len(),
{
    let base = paths::slash_parts(s);
    lemma_some_parts(s);
    if more.len() == 0 {
        assert(s + more =~= s);
        assert(base.last() + more =~= base.last());
        assert(base.drop_last().push(base.last()) =~= base);
    } else {
        let less = more.drop_last();
        assert(!less.contains(0x2fu8)) by {
            if less.contains(0x2fu8) {
                let k = choose|k: int| 0 <= k < less.len() && less[k] == 0x2fu8;
                assert(more[k] == 0x2fu8);
            }
        }
        lemma_slash_behind(s, less);
        assert((s + more).drop_last() =~= s + less);
        assert(more[more.len() - 1] == more.last());
        let init = paths::slash_parts(s + less);
        assert((base.last() + less).push(more.last()) =~= base.last() + more);
        assert(paths::slash_parts(s + more) =~= base.drop_last().push(base.last() + more));
    }
}

proof fn lemma_some_parts(s: Seq<u8>)
    ensures
        paths::slash_parts(s).len() > 0,
    decreases s.len(),
{
    if s.len() > 0 {
        lemma_some_parts(s.drop_last());
    }
}

proof fn lemma_parts_found(parts: Seq<Seq<u8>>)
    requires
        parts.len() > 0,
        forall|i: int| 0 <= i < parts.len() ==> !(#[trigger] parts[i]).contains(0x2fu8),
    ensures
        paths::slash_parts(with_slashes(parts)) == parts,
    decreases parts.len(),
{
    let last = parts.last();
    assert(!parts[parts.len() - 1].contains(0x2fu8));
    if parts.len() == 1 {
        lemma_slash_behind(Seq::empty(), last);
        assert(Seq::<u8>::empty() + last =~= last);
        assert(paths::slash_parts(Seq::empty()) =~= seq![Seq::<u8>::empty()]);
        assert(paths::slash_parts(last) =~= parts);
    } else {
        let init = parts.drop_last();
        assert forall|i: int| 0 <= i < init.len() implies !(#[trigger] init[i]).contains(0x2fu8) by {
            assert(init[i] == parts[i]);
        }
        lemma_parts_found(init);
        let ended = with_slashes(init) + seq![0x2fu8];
        assert(ended.drop_last() =~= with_slashes(init));
        assert(paths::slash_parts(ended) =~= init.push(Seq::<u8>::empty()));
        lemma_slash_behind(ended, last);
        assert(paths::slash_parts(ended + last) =~= parts);
    }
}

proof fn lemma_all_kept(parts: Seq<Seq<u8>>, absolute: bool)
    requires
        forall|i: int| 0 <= i < parts.len() ==> is_name(#[trigger] parts[i]),
    ensures
        paths::kept_parts(parts, absolute) == parts,
    decreases parts.len(),
{
    if parts.len() > 0 {
        let init = parts.drop_last();
        assert forall|i: int| 0 <= i < init.len() implies is_name(#[trigger] init[i]) by {
            assert(init[i] == parts[i]);
        }
        lemma_all_kept(init, absolute);
        assert(is_name(parts[parts.len() - 1]));
        assert(init.push(parts.last()) =~= parts);
    }
}

proof fn lemma_kept_behind_root(parts: Seq<Seq<u8>>)
    requires
        forall|i: int| 0 <= i < parts.len() ==> is_name(#[trigger] parts[i]),
    ensures
        paths::kept_parts(seq![Seq::<u8>::empty()] + parts, true) == parts,
    decreases parts.len(),
{
    let all = seq![Seq::<u8>::empty()] + parts;
    if parts.len() == 0 {
        assert(all.drop_last() =~= Seq::<Seq<u8>>::empty());
        reveal_with_fuel(paths::kept_parts, 3);
        assert(paths::kept_parts(all, true) =~= parts);
    } else {
        let init = parts.drop_last();
        assert forall|i: int| 0 <= i < init.len() implies is_name(#[trigger] init[i]) by {
            assert(init[i] == parts[i]);
        }
        lemma_kept_behind_root(init);
        assert(all.drop_last() =~= seq![Seq::<u8>::empty()] + init);
        assert(is_name(parts[parts.len() - 1]));
        assert(init.push(parts.last()) =~= parts);
    }
}

/// The components of a path are its names, all of them and in order; one that begins with a slash
/// has the root before them.
pub proof fn law_components(parts: Seq<Seq<u8>>)
    requires
        parts.len() > 0,
        forall|i: int| 0 <= i < parts.len() ==> is_name(#[trigger] parts[i]),
    ensures
        paths::components_of(with_slashes(parts)) == parts,
        paths::components_of(seq![0x2fu8] + with_slashes(parts)) == seq![seq![0x2fu8]] + parts,
{
    lemma_parts_found(parts);
    let path = with_slashes(parts);
    lemma_first_byte(parts);
    assert(is_name(parts[0]));
    assert(path[0] != 0x2fu8) by {
        assert(parts[0][0] == path[0]);
    }
    lemma_all_kept(parts, false);
    assert(Seq::<Seq<u8>>::empty() + parts =~= parts);
    let rooted = seq![Seq::<u8>::empty()] + parts;
    assert forall|i: int| 0 <= i < rooted.len() implies !(#[trigger] rooted[i]).contains(0x2fu8) by {
        if i > 0 {
            assert(rooted[i] == parts[i - 1]);
        }
    }
    lemma_parts_found(rooted);
    lemma_rooted(parts);
    lemma_kept_behind_root(parts);
}

proof fn lemma_first_byte(parts: Seq<Seq<u8>>)
    requires
        parts.len() > 0,
        parts[0].len() > 0,
    ensures
        with_slashes(parts).len() > 0,
        with_slashes(parts)[0] == parts[0][0],
    decreases parts.len(),
{
    if parts.len() > 1 {
        lemma_first_byte(parts.drop_last());
    }
}

proof fn lemma_rooted(parts: Seq<Seq<u8>>)
    requires
        parts.len() > 0,
    ensures
        with_slashes(seq![Seq::<u8>::empty()] + parts) == seq![0x2fu8] + with_slashes(parts),
    decreases parts.len(),
{
    let all = seq![Seq::<u8>::empty()] + parts;
    if parts.len() == 1 {
        assert(all.drop_last() =~= seq![Seq::<u8>::empty()]);
        reveal_with_fuel(with_slashes, 3);
        assert(with_slashes(all) =~= seq![0x2fu8] + with_slashes(parts));
    } else {
        lemma_rooted(parts.drop_last());
        assert(all.drop_last() =~= seq![Seq::<u8>::empty()] + parts.drop_last());
        assert(with_slashes(all) =~= seq![0x2fu8] + with_slashes(parts));
    }
}

/// A path lies under a directory if the components of the directory are the first of its own.
pub proof fn law_lying_under(directory: Seq<u8>, path: Seq<u8>, i: int)
    ensures
        paths::lies_under(directory, path) ==> paths::components_of(directory).len()
            <= paths::components_of(path).len() && (0 <= i < paths::components_of(directory).len()
            ==> paths::components_of(path)[i] == paths::components_of(directory)[i]),
        0 <= i < paths::components_of(directory).len() && (i >= paths::components_of(path).len()
            || paths::components_of(path)[i] != paths::components_of(directory)[i])
            ==> !paths::lies_under(directory, path),
        paths::lies_under(directory, directory),
{
    let own = paths::components_of(directory);
    let all = paths::components_of(path);
    if own.is_prefix_of(all) && 0 <= i < own.len() {
        assert(all.subrange(0, own.len() as int)[i] == all[i]);
    }
    assert(own.subrange(0, own.len() as int) =~= own);
}

/// Joining puts a name behind a directory, with a slash between them where the directory does not
/// end in one.
pub proof fn law_joining(base: Seq<u8>, name: Seq<u8>)
    ensures
        base.len() > 0 && base.last() != 0x2fu8 ==> paths::joined_path(base, name) == base + seq![
            0x2fu8,
        ] + name,
        base.len() == 0 || base.last() == 0x2fu8 ==> paths::joined_path(base, name) == base + name,
{
    assert(base.push(0x2fu8) + name =~= base + seq![0x2fu8] + name);
}

/// A file that is read or edited is looked for in the workspace under the path that was given; a
/// path that is absolute, empty or goes up is refused.
pub proof fn law_paths_are_resolved(
    directory: Seq<u8>,
    arguments: JsonView,
    raw: Seq<char>,
    r: Result<ToolStart, WorkspaceError>,
    editing: bool,
)
    requires
        arguments.member("path"@) == Some(JsonView::Text(raw)),
        workspace::starts(
            directory,
            if editing {
                "edit"@
            } else {
                "read"@
            },
            arguments,
            r,
        ),
    ensures
        ({
            let up = text::split(raw, '/').contains(".."@);
            let refused = raw.len() == 0 || raw[0] == '/' || up;
            &&& refused ==> (r matches Err(error) && error.deep_view()
                == WorkspaceErrorView::InvalidRelativePath)
            &&& !refused ==> (r matches Ok(ToolStart::Resolve { path, job }) && path@
                == paths::joined_path(directory, encode_utf8(raw)) && (editing <==> job
                == FileJob::Edit) && (!editing <==> job == FileJob::Read))
        }),
{
    reveal_strlit("read");
    reveal_strlit("edit");
    reveal_strlit("write");
    reveal_strlit("bash");
    assert("read"@[0] == 'r' && "edit"@[0] == 'e' && "bash"@[0] == 'b' && "write"@.len() == 5
        && "edit"@.len() == 4);
}

/// A file that is written keeps its own name, the last component of its path; the directory that
/// is looked for is what stands before it.
pub proof fn law_written_paths(
    directory: Seq<u8>,
    arguments: JsonView,
    raw: Seq<char>,
    r: Result<ToolStart, WorkspaceError>,
)
    requires
        arguments.member("path"@) == Some(JsonView::Text(raw)),
        workspace::starts(directory, "write"@, arguments, r),
    ensures
        ({
            let refused = raw.len() == 0 || raw[0] == '/' || text::split(raw, '/').contains(".."@);
            let all = paths::components_of(paths::joined_path(directory, encode_utf8(raw)));
            &&& refused ==> (r matches Err(error) && error.deep_view()
                == WorkspaceErrorView::InvalidRelativePath)
            &&& r matches Ok(ToolStart::Resolve { path, job }) ==> !refused && (
            job matches FileJob::Write { name } && all.len() > 0 && name@ == all.last()) && path@
                == workspace::path_of(all.drop_last())
            &&& r is Ok ==> r->Ok_0 is Resolve
        }),
{
    reveal_strlit("read");
    reveal_strlit("write");
    assert("read"@.len() == 4 && "write"@.len() == 5);
}

/// A request without the argument it needs is refused by the name of that argument; a tool that
/// there is not is refused as such.
pub proof fn law_arguments_are_needed(
    directory: Seq<u8>,
    tool: Seq<char>,
    arguments: JsonView,
    r: Result<ToolStart, WorkspaceError>,
)
    requires
        workspace::starts(directory, tool, arguments, r),
    ensures
        tool == "read"@ || tool == "write"@ || tool == "edit"@ ==> (!(arguments.member("path"@)
            matches Some(JsonView::Text(_))) ==> (r matches Err(error) && error.deep_view() == (
        WorkspaceErrorView::MissingStringArgument { name: "path"@ }))),
        tool == "bash"@ ==> (!(arguments.member("command"@) matches Some(JsonView::Text(_))) ==> (
        r matches Err(error) && error.deep_view() == (WorkspaceErrorView::MissingStringArgument {
            name: "command"@,
        }))),
        tool != "read"@ && tool != "write"@ && tool != "edit"@ && tool != "bash"@ ==> (r matches Err(
            error,
        ) && error.deep_view() == WorkspaceErrorView::UnknownTool),
{
    reveal_strlit("read");
    reveal_strlit("edit");
    reveal_strlit("write");
    reveal_strlit("bash");
    assert("read"@[0] == 'r' && "edit"@[0] == 'e' && "bash"@[0] == 'b' && "write"@.len() == 5
        && "edit"@.len() == 4 && "read"@.len() == 4 && "bash"@.len() == 4);
}

/// The tools of the workspace are these four.
pub proof fn law_workspace_tools()
    ensures
        workspace::workspace_tools().len() == 4,
        workspace::workspace_tools()[0].name == "read"@,
        workspace::workspace_tools()[1].name == "write"@,
        workspace::workspace_tools()[2].name == "edit"@,
        workspace::workspace_tools()[3].name == "bash"@,
        git::git_tools(false).len() == 0,
        git::git_tools(true).len() == 2,
        git::git_tools(true)[0].name == "git_read"@,
        git::git_tools(true)[1].name == "git_write"@,
{
}

/// Options that would run something else or reach elsewhere are no arguments of a Git command
/// that reads.
pub proof fn law_options_are_refused(operation: Seq<char>, arguments: Seq<Seq<char>>, i: int)
    requires
        0 <= i < arguments.len(),
        operation == "status"@ || operation == "diff"@ || operation == "log"@ || operation
            == "show"@ || operation == "rev_parse"@,
        ({
            let argument = arguments[i];
            ||| argument.contains('\0')
            ||| argument == "-c"@ || argument == "-C"@
            ||| argument == "--help"@ || argument == "-h"@
            ||| argument == "--ext-diff"@ || argument == "--textconv"@ || argument
                == "--no-index"@
            ||| "--output"@.is_prefix_of(argument)
            ||| "--git-dir"@.is_prefix_of(argument)
            ||| "--work-tree"@.is_prefix_of(argument)
            ||| "--exec-path"@.is_prefix_of(argument)
            ||| "--config-env"@.is_prefix_of(argument)
        }),
    ensures
        git::argv_of("git_read"@, operation, arguments) == Err::<Seq<Seq<char>>, GitErrorView>(
            GitErrorView::ForbiddenOption,
        ),
{
    assert(git::is_forbidden(arguments[i]));
    assert(!git::are_harmless(arguments));
}

/// Git writes only to paths inside the repository that are no options: none that is empty,
/// absolute, goes up, or lies in Git's own directory.
pub proof fn law_git_paths_are_checked(operation: Seq<char>, arguments: Seq<Seq<char>>, i: int)
    requires
        operation == "add"@ || operation == "restore_staged"@,
        git::argv_of("git_write"@, operation, arguments) is Ok,
        0 <= i < arguments.len(),
    ensures
        arguments[i].len() > 0,
        arguments[i][0] != '-',
        arguments[i][0] != '/',
        !text::split(arguments[i], '/').contains(".."@),
        !text::split(arguments[i], '/').contains(".git"@),
{
    reveal_strlit("git_read");
    reveal_strlit("git_write");
    assert("git_read"@.len() != "git_write"@.len());
    assert(git::is_repository_path(arguments[i]));
}

/// A Git command is run only in a repository, with the operation and the arguments given.
pub proof fn law_git_commands(
    available: bool,
    name: Seq<char>,
    arguments: JsonView,
    operation: Seq<char>,
    texts: Seq<Seq<char>>,
)
    ensures
        !available ==> git::command_of(available, name, arguments) == Err::<
            Seq<Seq<char>>,
            GitErrorView,
        >(GitErrorView::NotRepositoryRoot),
        available && arguments.member("operation"@) == Some(JsonView::Text(operation))
            && arguments.member("arguments"@) == Some(
            JsonView::Array(texts.map_values(|s: Seq<char>| JsonView::Text(s))),
        ) ==> git::command_of(available, name, arguments) == git::argv_of(name, operation, texts),
        available && !(arguments.member("operation"@) matches Some(JsonView::Text(_)))
            ==> git::command_of(available, name, arguments) == Err::<Seq<Seq<char>>, GitErrorView>(
            GitErrorView::MissingStringArgument { name: "operation"@ },
        ),
{
    crate::laws::serving::law_git_arguments_are_read(Seq::empty(), texts);
}

/// A commit is made with the message given.
pub proof fn law_commits(message: Seq<char>)
    ensures
        message.len() > 0 ==> (git::argv_of("git_write"@, "commit"@, seq![message]) matches Ok(argv)
            && argv.len() == 4 && argv[0] == "commit"@ && argv[3] == message),
        message.len() == 0 ==> git::argv_of("git_write"@, "commit"@, seq![message]) is Err,
{
    reveal_strlit("git_read");
    reveal_strlit("git_write");
    reveal_strlit("commit");
    reveal_strlit("add");
    reveal_strlit("restore_staged");
    assert("git_read"@.len() != "git_write"@.len());
    assert("commit"@.len() == 6 && "add"@.len() == 3 && "restore_staged"@.len() == 14);
}

} // verus!
