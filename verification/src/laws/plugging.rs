//! What is said to plugins and by them, and what is written to files.
use crate::envelope::{self, OperationView, RequestView};
use crate::json::{self, Json, JsonNumberView, JsonView};
use crate::laws::asking::says;
use crate::plugins::{self, CallEvent, CallStep, ManagerView, PluginClientError};
use crate::protocol::{
    self, PluginErrorCode, PluginMessage, ProtocolError, ProtocolViolation, RequestEnvelope,
    RequestOperation, ResponseEnvelope,
};
use crate::service::{self, Answer};
use crate::sidechain::{self, SidechainError, SidechainPlace};
use crate::text;
use crate::todo::{self, TodoItemView, TodoPhaseView};
use crate::tools::ToolSpecView;
use crate::transcript::LocalEntryView;
use vstd::prelude::*;
use vstd::utf8::encode_utf8;

verus! {

/// A sound reply of a plugin is taken as it is: what it returned if it succeeded, its failure if
/// it failed. A reply to another request is not taken.
pub proof fn law_replies_are_taken(
    id: Seq<char>,
    response: ResponseEnvelope,
    r: Result<Json, PluginClientError>,
)
    requires
        plugins::reply_result(id, response, r),
    ensures
        r matches Ok(value) ==> response.ok && response.result == Some(value) && response.id@ == id
            && response.v == 1 && response.error is None,
        response.id@ != id ==> r == Err::<Json, PluginClientError>(
            PluginClientError::CorrelationMismatch,
        ),
        r matches Err(PluginClientError::Protocol(ProtocolError::PluginFailure(failure)))
            ==> !response.ok && response.error == Some(failure) && response.result is None,
        response.id@ == id && response.v == 1 && response.ok && response.error is None
            && protocol::id_problem(id) is None ==> (response.result matches Some(value) ==> r
            == Ok::<Json, PluginClientError>(value)),
        response.id@ == id && response.v == 1 && !response.ok && response.result is None
            && protocol::id_problem(id) is None ==> (response.error matches Some(failure) ==> r
            == Err::<Json, PluginClientError>(
            PluginClientError::Protocol(ProtocolError::PluginFailure(failure)),
        )),
{
}

/// While a call is at work, the output of its plugin is shown as it comes, its reply ends it, and
/// a failure or a message of another call ends it with the plugin.
pub proof fn law_calls_are_followed(id: Seq<char>, event: CallEvent, step: CallStep)
    requires
        plugins::call_step(id, event, step),
    ensures
        event is Sent ==> step == CallStep::Read,
        event matches CallEvent::Received(PluginMessage::Progress(envelope)) ==> (envelope.id@
            == id ==> step == CallStep::Show(envelope.progress)),
        event matches CallEvent::Received(PluginMessage::Response(response)) ==> (response.id@
            == id ==> (step matches CallStep::Finish(result) && plugins::reply_result(
            id,
            response,
            result,
        ))),
        event is DeadlinePassed ==> step == CallStep::Retire(PluginClientError::DeadlineExceeded),
        event is SendFailed || event is ReadFailed ==> step == CallStep::Retire(
            PluginClientError::Transport,
        ),
        step is Show ==> event is Received,
{
}

/// A greeting names the host and its version and bounds what the plugin may send.
pub proof fn law_greetings(r: RequestEnvelope, name: Seq<char>, version: String)
    requires
        plugins::greets(r, name, version),
    ensures
        r.v == 1,
        r.operation matches RequestOperation::Initialize(params) && {
            &&& params.host.name@ == name
            &&& params.host.version == version
            &&& params.limits.max_frame_bytes == 1_048_576
            &&& params.limits.max_tool_output_bytes == 262_144
            &&& params.limits.max_error_message_bytes == 4096
        },
        protocol::id_problem(r.id@) is None,
{
    reveal_strlit("init_1");
    let id = "init_1"@;
    assert(id.len() == 6);
    assert forall|i: int| 0 <= i < id.len() implies protocol::id_char(#[trigger] id[i]) by {}
    text::lemma_utf8_len(id);
}

/// An id is sound if it has up to 64 letters, digits, underscores and hyphens of ASCII, and at
/// least one.
pub proof fn law_sound_ids(id: Seq<char>)
    ensures
        protocol::id_problem(id) is None ==> 0 < id.len() && forall|i: int|
            0 <= i < id.len() ==> {
                let c = #[trigger] id[i];
                'a' <= c <= 'z' || 'A' <= c <= 'Z' || '0' <= c <= '9' || c == '_' || c == '-'
            },
        protocol::id_problem(id) is None ==> encode_utf8(id).len() <= 64,
        id.len() == 0 ==> protocol::id_problem(id) == Some(ProtocolViolation::EmptyCorrelationId),
        encode_utf8(id).len() > 64 ==> protocol::id_problem(id) == Some(
            ProtocolViolation::CorrelationIdTooLong,
        ),
        0 < id.len() && encode_utf8(id).len() <= 64 && (exists|i: int|
            0 <= i < id.len() && !protocol::id_char(#[trigger] id[i])) ==> protocol::id_problem(id)
            == Some(ProtocolViolation::InvalidCorrelationId),
{
    text::lemma_utf8_len(id);
}

/// A reply holds a result if it succeeded and a failure if it failed, and never both.
pub proof fn law_sound_replies(response: ResponseEnvelope)
    ensures
        protocol::response_problem(response) is None <==> {
            &&& response.v == 1
            &&& protocol::id_problem(response.id@) is None
            &&& response.ok ==> response.result is Some && response.error is None
            &&& !response.ok ==> response.result is None && response.error is Some
        },
{
}

/// The head of a frame says how long the frame is.
pub proof fn law_frame_heads(header: Seq<u8>, len: int)
    requires
        header.len() == 4,
        0 <= len < 0x1_0000_0000,
    ensures
        protocol::big_endian(header) == ((header[0] * 256 + header[1]) * 256 + header[2]) * 256
            + header[3],
        protocol::header_of(len).len() == 4,
        protocol::big_endian(protocol::header_of(len)) == len,
{
}

/// A plugin answers every request by its own id: a greeting with its name and version, a question
/// for its tools with all of them, a call by making it, and nothing before the greeting.
pub proof fn law_answers(
    initialized: bool,
    request: RequestEnvelope,
    name: Seq<char>,
    version: Seq<char>,
    offered: Seq<ToolSpecView>,
    answer: Answer,
)
    requires
        service::answers(initialized, request, name, version, offered, answer),
    ensures
        answer matches Answer::Reply { response, shutdown } ==> response.id@ == request.id@
            && response.v == 1,
        request.operation is Initialize && !initialized ==> (answer matches Answer::Reply {
            response,
            shutdown,
        } && !shutdown && response.ok && (response.result matches Some(told) && (
        told.deep_view().member("plugin"@) matches Some(plugin) && says(plugin, "name"@, name)
            && says(plugin, "version"@, version)))),
        request.operation is ListTools && initialized ==> (answer matches Answer::Reply {
            response,
            shutdown,
        } && !shutdown && response.ok && (response.result matches Some(told) && (
        told.deep_view().member("tools"@) matches Some(JsonView::Array(listed)) && listed.len()
            == offered.len() && forall|i: int|
            0 <= i < offered.len() ==> lists_tool(listed[i], #[trigger] offered[i])))),
        request.operation matches RequestOperation::CallTool(params) ==> (initialized ==> (
        answer matches Answer::Call { id, call } && id@ == request.id@ && call == params)),
        request.operation is Shutdown && initialized ==> (answer matches Answer::Reply {
            response,
            shutdown,
        } && shutdown && response.ok),
        !(request.operation is Initialize) && !initialized ==> (answer matches Answer::Reply {
            response,
            shutdown,
        } && !shutdown && !response.ok && (response.error matches Some(failure) && failure.code
            == PluginErrorCode::InvalidRequest)),
        request.operation is Initialize && initialized ==> (answer matches Answer::Reply {
            response,
            shutdown,
        } && !shutdown && !response.ok),
{
    lemma_identity(name, version);
    lemma_tools(offered);
}

/// Whether a value lists a tool: its name, its description, and what it takes.
pub open spec fn lists_tool(value: JsonView, tool: ToolSpecView) -> bool {
    &&& says(value, "name"@, tool.name)
    &&& says(value, "description"@, tool.description)
    &&& value.member("inputSchema"@) == Some(tool.input_schema)
}

proof fn lemma_identity(name: Seq<char>, version: Seq<char>)
    ensures
        service::identity_json(name, version).member("plugin"@) matches Some(plugin) && says(
            plugin,
            "name"@,
            name,
        ) && says(plugin, "version"@, version),
{
    reveal_strlit("name");
    reveal_strlit("version");
    assert("name"@.len() == 4 && "version"@.len() == 7);
    let members = service::identity_json(name, version)->Object_0;
    json::lemma_member_at(members, "plugin"@, 0, 0);
    let inner = members[0].1->Object_0;
    json::lemma_member_at(inner, "name"@, 0, 0);
    json::lemma_member_at(inner, "version"@, 0, 1);
}

proof fn lemma_tools(offered: Seq<ToolSpecView>)
    ensures
        service::tools_json(offered).member("tools"@) matches Some(JsonView::Array(listed))
            && listed.len() == offered.len() && forall|i: int|
            0 <= i < offered.len() ==> lists_tool(listed[i], #[trigger] offered[i]),
{
    reveal_strlit("name");
    reveal_strlit("description");
    reveal_strlit("inputSchema");
    assert("name"@.len() == 4 && "description"@.len() == 11 && "inputSchema"@.len() == 11
        && "description"@[0] == 'd' && "inputSchema"@[0] == 'i');
    let members = service::tools_json(offered)->Object_0;
    json::lemma_member_at(members, "tools"@, 0, 0);
    let listed = members[0].1->Array_0;
    assert forall|i: int| 0 <= i < offered.len() implies lists_tool(
        listed[i],
        #[trigger] offered[i],
    ) by {
        let inner = listed[i]->Object_0;
        json::lemma_member_at(inner, "name"@, 0, 0);
        json::lemma_member_at(inner, "description"@, 0, 1);
        json::lemma_member_at(inner, "inputSchema"@, 0, 2);
    }
}

/// What a tool returned is told whole, and whether it was cut.
pub proof fn law_results_are_told(output: Seq<char>, truncated: bool)
    ensures
        says(service::result_json(output, truncated), "output"@, output),
        service::result_json(output, truncated).member("truncated"@) == Some(
            JsonView::Bool(truncated),
        ),
{
    reveal_strlit("output");
    reveal_strlit("truncated");
    assert("output"@.len() == 6 && "truncated"@.len() == 9);
    let members = service::result_json(output, truncated)->Object_0;
    json::lemma_member_at(members, "output"@, 0, 0);
    json::lemma_member_at(members, "truncated"@, 0, 1);
}

/// A success holds the result, a failure the code and the message, cut only where it is too long.
pub proof fn law_outcomes_are_told(
    response: ResponseEnvelope,
    id: Seq<char>,
    result: JsonView,
    code: PluginErrorCode,
    message: Seq<char>,
)
    ensures
        service::succeeds(response, id, result) ==> response.ok && response.id@ == id && (
        response.result matches Some(told) && told.deep_view() == result),
        service::fails(response, id, code, message) ==> !response.ok && response.id@ == id && (
        response.error matches Some(failure) && failure.code == code && text::starts_with(
            message,
            failure.message@,
        ) && (encode_utf8(message).len() <= 4096 ==> failure.message@ == message)),
{
    protocol::law_cut_text(message, 4096);
}

/// A request says its version, its id, the name of its operation and the parameters of it: a call
/// the name and the arguments of the tool as they are.
pub proof fn law_requests_are_said(request: RequestView)
    ensures
        ({
            let said = envelope::request_form(request);
            &&& said.member("v"@) == Some(
                JsonView::Number(JsonNumberView::Unsigned(request.v as u64)),
            )
            &&& says(said, "id"@, request.id)
            &&& request.operation is Initialize ==> says(said, "op"@, "initialize"@)
            &&& request.operation is ListTools ==> says(said, "op"@, "list_tools"@)
            &&& request.operation is Shutdown ==> says(said, "op"@, "shutdown"@)
            &&& request.operation matches OperationView::CallTool { name, arguments } ==> says(
                said,
                "op"@,
                "call_tool"@,
            ) && (said.member("params"@) matches Some(params) && says(params, "name"@, name)
                && params.member("arguments"@) == Some(arguments))
        }),
{
    reveal_strlit("v");
    reveal_strlit("id");
    reveal_strlit("op");
    reveal_strlit("params");
    reveal_strlit("name");
    reveal_strlit("arguments");
    assert("v"@.len() == 1 && "id"@.len() == 2 && "op"@.len() == 2 && "params"@.len() == 6
        && "id"@[0] == 'i' && "op"@[0] == 'o' && "name"@.len() == 4 && "arguments"@.len() == 9);
    let members = envelope::request_form(request)->Object_0;
    json::lemma_member_at(members, "v"@, 0, 0);
    json::lemma_member_at(members, "id"@, 0, 1);
    json::lemma_member_at(members, "op"@, 0, 2);
    json::lemma_member_at(members, "params"@, 0, 3);
    if request.operation is CallTool {
        let inner = members[3].1->Object_0;
        json::lemma_member_at(inner, "name"@, 0, 0);
        json::lemma_member_at(inner, "arguments"@, 0, 1);
    }
}

/// A plugin that joins brings the names of its tools, and its tools where they are for the model;
/// those of the others stay.
pub proof fn law_plugins_join(manager: ManagerView, offered: Seq<ToolSpecView>, expose: bool)
    ensures
        ({
            let next = manager.with_plugin(offered, expose);
            &&& next.catalogues.len() == manager.catalogues.len() + 1
            &&& next.catalogues.drop_last() == manager.catalogues
            &&& next.catalogues.last().len() == offered.len()
            &&& forall|i: int|
                0 <= i < offered.len() ==> next.catalogues.last()[i] == (
                #[trigger] offered[i]).name
            &&& expose ==> next.model_tools == manager.model_tools + offered
            &&& !expose ==> next.model_tools == manager.model_tools
        }),
{
    let next = manager.with_plugin(offered, expose);
    assert(next.catalogues.drop_last() =~= manager.catalogues);
}

/// A name is taken twice only if a plugin has it or it stands before among the new ones; the first
/// such name is told.
pub proof fn law_repeated_names(
    catalogues: Seq<Seq<Seq<char>>>,
    names: Seq<Seq<char>>,
    from: int,
)
    requires
        0 <= from,
    ensures
        plugins::repeated_from(catalogues, names, from) matches Some(name) ==> exists|k: int|
            from <= k < names.len() && #[trigger] names[k] == name && (plugins::known(
                catalogues,
                name,
            ) || names.take(k).contains(name)),
        plugins::repeated_from(catalogues, names, from) is None ==> forall|k: int|
            from <= k < names.len() ==> !plugins::known(catalogues, #[trigger] names[k])
                && !names.take(k).contains(names[k]),
    decreases names.len() - from,
{
    if from < names.len() && !(plugins::known(catalogues, names[from]) || names.take(
        from,
    ).contains(names[from])) {
        law_repeated_names(catalogues, names, from + 1);
    }
}

/// The file of what was asked beside the conversation holds every question and every answer word
/// for word, in order.
pub proof fn law_side_files(entries: Seq<LocalEntryView>)
    ensures
        ({
            let written = sidechain::file_form(entries);
            &&& written.member("version"@) == Some(
                JsonView::Number(JsonNumberView::Unsigned(1)),
            )
            &&& written.member("entries"@) matches Some(JsonView::Array(listed)) && listed.len()
                == entries.len() && forall|i: int|
                0 <= i < entries.len() ==> says(
                    listed[i],
                    "question"@,
                    (#[trigger] entries[i]).question,
                ) && says(listed[i], "answer"@, entries[i].answer)
        }),
{
    reveal_strlit("version");
    reveal_strlit("entries");
    reveal_strlit("question");
    reveal_strlit("answer");
    assert("version"@.len() == 7 && "entries"@.len() == 7 && "version"@[0] == 'v' && "entries"@[0]
        == 'e' && "question"@.len() == 8 && "answer"@.len() == 6);
    let members = sidechain::file_form(entries)->Object_0;
    json::lemma_member_at(members, "version"@, 0, 0);
    json::lemma_member_at(members, "entries"@, 0, 1);
    let listed = members[1].1->Array_0;
    assert forall|i: int| 0 <= i < entries.len() implies says(
        listed[i],
        "question"@,
        (#[trigger] entries[i]).question,
    ) && says(listed[i], "answer"@, entries[i].answer) by {
        let inner = listed[i]->Object_0;
        json::lemma_member_at(inner, "question"@, 0, 0);
        json::lemma_member_at(inner, "answer"@, 0, 1);
    }
}

/// Where the file stands: where it was configured, beside the session, or under a home directory.
pub proof fn law_side_places(
    configured: Option<Seq<u8>>,
    session: Option<Seq<u8>>,
    program_home: Option<Seq<u8>>,
    user_home: Option<Seq<u8>>,
    place: Result<SidechainPlace, SidechainError>,
)
    requires
        sidechain::place_of(configured, session, program_home, user_home, place),
    ensures
        configured matches Some(path) ==> (place matches Ok(SidechainPlace::At(p)) && p@ == path),
        configured is None ==> (session matches Some(path) ==> (place matches Ok(
            SidechainPlace::At(p),
        ) && path.is_prefix_of(p@) && encode_utf8(".btw.json"@).is_suffix_of(p@))),
        configured is None && session is None ==> (program_home matches Some(home) ==> (
        place matches Ok(SidechainPlace::UnderHome(h)) && h@ == home)),
        place is Err <==> configured is None && session is None && program_home is None
            && user_home is None,
{
    if configured is None {
        if let Some(path) = session {
            let p = path + encode_utf8(".btw.json"@);
            assert(path =~= p.subrange(0, path.len() as int));
            assert(encode_utf8(".btw.json"@) =~= p.subrange(path.len() as int, p.len() as int));
        }
    }
}

/// The number that hexadecimal digits stand for.
pub open spec fn hex_number(digits: Seq<u8>) -> int
    decreases digits.len(),
{
    if digits.len() == 0 {
        0
    } else {
        16 * hex_number(digits.drop_last()) + (if digits.last() < 0x3a {
            digits.last() - 0x30
        } else {
            digits.last() - 0x57
        })
    }
}

/// Hexadecimal digits stand for their number, as many of them as were asked for, so that two
/// numbers have the same digits only if they are the same.
pub proof fn law_hex_digits(n: int, count: nat)
    requires
        0 <= n,
    ensures
        sidechain::hex_digits(n, count).len() == count,
        hex_number(sidechain::hex_digits(n, count)) == n % vstd::arithmetic::power::pow(16, count),
    decreases count,
{
    vstd::arithmetic::power::lemma_pow0(16);
    vstd::arithmetic::power::lemma_pow_positive(16, count);
    if count > 0 {
        let less = (count - 1) as nat;
        law_hex_digits(n / 16, less);
        vstd::arithmetic::power::lemma_pow_positive(16, less);
        vstd::arithmetic::power::lemma_pow_adds(16, 1, less);
        vstd::arithmetic::power::lemma_pow1(16);
        let digits = sidechain::hex_digits(n, count);
        assert(digits.drop_last() =~= sidechain::hex_digits(n / 16, less));
        vstd::arithmetic::div_mod::lemma_mod_breakdown(
            n,
            16,
            vstd::arithmetic::power::pow(16, less),
        );
    }
}

/// A name for a file that stands beside another holds the name of that file and an id.
pub proof fn law_temporary_names(name: Seq<char>, id: Seq<char>, suffix: Seq<char>)
    ensures
        sidechain::temporary_name_of(Some(name), id) == "."@ + name + "."@ + id + ".tmp"@,
        sidechain::temporary_name_of(None, id) == "."@ + "btw-sidechain"@ + "."@ + id + ".tmp"@,
        sidechain::edited_name_of(id, suffix) == "mycode-"@ + id + "-"@ + suffix + ".md"@,
{
}

/// A task is written behind a box with the mark of its status, its content as it is, and what
/// blocks it in a comment.
pub proof fn law_tasks_are_written(task: TodoItemView)
    ensures
        ({
            let line = todo::task_line(task);
            let mark = if task.status == "in_progress"@ {
                '>'
            } else if task.status == "completed"@ {
                'x'
            } else if task.status == "abandoned"@ {
                '-'
            } else if task.status == "blocked"@ {
                '!'
            } else {
                ' '
            };
            &&& line == seq!['-', ' ', '[', mark, ']', ' '] + task.content + (match task.blocker {
                Some(blocker) => " <!-- blocker: "@ + blocker + " -->"@,
                None => Seq::empty(),
            })
        }),
{
    let line = todo::task_line(task);
    assert(line =~= todo::box_text(todo::marker(task.status)) + task.content + (match task.blocker {
        Some(blocker) => " <!-- blocker: "@ + blocker + " -->"@,
        None => Seq::empty(),
    }));
}

/// A phase is written as a heading, its tasks in order and a blank line; a list as its phases in
/// order.
pub proof fn law_phases_are_written(phases: Seq<TodoPhaseView>, phase: TodoPhaseView, i: int)
    ensures
        ({
            let lines = todo::phase_lines(phase);
            &&& lines.len() == phase.tasks.len() + 2
            &&& lines[0] == "## "@ + phase.name
            &&& 0 <= i < phase.tasks.len() ==> lines[i + 1] == todo::task_line(phase.tasks[i])
            &&& lines.last().len() == 0
        }),
        todo::document_lines(phases.push(phase)) == todo::document_lines(phases)
            + todo::phase_lines(phase),
        todo::document_lines(Seq::empty()).len() == 0,
{
    assert(phases.push(phase).drop_last() =~= phases);
}

/// The marks of a box stand for these states.
pub proof fn law_marks(mark: char)
    ensures
        todo::marked_status(' ') == Some("pending"@),
        todo::marked_status('>') == Some("in_progress"@),
        todo::marked_status('x') == Some("completed"@),
        todo::marked_status('-') == Some("abandoned"@),
        todo::marked_status('!') == Some("blocked"@),
        mark != ' ' && mark != '>' && mark != 'x' && mark != '-' && mark != '!'
            ==> todo::marked_status(mark) is None,
{
}

/// A line of a task list adds a phase, or a task to the last phase, or nothing; what stood before
/// it stays.
pub proof fn law_lines_add_to_the_list(
    phases: Seq<TodoPhaseView>,
    raw: Seq<char>,
    number: nat,
)
    ensures
        todo::after_line(phases, raw, number) matches Ok(next) ==> {
            ||| next == phases && text::trimmed(raw).len() == 0
            ||| next.len() == phases.len() + 1 && next.drop_last() == phases
                && next.last().tasks.len() == 0 && text::starts_with(text::trimmed(raw), "## "@)
            ||| phases.len() > 0 && next.len() == phases.len() && next.drop_last()
                == phases.drop_last() && next.last().name == phases.last().name
                && next.last().tasks.len() == phases.last().tasks.len() + 1
                && next.last().tasks.drop_last() == phases.last().tasks
        },
        todo::after_line(phases, raw, number) matches Err(error) ==> error.line == number,
        text::trimmed(raw).len() == 0 ==> todo::after_line(phases, raw, number) == Ok::<
            Seq<TodoPhaseView>,
            todo::TodoDocumentErrorView,
        >(phases),
{
    if let Ok(next) = todo::after_line(phases, raw, number) {
        if next.len() == phases.len() + 1 {
            assert(next.drop_last() =~= phases);
        } else if next.len() == phases.len() && phases.len() > 0 {
            assert(text::trimmed(raw).len() > 0 ==> next.drop_last() =~= phases.drop_last());
            assert(text::trimmed(raw).len() > 0 ==> next.last().tasks.drop_last()
                =~= phases.last().tasks);
        }
    }
}

/// The file of a workspace stands under the home directory, by a name of its own.
pub proof fn law_side_files_of_workspaces(home: Seq<u8>, directory: Seq<u8>)
    ensures
        ({
            let path = sidechain::workspace_sidechain(home, directory);
            &&& home.is_prefix_of(path)
            &&& encode_utf8(".json"@).is_suffix_of(path)
        }),
        sidechain::hashed(Seq::empty()) == 0xcbf2_9ce4_8422_2325,
{
    let path = sidechain::workspace_sidechain(home, directory);
    assert(home =~= path.subrange(0, home.len() as int));
    let tail = encode_utf8(".json"@);
    assert(tail =~= path.subrange(path.len() - tail.len(), path.len() as int));
}

/// A task is read from its line: the state of its box, its content, and what blocks it.
pub proof fn law_tasks_are_read(
    phases: Seq<TodoPhaseView>,
    mark: char,
    status: Seq<char>,
    content: Seq<char>,
    number: nat,
)
    requires
        phases.len() > 0,
        todo::marked_status(mark) == Some(status),
        1 <= content.len() <= 200,
        text::trimmed(content) == content,
        !text::ends_with(content, " -->"@),
        forall|i: int, j: int|
            0 <= i < phases.len() && 0 <= j < phases[i].tasks.len() ==> (
            #[trigger] phases[i].tasks[j]).content != content,
        todo::task_total(phases) < 64,
    ensures
        todo::after_line(phases, seq!['-', ' ', '[', mark, ']', ' '] + content, number) matches Ok(
            next,
        ) && {
            &&& next.len() == phases.len()
            &&& next.drop_last() == phases.drop_last()
            &&& next.last().name == phases.last().name
            &&& next.last().tasks == phases.last().tasks.push(
                TodoItemView { content, status, blocker: None },
            )
        },
{
    let head = seq!['-', ' ', '[', mark, ']', ' '];
    let line = head + content;
    text::lemma_trimmed(content);
    assert(line[0] == '-');
    assert(line.last() == content.last());
    text::lemma_trimmed(line);
    assert(text::trimmed(line) == line);
    reveal_strlit("## ");
    assert(!text::starts_with(line, "## "@)) by {
        if text::starts_with(line, "## "@) {
            assert(line.subrange(0, 3)[0] == '#');
        }
    }
    assert(line.subrange(0, 6) =~= todo::box_text(mark));
    assert(line.subrange(6, line.len() as int) =~= content);
    let next = todo::after_line(phases, line, number);
    assert(next->Ok_0.drop_last() =~= phases.drop_last());
}

} // verus!
