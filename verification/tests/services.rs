//! Plugins: the protocol, the two plugins and the host.
use mycode::classic;
use mycode::envelope::{request_json, request_of_json};
use mycode::git;
use mycode::git::{verified_argv, GitError};
use mycode::json::{json_to_text, parse_json, parse_json_bytes, Json};
use mycode::paths::{components, is_under, join_path};
use mycode::plugins::{
    accept_versions, initialize_request, list_tools_request, shutdown_request, take_reply,
    CallEvent, CallStep, PluginClient, PluginClientError, PluginManager,
};
use mycode::protocol::{
    call_request_id, core_request_id, encode_frame, frame_payload_len, tool_failure,
    validate_correlation_id, validate_request, validate_response, validate_version,
    CallToolParams, EmptyParams, HostIdentity, InitializeParams, Limits, PluginErrorCode,
    PluginMessage, ProgressEnvelope, ProtocolError, ProtocolRange, ProtocolViolation,
    RequestEnvelope, RequestOperation, ResponseEnvelope, ToolOutputStream, ToolProgress,
    ToolResult, ToolSpec, DEFAULT_MAX_ERROR_MESSAGE_BYTES, DEFAULT_MAX_FRAME_BYTES,
    DEFAULT_MAX_TOOL_OUTPUT_BYTES, PROTOCOL_VERSION,
};
use mycode::service::{call_reply, Answer, PluginServer};
use mycode::session::CoreToolCall;
use mycode::workspace;
use mycode::workspace::{FileJob, FileTask, ToolStart, WorkspaceError};
use std::path::Path;

fn json(source: &str) -> Json {
    parse_json(source).expect("fixture must parse")
}

fn call(name: &str, arguments: &str) -> CallToolParams {
    CallToolParams { name: name.to_owned(), arguments: json(arguments) }
}

fn request(operation: RequestOperation) -> RequestEnvelope {
    RequestEnvelope { v: 1, id: "test_1".to_owned(), operation }
}

fn tool(name: &str) -> ToolSpec {
    ToolSpec { name: name.to_owned(), description: String::new(), input_schema: json("{}") }
}

fn success(id: &str) -> ResponseEnvelope {
    ResponseEnvelope::success(id.to_owned(), json("{\"output\": \"o\"}"))
}

#[test]
fn rejects_read_options_with_side_effects() {
    let result = verified_argv("git_read", "diff", &vec!["--output=leak.patch".to_owned()]);
    assert!(matches!(result, Err(GitError::ForbiddenOption)));
}

#[test]
fn rejects_paths_outside_the_repository() {
    let result = verified_argv("git_write", "add", &vec!["../outside".to_owned()]);
    assert!(matches!(result, Err(GitError::InvalidPath)));
}

#[test]
fn error_messages_truncate_at_a_utf8_boundary() {
    let message = format!("{}ésuffix", "a".repeat(DEFAULT_MAX_ERROR_MESSAGE_BYTES - 1));
    let failure = tool_failure(PluginErrorCode::Internal, message, false);
    assert_eq!(failure.message.len(), DEFAULT_MAX_ERROR_MESSAGE_BYTES - 1);
    assert!(failure.message.is_char_boundary(failure.message.len()));
}

#[test]
fn rejects_an_oversized_frame_before_reading_body() {
    let error = frame_payload_len(1024_u32.to_be_bytes(), 32)
        .expect_err("oversized frame must fail");
    assert!(matches!(error, ProtocolError::FrameTooLarge { declared: 1024, maximum: 32 }));
    assert!(frame_payload_len(0_u32.to_be_bytes(), 32).is_err());
}

#[test]
fn frames_are_read_back() {
    let payload = b"{\"id\":\"call_1\"}".to_vec();
    let frame = encode_frame(&payload).expect("frame must encode");
    let header = [frame[0], frame[1], frame[2], frame[3]];
    let length = frame_payload_len(header, DEFAULT_MAX_FRAME_BYTES).expect("header must decode");
    assert_eq!(&frame[4..], &payload[..]);
    assert_eq!(length, payload.len());
    assert!(encode_frame(&vec![]).is_err());
    assert!(encode_frame(&vec![0; DEFAULT_MAX_FRAME_BYTES + 1]).is_err());
    let large = encode_frame(&vec![7; 0x1_0203]).expect("frame must encode");
    assert_eq!(&large[..4], &[0, 1, 2, 3]);
}

#[test]
fn envelopes_are_validated() {
    assert!(validate_version(PROTOCOL_VERSION).is_ok());
    assert_eq!(
        validate_version(2),
        Err(ProtocolError::Violation(ProtocolViolation::UnsupportedVersion { found: 2 }))
    );
    assert_eq!(
        validate_correlation_id(""),
        Err(ProtocolError::Violation(ProtocolViolation::EmptyCorrelationId))
    );
    assert_eq!(
        validate_correlation_id(&"a".repeat(65)),
        Err(ProtocolError::Violation(ProtocolViolation::CorrelationIdTooLong))
    );
    assert_eq!(
        validate_correlation_id("a b"),
        Err(ProtocolError::Violation(ProtocolViolation::InvalidCorrelationId))
    );
    assert!(validate_correlation_id(&call_request_id()).is_ok());
    assert_eq!(core_request_id().len(), 32);
    assert_ne!(core_request_id(), core_request_id());
    assert!(validate_request(&request(RequestOperation::ListTools(EmptyParams {}))).is_ok());
    let mut response = success("a");
    assert!(validate_response(&response).is_ok());
    response.result = None;
    assert_eq!(
        validate_response(&response),
        Err(ProtocolError::Violation(ProtocolViolation::MissingResult))
    );
    response.ok = false;
    assert_eq!(
        validate_response(&response),
        Err(ProtocolError::Violation(ProtocolViolation::MissingError))
    );
    response.result = Some(json("1"));
    assert_eq!(
        validate_response(&response),
        Err(ProtocolError::Violation(ProtocolViolation::FailureIncludedResult))
    );
    response.ok = true;
    response.error = Some(tool_failure(PluginErrorCode::Internal, "e".to_owned(), true));
    assert_eq!(
        validate_response(&response),
        Err(ProtocolError::Violation(ProtocolViolation::SuccessIncludedError))
    );
    let failed = ResponseEnvelope::failure(
        "a".to_owned(),
        tool_failure(PluginErrorCode::ToolFailed, "no".to_owned(), false),
    );
    match failed.into_result() {
        Err(ProtocolError::PluginFailure(failure)) => assert_eq!(failure.message, "no"),
        _ => panic!("a failure must be handed on"),
    }
}

#[test]
fn requires_initialization_before_tool_discovery() {
    let tools = workspace::tools();
    let mut server = PluginServer::new();
    let list = request(RequestOperation::ListTools(EmptyParams {}));
    match server.answer(list, "workspace", "1", &tools) {
        Answer::Reply { response, shutdown } => {
            assert!(!response.ok);
            assert!(!shutdown);
        }
        Answer::Call { .. } => panic!("nothing is called before the greeting"),
    }

    let greeting = request(RequestOperation::Initialize(InitializeParams {
        host: HostIdentity { name: "test-host".to_owned(), version: "1".to_owned() },
        limits: Limits::default(),
    }));
    match server.answer(greeting, "workspace", "1", &tools) {
        Answer::Reply { response, .. } => assert!(response.ok),
        Answer::Call { .. } => panic!("the greeting is answered"),
    }
}

#[test]
fn a_greeted_plugin_lists_calls_and_ends() {
    let tools = workspace::tools();
    let mut server = PluginServer { initialized: true };
    let list = request(RequestOperation::ListTools(EmptyParams {}));
    match server.answer(list, "workspace", "1", &tools) {
        Answer::Reply { response, shutdown: false } => {
            let told = response.into_result().expect("tools must be told");
            let listed = told.get("tools").and_then(|value| value.as_array()).expect("tools");
            assert_eq!(listed.len(), 4);
            assert_eq!(listed[3].get_str("name"), Some("bash"));
        }
        _ => panic!("tools must be told"),
    }
    match server.answer(
        request(RequestOperation::CallTool(call("read", "{}"))),
        "workspace",
        "1",
        &tools,
    ) {
        Answer::Call { id, call } => {
            assert_eq!(id, "test_1");
            assert_eq!(call.name, "read");
        }
        _ => panic!("the tool must be called"),
    }
    match server.answer(
        request(RequestOperation::Shutdown(EmptyParams {})),
        "workspace",
        "1",
        &tools,
    ) {
        Answer::Reply { response, shutdown } => {
            assert!(response.ok && shutdown);
            assert_eq!(response.result.as_ref().map(json_to_text), Some("{}".to_owned()));
        }
        _ => panic!("the plugin must end"),
    }
    let again = request(RequestOperation::Initialize(InitializeParams {
        host: HostIdentity { name: "h".to_owned(), version: "1".to_owned() },
        limits: Limits::default(),
    }));
    match server.answer(again, "workspace", "1", &tools) {
        Answer::Reply { response, shutdown: false } => match response.into_result() {
            Err(ProtocolError::PluginFailure(failure)) => {
                assert_eq!(failure.message, "plugin is already initialized")
            }
            _ => panic!("a second greeting must fail"),
        },
        _ => panic!("a second greeting must be answered"),
    }
    let told = call_reply(
        "a".to_owned(),
        Ok(ToolResult { output: "x".to_owned(), truncated: false }),
    );
    assert_eq!(told.result.as_ref().and_then(|value| value.get_str("output")), Some("x"));
    let failed = call_reply("a".to_owned(), Err("broken".to_owned()));
    assert_eq!(failed.error.map(|error| error.message), Some("broken".to_owned()));
}

#[test]
fn reads_only_inside_the_workspace() {
    let workspace = b"/tmp/w";
    let arguments = json("{\"path\": \"note.txt\"}");
    let start = workspace::start_tool(workspace, &call("read", "{\"path\": \"note.txt\"}"))
        .expect("workspace file must be readable");
    let ToolStart::Resolve { path, job } = start else {
        panic!("a path must be resolved");
    };
    assert_eq!(path, b"/tmp/w/note.txt");
    let task = workspace::file_task(workspace, &arguments, job, path).expect("path lies inside");
    assert_eq!(task, FileTask::Read { path: b"/tmp/w/note.txt".to_vec() });
    let result = workspace::read_result(b"safe content".to_vec()).expect("content is text");
    assert_eq!(result.output, "safe content");
    let outside =
        workspace::start_tool(workspace, &call("read", "{\"path\": \"../outside.txt\"}"));
    assert_eq!(outside, Err(WorkspaceError::InvalidRelativePath));
    assert_eq!(
        workspace::file_task(workspace, &arguments, FileJob::Read, b"/tmp/other".to_vec()),
        Err(WorkspaceError::PathEscapesWorkspace)
    );
    assert_eq!(
        workspace::file_task(workspace, &arguments, FileJob::Read, b"/tmp/w2".to_vec()),
        Err(WorkspaceError::PathEscapesWorkspace)
    );
}

#[test]
fn refuses_to_buffer_a_read_larger_than_the_output_limit() {
    let mut bytes = vec![b'x'; DEFAULT_MAX_TOOL_OUTPUT_BYTES];
    let result = workspace::take_bytes(&mut bytes, b"x", DEFAULT_MAX_TOOL_OUTPUT_BYTES);
    assert!(matches!(result, Err(WorkspaceError::OutputTooLarge { .. })));
    assert!(workspace::bounded_output("x".repeat(DEFAULT_MAX_TOOL_OUTPUT_BYTES)).is_ok());
    assert!(matches!(
        workspace::bounded_output("x".repeat(DEFAULT_MAX_TOOL_OUTPUT_BYTES + 1)),
        Err(WorkspaceError::OutputTooLarge { limit: DEFAULT_MAX_TOOL_OUTPUT_BYTES })
    ));
}

#[test]
fn a_write_names_a_file_of_a_resolved_directory() {
    let workspace = b"/tmp/w";
    let source = "{\"path\": \"dir//link.txt\", \"content\": \"inside\"}";
    let start = workspace::start_tool(workspace, &call("write", source)).expect("path is inside");
    let ToolStart::Resolve { path, job } = start else {
        panic!("a directory must be resolved");
    };
    assert_eq!(path, b"/tmp/w/dir");
    assert_eq!(job, FileJob::Write { name: b"link.txt".to_vec() });
    let task = workspace::file_task(workspace, &json(source), job, b"/tmp/w/real".to_vec());
    assert_eq!(
        task,
        Ok(FileTask::Write {
            path: b"/tmp/w/real/link.txt".to_vec(),
            content: "inside".to_owned(),
        })
    );
    let no_content = workspace::file_task(
        workspace,
        &json("{\"path\": \"a\"}"),
        FileJob::Write { name: b"a".to_vec() },
        b"/tmp/w".to_vec(),
    );
    assert_eq!(no_content, Err(WorkspaceError::MissingStringArgument { name: "content" }));
    assert_eq!(
        workspace::start_tool(b"/", &call("write", "{\"path\": \".\", \"content\": \"\"}")),
        Err(WorkspaceError::MissingParent)
    );
    assert_eq!(
        workspace::write_result("é", "/tmp/w/a").expect("message is short").output,
        "Wrote 2 bytes to /tmp/w/a."
    );
}

#[test]
fn an_edit_replaces_the_only_occurrence() {
    let edited = |content: &str, old: &str| {
        workspace::edited_content(content.as_bytes().to_vec(), old, "new")
    };
    assert_eq!(edited("a old b", "old"), Ok("a new b".to_owned()));
    assert_eq!(edited("a b", "old"), Err(WorkspaceError::EditMatchCount));
    assert_eq!(edited("old old", "old"), Err(WorkspaceError::EditMatchCount));
    assert_eq!(edited("a", ""), Err(WorkspaceError::EditMatchCount));
    assert_eq!(edited("aaa", "aa"), Ok("newa".to_owned()));
    assert_eq!(
        workspace::edited_content(vec![0xff], "a", "b"),
        Err(WorkspaceError::InvalidUtf8)
    );
    let source = "{\"path\": \"a\", \"oldText\": \"x\"}";
    assert_eq!(
        workspace::file_task(b"/w", &json(source), FileJob::Edit, b"/w/a".to_vec()),
        Err(WorkspaceError::MissingStringArgument { name: "newText" })
    );
    assert_eq!(workspace::edit_result("/w/a").expect("short").output, "Edited /w/a.");
}

#[test]
fn commands_have_a_deadline() {
    let started = |source: &str| workspace::start_tool(b"/w", &call("bash", source));
    assert_eq!(
        started("{\"command\": \"ls\"}"),
        Ok(ToolStart::Shell { command: "ls".to_owned(), timeout_ms: 120_000 })
    );
    assert_eq!(
        started("{\"command\": \"ls\", \"timeoutMs\": 300000}"),
        Ok(ToolStart::Shell { command: "ls".to_owned(), timeout_ms: 300_000 })
    );
    assert_eq!(
        started("{\"command\": \"ls\", \"timeoutMs\": 0}"),
        Err(WorkspaceError::InvalidTimeout)
    );
    assert_eq!(
        started("{\"command\": \"ls\", \"timeoutMs\": \"1\"}"),
        Err(WorkspaceError::InvalidTimeout)
    );
    assert_eq!(
        workspace::start_tool(b"/w", &call("rm", "{}")),
        Err(WorkspaceError::UnknownTool)
    );
    assert_eq!(WorkspaceError::InvalidTimeout.message(),
        "argument timeoutMs must be an integer between 1 and 300000");
}

#[test]
fn command_output_is_told_with_its_errors() {
    assert_eq!(
        workspace::shell_result(b"out", b"err", Some("exit status: 1")).expect("short").output,
        "out\n[stderr]\nerr\n[exit status: exit status: 1]"
    );
    assert_eq!(git::command_result(b"", b"err", None).output, "[stderr]\nerr");
    assert_eq!(git::command_result(b"out", b"err", None).output, "out\n[stderr]\nerr");
    assert_eq!(git::command_result(b"a\xff", b"", None).output, "a\u{fffd}");
    assert_eq!(git::reported_root(b" /w\n"), "/w");
}

#[test]
fn git_commands_are_the_verified_ones() {
    let arguments = |words: &[&str]| words.iter().map(|w| (*w).to_owned()).collect::<Vec<_>>();
    let argv = |tool: &str, operation: &str, words: &[&str]| {
        verified_argv(tool, operation, &arguments(words))
    };
    assert_eq!(argv("git_read", "status", &["--short"]), Ok(arguments(&["status", "--short"])));
    assert_eq!(
        argv("git_read", "log", &["-1"]),
        Ok(arguments(&["log", "--no-ext-diff", "--no-textconv", "-1"]))
    );
    assert_eq!(argv("git_read", "rev_parse", &["HEAD"]), Ok(arguments(&["rev-parse", "HEAD"])));
    assert_eq!(
        argv("git_read", "branch_current", &[]),
        Ok(arguments(&["branch", "--show-current"]))
    );
    assert!(matches!(
        argv("git_read", "branch_current", &["x"]),
        Err(GitError::InvalidOperation { .. })
    ));
    assert!(matches!(argv("git_read", "show", &["a\0b"]), Err(GitError::ForbiddenOption)));
    assert_eq!(argv("git_write", "add", &["a/b"]), Ok(arguments(&["add", "--", "a/b"])));
    assert_eq!(
        argv("git_write", "restore_staged", &["a"]),
        Ok(arguments(&["restore", "--staged", "--", "a"]))
    );
    assert_eq!(
        argv("git_write", "commit", &["verified commit"]),
        Ok(arguments(&["commit", "--no-verify", "-m", "verified commit"]))
    );
    assert!(matches!(
        argv("git_write", "commit", &[""]),
        Err(GitError::InvalidOperation { .. })
    ));
    for path in ["", "/a", "-a", "a/../b", ".git/config", "a/.git"] {
        assert!(!git::valid_path(path));
    }
    assert!(git::valid_path("./a"));
    assert!(matches!(argv("git_write", "add", &[]), Err(GitError::InvalidPath)));
    assert_eq!(
        GitError::InvalidOperation { tool: "t".to_owned(), operation: "o".to_owned() }.message(),
        "operation o is not valid for tool t"
    );
    assert_eq!(
        git::git_words(&arguments(&["status"])),
        arguments(&["--no-optional-locks", "-c", "core.hooksPath=/dev/null", "status"])
    );
}

#[test]
fn git_tools_need_a_repository_root() {
    assert!(git::tools(false).is_empty());
    let names = git::tools(true).into_iter().map(|tool| tool.name).collect::<Vec<_>>();
    assert_eq!(names, vec!["git_read".to_owned(), "git_write".to_owned()]);
    let status = call("git_read", "{\"operation\": \"status\", \"arguments\": [\"--short\"]}");
    assert!(matches!(git::command_for(false, &status), Err(GitError::NotRepositoryRoot)));
    assert_eq!(
        git::command_for(true, &status),
        Ok(vec!["status".to_owned(), "--short".to_owned()])
    );
    assert!(matches!(
        git::command_for(true, &call("git_read", "{\"operation\": \"status\"}")),
        Err(GitError::InvalidArguments)
    ));
    assert!(matches!(
        git::command_for(true, &call("git_read", "{\"arguments\": []}")),
        Err(GitError::MissingStringArgument { name: "operation" })
    ));
    let mut bytes = vec![0; 3];
    assert!(matches!(
        git::take_output(&mut bytes, b"ab", 4),
        Err(GitError::OutputTooLarge { limit: 4 })
    ));
    assert!(git::take_output(&mut bytes, b"a", 4).is_ok());
}

#[test]
fn paths_are_compared_by_component() {
    assert_eq!(
        components(b"/a/./b//c"),
        vec![b"/".to_vec(), b"a".to_vec(), b"b".to_vec(), b"c".to_vec()]
    );
    assert_eq!(components(b"./a"), vec![b".".to_vec(), b"a".to_vec()]);
    assert!(is_under(b"/a/b", b"/a/b"));
    assert!(is_under(b"/a/b/", b"/a/b/c"));
    assert!(!is_under(b"/a/b", b"/a/bc"));
    assert!(!is_under(b"/a/b", b"a/b/c"));
    assert_eq!(join_path(b"/a", b"b"), b"/a/b");
    assert_eq!(join_path(b"/a/", b"b"), b"/a/b");
    assert_eq!(join_path(b"", b"b"), b"b");
}

#[test]
fn path_components_agree_with_the_standard_library() {
    let samples = ["", "/", ".", "..", "a", "a/b", "a//b/", "./a/./b", "/./a/..", "//a", "a/."];
    for path in samples {
        let expected = Path::new(path)
            .components()
            .map(|part| part.as_os_str().to_string_lossy().into_owned())
            .collect::<Vec<_>>();
        let found = components(path.as_bytes())
            .into_iter()
            .map(|part| String::from_utf8(part).expect("part is text"))
            .collect::<Vec<_>>();
        assert_eq!(found, expected);
        for other in samples {
            assert_eq!(
                is_under(other.as_bytes(), path.as_bytes()),
                Path::new(path).starts_with(other)
            );
        }
    }
}

#[test]
fn a_plugin_is_taken_on_with_its_tools() {
    assert!(accept_versions(ProtocolRange { min_version: 1, max_version: 3 }).is_ok());
    assert_eq!(
        accept_versions(ProtocolRange { min_version: 2, max_version: 3 }),
        Err(PluginClientError::UnsupportedVersion)
    );
    assert!(matches!(
        PluginClient::accept_tools(vec![tool("a"), tool("a")]),
        Err(PluginClientError::DuplicateTool)
    ));
    assert_eq!(initialize_request("1".to_owned()).id, "init_1");
    assert_eq!(list_tools_request().id, "tools_1");
    assert_eq!(shutdown_request().id, "shutdown_1");
    assert!(take_reply("a", success("a")).is_ok());
    assert_eq!(take_reply("a", success("b")), Err(PluginClientError::CorrelationMismatch));
}

#[test]
fn a_plugin_is_retired_after_a_failure() {
    let core_call = CoreToolCall {
        call_id: "c".to_owned(),
        name: "read".to_owned(),
        arguments: json("{\"path\": \"p\"}"),
    };
    let mut client = PluginClient::accept_tools(vec![tool("read")]).expect("tools differ");
    let sent = client.call_request(&core_call).expect("plugin is available");
    let id = sent.id.clone();
    assert!(matches!(client.on_call_event(&id, CallEvent::Sent), CallStep::Read));
    let progress = PluginMessage::Progress(ProgressEnvelope {
        id: id.clone(),
        progress: ToolProgress { stream: ToolOutputStream::Stdout, data: "YQ==".to_owned() },
    });
    assert!(matches!(
        client.on_call_event(&id, CallEvent::Received(progress)),
        CallStep::Show(_)
    ));
    assert!(matches!(
        client.on_call_event(&id, CallEvent::Received(PluginMessage::Response(success(&id)))),
        CallStep::Finish(Ok(_))
    ));
    assert!(client.available);
    assert!(matches!(
        client.on_call_event(&id, CallEvent::Received(PluginMessage::Response(success("x")))),
        CallStep::Retire(PluginClientError::CorrelationMismatch)
    ));
    assert!(!client.available);
    assert!(matches!(client.call_request(&core_call), Err(PluginClientError::Retired)));

    for event in [CallEvent::SendFailed, CallEvent::ReadFailed, CallEvent::DeadlinePassed] {
        let mut other = PluginClient::accept_tools(vec![]).expect("no tools differ");
        assert!(matches!(other.on_call_event(&id, event), CallStep::Retire(_)));
        assert!(!other.available);
    }
    let mut ending = PluginClient::accept_tools(vec![]).expect("no tools differ");
    assert!(ending.on_shutdown_reply(Some(success("shutdown_1"))));
    assert!(!ending.available);
    assert!(!ending.on_shutdown_reply(Some(success("other"))));
    assert!(!ending.on_shutdown_reply(None));
}

#[test]
fn a_tool_belongs_to_one_plugin() {
    let mut manager = PluginManager::new();
    manager.add_plugin(&vec![tool("read"), tool("bash")], true).expect("tools are new");
    manager.add_plugin(&vec![tool("git_read")], false).expect("tools are new");
    assert_eq!(manager.model_tools().len(), 2);
    assert!(manager.has_tool("git_read"));
    assert_eq!(manager.route("git_read"), Ok(1));
    assert_eq!(manager.route("bash"), Ok(0));
    assert_eq!(manager.route("x"), Err(PluginClientError::UnknownTool("x".to_owned())));
    assert_eq!(
        manager.add_plugin(&vec![tool("new"), tool("bash")], true),
        Err(PluginClientError::DuplicateToolAcrossPlugins("bash".to_owned()))
    );
    assert!(!manager.has_tool("new"));
    assert!(manager.accept_replacement(0, &vec![tool("read"), tool("bash")]).is_ok());
    assert_eq!(
        manager.accept_replacement(0, &vec![tool("bash"), tool("read")]),
        Err(PluginClientError::CatalogueChanged)
    );
}

#[test]
fn round_trips_a_tool_request() {
    let request = RequestEnvelope {
        v: PROTOCOL_VERSION,
        id: "call_1".to_owned(),
        operation: RequestOperation::CallTool(CallToolParams {
            name: "read".to_owned(),
            arguments: json(r#"{"path": "Main.lean"}"#),
        }),
    };
    let payload = json_to_text(&request_json(&request)).into_bytes();
    let frame = encode_frame(&payload).expect("request must serialize");
    let header = [frame[0], frame[1], frame[2], frame[3]];
    let length = frame_payload_len(header, DEFAULT_MAX_FRAME_BYTES).expect("header must decode");
    assert_eq!(frame.len(), 4 + length);
    let read = parse_json_bytes(&frame[4..]).expect("payload must be JSON");
    let decoded = request_of_json(&read).expect("request must deserialize");
    assert_eq!(decoded.id, request.id);
    assert_eq!(decoded, request);
}

#[test]
fn serializes_shutdown_with_an_empty_object() {
    let request = RequestEnvelope {
        v: PROTOCOL_VERSION,
        id: "shutdown_1".to_owned(),
        operation: RequestOperation::Shutdown(EmptyParams {}),
    };
    let written = request_json(&request);
    assert_eq!(written.get("params"), Some(&json("{}")));
}

#[test]
fn requests_have_one_form() {
    let greeting = request(RequestOperation::Initialize(InitializeParams {
        host: HostIdentity { name: "h".to_owned(), version: "2".to_owned() },
        limits: Limits { max_frame_bytes: 1, max_tool_output_bytes: 2, max_error_message_bytes: 3 },
    }));
    let written = json(
        r#"{"v": 1, "id": "test_1", "op": "initialize", "params": {
            "limits": {"maxErrorMessageBytes": 3, "maxToolOutputBytes": 2, "maxFrameBytes": 1},
            "host": {"version": "2", "name": "h"}
        }}"#,
    );
    assert_eq!(json(&json_to_text(&request_json(&greeting))), written);
    assert_eq!(request_of_json(&written), Some(greeting));
    for operation in [
        RequestOperation::ListTools(EmptyParams {}),
        RequestOperation::Shutdown(EmptyParams {}),
        RequestOperation::CallTool(call("bash", r#"{"b": [1, null], "a": -2}"#)),
    ] {
        let sent = request(operation);
        assert_eq!(request_of_json(&request_json(&sent)), Some(sent));
    }
    for other in [
        "[]",
        "{}",
        r#"{"v": 65536, "id": "a", "op": "list_tools", "params": {}}"#,
        r#"{"v": 1, "id": 1, "op": "list_tools", "params": {}}"#,
        r#"{"v": 1, "id": "a", "op": "ListTools", "params": {}}"#,
        r#"{"v": 1, "id": "a", "op": "list_tools", "params": {"more": 1}}"#,
        r#"{"v": 1, "id": "a", "op": "list_tools"}"#,
        r#"{"v": 1, "id": "a", "op": "list_tools", "params": {}, "more": 1}"#,
        r#"{"v": 1, "id": "a", "op": "call_tool", "params": {"name": "read"}}"#,
    ] {
        assert_eq!(request_of_json(&json(other)), None, "{other}");
    }
}

#[test]
fn the_small_agent_greets_under_its_own_name() {
    let greeted = |request: RequestEnvelope| match request.operation {
        RequestOperation::Initialize(params) => (request.id, params),
        other => panic!("no greeting: {other:?}"),
    };
    let (id, params) = greeted(classic::initialize_request("3".to_owned()));
    assert_eq!(id, "init_1");
    assert_eq!(params.host.name, "lean-coding-agent");
    assert_eq!(params.host.version, "3");
    assert_eq!(params.limits, Limits::default());
    let (_, params) = greeted(initialize_request("3".to_owned()));
    assert_eq!(params.host.name, "mycode");
}

#[test]
fn the_small_agent_takes_responses_alone() {
    let client = || PluginClient::accept_tools(vec![tool("read")]).expect("one tool");
    let progress = || {
        CallEvent::Received(PluginMessage::Progress(ProgressEnvelope {
            id: "call_1".to_owned(),
            progress: ToolProgress { stream: ToolOutputStream::Stdout, data: String::new() },
        }))
    };
    let mut small = client();
    let sent = classic::on_call_event(&mut small, "call_1", CallEvent::Sent);
    assert!(matches!(sent, CallStep::Read));
    let step = classic::on_call_event(&mut small, "call_1", progress());
    assert!(matches!(step, CallStep::Retire(PluginClientError::Transport)));
    assert!(!small.available);
    let mut main = client();
    assert!(matches!(main.on_call_event("call_1", progress()), CallStep::Show(_)));
    assert!(main.available);
    let mut small = client();
    let answer = CallEvent::Received(PluginMessage::Response(success("call_1")));
    let step = classic::on_call_event(&mut small, "call_1", answer);
    assert!(matches!(step, CallStep::Finish(Ok(_))));
    assert!(small.available);
}
