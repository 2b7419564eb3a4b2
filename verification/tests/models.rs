//! Models and their providers: requests, answers and their limits.
use mycode::anthropic::{anthropic_completion, anthropic_messages, anthropic_request};
use mycode::classic;
use mycode::exchange::{
    compaction_snapshot, complete, default_base_url, endpoint, omp_credential, request,
    response_payload, side_snapshot, summary_of, summary_system_prompt, take_chunk,
};
use mycode::json::{json_to_text, parse_json, parse_json_bytes, Json};
use mycode::protocol::ToolSpec;
use mycode::provider::{
    active_model_messages, openai_completion, openai_request, parse_openai_tool_calls,
    provider_input_tokens, rendered_system_prompt, Provider, ProviderError,
    MAX_PROVIDER_RESPONSE_BYTES,
};
use mycode::runtime::{auto_compact_threshold, compaction_cut, ModelCompletion};
use mycode::session::{
    startup_permission_mode, CoreCompactionState, CoreEvent, CoreMessage, CorePendingCompaction,
    CorePlanState, CoreSnapshot, CoreToolCall, PermissionMode,
};
use mycode::todo::{parse_todos_markdown, todos_to_markdown, CoreTodoItem, CoreTodoPhase};
use mycode::tools::{automatically_safe_tool_names, model_tool_catalogs};
use mycode::transcript::LocalTranscriptEntry;

fn json(source: &str) -> Json {
    parse_json(source).expect("fixture must parse")
}

fn message(role: &str, content: &str) -> CoreMessage {
    CoreMessage {
        role: role.to_owned(),
        content: content.to_owned(),
        ..CoreMessage::default()
    }
}

fn tool(name: &str) -> ToolSpec {
    ToolSpec { name: name.to_owned(), description: String::new(), input_schema: json("{}") }
}

fn text_at<'a>(value: &'a Json, name: &str) -> &'a str {
    value.get_str(name).expect("member must be a text")
}

#[test]
fn main_parses_complete_openai_function_calls() {
    let calls = json(
        "[{\"id\": \"call_1\", \"function\": {\"name\": \"read\", \"arguments\": \"{\\\"path\\\":\\\"Main.lean\\\"}\"}}]",
    );
    let parsed = parse_openai_tool_calls(calls.as_array().expect("array must exist"))
        .expect("function call must parse");
    assert_eq!(parsed[0].name, "read");
    assert_eq!(text_at(&parsed[0].arguments, "path"), "Main.lean");
}

#[test]
fn parses_complete_openai_function_calls() {
    let payload = json(
        "{\"choices\": [{\"message\": {\"tool_calls\": [{\"id\": \"call_1\", \"function\": {\"name\": \"read\", \"arguments\": \"{\\\"path\\\":\\\"Main.lean\\\"}\"}}]}}]}",
    );
    let completion = openai_completion(&payload).expect("function call must parse");
    assert_eq!(completion.tool_calls[0].name, "read");
    assert_eq!(text_at(&completion.tool_calls[0].arguments, "path"), "Main.lean");
}

#[test]
fn parses_provider_input_usage() {
    assert_eq!(
        provider_input_tokens(&json("{\"usage\": {\"prompt_tokens\": 1234}}"), "prompt_tokens"),
        1234
    );
    assert_eq!(
        provider_input_tokens(&json("{\"usage\": {\"input_tokens\": 5678}}"), "input_tokens"),
        5678
    );
    assert_eq!(provider_input_tokens(&json("{}"), "input_tokens"), 0);
}

#[test]
fn compacted_model_context_keeps_summary_and_recent_turns() {
    let snapshot = CoreSnapshot {
        messages: vec![
            message("user", "old request"),
            message("assistant", "old answer"),
            message("user", "recent request"),
            message("assistant", "recent answer"),
        ],
        compaction: CoreCompactionState {
            revision: 1,
            summary: "old decisions".to_owned(),
            first_kept_message: 2,
            ..CoreCompactionState::default()
        },
        ..CoreSnapshot::default()
    };
    let messages = active_model_messages(&snapshot);
    assert_eq!(messages.len(), 3);
    assert!(messages[0].content.contains("old decisions"));
    assert_eq!(messages[1].content, "recent request");
    assert_eq!(messages[2].content, "recent answer");
}

#[test]
fn compaction_cut_keeps_two_latest_user_turns() {
    let snapshot = CoreSnapshot {
        messages: ["one", "two", "three"]
            .into_iter()
            .flat_map(|content| [message("user", content), message("assistant", "answer")])
            .collect(),
        ..CoreSnapshot::default()
    };
    assert_eq!(compaction_cut(&snapshot), Some(2));
}

#[test]
fn classifies_provider_context_overflow() {
    let error = ProviderError::Status {
        status: 400,
        body: "maximum context length exceeded".to_owned(),
    };
    assert!(error.is_context_overflow());
    let other = ProviderError::Status { status: 400, body: "bad request".to_owned() };
    assert!(!other.is_context_overflow());
    assert!(!ProviderError::MissingCompletion.is_context_overflow());
}

#[test]
fn marks_read_and_grep_as_automatically_safe() {
    let tools = ["read", "grep", "write"].into_iter().map(tool).collect::<Vec<_>>();
    assert_eq!(
        automatically_safe_tool_names(&tools),
        vec!["read".to_owned(), "grep".to_owned()]
    );
}

#[test]
fn built_in_tools_have_separate_normal_and_plan_catalogues() {
    let plugin_tools = ["read", "write", "bash"].into_iter().map(tool).collect::<Vec<_>>();
    let catalogues = model_tool_catalogs(&plugin_tools);
    fn names(tools: &[ToolSpec]) -> Vec<&str> {
        tools.iter().map(|tool| tool.name.as_str()).collect()
    }

    assert_eq!(names(&catalogues.normal), vec!["read", "write", "bash", "todo"]);
    assert_eq!(names(&catalogues.plan), vec!["read", "bash", "todo", "plan"]);
    assert_eq!(names(&catalogues.declared), vec!["read", "write", "bash", "todo", "plan"]);
    let schema = json_to_text(&catalogues.declared[4].input_schema);
    assert_eq!(
        parse_json(&schema).expect("schema must parse").get("required").map(json_to_text),
        Some("[\"op\",\"content\"]".to_owned())
    );
}

#[test]
fn startup_permission_defaults_to_auto_and_preserves_restored_sessions() {
    let snapshot = CoreSnapshot {
        phase: "idle".to_owned(),
        permission_mode: "ask".to_owned(),
        ..CoreSnapshot::default()
    };
    assert_eq!(CoreSnapshot::default().permission_mode, "auto");
    assert_eq!(CoreEvent::new("abort").permission_mode, "auto");
    assert_eq!(auto_compact_threshold(128_000, 80), 102_400);

    assert_eq!(startup_permission_mode(true, None, &snapshot), PermissionMode::Ask);
    assert_eq!(startup_permission_mode(false, None, &snapshot), PermissionMode::Auto);
    assert_eq!(
        startup_permission_mode(true, Some(PermissionMode::Auto), &snapshot),
        PermissionMode::Auto
    );
}

#[test]
fn encodes_auto_permission_for_the_lean_core() {
    let event = CoreEvent::configure_tools(vec!["read".to_owned()], PermissionMode::Auto);
    assert_eq!(event.permission_mode, "auto");
    assert_eq!(event.safe_tools, vec!["read".to_owned()]);
}

#[test]
fn todo_markdown_round_trips_human_edits() {
    let phases = vec![CoreTodoPhase {
        name: "Implementation".to_owned(),
        tasks: vec![
            CoreTodoItem {
                content: "Add protocol".to_owned(),
                status: "in_progress".to_owned(),
                blocker: None,
            },
            CoreTodoItem {
                content: "Run smoke test".to_owned(),
                status: "blocked".to_owned(),
                blocker: Some("mock server unavailable".to_owned()),
            },
        ],
    }];
    let document = todos_to_markdown(&phases);
    assert_eq!(parse_todos_markdown(&document).expect("todo document must parse"), phases);
}

fn two_results() -> Vec<CoreMessage> {
    vec![
        CoreMessage {
            tool_call_id: Some("call_1".to_owned()),
            ..message("tool", "first")
        },
        CoreMessage {
            tool_call_id: Some("call_2".to_owned()),
            ..message("tool", "second")
        },
    ]
}

#[test]
fn groups_consecutive_anthropic_tool_results() {
    let mapped = anthropic_messages(&two_results());
    assert_eq!(mapped.len(), 1);
    let content = mapped[0].get("content").and_then(|value| value.as_array());
    assert_eq!(content.expect("content array").len(), 2);
}

#[test]
fn main_groups_consecutive_anthropic_tool_results() {
    let mapped = classic::anthropic_messages(&two_results());
    assert_eq!(mapped.len(), 1);
    let content = mapped[0].get("content").and_then(|value| value.as_array());
    assert_eq!(content.expect("content array").len(), 2);
}

#[test]
fn merges_anthropic_tool_results_before_steer_text() {
    let mapped = anthropic_messages(&vec![
        CoreMessage {
            tool_call_id: Some("call_1".to_owned()),
            ..message("tool", "first contents")
        },
        CoreMessage {
            tool_call_id: Some("call_2".to_owned()),
            is_error: true,
            ..message("tool", "skipped")
        },
        message("user", "Use the new plan"),
    ]);
    assert_eq!(mapped.len(), 1);
    let content = mapped[0]
        .get("content")
        .and_then(|value| value.as_array())
        .expect("Anthropic user content must use blocks");
    assert_eq!(content.len(), 3);
    assert_eq!(text_at(&content[0], "type"), "tool_result");
    assert_eq!(text_at(&content[1], "type"), "tool_result");
    assert_eq!(text_at(&content[2], "type"), "text");
    assert_eq!(text_at(&content[2], "text"), "Use the new plan");
}

#[test]
fn merges_consecutive_anthropic_user_instructions_as_text_blocks() {
    let mapped = anthropic_messages(&vec![
        message("user", "Original plan"),
        message("user", "Steered plan"),
    ]);
    assert_eq!(mapped.len(), 1);
    let content = mapped[0]
        .get("content")
        .and_then(|value| value.as_array())
        .expect("Anthropic user content must use blocks");
    assert_eq!(content.len(), 2);
    assert_eq!(text_at(&content[0], "text"), "Original plan");
    assert_eq!(text_at(&content[1], "text"), "Steered plan");
}

#[test]
fn the_small_agent_keeps_texts_apart() {
    let mapped = classic::anthropic_messages(&vec![message("user", "a"), message("user", "b")]);
    assert_eq!(mapped.len(), 2);
    assert_eq!(text_at(&mapped[1], "content"), "b");
}

#[test]
fn malformed_calls_are_told_apart() {
    let missing = json("[{\"function\": {\"name\": \"read\", \"arguments\": \"{}\"}}]");
    assert!(matches!(
        parse_openai_tool_calls(missing.as_array().expect("array")),
        Err(ProviderError::MissingCompletion)
    ));
    let no_text = json("[{\"id\": \"a\", \"function\": {\"name\": \"read\", \"arguments\": {}}}]");
    assert!(matches!(
        parse_openai_tool_calls(no_text.as_array().expect("array")),
        Err(ProviderError::InvalidToolArguments)
    ));
    let no_object =
        json("[{\"id\": \"a\", \"function\": {\"name\": \"read\", \"arguments\": \"[]\"}}]");
    assert!(matches!(
        parse_openai_tool_calls(no_object.as_array().expect("array")),
        Err(ProviderError::InvalidToolArguments)
    ));
    let no_json =
        json("[{\"id\": \"a\", \"function\": {\"name\": \"read\", \"arguments\": \"{\"}}]");
    assert!(matches!(
        parse_openai_tool_calls(no_json.as_array().expect("array")),
        Err(ProviderError::Json(_))
    ));
}

#[test]
fn an_openai_request_holds_the_conversation_and_the_tools() {
    let snapshot = CoreSnapshot {
        messages: vec![
            message("user", "hello"),
            CoreMessage {
                tool_calls: vec![CoreToolCall {
                    call_id: "c".to_owned(),
                    name: "read".to_owned(),
                    arguments: json("{\"path\": \"a\"}"),
                }],
                ..message("assistant", "")
            },
            CoreMessage { tool_call_id: Some("c".to_owned()), ..message("tool", "text") },
        ],
        ..CoreSnapshot::default()
    };
    let asked = openai_request("m", &snapshot, &vec![tool("read")], "prompt");
    let parsed = json(&json_to_text(&asked));
    let messages = parsed.get("messages").and_then(|value| value.as_array()).expect("messages");
    assert_eq!(messages.len(), 4);
    assert_eq!(text_at(&messages[0], "content"), "prompt");
    let calls = messages[2].get("tool_calls").and_then(|value| value.as_array()).expect("calls");
    assert_eq!(
        text_at(calls[0].get("function").expect("function"), "arguments"),
        "{\"path\":\"a\"}"
    );
    assert_eq!(text_at(&messages[3], "tool_call_id"), "c");
    assert_eq!(text_at(&parsed, "tool_choice"), "auto");
    let bare = openai_request("m", &snapshot, &vec![], "prompt");
    assert!(bare.get("tools").is_none());
}

#[test]
fn an_anthropic_request_bounds_the_answer() {
    let snapshot = CoreSnapshot {
        messages: vec![message("user", "hello")],
        ..CoreSnapshot::default()
    };
    let asked = anthropic_request("m", &snapshot, &vec![tool("read")], "prompt");
    assert_eq!(asked.get("max_tokens").and_then(|value| value.as_u64()), Some(4096));
    assert_eq!(text_at(&asked, "system"), "prompt");
    assert_eq!(
        asked.get("tools").and_then(|value| value.as_array()).map(|tools| tools.len()),
        Some(1)
    );
    let same = request(Provider::Anthropic, "m", &snapshot, &vec![tool("read")], "prompt");
    assert_eq!(json_to_text(&same), json_to_text(&asked));
}

#[test]
fn an_anthropic_answer_is_its_text_and_calls() {
    let payload = json(
        "{\"content\": [{\"type\": \"text\", \"text\": \"a\"}, {\"type\": \"thinking\"}, {\"type\": \"text\", \"text\": \"b\"}, {\"type\": \"tool_use\", \"id\": \"i\", \"name\": \"read\", \"input\": {\"path\": \"p\"}}], \"usage\": {\"input_tokens\": 7}}",
    );
    let completion = anthropic_completion(&payload).expect("answer must parse");
    assert_eq!(completion.content, "ab");
    assert_eq!(completion.tool_calls.len(), 1);
    assert_eq!(completion.input_tokens, 7);
    assert!(matches!(
        anthropic_completion(&json("{}")),
        Err(ProviderError::MissingCompletion)
    ));
    assert!(matches!(
        anthropic_completion(&json(
            "{\"content\": [{\"type\": \"tool_use\", \"id\": \"i\", \"name\": \"n\", \"input\": 1}]}"
        )),
        Err(ProviderError::InvalidToolArguments)
    ));
    assert!(matches!(
        anthropic_completion(&json("{\"content\": [{\"type\": \"tool_use\", \"id\": \"i\"}]}")),
        Err(ProviderError::MissingCompletion)
    ));
}

#[test]
fn undeclared_tools_are_refused() {
    let payload = json(
        "{\"content\": [{\"type\": \"tool_use\", \"id\": \"i\", \"name\": \"rm\", \"input\": {}}]}",
    );
    assert!(matches!(
        complete(Provider::Anthropic, &payload, &vec![tool("read")]),
        Err(ProviderError::UnknownTool)
    ));
    assert!(complete(Provider::Anthropic, &payload, &vec![tool("rm")]).is_ok());
}

#[test]
fn requests_go_to_the_provider() {
    assert_eq!(
        endpoint(Provider::Openai, "https://api.openai.com/v1//"),
        "https://api.openai.com/v1/chat/completions"
    );
    assert_eq!(endpoint(Provider::Anthropic, &default_base_url(Provider::Anthropic)),
        "https://api.anthropic.com/v1/messages");
    assert_eq!(endpoint(Provider::Linewise, &default_base_url(Provider::Linewise)),
        "https://llm.dev.linewise.io/v1/chat/completions");
    assert_eq!(endpoint(Provider::Openai, "/"), "/chat/completions");
}

#[test]
fn the_system_prompt_tells_the_plan_and_the_todos() {
    let snapshot = CoreSnapshot {
        plan: CorePlanState {
            enabled: true,
            revision: 4,
            status: "draft".to_owned(),
            content: "# P".to_owned(),
        },
        todos: vec![CoreTodoPhase {
            name: "N".to_owned(),
            tasks: vec![CoreTodoItem {
                content: "T".to_owned(),
                status: "blocked".to_owned(),
                blocker: Some("B".to_owned()),
            }],
        }],
        ..CoreSnapshot::default()
    };
    let prompt = rendered_system_prompt("base", &snapshot);
    assert!(prompt.starts_with("base\n\nUse the todo tool"));
    assert!(prompt.contains("PLAN MODE IS ACTIVE."));
    assert!(prompt.ends_with(
        "\n\nCurrent plan revision 4 (draft)\n# P\n\nCurrent todo state:\n## N\n- [blocked] T (B)"
    ));
}

#[test]
fn a_side_question_keeps_the_main_session() {
    let snapshot = CoreSnapshot {
        messages: vec![message("user", "main")],
        ..CoreSnapshot::default()
    };
    let entries = vec![LocalTranscriptEntry {
        question: "q1".to_owned(),
        answer: "a1".to_owned(),
    }];
    let side = side_snapshot(&snapshot, &entries, "q2");
    let contents = side.messages.iter().map(|m| m.content.as_str()).collect::<Vec<_>>();
    assert_eq!(contents[0], "main");
    assert!(contents[1].starts_with("[BTW sidechain."));
    assert_eq!(&contents[2..], ["q1", "a1", "q2"]);
    assert_eq!(side.messages[3].role, "assistant");
    assert_eq!(side.phase, snapshot.phase);
}

#[test]
fn a_summary_covers_what_is_compacted() {
    let mut snapshot = CoreSnapshot {
        messages: vec![message("user", "a"), message("assistant", "b"), message("user", "c")],
        ..CoreSnapshot::default()
    };
    assert!(matches!(compaction_snapshot(&snapshot), Err(ProviderError::MissingCompletion)));
    snapshot.compaction.summary = "earlier".to_owned();
    snapshot.compaction.pending = Some(CorePendingCompaction {
        first_kept_message: 2,
        instructions: Some("keep names".to_owned()),
        tokens_before: 1,
        automatic: false,
        continue_after: false,
    });
    let compact = compaction_snapshot(&snapshot).expect("there is something to compact");
    let contents = compact.messages.iter().map(|m| m.content.as_str()).collect::<Vec<_>>();
    assert_eq!(contents[0], "Previous compaction summary:\nearlier");
    assert_eq!(&contents[1..3], ["a", "b"]);
    assert!(contents[3].ends_with("\n\nAdditional instructions:\nkeep names"));
    assert_eq!(compact.compaction, CoreCompactionState::default());
    assert!(summary_system_prompt().starts_with("You produce bounded"));
}

#[test]
fn a_summary_says_something_and_calls_nothing() {
    let answer = |content: &str| ModelCompletion {
        content: content.to_owned(),
        tool_calls: vec![],
        input_tokens: 0,
    };
    assert_eq!(summary_of(answer(" s ")).expect("a summary"), " s ");
    assert!(matches!(summary_of(answer(" \n")), Err(ProviderError::MissingCompletion)));
    let calling = ModelCompletion {
        tool_calls: vec![CoreToolCall {
            call_id: "c".to_owned(),
            name: "read".to_owned(),
            arguments: json("{}"),
        }],
        ..answer("s")
    };
    assert!(matches!(summary_of(calling), Err(ProviderError::MissingCompletion)));
}

#[test]
fn responses_are_bounded_and_checked() {
    let mut body = vec![0_u8; MAX_PROVIDER_RESPONSE_BYTES - 1];
    assert!(take_chunk(&mut body, b"x").is_ok());
    assert!(matches!(
        take_chunk(&mut body, b"y"),
        Err(ProviderError::ResponseTooLarge { limit: MAX_PROVIDER_RESPONSE_BYTES })
    ));
    assert_eq!(body.len(), MAX_PROVIDER_RESPONSE_BYTES);
    let payload = response_payload(200, b"{\"a\": true}").expect("payload must parse");
    assert_eq!(payload.get("a").and_then(|value| value.as_bool()), Some(true));
    assert!(matches!(response_payload(299, b"{"), Err(ProviderError::Json(_))));
    match response_payload(404, b"no\xff") {
        Err(ProviderError::Status { status, body }) => {
            assert_eq!(status, 404);
            assert_eq!(body, "no\u{fffd}");
        }
        _ => panic!("a failed status must be reported"),
    }
}

#[test]
fn credentials_are_trimmed_text() {
    assert_eq!(omp_credential(true, b" key\n".to_vec(), b"").expect("a credential"), "key");
    assert!(matches!(
        omp_credential(true, b" \n".to_vec(), b""),
        Err(ProviderError::EmptyOmpToken)
    ));
    assert!(matches!(
        omp_credential(true, b"\xff".to_vec(), b""),
        Err(ProviderError::OmpTokenEncoding)
    ));
    match omp_credential(false, b"key".to_vec(), b" denied \n") {
        Err(ProviderError::OmpTokenRejected { message }) => assert_eq!(message, "denied"),
        _ => panic!("a failed command must be rejected"),
    }
}

#[test]
fn json_text_is_read_back() {
    let source = "{\"b\":[1,-2,1.5,null,true],\"a\":\"x\\n\"}";
    let value = json(source);
    assert_eq!(parse_json(&json_to_text(&value)).expect("text must parse"), value);
    assert_eq!(parse_json_bytes(source.as_bytes()).expect("bytes must parse"), value);
    assert!(parse_json("{").is_err());
    assert_eq!(value.get_str("a"), Some("x\n"));
}

#[test]
fn accepted_todos_are_trimmed() {
    let phases = parse_todos_markdown("##   Build  \n- [!]  link   <!-- blocker:  no linker  -->\n")
        .expect("todo document must parse");
    assert_eq!(phases[0].name, "Build");
    assert_eq!(phases[0].tasks[0].content, "link");
    assert_eq!(phases[0].tasks[0].status, "blocked");
    assert_eq!(phases[0].tasks[0].blocker.as_deref(), Some("no linker"));
    assert!(parse_todos_markdown("## Build\n- [!] link <!-- blocker:   -->\n").is_err());
}

#[test]
fn a_refused_document_names_its_first_bad_line() {
    let error = parse_todos_markdown("## A\n- [ ] one\nwrong\n- [ ] one\n")
        .expect_err("the third line is no task");
    assert_eq!(error.line, 3);
}
