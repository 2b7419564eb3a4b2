//! Sessions at work: what drives them, where side questions are kept, and the small agent.
use mycode::classic;
use mycode::classic_drive;
use mycode::json::{json_to_text, parse_json, Json};
use mycode::keys::{KeyCode, KeyEvent};
use mycode::protocol::{ToolOutputStream, ToolProgress};
use mycode::app::App;
use mycode::runtime::{
    approval_prompt, should_auto_compact, Drive, DriveEvent, DriveRequest, DriveSettings,
    RuntimeFinal, RuntimeUpdate,
};
use mycode::selection::Rect;
use mycode::session::{
    accept_core_response, active_pending_call, CoreCompactionState, CoreEffect, CoreMessage,
    CoreReplyError, CoreResponse, CoreSnapshot, CoreToolCall, PermissionMode,
};
use mycode::shell::{on_key_action, on_start, on_update, ShellRequest};
use mycode::keys::KeyAction;
use mycode::sidechain::{
    btw_sidechain_path, btw_sidechain_place, check_sidechain_size, edited_file_name, edited_text,
    file_of_json, stable_path_hash, take_sidechain_piece, temporary_name, temporary_name_with,
    BtwSidechainStore, EditError, SidechainError, SidechainPlace, MAX_BTW_SIDECHAIN_BYTES,
    MAX_EDITOR_BYTES,
};
use mycode::text;
use mycode::transcript::LocalTranscriptEntry;

fn json(source: &str) -> Json {
    parse_json(source).expect("fixture must parse")
}

fn call(name: &str) -> CoreToolCall {
    CoreToolCall { call_id: "c1".to_owned(), name: name.to_owned(), arguments: json("{}") }
}

fn effect(kind: &str, call: Option<CoreToolCall>) -> CoreEffect {
    CoreEffect { kind: kind.to_owned(), call }
}

fn settings() -> DriveSettings {
    DriveSettings {
        auto_compact_enabled: true,
        auto_compact_threshold: 100,
        safe_tools: vec!["read".to_owned()],
        permission_mode: PermissionMode::Auto,
    }
}

fn reply(phase: &str, effects: Vec<CoreEffect>) -> CoreResponse {
    CoreResponse {
        version: 4,
        request_id: "r".to_owned(),
        ok: true,
        snapshot: CoreSnapshot { phase: phase.to_owned(), ..CoreSnapshot::default() },
        effects,
        error: None,
    }
}

#[test]
fn a_turn_asks_the_model_and_settles() {
    let (drive, step) = Drive::start(
        reply("waiting_model", vec![effect("request_model", None)]),
        settings(),
    );
    assert_eq!(step.request, DriveRequest::CheckCancel);
    assert_eq!(step.updates.len(), 1);
    let (drive, step) = drive.advance(DriveEvent::CancelChecked(false));
    assert_eq!(step.request, DriveRequest::AskModel { plan_mode: false });
    let completion = mycode::runtime::ModelCompletion {
        content: "done".to_owned(),
        tool_calls: vec![],
        input_tokens: 3,
    };
    let (drive, step) = drive.advance(DriveEvent::ModelDone(completion));
    match step.request {
        DriveRequest::Send(event) => {
            assert_eq!(event.kind, "model_completed");
            assert_eq!(event.content, Some("done".to_owned()));
            assert_eq!(event.input_tokens, 3);
        }
        _ => panic!("the core must be told the answer"),
    }
    let (drive, step) = drive.advance(DriveEvent::Replied(reply("idle", vec![])));
    assert_eq!(step.request, DriveRequest::PollSteer);
    let (_, step) = drive.advance(DriveEvent::SteerPolled(None));
    match step.request {
        DriveRequest::Finish(end) => assert_eq!(end.status, "Ready"),
        _ => panic!("the action must end"),
    }
}

#[test]
fn a_tool_runs_where_the_core_asks_for_it() {
    let (drive, _) = Drive::start(
        reply("waiting_tool", vec![effect("invoke_tool", Some(call("bash")))]),
        settings(),
    );
    let (drive, step) = drive.advance(DriveEvent::CancelChecked(false));
    assert_eq!(step.request, DriveRequest::RunTool(call("bash")));
    let (drive, step) = drive.advance(DriveEvent::ToolDone(Err("broken".to_owned())));
    assert!(step.updates.iter().any(|update| matches!(update, RuntimeUpdate::ToolFinished { .. })));
    match step.request {
        DriveRequest::Send(event) => {
            assert_eq!(event.kind, "tool_completed");
            assert_eq!(event.is_error, Some(true));
        }
        _ => panic!("the core must be told the result"),
    }
    let (_, step) = drive.advance(DriveEvent::Retired);
    assert!(matches!(step.request, DriveRequest::Fail(_)));
}

#[test]
fn a_cancelled_action_retires_the_plugins() {
    let (drive, _) = Drive::start(
        reply("waiting_model", vec![effect("request_model", None)]),
        settings(),
    );
    let (drive, step) = drive.advance(DriveEvent::CancelChecked(true));
    assert_eq!(step.request, DriveRequest::RetirePlugins);
    let (drive, step) = drive.advance(DriveEvent::Retired);
    match step.request {
        DriveRequest::Send(event) => assert_eq!(event.kind, "abort"),
        _ => panic!("the core must be told"),
    }
    let (_, step) = drive.advance(DriveEvent::Replied(reply("idle", vec![])));
    match step.request {
        DriveRequest::Finish(end) => assert_eq!(end.status, "Cancelled"),
        _ => panic!("the action must end"),
    }
}

#[test]
fn unknown_effects_fail() {
    let (drive, _) = Drive::start(reply("idle", vec![effect("dance", None)]), settings());
    let (_, step) = drive.advance(DriveEvent::CancelChecked(false));
    assert!(matches!(step.request, DriveRequest::Fail(_)));
    let (drive, _) = Drive::start(reply("idle", vec![effect("invoke_tool", None)]), settings());
    let (_, step) = drive.advance(DriveEvent::CancelChecked(false));
    assert!(matches!(step.request, DriveRequest::Fail(_)));
}

#[test]
fn long_conversations_are_compacted() {
    let mut snapshot = CoreSnapshot {
        messages: ["a", "b", "c"]
            .into_iter()
            .map(|content| CoreMessage {
                role: "user".to_owned(),
                content: content.to_owned(),
                ..CoreMessage::default()
            })
            .collect(),
        ..CoreSnapshot::default()
    };
    assert!(!should_auto_compact(&settings(), &snapshot));
    snapshot.compaction =
        CoreCompactionState { last_input_tokens: 100, ..CoreCompactionState::default() };
    assert!(should_auto_compact(&settings(), &snapshot));
}

#[test]
fn replies_of_the_core_are_checked() {
    assert!(accept_core_response(reply("idle", vec![]), "r").is_ok());
    assert!(matches!(
        accept_core_response(reply("idle", vec![]), "s"),
        Err(CoreReplyError::CorrelationMismatch)
    ));
    let old = CoreResponse { version: 3, ..reply("idle", vec![]) };
    assert!(matches!(accept_core_response(old, "r"), Err(CoreReplyError::VersionMismatch(3))));
    let refused = CoreResponse { ok: false, ..reply("idle", vec![]) };
    match accept_core_response(refused, "r") {
        Err(CoreReplyError::Rejected(error)) => assert_eq!(error, "unknown core error"),
        _ => panic!("a refusal must be reported"),
    }
    assert!(active_pending_call(&CoreSnapshot::default()).is_none());
    assert!(approval_prompt(&call("write")).contains("write"));
}

#[test]
fn one_action_runs_at_a_time() {
    let mut app = App::new(CoreSnapshot { phase: "idle".to_owned(), ..CoreSnapshot::default() });
    let spawned = on_key_action(&mut app, KeyAction::Submit("go".to_owned()), false);
    assert!(matches!(spawned, ShellRequest::Spawn(_)));
    assert!(app.busy);
    let refused = on_key_action(&mut app, KeyAction::Submit("more".to_owned()), true);
    assert!(!matches!(refused, ShellRequest::Spawn(_)));
}

#[test]
fn live_output_is_decoded() {
    let mut app = App::new(CoreSnapshot::default());
    app.start_live_tool("c".to_owned(), "bash".to_owned());
    let piece = |data: &str| ToolProgress {
        stream: ToolOutputStream::Stdout,
        data: data.to_owned(),
    };
    app.append_live_progress("c", piece("aGk=")).expect("piece must decode");
    assert_eq!(app.live_tool.as_ref().map(|live| live.stdout.clone()), Some(b"hi".to_vec()));
    assert!(app.append_live_progress("c", piece("*")).is_err());
    let update = RuntimeUpdate::Settled(RuntimeFinal {
        snapshot: CoreSnapshot::default(),
        status: "Ready".to_owned(),
        approval: None,
        plan_review: false,
        local_entry: None,
    });
    on_update(&mut app, update).expect("news must be taken");
    assert!(!app.busy);
}

#[test]
fn btw_sidechain_persists_and_recovers_independently() {
    let first = LocalTranscriptEntry {
        question: "first question".to_owned(),
        answer: "first answer".to_owned(),
    };
    let second = LocalTranscriptEntry {
        question: "follow-up".to_owned(),
        answer: "follow-up answer".to_owned(),
    };
    let mut store = BtwSidechainStore::new();
    store.append(first.clone());
    store.settle(true);
    store.append(second.clone());
    store.settle(true);

    let written = json_to_text(&store.file_json());
    let read = parse_json(&written).expect("the file is JSON");
    let (version, entries) = file_of_json(&read).expect("the file has its form");
    let recovered =
        BtwSidechainStore::load(version, entries).expect("persisted sidechain must reload");
    assert_eq!(recovered.entries, vec![first, second]);
}

#[test]
fn only_the_form_of_a_file_is_taken() {
    let mut store = BtwSidechainStore::new();
    let entry = LocalTranscriptEntry { question: "q \"1\"".to_owned(), answer: "a".to_owned() };
    store.append(entry.clone());
    store.settle(true);
    assert_eq!(file_of_json(&store.file_json()), Some((1, vec![entry.clone()])));
    store.append(LocalTranscriptEntry { question: "lost".to_owned(), answer: "b".to_owned() });
    store.settle(false);
    assert_eq!(file_of_json(&store.file_json()), Some((1, vec![entry])));
    let taken = |text: &str| file_of_json(&parse_json(text).expect("JSON"));
    assert_eq!(taken(r#"{"entries":[],"version":7}"#), Some((7, vec![])));
    assert_eq!(taken(r#"{"entries":[],"version":1,"more":0}"#), None);
    assert_eq!(taken(r#"{"entries":[{"question":"q"}],"version":1}"#), None);
    assert_eq!(taken(r#"{"entries":[],"version":4294967296}"#), None);
    assert_eq!(taken(r#"{"version":1}"#), None);
    assert_eq!(taken("[]"), None);
}

#[test]
fn session_sidechain_uses_a_separate_sidecar_path() {
    assert_eq!(
        btw_sidechain_place(None, Some(b"sessions/main.json"), None, None),
        Ok(SidechainPlace::At(b"sessions/main.json.btw.json".to_vec()))
    );
}

#[test]
fn side_questions_have_a_place() {
    assert_eq!(
        btw_sidechain_place(Some(b"/c"), Some(b"/s"), Some(b"/p"), Some(b"/h")),
        Ok(SidechainPlace::At(b"/c".to_vec()))
    );
    assert_eq!(
        btw_sidechain_place(None, None, Some(b"/p"), Some(b"/h")),
        Ok(SidechainPlace::UnderHome(b"/p".to_vec()))
    );
    assert_eq!(
        btw_sidechain_place(None, None, None, Some(b"/h")),
        Ok(SidechainPlace::UnderHome(b"/h/.mycode".to_vec()))
    );
    assert_eq!(
        btw_sidechain_place(None, None, None, None),
        Err(SidechainError::MissingHomeDirectory)
    );
    assert_eq!(stable_path_hash(b""), 0xcbf2_9ce4_8422_2325);
    assert_eq!(stable_path_hash(b"a"), 0xaf63_dc4c_8601_ec8c);
    assert_eq!(
        btw_sidechain_path(b"/p", b"a"),
        b"/p/sidechains/af63dc4c8601ec8c.json".to_vec()
    );
}

#[test]
fn an_unwritten_side_question_is_dropped() {
    let entry = || LocalTranscriptEntry { question: "q".to_owned(), answer: "a".to_owned() };
    let mut store = BtwSidechainStore::new();
    store.append(entry());
    store.settle(false);
    assert!(store.entries.is_empty());
    assert!(matches!(
        BtwSidechainStore::load(2, vec![]),
        Err(SidechainError::Version { version: 2 })
    ));
    let mut bytes = vec![0; MAX_BTW_SIDECHAIN_BYTES];
    assert_eq!(
        take_sidechain_piece(&mut bytes, b"x"),
        Err(SidechainError::TooLarge { limit: MAX_BTW_SIDECHAIN_BYTES })
    );
    assert!(check_sidechain_size(MAX_BTW_SIDECHAIN_BYTES).is_ok());
    assert!(check_sidechain_size(MAX_BTW_SIDECHAIN_BYTES + 1).is_err());
}

#[test]
fn temporary_names_are_fresh() {
    assert_eq!(temporary_name_with(Some("a.json"), "id"), ".a.json.id.tmp");
    assert_eq!(temporary_name_with(None, "id"), ".btw-sidechain.id.tmp");
    assert_ne!(temporary_name(None), temporary_name(None));
    assert!(edited_file_name("todos").starts_with("mycode-"));
    assert!(edited_file_name("todos").ends_with("-todos.md"));
}

#[test]
fn edited_text_is_checked() {
    assert_eq!(edited_text(true, b"ok".to_vec()), Ok("ok".to_owned()));
    assert_eq!(edited_text(false, b"ok".to_vec()), Err(EditError::EditorFailed));
    assert_eq!(edited_text(true, vec![0xff]), Err(EditError::Encoding));
    assert_eq!(
        edited_text(true, vec![b'a'; MAX_EDITOR_BYTES + 1]),
        Err(EditError::TooLarge { limit: MAX_EDITOR_BYTES })
    );
}

#[test]
fn white_space_is_that_of_the_standard_library() {
    for code in 0..=0x10_ffff_u32 {
        if let Some(c) = char::from_u32(code) {
            assert_eq!(text::is_whitespace(c), c.is_whitespace());
        }
    }
}

#[test]
fn text_helpers_agree_with_the_standard_library() {
    for sample in ["", " a b\n", "x\r\ny\n", "\u{3000}é\t", "a/b//c", "aab"] {
        assert_eq!(text::trim(sample), sample.trim());
        assert_eq!(text::lines(sample), sample.lines().collect::<Vec<_>>());
        assert_eq!(text::split_by(sample, '/'), sample.split('/').collect::<Vec<_>>());
        assert_eq!(text::to_lower(sample), sample.to_ascii_lowercase());
        assert_eq!(text::contains(sample, "ab"), sample.contains("ab"));
        assert_eq!(text::byte_len(sample), sample.len());
    }
    assert_eq!(text::number(0), "0");
    assert_eq!(text::number(u64::MAX), u64::MAX.to_string());
}

fn small_snapshot(phase: &str) -> classic::CoreSnapshot {
    classic::CoreSnapshot {
        phase: phase.to_owned(),
        messages: vec![],
        pending_calls: vec![],
        current_call: 0,
        safe_tools: vec![],
    }
}

fn small_reply(phase: &str, effects: Vec<CoreEffect>) -> classic::CoreResponse {
    classic::CoreResponse {
        version: 1,
        request_id: "r".to_owned(),
        ok: true,
        snapshot: small_snapshot(phase),
        effects,
        error: None,
    }
}

#[test]
fn the_small_agent_runs_a_tool() {
    let (drive, step) = classic_drive::Drive::start(small_reply(
        "waiting_tool",
        vec![effect("invoke_tool", Some(call("bash")))],
    ));
    assert_eq!(step.request, classic_drive::DriveRequest::CheckCancel);
    let (drive, step) = drive.advance(classic_drive::DriveEvent::CancelChecked(false));
    assert_eq!(step.request, classic_drive::DriveRequest::EnsurePlugin);
    let (drive, step) = drive.advance(classic_drive::DriveEvent::PluginReady);
    assert_eq!(step.request, classic_drive::DriveRequest::RunTool(call("bash")));
    let (drive, step) =
        drive.advance(classic_drive::DriveEvent::ToolFailed("broken".to_owned()));
    match step.request {
        classic_drive::DriveRequest::Send(event) => {
            assert_eq!(event.content, Some("Plugin execution failed: broken".to_owned()));
            assert_eq!(event.is_error, Some(true));
        }
        _ => panic!("the core must be told"),
    }
    let (_, step) =
        drive.advance(classic_drive::DriveEvent::Replied(small_reply("idle", vec![])));
    match step.request {
        classic_drive::DriveRequest::Finish(end) => assert_eq!(end.status, "Ready"),
        _ => panic!("the action must end"),
    }
}

#[test]
fn the_small_agent_asks_for_approval() {
    let (drive, _) = classic_drive::Drive::start(small_reply(
        "waiting_approval",
        vec![effect("request_approval", Some(call("write")))],
    ));
    let (_, step) = drive.advance(classic_drive::DriveEvent::CancelChecked(false));
    match step.request {
        classic_drive::DriveRequest::Finish(end) => {
            assert_eq!(end.status, "Approve write? [y]es / [n]o");
            assert_eq!(end.approval, Some(call("write")));
        }
        _ => panic!("the person must be asked"),
    }
}

#[test]
fn the_small_agent_takes_a_session_up() {
    let started = |phase: &str, prompt: Option<&str>| {
        classic::start_session(
            &small_snapshot(phase),
            vec!["read".to_owned()],
            prompt.map(|text| text.to_owned()),
        )
    };
    assert!(matches!(
        started("idle", Some("go")),
        Ok(classic::Startup::Configure { prompt: Some(_), .. })
    ));
    assert!(matches!(started("waiting_model", None), Ok(classic::Startup::Resume(_))));
    assert!(matches!(
        started("waiting_model", Some("go")),
        Err(classic::StartError::PromptWhileResuming { .. })
    ));
    assert!(matches!(
        started("waiting_tool", None),
        Err(classic::StartError::MissingPendingTool { .. })
    ));
    assert!(matches!(
        started("dancing", None),
        Err(classic::StartError::UnsupportedSessionPhase { .. })
    ));
    let mut working = small_snapshot("waiting_tool");
    working.pending_calls = vec![call("bash")];
    match classic::start_session(&working, vec![], None) {
        Ok(classic::Startup::Interrupted(event)) => assert_eq!(event.is_error, Some(true)),
        _ => panic!("the tool must not be run again"),
    }
}

#[test]
fn the_small_agent_edits_and_draws() {
    let mut app = classic::App::new(small_snapshot("idle"));
    let key = |code: KeyCode| KeyEvent { code, control: false, alt: false };
    for c in "hé".chars() {
        assert_eq!(
            classic::handle_key(key(KeyCode::Char(c)), &mut app),
            classic::KeyAction::Ignore
        );
    }
    assert_eq!(
        classic::handle_key(key(KeyCode::Backspace), &mut app),
        classic::KeyAction::Ignore
    );
    assert_eq!(
        classic::handle_key(key(KeyCode::Enter), &mut app),
        classic::KeyAction::Submit("h".to_owned())
    );
    assert!(app.input.is_empty());
    app.snapshot.messages = vec![CoreMessage {
        role: "tool".to_owned(),
        content: "a\nb".to_owned(),
        is_error: true,
        ..CoreMessage::default()
    }];
    let frame = classic::draw(&app, Rect { x: 0, y: 0, width: 40, height: 10 });
    assert_eq!(
        frame.header,
        "Lean Coding Agent · phase: idle · pending: 0 · active: 0 · safe tools: 0"
    );
    assert_eq!(frame.input_title, "Prompt");
    assert_eq!(frame.transcript[0].spans[0].content, "TOOL: ");
    assert_eq!(frame.transcript[1].spans.len(), 2);
    assert_eq!(frame.transcript_area.height, 5);
    app.approval = Some(call("write"));
    assert_eq!(
        classic::handle_key(key(KeyCode::Char('y')), &mut app),
        classic::KeyAction::Approval { call_id: "c1".to_owned(), approved: true }
    );
}

#[test]
fn replies_to_the_small_agent_are_checked() {
    assert!(classic::accept_core_response(small_reply("idle", vec![]), "r").is_ok());
    let newer = classic::CoreResponse { version: 4, ..small_reply("idle", vec![]) };
    assert!(matches!(
        classic::accept_core_response(newer, "r"),
        Err(CoreReplyError::VersionMismatch(4))
    ));
}

#[test]
fn an_action_can_begin_before_any_key() {
    let mut app = App::new(CoreSnapshot::default());
    on_start(&mut app);
    assert!(app.busy);
    assert_eq!(app.status, "Starting…");
    let mut small = classic::App::new(small_snapshot("idle"));
    classic::on_start(&mut small);
    assert!(small.busy);
    assert_eq!(small.status, "Starting…");
}
