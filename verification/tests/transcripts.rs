//! The transcript: what tools, messages and files look like.
use mycode::app::{App, TranscriptLayoutCache};
use mycode::json::{parse_json, Json};
use mycode::protocol::ToolOutputStream;
use mycode::session::{CoreMessage, CoreSnapshot, CoreToolCall};
use mycode::style::{
    color_accent, color_assistant_background, color_file_background, color_grep_background,
    color_muted, color_user_background, Line,
};
use mycode::transcript::{
    build_live_tool_lines, build_transcript_lines, transcript_content_parts,
    LiveToolOutput, LocalTranscriptEntry, TranscriptContentPart,
};

fn json(source: &str) -> Json {
    parse_json(source).expect("fixture must parse")
}

fn call(id: &str, name: &str, arguments: &str) -> CoreToolCall {
    CoreToolCall { call_id: id.to_owned(), name: name.to_owned(), arguments: json(arguments) }
}

fn shown(line: &Line) -> String {
    line.spans.iter().map(|span| span.content.as_str()).collect()
}

fn rendered(lines: &[Line]) -> String {
    lines.iter().map(shown).collect::<Vec<_>>().join("\n")
}

#[test]
fn tool_summaries_hide_todo_json_and_show_file_paths() {
    let todo = call("todo", "todo", "{\"op\": \"done\", \"task\": \"secret details\"}");
    assert_eq!(todo.transcript_summary(), "todo  update task list");
    assert!(!todo.transcript_summary().contains("secret details"));

    let edit = call("edit", "edit", "{\"path\": \"src/main.rs\", \"oldText\": \"secret\"}");
    assert!(edit.transcript_summary().contains("✎ src/main.rs"));

    let grep = call(
        "grep",
        "grep",
        "{\"pattern\": \"fn main\", \"path\": \"src\", \"caseSensitive\": false, \"maxResults\": 10}",
    );
    assert_eq!(grep.transcript_summary(), "grep  🔎 /fn main/  src · ignore case");
    assert!(!grep.transcript_summary().contains("maxResults"));
}

#[test]
fn read_results_use_black_code_blocks_and_todo_results_are_summarized() {
    let messages = vec![
        CoreMessage {
            role: "assistant".to_owned(),
            tool_calls: vec![
                call("read", "read", "{\"path\": \"src/main.rs\"}"),
                call("todo", "todo", "{\"op\": \"done\", \"task\": \"hidden\"}"),
            ],
            ..CoreMessage::default()
        },
        CoreMessage {
            role: "tool".to_owned(),
            tool_call_id: Some("read".to_owned()),
            content: "fn main() {}".to_owned(),
            ..CoreMessage::default()
        },
        CoreMessage {
            role: "tool".to_owned(),
            tool_call_id: Some("todo".to_owned()),
            content: "{\"todos\": [\"hidden\"]}".to_owned(),
            ..CoreMessage::default()
        },
    ];
    let lines = build_transcript_lines(&messages, &vec![], 80, true);
    let read_line = lines
        .iter()
        .find(|line| shown(line).contains("fn main"))
        .expect("read output must render");
    assert_eq!(read_line.style.bg, Some(color_file_background()));
    let screen = rendered(&lines);
    assert!(screen.contains("📄 src/main.rs"));
    assert!(screen.contains("✓ task list updated"));
    assert!(!screen.contains("hidden"));
}

#[test]
fn grep_results_use_search_blocks_and_hide_raw_arguments() {
    let messages = vec![
        CoreMessage {
            role: "assistant".to_owned(),
            tool_calls: vec![call(
                "grep",
                "grep",
                "{\"pattern\": \"fn main\", \"path\": \"src\", \"caseSensitive\": false, \"maxResults\": 10}",
            )],
            ..CoreMessage::default()
        },
        CoreMessage {
            role: "tool".to_owned(),
            tool_call_id: Some("grep".to_owned()),
            content: "src/main.rs:1:fn main() {}".to_owned(),
            ..CoreMessage::default()
        },
    ];
    let lines = build_transcript_lines(&messages, &vec![], 80, true);
    let screen = rendered(&lines);
    let match_line = lines
        .iter()
        .find(|line| shown(line).contains("src/main.rs:1"))
        .expect("grep result must render");
    assert_eq!(match_line.style.bg, Some(color_grep_background()));
    assert!(screen.contains("🔎 /fn main/  src · ignore case"));
    assert!(screen.contains("└ Search results"));
    assert!(screen.contains("  • src/main.rs:1:fn main() {}"));
    assert!(!screen.contains("maxResults"));
    assert!(!screen.contains("caseSensitive"));
}

#[test]
fn cached_layout_preserves_multiline_indent_and_tool_styles() {
    let lines = build_transcript_lines(
        &vec![
            CoreMessage {
                role: "tool".to_owned(),
                content: "first\nsecond".to_owned(),
                ..CoreMessage::default()
            },
            CoreMessage {
                role: "assistant".to_owned(),
                tool_calls: vec![call("call_1", "bash", "{\"command\": \"git status --short\"}")],
                ..CoreMessage::default()
            },
        ],
        &vec![],
        80,
        true,
    );
    let first_line = lines
        .iter()
        .map(shown)
        .find(|line| line.contains("first"))
        .expect("first content line must be present");
    let second_line = lines
        .iter()
        .map(shown)
        .find(|line| line.contains("second"))
        .expect("second content line must be present");
    assert!(first_line.starts_with("│   first"));
    assert!(first_line.ends_with('│'));
    assert!(second_line.starts_with("│   second"));
    assert!(second_line.ends_with('│'));
    let tool_line = lines
        .iter()
        .find(|line| shown(line).contains("git status --short"))
        .expect("tool line must be present");
    assert_eq!(tool_line.spans[2].style.fg, Some(color_muted()));
    assert_eq!(tool_line.spans[3].style.fg, Some(color_accent()));
    assert_eq!(tool_line.spans[4].style.fg, Some(color_muted()));
}

#[test]
fn human_messages_are_compact_and_only_code_and_tools_have_borders() {
    let lines = build_transcript_lines(
        &vec![
            CoreMessage {
                role: "user".to_owned(),
                content: "request".to_owned(),
                ..CoreMessage::default()
            },
            CoreMessage {
                role: "assistant".to_owned(),
                content: "answer\n```rust\nfn main() {}\n```\ndone".to_owned(),
                tool_calls: vec![call("call_1", "bash", "{\"command\": \"git status --short\"}")],
                ..CoreMessage::default()
            },
            CoreMessage {
                role: "tool".to_owned(),
                content: "result".to_owned(),
                tool_call_id: Some("call_1".to_owned()),
                ..CoreMessage::default()
            },
        ],
        &vec![],
        48,
        true,
    );
    let all = lines.iter().map(shown).collect::<Vec<_>>();
    let user = lines
        .iter()
        .find(|line| shown(line).starts_with("> request"))
        .expect("compact user message must be present");
    let assistant = lines
        .iter()
        .find(|line| shown(line).starts_with("· answer"))
        .expect("compact assistant message must be present");

    assert_eq!(user.style.bg, Some(color_user_background()));
    assert_eq!(assistant.style.bg, Some(color_assistant_background()));
    assert!(!all.iter().any(|line| line.contains("You")));
    assert!(!all.iter().any(|line| line.contains("Assistant")));
    assert!(all.iter().any(|line| line.starts_with("│ fn main() {}")));
    assert!(all.iter().any(|line| line.contains("git status --short")));
    assert!(all.iter().any(|line| line.contains("└ Tool result")));
    assert_eq!(all.iter().filter(|line| line.starts_with('╭')).count(), 3);
}

#[test]
fn transcript_blocks_have_one_blank_line_between_them() {
    let lines = build_transcript_lines(
        &vec![
            CoreMessage {
                role: "user".to_owned(),
                content: "request".to_owned(),
                ..CoreMessage::default()
            },
            CoreMessage {
                role: "assistant".to_owned(),
                content: "answer".to_owned(),
                ..CoreMessage::default()
            },
        ],
        &vec![],
        32,
        true,
    );

    assert_eq!(lines.len(), 4);
    assert!(shown(&lines[0]).starts_with("> request"));
    assert!(lines[1].spans.is_empty());
    assert!(shown(&lines[2]).starts_with("· answer"));
    assert!(lines[3].spans.is_empty());
}

#[test]
fn folds_long_commands_until_details_are_expanded() {
    let arguments = format!("{{\"command\": \"{}\"}}", "x".repeat(160));
    let messages = vec![CoreMessage {
        role: "assistant".to_owned(),
        tool_calls: vec![call("call_long", "bash", &arguments)],
        ..CoreMessage::default()
    }];
    let collapsed = build_transcript_lines(&messages, &vec![], 32, false);
    let expanded = build_transcript_lines(&messages, &vec![], 32, true);
    assert!(collapsed.iter().any(|line| shown(line).contains("command lines hidden")));
    assert!(!expanded.iter().any(|line| shown(line).contains("command lines hidden")));
    assert!(expanded.len() > collapsed.len());
}

#[test]
fn folds_long_file_results_until_details_are_expanded() {
    let messages = vec![
        CoreMessage {
            role: "assistant".to_owned(),
            tool_calls: vec![call("call_read", "read", "{\"path\": \"large.txt\"}")],
            ..CoreMessage::default()
        },
        CoreMessage {
            role: "tool".to_owned(),
            tool_call_id: Some("call_read".to_owned()),
            content: (0..16).map(|index| format!("line {index}")).collect::<Vec<_>>().join("\n"),
            ..CoreMessage::default()
        },
    ];
    let collapsed = build_transcript_lines(&messages, &vec![], 80, false);
    let expanded = build_transcript_lines(&messages, &vec![], 80, true);
    assert!(collapsed.iter().any(|line| shown(line).contains("└ File result")));
    assert!(collapsed.iter().any(|line| shown(line).contains("file output lines hidden")));
    assert!(!expanded.iter().any(|line| shown(line).contains("file output lines hidden")));
    assert!(expanded.len() > collapsed.len());
}

#[test]
fn folded_command_results_show_latest_tail() {
    let messages = vec![
        CoreMessage {
            role: "assistant".to_owned(),
            tool_calls: vec![call("call_bash", "bash", "{\"command\": \"long command\"}")],
            ..CoreMessage::default()
        },
        CoreMessage {
            role: "tool".to_owned(),
            tool_call_id: Some("call_bash".to_owned()),
            content: format!(
                "{}\n[stderr]\n{}",
                (0..8).map(|index| format!("stdout line {index}")).collect::<Vec<_>>().join("\n"),
                (0..8).map(|index| format!("stderr line {index}")).collect::<Vec<_>>().join("\n")
            ),
            ..CoreMessage::default()
        },
    ];
    let collapsed = rendered(&build_transcript_lines(&messages, &vec![], 80, false));
    assert!(collapsed.contains("stdout tail"));
    assert!(collapsed.contains("stderr tail"));
    assert!(collapsed.contains("stdout line 7"));
    assert!(collapsed.contains("stderr line 7"));
    assert!(!collapsed.contains("stdout line 0"));
    assert!(!collapsed.contains("stderr line 0"));
}

#[test]
fn live_command_collapsed_view_shows_latest_stdout_and_stderr() {
    let mut live = LiveToolOutput::new("call_live".to_owned(), "bash".to_owned());
    live.append(
        ToolOutputStream::Stdout,
        b"stdout one\nstdout two\nstdout three\nstdout four\nstdout five\n",
    );
    live.append(
        ToolOutputStream::Stderr,
        b"stderr one\nstderr two\nstderr three\nstderr four\nstderr five\n",
    );
    let collapsed = rendered(&build_live_tool_lines(&live, 80, false));
    assert!(collapsed.contains("stdout tail"));
    assert!(collapsed.contains("stderr tail"));
    assert!(!collapsed.contains("stdout one"));
    assert!(collapsed.contains("stdout five"));
    assert!(!collapsed.contains("stderr one"));
    assert!(collapsed.contains("stderr five"));

    let expanded = rendered(&build_live_tool_lines(&live, 80, true));
    assert!(expanded.contains("stdout one"));
    assert!(expanded.contains("stderr one"));
}

#[test]
fn displays_original_command_for_lowered_git_calls() {
    let git = call(
        "call_git",
        "git_write",
        "{\"operation\": \"add\", \"arguments\": [\"Main.lean\"], \"command\": \"git add -- Main.lean\"}",
    );
    assert_eq!(git.display_label(), "git add -- Main.lean");
}

#[test]
fn local_btw_entry_invalidates_layout_without_mutating_snapshot() {
    let snapshot = CoreSnapshot {
        messages: vec![CoreMessage {
            role: "user".to_owned(),
            content: "main task".to_owned(),
            ..CoreMessage::default()
        }],
        ..CoreSnapshot::default()
    };
    let mut app = App::new(snapshot.clone());
    app.transcript_layout = Some(TranscriptLayoutCache {
        revision: app.transcript_revision,
        width: 80,
        lines: vec![Line::blank()],
    });
    let revision = app.transcript_revision;
    app.push_local_entry(LocalTranscriptEntry {
        question: "side question".to_owned(),
        answer: "side answer".to_owned(),
    });
    assert_eq!(app.snapshot.messages, snapshot.messages);
    assert_eq!(app.snapshot.pending_calls, snapshot.pending_calls);
    assert_eq!(app.snapshot.phase, snapshot.phase);
    assert_eq!(app.transcript_revision, revision.wrapping_add(1));
    assert!(app.transcript_layout.is_none());
    let screen = rendered(&app.visible_transcript(80, 20));
    assert!(screen.contains("> BTW · side question"));
    assert!(screen.contains("· side answer"));
    assert!(!screen.contains("◇ BTW sidechain"));
}

#[test]
fn content_is_parted_into_prose_and_code() {
    let parts = transcript_content_parts("before\n```\ncode\n```\nafter");
    assert_eq!(parts.len(), 3);
    assert!(matches!(&parts[1], TranscriptContentPart::Code(_)));
}

#[test]
fn live_output_keeps_the_newest_bytes() {
    let mut live = LiveToolOutput::new("call".to_owned(), "bash".to_owned());
    live.append(ToolOutputStream::Stdout, &vec![b'a'; 300_000]);
    live.append(ToolOutputStream::Stdout, b"end");
    assert_eq!(live.stdout.len(), 262_144);
    assert!(live.stdout.ends_with(b"aend"));
    assert!(live.stderr.is_empty());
}
