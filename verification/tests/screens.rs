//! Frames, selections and scrolling.
use mycode::app::{App, MouseEvent, MouseEventKind, TranscriptLayoutCache};
use mycode::classic;
use mycode::frame::{
    body_sizes, draw, frame_sizes, header_line, status_line, todo_panel_lines, AreaSize, FrameBody,
    FrameContent, MENU_TITLE, PLAN_TITLE, TODOS_TITLE,
};
use mycode::json::parse_json;
use mycode::selection::{
    is_pure_box_border, text_between_columns, MouseAction, Rect, SelectionPoint, SelectionRegion,
    TextSelection,
};
use mycode::session::{
    CoreCompactionState, CoreMessage, CorePlanState, CoreSnapshot, CoreToolCall,
};
use mycode::style::{color_error, color_muted, span, Line, Style};
use mycode::todo::{CoreTodoItem, CoreTodoPhase};

fn shown(line: &Line) -> String {
    line.spans.iter().map(|span| span.content.as_str()).collect()
}

fn rendered(lines: &[Line]) -> String {
    lines.iter().map(shown).collect::<Vec<_>>().join("\n")
}

fn area(width: u16, height: u16) -> Rect {
    Rect { x: 0, y: 0, width, height }
}

/// All that a frame shows.
fn screen(content: &FrameContent) -> String {
    let mut parts = vec![shown(&content.header)];
    match &content.body {
        FrameBody::Plan(lines) => {
            parts.push(PLAN_TITLE.to_owned());
            parts.push(rendered(lines));
        }
        FrameBody::Transcript { lines, .. } => parts.push(rendered(lines)),
    }
    if let Some((_, lines)) = &content.todos {
        parts.push(TODOS_TITLE.to_owned());
        parts.push(rendered(lines));
    }
    if let Some(lines) = &content.candidates {
        parts.push(MENU_TITLE.to_owned());
        parts.push(rendered(lines));
    }
    parts.push(content.input_title.clone());
    parts.push(content.input_rows.join("\n"));
    parts.push(shown(&content.status));
    parts.join("\n")
}

#[test]
fn draw_places_terminal_cursor_at_input_buffer_cursor() {
    let mut app = App::new(CoreSnapshot::default());
    app.set_input("abcdef".to_owned());
    app.input.move_left();
    app.input.move_left();
    let content = draw(&mut app, area(40, 12));
    assert_eq!(content.cursor, Some((5, 9)));
}

#[test]
fn slash_candidate_menu_renders_command_usage_and_help() {
    let mut app = App::new(CoreSnapshot::default());
    app.set_input("/".to_owned());
    let screen = screen(&draw(&mut app, area(100, 30)));
    for expected in [
        "Slash commands",
        "Tab complete",
        "/btw <question>",
        "Ask outside the main conversation",
        "/exit",
        "Exit MyCode cleanly",
        "/steer <instruction>",
        "Redirect the active main task",
    ] {
        assert!(screen.contains(expected), "candidate menu must contain {expected:?}");
    }
}

#[test]
fn refreshed_layout_renders_semantic_message_hierarchy() {
    let snapshot = CoreSnapshot {
        phase: "idle".to_owned(),
        messages: vec![
            CoreMessage {
                role: "user".to_owned(),
                content: "Inspect the repository".to_owned(),
                ..CoreMessage::default()
            },
            CoreMessage {
                role: "assistant".to_owned(),
                tool_calls: vec![CoreToolCall {
                    call_id: "call_1".to_owned(),
                    name: "bash".to_owned(),
                    arguments: parse_json("{\"command\": \"git status --short\"}")
                        .expect("fixture must parse"),
                }],
                ..CoreMessage::default()
            },
            CoreMessage {
                role: "tool".to_owned(),
                content: "M Cargo.toml".to_owned(),
                tool_call_id: Some("call_1".to_owned()),
                ..CoreMessage::default()
            },
        ],
        safe_tools: vec!["read".to_owned(), "git_read".to_owned()],
        ..CoreSnapshot::default()
    };
    let mut app = App::new(snapshot);
    let screen = screen(&draw(&mut app, area(100, 30)));
    for expected in [
        "mycode",
        "> Inspect the repository",
        "└─ bash  git status --short",
        "└ Tool result",
        "Message · Enter send",
        "Ready · pending 0 · todos 0 · context 0 · compact r0 · steer 0 · safe 2",
    ] {
        assert!(screen.contains(expected), "screen must contain {expected:?}");
    }
    assert!(!screen.contains("You"));
    assert!(!screen.contains("Assistant"));
}

#[test]
fn mouse_selection_overlay_highlights_transcript_cells() {
    let snapshot = CoreSnapshot {
        messages: vec![CoreMessage {
            role: "assistant".to_owned(),
            content: "selectable transcript".to_owned(),
            ..CoreMessage::default()
        }],
        ..CoreSnapshot::default()
    };
    let mut app = App::new(snapshot);
    let _ = draw(&mut app, area(80, 20));
    let region = app.selection_region.expect("transcript must be selectable");
    app.text_selection = Some(TextSelection {
        anchor: SelectionPoint { row: region.top, column: region.left },
        focus: SelectionPoint { row: region.top, column: region.left + 2 },
        dragging: false,
    });

    let content = draw(&mut app, area(80, 20));
    let FrameBody::Transcript { selection: Some((selection, within)), .. } = content.body else {
        panic!("selected transcript frame must draw the selection");
    };
    for column in region.left..=region.left + 2 {
        let point = SelectionPoint { row: region.top, column };
        assert!(selection.contains(point) && within.contains(point));
    }
    assert!(!selection.contains(SelectionPoint { row: region.top, column: region.left + 3 }));
}

fn mouse(kind: MouseEventKind, column: u16, row: u16) -> MouseEvent {
    MouseEvent { kind, column, row, control: false }
}

#[test]
fn mouse_drag_copies_selected_transcript_text() {
    let mut app = App::new(CoreSnapshot::default());
    app.selection_region = Some(SelectionRegion { left: 2, top: 4, right: 14, bottom: 7 });
    app.selection_lines = vec![
        "│ alpha beta  │".to_owned(),
        "│ gamma delta │".to_owned(),
        "│ third       │".to_owned(),
    ];

    let down = mouse(MouseEventKind::LeftDown, 4, 4);
    assert_eq!(app.handle_mouse_at(down, 0), MouseAction::Redraw);
    let drag = mouse(MouseEventKind::LeftDrag, 8, 5);
    assert_eq!(app.handle_mouse_at(drag, 1), MouseAction::Redraw);
    let up = mouse(MouseEventKind::LeftUp, 8, 5);
    assert_eq!(
        app.handle_mouse_at(up, 2),
        MouseAction::Copy("alpha beta\ngamma".to_owned())
    );
    assert!(!app.text_selection.expect("selection must remain").dragging);
}

#[test]
fn click_inside_transcript_does_not_copy_text() {
    let mut app = App::new(CoreSnapshot::default());
    app.selection_region = Some(SelectionRegion { left: 2, top: 4, right: 14, bottom: 7 });
    app.selection_lines = vec!["│ alpha beta │".to_owned()];
    let down = mouse(MouseEventKind::LeftDown, 4, 4);
    let up = mouse(MouseEventKind::LeftUp, 4, 4);

    assert_eq!(app.handle_mouse_at(down, 0), MouseAction::Redraw);
    assert_eq!(app.handle_mouse_at(up, 1), MouseAction::Redraw);
    assert!(app.text_selection.is_none());
}

#[test]
fn double_click_selects_word_control_double_click_selects_line_and_triple_click_selects_paragraph() {
    let millis: u64 = 1_000_000;
    let mut app = App::new(CoreSnapshot::default());
    app.selection_region = Some(SelectionRegion { left: 2, top: 4, right: 24, bottom: 7 });
    app.selection_lines = vec!["│ alpha beta gamma  │".to_owned()];
    let point = mouse(MouseEventKind::LeftDown, 10, 4);
    let release = mouse(MouseEventKind::LeftUp, 10, 4);
    let start: u64 = 5_000 * millis;

    assert_eq!(app.handle_mouse_at(point, start), MouseAction::Redraw);
    assert_eq!(app.handle_mouse_at(release, start + 10 * millis), MouseAction::Redraw);
    assert_eq!(app.handle_mouse_at(point, start + 100 * millis), MouseAction::Redraw);
    assert_eq!(
        app.handle_mouse_at(release, start + 110 * millis),
        MouseAction::Copy("beta".to_owned())
    );

    let mut line_app = App::new(CoreSnapshot::default());
    line_app.selection_region = app.selection_region;
    line_app.selection_lines = app.selection_lines.clone();
    assert_eq!(line_app.handle_mouse_at(point, start), MouseAction::Redraw);
    assert_eq!(line_app.handle_mouse_at(release, start + 10 * millis), MouseAction::Redraw);
    let control_point = MouseEvent { control: true, ..point };
    let control_release = MouseEvent { control: true, ..release };
    assert_eq!(
        line_app.handle_mouse_at(control_point, start + 100 * millis),
        MouseAction::Redraw
    );
    assert_eq!(
        line_app.handle_mouse_at(control_release, start + 110 * millis),
        MouseAction::Copy("alpha beta gamma".to_owned())
    );
    let mut paragraph_app = App::new(CoreSnapshot::default());
    paragraph_app.selection_region =
        Some(SelectionRegion { left: 2, top: 4, right: 24, bottom: 10 });
    paragraph_app.selection_lines = vec![
        "╭────────────────────╮".to_owned(),
        "│ alpha beta         │".to_owned(),
        "│ gamma delta        │".to_owned(),
        "╰────────────────────╯".to_owned(),
        String::new(),
        "│ other paragraph    │".to_owned(),
    ];
    let paragraph_point = mouse(MouseEventKind::LeftDown, 4, 5);
    let paragraph_release = mouse(MouseEventKind::LeftUp, 4, 5);
    assert_eq!(paragraph_app.handle_mouse_at(paragraph_point, start), MouseAction::Redraw);
    assert_eq!(
        paragraph_app.handle_mouse_at(paragraph_release, start + 10 * millis),
        MouseAction::Redraw
    );
    assert_eq!(
        paragraph_app.handle_mouse_at(paragraph_point, start + 100 * millis),
        MouseAction::Redraw
    );
    assert_eq!(
        paragraph_app.handle_mouse_at(paragraph_release, start + 110 * millis),
        MouseAction::Copy("alpha".to_owned())
    );
    assert_eq!(
        paragraph_app.handle_mouse_at(paragraph_point, start + 200 * millis),
        MouseAction::Redraw
    );
    assert_eq!(
        paragraph_app.handle_mouse_at(paragraph_release, start + 210 * millis),
        MouseAction::Copy("alpha beta\ngamma delta".to_owned())
    );
}

#[test]
fn selection_extracts_wide_and_combining_characters() {
    assert_eq!(text_between_columns("a界b", 1, 3), "界");
    assert_eq!(text_between_columns("a界b", 2, 3), "界");
    assert_eq!(text_between_columns("e\u{301}x", 0, 1), "e\u{301}");
}

#[test]
fn mouse_wheel_only_scrolls_over_transcript() {
    let mut app = App::new(CoreSnapshot::default());
    app.max_scroll = 20;
    app.scroll_offset = 20;
    app.selection_region = Some(SelectionRegion { left: 1, top: 2, right: 20, bottom: 12 });

    let inside = mouse(MouseEventKind::ScrollUp, 3, 5);
    let MouseAction::Scroll(delta) = app.handle_mouse_at(inside, 0) else {
        panic!("wheel over transcript must request scrolling");
    };
    app.scroll_delta(delta);
    assert_eq!(app.scroll_offset, 19);

    let outside = mouse(MouseEventKind::ScrollUp, 3, 15);
    assert_eq!(app.handle_mouse_at(outside, 1), MouseAction::Ignore);
    assert_eq!(app.scroll_offset, 19);
}

#[test]
fn plan_review_renders_plan_and_todo_state() {
    let snapshot = CoreSnapshot {
        phase: "waiting_plan_review".to_owned(),
        plan: CorePlanState {
            enabled: true,
            revision: 3,
            status: "review".to_owned(),
            content: "# Storage plan\n\nUse bounded migration batches.".to_owned(),
        },
        todos: vec![CoreTodoPhase {
            name: "Migration".to_owned(),
            tasks: vec![CoreTodoItem {
                content: "Verify rollback".to_owned(),
                status: "pending".to_owned(),
                blocker: None,
            }],
        }],
        ..CoreSnapshot::default()
    };
    let mut app = App::new(snapshot);
    app.plan_review = true;
    let screen = screen(&draw(&mut app, area(110, 30)));
    for expected in [
        "Plan review · y approve · r refine · e edit · n cancel",
        "Storage plan",
        "Use bounded migration batches.",
        "Migration",
        "Verify rollback",
    ] {
        assert!(screen.contains(expected), "screen must contain {expected:?}");
    }
}

#[test]
fn scroll_navigation_leaves_and_restores_tail_following() {
    let mut app = App::new(CoreSnapshot::default());
    app.max_scroll = 20;
    app.page_rows = 6;
    app.scroll_offset = 20;

    app.scroll_up(1);
    assert_eq!(app.scroll_offset, 19);
    assert!(!app.follow_tail);

    app.page_up();
    assert_eq!(app.scroll_offset, 14);

    app.page_down();
    app.scroll_down(1);
    assert_eq!(app.scroll_offset, 20);
    assert!(app.follow_tail);

    app.scroll_home();
    assert_eq!(app.scroll_offset, 0);
    assert!(!app.follow_tail);
    app.scroll_end();
    assert_eq!(app.scroll_offset, 20);
    assert!(app.follow_tail);
}

#[test]
fn padded_transcript_counts_the_rendered_wrap_width() {
    let snapshot = CoreSnapshot {
        messages: vec![
            CoreMessage {
                role: "assistant".to_owned(),
                content: "12345678901234567".to_owned(),
                ..CoreMessage::default()
            },
            CoreMessage {
                role: "assistant".to_owned(),
                content: "tail".to_owned(),
                ..CoreMessage::default()
            },
        ],
        ..CoreSnapshot::default()
    };
    let mut app = App::new(snapshot);
    let _ = draw(&mut app, area(20, 10));

    let rendered_lines = 5_usize;
    assert_eq!(app.max_scroll, rendered_lines.saturating_sub(app.page_rows));
    assert_eq!(app.scroll_offset, app.max_scroll);
    assert!(app.follow_tail);
}

#[test]
fn drawing_follows_tail_until_user_scrolls_up() {
    let snapshot = CoreSnapshot {
        messages: (0..24)
            .map(|index| CoreMessage {
                role: if index % 2 == 0 { "user" } else { "assistant" }.to_owned(),
                content: format!("message {index}: {}", "wrapped content ".repeat(5)),
                ..CoreMessage::default()
            })
            .collect(),
        ..CoreSnapshot::default()
    };
    let mut app = App::new(snapshot);

    let _ = draw(&mut app, area(40, 12));
    let initial_max = app.max_scroll;
    assert!(initial_max > 0);
    assert_eq!(app.scroll_offset, initial_max);
    let initial_cache = app
        .transcript_layout
        .as_ref()
        .expect("initial draw must build the transcript cache");
    let initial_revision = initial_cache.revision;
    let initial_lines = initial_cache.lines.as_ptr();

    app.scroll_up(1);
    let _ = draw(&mut app, area(40, 12));
    let scrolled_cache = app
        .transcript_layout
        .as_ref()
        .expect("scrolling must retain the transcript cache");
    assert_eq!(scrolled_cache.revision, initial_revision);
    assert_eq!(scrolled_cache.lines.as_ptr(), initial_lines);

    app.scroll_up(3);
    let pinned_offset = app.scroll_offset;
    let mut updated = app.snapshot.clone();
    updated.messages.push(CoreMessage {
        role: "assistant".to_owned(),
        content: "new tail content".repeat(8),
        ..CoreMessage::default()
    });
    app.set_snapshot(updated);
    assert!(app.transcript_layout.is_none());
    let _ = draw(&mut app, area(40, 12));
    assert!(app.max_scroll > initial_max);
    assert_eq!(app.scroll_offset, pinned_offset);
    assert_ne!(
        app.transcript_layout
            .as_ref()
            .expect("message append must rebuild the transcript cache")
            .revision,
        initial_revision
    );

    app.scroll_end();
    let _ = draw(&mut app, area(40, 12));
    assert_eq!(app.scroll_offset, app.max_scroll);
    assert!(app.follow_tail);
}

#[test]
fn tail_following_supports_more_than_u16_rows() {
    let mut app = App::new(CoreSnapshot::default());
    app.transcript_layout = Some(TranscriptLayoutCache {
        revision: app.transcript_revision,
        width: 80,
        lines: (0..70_000).map(|_| Line::blank()).collect(),
    });
    let visible = app.visible_transcript(80, 20);
    assert_eq!(visible.len(), 20);
    assert_eq!(app.max_scroll, 69_980);
    assert_eq!(app.scroll_offset, 69_980);
}

#[test]
fn a_frame_is_divided_by_what_is_typed() {
    let mut app = App::new(CoreSnapshot::default());
    assert_eq!(
        frame_sizes(&app, area(80, 24)),
        vec![
            AreaSize::Exactly(1),
            AreaSize::AtLeast(4),
            AreaSize::Exactly(0),
            AreaSize::Exactly(3),
            AreaSize::Exactly(1),
        ]
    );
    app.set_input("/".to_owned());
    assert_eq!(frame_sizes(&app, area(80, 24))[2], AreaSize::Exactly(8));
    assert_eq!(frame_sizes(&app, area(80, 13))[2], AreaSize::Exactly(4));
    assert_eq!(frame_sizes(&app, area(80, 11))[2], AreaSize::Exactly(0));
    assert_eq!(
        body_sizes(area(90, 10)),
        vec![AreaSize::AtLeast(40), AreaSize::Exactly(30)]
    );
    assert_eq!(body_sizes(area(300, 10))[1], AreaSize::Exactly(40));
    assert_eq!(body_sizes(area(60, 10))[1], AreaSize::Exactly(26));
}

#[test]
fn the_parts_of_a_frame_fill_it() {
    let mut app = App::new(CoreSnapshot::default());
    let content = draw(&mut app, area(80, 24));
    assert_eq!(content.areas.header, Rect { x: 0, y: 0, width: 80, height: 1 });
    assert_eq!(content.areas.transcript, Rect { x: 0, y: 1, width: 80, height: 19 });
    assert_eq!(content.areas.input, Rect { x: 0, y: 20, width: 80, height: 3 });
    assert_eq!(content.areas.status, Rect { x: 0, y: 23, width: 80, height: 1 });
    assert_eq!(content.body_area, content.areas.transcript);
    assert!(content.todos.is_none());
    assert!(content.candidates.is_none());
}

#[test]
fn the_header_tells_of_plans_and_compactions() {
    let snapshot = CoreSnapshot {
        phase: "waiting_model".to_owned(),
        plan: CorePlanState {
            enabled: false,
            revision: 7,
            status: "draft".to_owned(),
            content: String::new(),
        },
        compaction: CoreCompactionState { revision: 2, ..CoreCompactionState::default() },
        ..CoreSnapshot::default()
    };
    let line = header_line(&snapshot);
    assert_eq!(shown(&line), " mycode   waiting_model  plan r7 · draft  compact r2");
    assert_eq!(line.spans[3].style.fg, Some(color_muted()));
}

#[test]
fn the_status_line_shows_errors_and_scrolling() {
    let mut app = App::new(CoreSnapshot::default());
    app.status = "core failed".to_owned();
    app.max_scroll = 9;
    app.scroll_offset = 4;
    let line = status_line(&app);
    assert_eq!(line.spans[0].style.fg, Some(color_error()));
    assert!(shown(&line).ends_with(" · view 4/9 · Ctrl+O expand details"));
}

#[test]
fn the_todo_panel_marks_every_status() {
    let statuses = ["in_progress", "completed", "abandoned", "blocked", "pending"];
    let snapshot = CoreSnapshot {
        todos: vec![CoreTodoPhase {
            name: "Phase".to_owned(),
            tasks: statuses
                .iter()
                .map(|status| CoreTodoItem {
                    content: "task".to_owned(),
                    status: (*status).to_owned(),
                    blocker: if *status == "blocked" { Some("why".to_owned()) } else { None },
                })
                .collect(),
        }],
        ..CoreSnapshot::default()
    };
    assert_eq!(
        rendered(&todo_panel_lines(&snapshot, 40)),
        "Phase\n[>] task\n[x] task\n[-] task\n[!] task\n    blocked: why\n[ ] task\n"
    );
    assert_eq!(
        rendered(&todo_panel_lines(&CoreSnapshot::default(), 40)),
        "No todos. Run /todo or let the agent create them."
    );
}

#[test]
fn a_selection_is_the_same_from_both_ends() {
    let a = SelectionPoint { row: 1, column: 5 };
    let b = SelectionPoint { row: 2, column: 3 };
    let forward = TextSelection { anchor: a, focus: b, dragging: false };
    let backward = TextSelection { anchor: b, focus: a, dragging: false };
    assert_eq!(forward.ordered(), backward.ordered());
    for row in 0..4 {
        for column in 0..8 {
            let point = SelectionPoint { row, column };
            assert_eq!(forward.contains(point), backward.contains(point));
        }
    }
    assert!(is_pure_box_border("╭──╮"));
    assert!(!is_pure_box_border("│ a │"));
}

#[test]
fn a_frame_fills_its_screen() {
    let mut app = App::new(CoreSnapshot {
        todos: vec![CoreTodoPhase { name: "Phase".to_owned(), tasks: vec![] }],
        ..CoreSnapshot::default()
    });
    for (width, height) in [(90, 24), (100, 9), (200, 60)] {
        let whole = Rect { x: 3, y: 2, width, height };
        let content = draw(&mut app, whole);
        let areas = content.areas;
        assert_eq!(areas.header, Rect { x: 3, y: 2, width, height: 1 });
        assert_eq!(areas.transcript, Rect { x: 3, y: 3, width, height: height - 5 });
        assert_eq!(areas.candidates, Rect { x: 3, y: height - 2, width, height: 0 });
        assert_eq!(areas.input, Rect { x: 3, y: height - 2, width, height: 3 });
        assert_eq!(areas.status, Rect { x: 3, y: height + 1, width, height: 1 });
        let sidebar = (width / 3).clamp(26, 40);
        let (place, _) = content.todos.expect("the todo list has room");
        assert_eq!(content.body_area, Rect { width: width - sidebar, ..areas.transcript });
        assert_eq!(
            place,
            Rect { x: 3 + width - sidebar, width: sidebar, ..areas.transcript }
        );
    }
}

#[test]
fn the_rows_of_a_small_frame_fill_its_screen() {
    let app = classic::App::new(classic::CoreSnapshot {
        phase: "idle".to_owned(),
        messages: vec![],
        pending_calls: vec![],
        current_call: 0,
        safe_tools: vec![],
    });
    let content = classic::draw(&app, Rect { x: 1, y: 0, width: 30, height: 12 });
    assert_eq!(content.header_area, Rect { x: 1, y: 0, width: 30, height: 1 });
    assert_eq!(content.transcript_area, Rect { x: 1, y: 1, width: 30, height: 7 });
    assert_eq!(content.input_area, Rect { x: 1, y: 8, width: 30, height: 3 });
    assert_eq!(content.status_area, Rect { x: 1, y: 11, width: 30, height: 1 });
}

#[test]
fn selectable_lines_hold_no_line_feeds() {
    let mut app = App::new(CoreSnapshot::default());
    let lines = vec![
        Line::of_spans(vec![
            span("git\r\nlog\n", Style::plain()),
            span(" \rend\r", Style::plain()),
        ]),
        Line::of_text("\n\n", Style::plain()),
        Line::of_text("plain", Style::plain()),
    ];
    app.update_selection_content(None, &lines);
    assert_eq!(app.selection_lines, vec!["gitlog \rend\r", "", "plain"]);

    app.start_live_tool("c1".to_owned(), "git commit -m \"a\nb\"".to_owned());
    let _ = draw(&mut app, area(60, 20));
    assert!(app.selection_lines.iter().any(|line| line.contains("git commit -m \"ab\"")));
    assert!(app.selection_lines.iter().all(|line| !line.contains('\n')));
}

#[test]
fn zeros_of_either_sign_are_the_same_message() {
    let snapshot = |arguments: &str| CoreSnapshot {
        messages: vec![CoreMessage {
            tool_calls: vec![CoreToolCall {
                call_id: "c1".to_owned(),
                name: "read".to_owned(),
                arguments: parse_json(arguments).expect("fixture must parse"),
            }],
            ..CoreMessage::plain("assistant", "text".to_owned())
        }],
        ..CoreSnapshot::default()
    };
    let mut app = App::new(snapshot(r#"{"n": [0.0]}"#));
    let revision = app.transcript_revision;
    app.set_snapshot(snapshot(r#"{"n": [-0.0]}"#));
    assert_eq!(app.transcript_revision, revision);
    app.set_snapshot(snapshot(r#"{"n": [-0]}"#));
    assert_eq!(app.transcript_revision, revision);
    app.set_snapshot(snapshot(r#"{"n": [0]}"#));
    assert_ne!(app.transcript_revision, revision);
    let revision = app.transcript_revision;
    app.set_snapshot(snapshot(r#"{"n": [0.5]}"#));
    assert_ne!(app.transcript_revision, revision);
}

#[test]
fn a_frame_stays_on_its_screen() {
    let mut app = App::new(CoreSnapshot {
        todos: vec![CoreTodoPhase { name: "Phase".to_owned(), tasks: vec![] }],
        ..CoreSnapshot::default()
    });
    let small = classic::App::new(classic::CoreSnapshot {
        phase: "idle".to_owned(),
        messages: vec![],
        pending_calls: vec![],
        current_call: 0,
        safe_tools: vec![],
    });
    for text in ["", "/", "one\ntwo\nthree\nfour"] {
        app.set_input(text.to_owned());
        for height in 0..14 {
            for width in [0, 1, 30, 72, 120] {
                let whole = Rect { x: 2, y: 5, width, height };
                let content = draw(&mut app, whole);
                let areas = content.areas;
                let rows =
                    [areas.header, areas.transcript, areas.candidates, areas.input, areas.status];
                let mut end = whole.y;
                for row in rows {
                    assert!(row.y >= end, "{whole:?}: {rows:?}");
                    assert_eq!((row.x, row.width), (whole.x, whole.width));
                    end = row.y + row.height;
                }
                assert!(end <= whole.y + whole.height);
                let mut right = content.body_area.x + content.body_area.width;
                if let Some((place, _)) = &content.todos {
                    assert!(place.x >= right);
                    right = place.x + place.width;
                }
                assert!(right <= whole.x + whole.width);

                let content = classic::draw(&small, whole);
                let mut end = whole.y;
                for row in [
                    content.header_area,
                    content.transcript_area,
                    content.input_area,
                    content.status_area,
                ] {
                    assert!(row.y >= end);
                    end = row.y + row.height;
                }
                assert!(end <= whole.y + whole.height);
            }
        }
    }
}
