//! Typing, keys and the menu of commands.
use mycode::app::{App, TranscriptLayoutCache};
use mycode::input::{InputBuffer, InputClass, InputLayout, input_class};
use mycode::json::parse_json;
use mycode::keys::{handle_key, KeyAction, KeyCode, KeyEvent, PlanReviewAction};
use mycode::session::{CorePlanState, CoreSnapshot, CoreToolCall};
use mycode::slash::{
    parse_submission, slash_command_candidates, slash_command_prefix, SlashCommand,
    SlashCommandError, UserSubmission,
};
use mycode::style::Line;

fn plain(code: KeyCode) -> KeyEvent {
    KeyEvent { code, control: false, alt: false }
}

fn alt(code: KeyCode) -> KeyEvent {
    KeyEvent { code, control: false, alt: true }
}

fn control(code: KeyCode) -> KeyEvent {
    KeyEvent { code, control: true, alt: false }
}

#[test]
fn input_buffer_edits_at_unicode_grapheme_boundaries() {
    let mut input = InputBuffer::default();
    input.set_text("a界e\u{301}".to_owned());
    assert_eq!(input.cursor, input.as_str().len());

    input.move_left();
    assert_eq!(input.cursor, "a界".len());
    input.insert('X');
    assert_eq!(input.as_str(), "a界Xe\u{301}");
    assert!(input.backspace());
    assert_eq!(input.as_str(), "a界e\u{301}");
    input.move_left();
    assert!(input.delete());
    assert_eq!(input.as_str(), "ae\u{301}");
}

#[test]
fn input_buffer_moves_and_deletes_by_code_word() {
    let mut input = InputBuffer::default();
    input.set_text("alpha_beta  中文 :: gamma".to_owned());

    input.move_word_left();
    assert_eq!(input.cursor, input.as_str().rfind("gamma").expect("gamma must exist"));
    input.move_word_left();
    assert_eq!(input.cursor, input.as_str().find("::").expect("separator must exist"));
    input.move_word_left();
    assert_eq!(input.cursor, input.as_str().find("中文").expect("word must exist"));
    input.move_start();
    input.move_word_right();
    assert_eq!(input.cursor, "alpha_beta".len());
    input.move_end();
    assert!(input.delete_word_left());
    assert_eq!(input.as_str(), "alpha_beta  中文 :: ");
}

#[test]
fn cursor_keybindings_insert_and_delete_away_from_the_tail() {
    let mut app = App::new(CoreSnapshot::default());
    app.set_input("one two".to_owned());
    app.max_scroll = 20;
    app.scroll_offset = 20;

    let _ = handle_key(alt(KeyCode::Left), &mut app);
    assert_eq!(app.input.cursor, "one ".len());
    let _ = handle_key(plain(KeyCode::Char('X')), &mut app);
    assert_eq!(app.input.as_str(), "one Xtwo");
    let _ = handle_key(plain(KeyCode::Home), &mut app);
    assert_eq!(app.input.cursor, 0);
    assert_eq!(app.scroll_offset, 20);
    let _ = handle_key(plain(KeyCode::Delete), &mut app);
    assert_eq!(app.input.as_str(), "ne Xtwo");
    let _ = handle_key(plain(KeyCode::End), &mut app);
    let _ = handle_key(control(KeyCode::Char('w')), &mut app);
    assert_eq!(app.input.as_str(), "ne ");
}

#[test]
fn alt_and_control_navigation_shortcuts_move_the_cursor() {
    let mut app = App::new(CoreSnapshot::default());
    app.set_input("one two".to_owned());

    let _ = handle_key(alt(KeyCode::Char('b')), &mut app);
    assert_eq!(app.input.cursor, "one ".len());
    let _ = handle_key(alt(KeyCode::Char('f')), &mut app);
    assert_eq!(app.input.cursor, app.input.as_str().len());
    let _ = handle_key(control(KeyCode::Char('b')), &mut app);
    assert_eq!(app.input.cursor, "one tw".len());
    let _ = handle_key(control(KeyCode::Char('f')), &mut app);
    assert_eq!(app.input.cursor, app.input.as_str().len());
    let _ = handle_key(control(KeyCode::Left), &mut app);
    assert_eq!(app.input.cursor, "one ".len());
    let _ = handle_key(control(KeyCode::Right), &mut app);
    assert_eq!(app.input.cursor, app.input.as_str().len());
    let _ = handle_key(control(KeyCode::Char('a')), &mut app);
    assert_eq!(app.input.cursor, 0);
    let _ = handle_key(control(KeyCode::Char('e')), &mut app);
    assert_eq!(app.input.cursor, app.input.as_str().len());
}

#[test]
fn input_layout_wraps_text_and_places_full_line_cursor_on_next_row() {
    let mut input = InputBuffer::default();
    input.set_text("ab界cd".to_owned());
    let layout = InputLayout::new(&input, 4);
    assert_eq!(layout.lines, vec!["ab界".to_owned(), "cd".to_owned()]);
    assert_eq!((layout.cursor_row, layout.cursor_column), (1, 2));

    input.set_text("ab界".to_owned());
    let layout = InputLayout::new(&input, 4);
    assert_eq!(layout.lines, vec!["ab界".to_owned(), String::new()]);
    assert_eq!((layout.cursor_row, layout.cursor_column), (1, 0));
    assert_eq!(layout.visible_start(1), 1);
}

#[test]
fn parses_supported_slash_commands_and_literal_escape() {
    assert_eq!(
        parse_submission("/btw why this design?".to_owned()),
        Ok(UserSubmission::Command(SlashCommand::Btw("why this design?".to_owned())))
    );
    assert_eq!(
        parse_submission("/steer use the safer plan".to_owned()),
        Ok(UserSubmission::Command(SlashCommand::Steer("use the safer plan".to_owned())))
    );
    assert_eq!(
        parse_submission("/plan migrate storage safely".to_owned()),
        Ok(UserSubmission::Command(SlashCommand::Plan("migrate storage safely".to_owned())))
    );
    assert_eq!(
        parse_submission("/todo".to_owned()),
        Ok(UserSubmission::Command(SlashCommand::Todo))
    );
    assert_eq!(
        parse_submission("/compact".to_owned()),
        Ok(UserSubmission::Command(SlashCommand::Compact(None)))
    );
    assert_eq!(
        parse_submission("/compact preserve API decisions".to_owned()),
        Ok(UserSubmission::Command(SlashCommand::Compact(Some(
            "preserve API decisions".to_owned()
        ))))
    );
    assert_eq!(
        parse_submission("/exit".to_owned()),
        Ok(UserSubmission::Command(SlashCommand::Exit))
    );
    assert_eq!(
        parse_submission("//btw literal".to_owned()),
        Ok(UserSubmission::Prompt("/btw literal".to_owned()))
    );
    assert_eq!(
        parse_submission("/btw".to_owned()),
        Err(SlashCommandError::InvalidUsage("/btw <question>")),
    );
    assert_eq!(
        parse_submission("/unknown".to_owned()),
        Err(SlashCommandError::Unknown("unknown".to_owned()))
    );
}

#[test]
fn slash_candidates_filter_and_tab_complete() {
    let mut app = App::new(CoreSnapshot::default());
    app.set_input("/".to_owned());
    assert!(app.slash_menu_visible());
    assert_eq!(app.slash_candidate_count(), 6);

    let action = handle_key(plain(KeyCode::Down), &mut app);
    assert!(matches!(action, KeyAction::Ignore));
    assert_eq!(app.slash_selection, 1);
    let action = handle_key(plain(KeyCode::Tab), &mut app);
    assert!(matches!(action, KeyAction::Ignore));
    assert_eq!(app.input.as_str(), "/compact ");
    assert!(!app.slash_menu_visible());

    app.set_input("/b".to_owned());
    app.input_changed();
    assert_eq!(app.slash_candidate_count(), 1);
    let _ = handle_key(plain(KeyCode::Tab), &mut app);
    assert_eq!(app.input.as_str(), "/btw ");
    assert_eq!(app.slash_candidate_count(), 0);

    app.set_input("//".to_owned());
    app.input_changed();
    assert!(!app.slash_menu_visible());
    app.set_input("/btw question".to_owned());
    app.input_changed();
    assert!(!app.slash_menu_visible());
}

#[test]
fn slash_navigation_precedes_scrolling() {
    let mut app = App::new(CoreSnapshot::default());
    app.set_input("/".to_owned());
    app.max_scroll = 20;
    app.scroll_offset = 20;
    app.follow_tail = true;

    let _ = handle_key(plain(KeyCode::Up), &mut app);
    assert_eq!(app.slash_selection, 5);
    assert_eq!(app.scroll_offset, 20);
    assert!(app.follow_tail);

    let _ = handle_key(plain(KeyCode::Down), &mut app);
    assert_eq!(app.slash_selection, 0);
    assert_eq!(app.scroll_offset, 20);
}

#[test]
fn busy_escape_cancels_before_dismissing_slash_menu() {
    let mut app = App::new(CoreSnapshot::default());
    app.set_input("/".to_owned());
    app.busy = true;

    assert!(matches!(handle_key(plain(KeyCode::Esc), &mut app), KeyAction::Cancel));
    assert!(app.slash_menu_visible());
    assert_eq!(app.input.as_str(), "/");

    app.busy = false;
    assert!(matches!(handle_key(plain(KeyCode::Esc), &mut app), KeyAction::Ignore));
    assert!(!app.slash_menu_visible());
    assert_eq!(app.input.as_str(), "/");
}

#[test]
fn plan_review_accepts_feedback_and_approval_keys() {
    let snapshot = CoreSnapshot {
        phase: "waiting_plan_review".to_owned(),
        plan: CorePlanState {
            enabled: true,
            revision: 2,
            status: "review".to_owned(),
            content: "# Plan".to_owned(),
        },
        ..CoreSnapshot::default()
    };
    let mut app = App::new(snapshot.clone());
    app.plan_review = true;
    assert!(matches!(handle_key(plain(KeyCode::Char('r')), &mut app), KeyAction::Ignore));
    assert!(app.plan_feedback);
    app.set_input("Use bounded batches".to_owned());
    let _ = handle_key(alt(KeyCode::Left), &mut app);
    let _ = handle_key(plain(KeyCode::Char('X')), &mut app);
    match handle_key(plain(KeyCode::Enter), &mut app) {
        KeyAction::PlanReview(PlanReviewAction::Refine(feedback)) => {
            assert_eq!(feedback, "Use bounded Xbatches")
        }
        _ => panic!("plan feedback must dispatch a refine action"),
    }

    let mut approval_app = App::new(snapshot);
    approval_app.plan_review = true;
    assert!(matches!(
        handle_key(plain(KeyCode::Char('y')), &mut approval_app),
        KeyAction::PlanReview(PlanReviewAction::Approve)
    ));
}

#[test]
fn enter_dispatches_btw_and_exit_locally() {
    let mut app = App::new(CoreSnapshot::default());
    app.set_input("/btw side question".to_owned());
    match handle_key(plain(KeyCode::Enter), &mut app) {
        KeyAction::Btw(question) => assert_eq!(question, "side question"),
        _ => panic!("/btw must dispatch as a local BTW action"),
    }
    assert!(app.input.is_empty());

    app.busy = true;
    app.set_input("/exit".to_owned());
    assert!(matches!(handle_key(plain(KeyCode::Enter), &mut app), KeyAction::Quit));
}

#[test]
fn enter_steers_active_model_and_waiting_approval() {
    let mut model_app = App::new(CoreSnapshot {
        phase: "waiting_model".to_owned(),
        ..CoreSnapshot::default()
    });
    model_app.busy = true;
    model_app.set_input("Use the safer plan".to_owned());
    match handle_key(plain(KeyCode::Enter), &mut model_app) {
        KeyAction::Steer(text) => assert_eq!(text, "Use the safer plan"),
        _ => panic!("busy main task must accept steer input"),
    }
    assert!(model_app.input.is_empty());

    let mut approval_app = App::new(CoreSnapshot {
        phase: "waiting_approval".to_owned(),
        ..CoreSnapshot::default()
    });
    approval_app.approval = Some(CoreToolCall {
        call_id: "call-steer-approval".to_owned(),
        name: "write".to_owned(),
        arguments: parse_json("{}").expect("fixture must parse"),
    });
    approval_app.set_input("/steer do not write".to_owned());
    match handle_key(plain(KeyCode::Enter), &mut approval_app) {
        KeyAction::Steer(text) => assert_eq!(text, "do not write"),
        _ => panic!("approval prompt must accept explicit steer input"),
    }
}

#[test]
fn main_prompt_waits_while_btw_sidechain_is_busy() {
    let mut app = App::new(CoreSnapshot {
        phase: "idle".to_owned(),
        ..CoreSnapshot::default()
    });
    app.busy = true;
    app.set_input("Continue the main task".to_owned());
    assert!(matches!(handle_key(plain(KeyCode::Enter), &mut app), KeyAction::Ignore));
    assert_eq!(app.input.as_str(), "Continue the main task");
}

#[test]
fn control_o_toggles_transcript_details_and_invalidates_layout() {
    let mut app = App::new(CoreSnapshot::default());
    app.transcript_layout = Some(TranscriptLayoutCache {
        revision: app.transcript_revision,
        width: 80,
        lines: vec![Line::blank()],
    });
    let _ = handle_key(control(KeyCode::Char('o')), &mut app);
    assert!(app.transcript_details_expanded);
    assert!(app.transcript_layout.is_none());
}

#[test]
fn words_are_letters_digits_and_underscores() {
    assert_eq!(input_class("é"), InputClass::Identifier);
    assert_eq!(input_class("_"), InputClass::Identifier);
    assert_eq!(input_class(" "), InputClass::Whitespace);
    assert_eq!(input_class(":"), InputClass::Punctuation);
}

#[test]
fn a_layout_keeps_every_character() {
    let mut input = InputBuffer::default();
    input.set_text("one two\nthree".to_owned());
    let layout = InputLayout::new(&input, 5);
    assert_eq!(layout.lines.concat(), "one twothree");
    assert_eq!(layout.render_height(10), 6);
    assert_eq!(layout.visible_text(1, 2), vec!["wo".to_owned(), "three".to_owned()]);
}

#[test]
fn commands_are_found_by_their_beginning() {
    assert_eq!(slash_command_prefix("/co"), Some("co".to_owned()));
    assert_eq!(slash_command_prefix("co"), None);
    assert_eq!(slash_command_candidates("/p").len(), 1);
    assert_eq!(slash_command_candidates("/p")[0].usage, "/plan <goal>");
    assert!(slash_command_candidates("/x").is_empty());
}

#[test]
fn command_errors_say_what_is_wrong() {
    assert!(SlashCommandError::Unknown("x".to_owned()).message().contains("/x"));
    assert!(SlashCommandError::InvalidUsage("/btw <question>").message().contains("/btw <question>"));
}
