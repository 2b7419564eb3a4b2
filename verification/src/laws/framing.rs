//! What the screen shows around and of the transcript.
use crate::app::{self, AppView};
use crate::frame;
use crate::keys::{KeyActionView, KeyCode, KeyEvent};
use crate::laws::showing::{says_rows, text_rows};
use crate::selection::Rect;
use crate::session::{self, SnapshotView};
use crate::style::{self, LineView, SpanView};
use crate::text;
use crate::todo::{TodoItemView, TodoPhaseView};
use crate::transcript;
use vstd::prelude::*;

verus! {

/// The head of the screen names the program and the phase, and the plan and the summary where
/// there is one.
pub proof fn law_head(snapshot: SnapshotView)
    ensures
        ({
            let spans = frame::header_spans(snapshot);
            let planned = snapshot.plan.status != "none"@;
            let summarised = snapshot.compaction.revision > 0;
            &&& spans.len() == 3 + (if planned {
                1int
            } else {
                0
            }) + (if summarised {
                1int
            } else {
                0
            })
            &&& spans[0].content == " mycode "@
            &&& spans[2].content == snapshot.phase
            &&& planned ==> spans[3].content == "  plan r"@ + text::decimal(
                snapshot.plan.revision as nat,
            ) + " · "@ + snapshot.plan.status
            &&& summarised ==> spans.last().content == "  compact r"@ + text::decimal(
                snapshot.compaction.revision as nat,
            )
        }),
{
}

/// A command of the menu is shown by its usage and its description, with a mark where it is the
/// one chosen; the menu shows the candidates in order.
pub proof fn law_menu_is_shown(app: AppView, rows: int, k: int)
    requires
        0 <= k < frame::menu_lines(app, rows).len(),
    ensures
        ({
            let lines = frame::menu_lines(app, rows);
            let start = frame::menu_start(app, rows);
            let command = app.candidates()[start + k];
            &&& 0 <= start
            &&& start + k < app.candidates().len()
            &&& lines[k].spans.len() == 4
            &&& lines[k].spans[0].content == (if start + k == app.slash_selection {
                " › "@
            } else {
                "   "@
            })
            &&& lines[k].spans[1].content == command.usage
            &&& lines[k].spans[3].content == command.description
        }),
{
}

/// The task of a list is shown with the mark of its status, its content, and what blocks it.
pub proof fn law_tasks_are_shown(task: TodoItemView, width: u16)
    requires
        width > 0,
    ensures
        ({
            let shown = frame::task_lines(task, width);
            let mark = if task.status == "in_progress"@ {
                ">"@
            } else if task.status == "completed"@ {
                "x"@
            } else if task.status == "abandoned"@ {
                "-"@
            } else if task.status == "blocked"@ {
                "!"@
            } else {
                " "@
            };
            let rows = text_rows("["@ + mark + "] "@ + task.content, width as int);
            &&& task.blocker is None ==> says_rows(shown, rows)
            &&& task.blocker matches Some(blocker) ==> says_rows(
                shown,
                rows + text_rows("    blocked: "@ + blocker, width as int),
            )
        }),
{
    let mark = frame::status_mark(task.status);
    let head = "["@ + mark.0 + "] "@ + task.content;
    let style = style::Style::plain().fg(mark.1);
    crate::laws::showing::law_code_is_shown_in_order(head, style, width);
    let first = transcript::wrapped_text(head, style, width);
    if let Some(blocker) = task.blocker {
        let why = "    blocked: "@ + blocker;
        let color = style::Style::plain().fg(style::color_error());
        crate::laws::showing::law_code_is_shown_in_order(why, color, width);
        let second = transcript::wrapped_text(why, color, width);
        lemma_says_behind(
            first,
            text_rows(head, width as int),
            second,
            text_rows(why, width as int),
        );
    } else {
        assert(first + Seq::<LineView>::empty() =~= first);
    }
}

proof fn lemma_says_behind(
    before: Seq<LineView>,
    earlier: Seq<Seq<char>>,
    after: Seq<LineView>,
    later: Seq<Seq<char>>,
)
    requires
        says_rows(before, earlier),
        says_rows(after, later),
    ensures
        says_rows(before + after, earlier + later),
{
    let lines = before + after;
    let rows = earlier + later;
    assert forall|i: int| 0 <= i < rows.len() implies crate::laws::showing::said(lines[i])
        == #[trigger] rows[i] && lines[i].spans.len() <= 1 by {
        if i < earlier.len() {
            assert(rows[i] == earlier[i]);
        } else {
            assert(rows[i] == later[i - earlier.len()]);
        }
    }
}

/// The phases of a task list are shown one behind the other: a name, every task in order, and a
/// gap.
pub proof fn law_phases_are_shown(
    phases: Seq<TodoPhaseView>,
    phase: TodoPhaseView,
    tasks: Seq<TodoItemView>,
    task: TodoItemView,
    width: u16,
)
    ensures
        ({
            let before = frame::phases_lines(phases, width);
            let shown = frame::phases_lines(phases.push(phase), width);
            &&& before.is_prefix_of(shown)
            &&& shown.len() == before.len() + 2 + frame::tasks_lines(phase.tasks, width).len()
            &&& shown[before.len() as int].spans.len() == 1
            &&& shown[before.len() as int].spans[0].content == phase.name
            &&& shown.subrange(before.len() + 1int, shown.len() - 1) == frame::tasks_lines(
                phase.tasks,
                width,
            )
            &&& shown.last().spans.len() == 0
        }),
        frame::phases_lines(Seq::empty(), width).len() == 0,
        frame::tasks_lines(tasks.push(task), width) == frame::tasks_lines(tasks, width)
            + frame::task_lines(task, width),
        frame::tasks_lines(Seq::empty(), width).len() == 0,
{
    assert(phases.push(phase).drop_last() =~= phases);
    assert(tasks.push(task).drop_last() =~= tasks);
    let before = frame::phases_lines(phases, width);
    let shown = frame::phases_lines(phases.push(phase), width);
    assert(before =~= shown.subrange(0, before.len() as int));
    assert(shown.subrange(before.len() + 1int, shown.len() - 1) =~= frame::tasks_lines(
        phase.tasks,
        width,
    ));
}

/// The panel beside the transcript shows the plan and then every phase of the task list, or that
/// there is none.
pub proof fn law_panel(snapshot: SnapshotView, width: u16)
    requires
        width > 2,
    ensures
        ({
            let shown = frame::panel_lines(snapshot, width);
            let planned = snapshot.plan.status != "none"@;
            let head: int = if planned {
                2
            } else {
                0
            };
            let phases = frame::phases_lines(snapshot.todos, (width - 2) as u16);
            &&& planned ==> shown.len() >= 2 && shown[0].spans.len() == 1
                && shown[0].spans[0].content == "Plan r"@ + text::decimal(
                snapshot.plan.revision as nat,
            ) + " · "@ + snapshot.plan.status
            &&& snapshot.todos.len() > 0 ==> shown.skip(head) == phases
            &&& snapshot.todos.len() == 0 ==> shown.len() == head + 1 && shown[head].spans.len()
                == 1 && shown[head].spans[0].content
                == "No todos. Run /todo or let the agent create them."@
        }),
{
    let shown = frame::panel_lines(snapshot, width);
    let phases = frame::phases_lines(snapshot.todos, (width - 2) as u16);
    let head: int = if snapshot.plan.status != "none"@ {
        2
    } else {
        0
    };
    if snapshot.todos.len() > 0 {
        assert(shown.skip(head) =~= phases);
    }
}

/// The line above the input says what the keys will do: decide about the call shown, about the
/// plan, or send the message.
pub proof fn law_title_says_what_keys_do(app: AppView)
    ensures
        ({
            let title = frame::input_title_of(app).0;
            &&& app.approval matches Some(call) ==> title == " Approval · "@ + session::label_of(
                call,
            ) + " · y allow · n deny · /steer redirect "@
            &&& app.approval is None && app.plan_feedback ==> title
                == " Plan feedback · Enter submit · Esc return to review "@
            &&& app.approval is None && !app.plan_feedback && app.plan_review ==> title
                == " Plan review · use y / r / e / n "@
            &&& app.approval is None && !app.plan_feedback && !app.plan_review && app.busy
                && crate::laws::deciding::at_work(app) ==> title
                == " Message · Enter steer · Esc cancel "@
            &&& app.approval is None && !app.plan_feedback && !app.plan_review && app.busy
                && !crate::laws::deciding::at_work(app) ==> title == " Message · Esc cancel "@
            &&& app.approval is None && !app.plan_feedback && !app.plan_review && !app.busy
                ==> title == " Message · Enter send "@
        }),
{
}

/// The line below the input shows the status as it is, and then the facts of the session.
pub proof fn law_status_is_shown(app: AppView)
    ensures
        ({
            let spans = frame::status_spans(app);
            let facts = spans[1].content;
            let tail = if app.transcript_details_expanded {
                " · Ctrl+O collapse details"@
            } else {
                " · Ctrl+O expand details"@
            };
            let head = " · pending "@ + text::decimal(app.snapshot.pending_calls.len());
            &&& spans.len() == 2
            &&& spans[0].content == " "@ + app.status
            &&& head.is_prefix_of(facts)
            &&& tail.is_suffix_of(facts)
            &&& text::contains_text(facts, " · permission "@ + app.snapshot.permission_mode)
            &&& text::contains_text(
                facts,
                " · context "@ + text::decimal(
                    app.snapshot.compaction.last_input_tokens as nat,
                ),
            )
            &&& app.max_scroll > 0 ==> text::contains_text(
                facts,
                " · view "@ + text::decimal(app.scroll_offset as nat) + "/"@ + text::decimal(
                    app.max_scroll as nat,
                ),
            )
        }),
{
    let facts = frame::status_facts(app);
    let s = app.snapshot;
    let head = " · pending "@ + text::decimal(s.pending_calls.len());
    let todos = " · todos "@ + text::decimal(
        vstd::math::min(frame::task_count(s.todos) as int, u64::MAX as int) as nat,
    );
    let context = " · context "@ + text::decimal(s.compaction.last_input_tokens as nat);
    let middle = " · compact r"@ + text::decimal(s.compaction.revision as nat) + " · steer "@
        + text::decimal(s.pending_steers.len()) + " · safe "@ + text::decimal(s.safe_tools.len());
    let mode = " · permission "@ + s.permission_mode;
    let view = if app.max_scroll == 0 {
        Seq::empty()
    } else {
        " · view "@ + text::decimal(app.scroll_offset as nat) + "/"@ + text::decimal(
            app.max_scroll as nat,
        )
    };
    let tail = if app.transcript_details_expanded {
        " · Ctrl+O collapse details"@
    } else {
        " · Ctrl+O expand details"@
    };
    let all = head + todos + context + middle + mode + view + tail;
    assert(facts =~= all);
    assert(head =~= facts.subrange(0, head.len() as int));
    assert(tail =~= facts.subrange(facts.len() - tail.len(), facts.len() as int));
    lemma_inside(head + todos, context, middle + mode + view + tail);
    assert((head + todos) + context + (middle + mode + view + tail) =~= all);
    lemma_inside(head + todos + context + middle, mode, view + tail);
    assert((head + todos + context + middle) + mode + (view + tail) =~= all);
    lemma_inside(head + todos + context + middle + mode, view, tail);
}

proof fn lemma_inside(a: Seq<char>, b: Seq<char>, c: Seq<char>)
    ensures
        text::contains_text(a + b + c, b),
{
    let s = a + b + c;
    let at = a.len() as int;
    assert(s.subrange(at, at + b.len()) =~= b);
    assert(text::occurs_at(s, b, at));
}

/// The tasks of a list are counted over all its phases.
pub proof fn law_tasks_are_counted(phases: Seq<TodoPhaseView>, phase: TodoPhaseView)
    ensures
        frame::task_count(phases.push(phase)) == frame::task_count(phases) + phase.tasks.len(),
        frame::task_count(Seq::empty()) == 0,
{
    assert(phases.push(phase).drop_last() =~= phases);
}

/// What the screen shows of a transcript is a window of all its lines and those of the running
/// tool: as many as there is room for, from the row scrolled to, or the last ones.
pub proof fn law_window(app: AppView, width: u16, height: u16)
    requires
        app.transcript_layout is None,
        transcript::transcript_lines(
            app.snapshot.messages,
            app.local_entries,
            width,
            app.transcript_details_expanded,
        ).len() + app.live_lines(width).len() <= usize::MAX,
    ensures
        ({
            let lines = transcript::transcript_lines(
                app.snapshot.messages,
                app.local_entries,
                width,
                app.transcript_details_expanded,
            );
            let all = lines + app.live_lines(width);
            let shown = app.shown(width, height);
            let most: int = if all.len() > height {
                all.len() - height
            } else {
                0
            };
            let from: int = if app.follow_tail || app.scroll_offset > most {
                most
            } else {
                app.scroll_offset as int
            };
            &&& shown.len() == (if all.len() < height {
                all.len() as int
            } else {
                height as int
            })
            &&& shown == all.subrange(from, from + shown.len())
            &&& app.viewed(width, height).max_scroll == most
            &&& app.viewed(width, height).scroll_offset == from
            &&& app.viewed(width, height).transcript_layout matches Some(cache) && cache.lines
                == lines && cache.width == width && cache.revision == app.transcript_revision
            &&& app.live_tool is None ==> app.live_lines(width).len() == 0
        }),
{
}

/// A state of the session is held as it is given; the layout of the transcript is given up
/// wherever the number or the last of the messages changed.
pub proof fn law_states_are_held(app: AppView, snapshot: SnapshotView)
    ensures
        ({
            let next = app.with_snapshot(snapshot);
            &&& next.snapshot == snapshot
            &&& next.transcript_layout is Some ==> next.transcript_layout == app.transcript_layout
                && snapshot.messages.len() == app.snapshot.messages.len()
            &&& snapshot.messages.len() != app.snapshot.messages.len()
                ==> next.transcript_layout is None
            &&& snapshot.messages.len() > 0 && snapshot.messages.len()
                == app.snapshot.messages.len() && (snapshot.messages.last().content
                != app.snapshot.messages.last().content || snapshot.messages.last().role
                != app.snapshot.messages.last().role || snapshot.messages.last().is_error
                != app.snapshot.messages.last().is_error) ==> next.transcript_layout is None
            &&& next.input == app.input && next.approval == app.approval
            &&& next.local_entries == app.local_entries && next.busy == app.busy
            &&& next.scroll_offset == app.scroll_offset && next.follow_tail == app.follow_tail
        }),
{
}

/// While the menu is open, Up and Down choose the command before and behind, round and round; Tab
/// puts the one chosen into the input; Esc closes the menu.
pub proof fn law_menu_keys(app: AppView, key: KeyEvent)
    requires
        app.approval is None,
        !app.plan_review,
        !app.plan_feedback,
        !app.slash_menu_dismissed,
        app.slash_selection < app.candidates().len() <= usize::MAX,
        !key.control,
        !key.alt,
        !app.busy,
    ensures
        ({
            let (next, action) = app.after_key(key);
            let count = app.candidates().len();
            let command = app.candidates()[app.slash_selection as int];
            let typed = "/"@ + command.name;
            &&& key.code == KeyCode::Up ==> action == KeyActionView::Ignore && next.input
                == app.input && next.slash_selection == (if app.slash_selection == 0 {
                count - 1
            } else {
                app.slash_selection - 1
            })
            &&& key.code == KeyCode::Down ==> action == KeyActionView::Ignore && next.input
                == app.input && next.slash_selection == (if app.slash_selection + 1 == count {
                0
            } else {
                app.slash_selection + 1
            })
            &&& key.code == KeyCode::Tab ==> action == KeyActionView::Ignore
                && next.input.after.len() == 0 && next.input.before == (
            if command.takes_arguments {
                typed.push(' ')
            } else {
                typed
            })
            &&& key.code == KeyCode::Esc ==> action == KeyActionView::Ignore && next.input
                == app.input && next.slash_menu_dismissed
        }),
{
    let count = app.candidates().len() as int;
    let at = app.slash_selection as int;
    assert(at + 1 < count ==> (at + 1) % count == at + 1) by (nonlinear_arith)
        requires
            0 <= at < count,
    ;
    assert(at + 1 == count ==> (at + 1) % count == 0) by (nonlinear_arith)
        requires
            0 <= at < count,
    ;
}

/// A plan is shown line by line, wrapped to its width, in order; headings as such; and that there
/// is none where there is none.
pub proof fn law_plans_are_shown(sources: Seq<Seq<char>>, source: Seq<char>, width: u16)
    requires
        width > 0,
    ensures
        ({
            let before = app::plan_sources(sources, width);
            let shown = app::plan_sources(sources.push(source), width);
            &&& before.is_prefix_of(shown)
            &&& says_rows(shown.skip(before.len() as int), text_rows(source, width as int))
        }),
        app::plan_sources(Seq::empty(), width).len() == 0,
{
    assert(sources.push(source).drop_last() =~= sources);
    let before = app::plan_sources(sources, width);
    let shown = app::plan_sources(sources.push(source), width);
    crate::laws::showing::law_code_is_shown_in_order(source, app::plan_style(source), width);
    assert(before =~= shown.subrange(0, before.len() as int));
    assert(shown.skip(before.len() as int) =~= transcript::wrapped_text(
        source,
        app::plan_style(source),
        width,
    ));
}

/// The text of the plan on the screen is that of the plan of the session, from the row scrolled
/// to.
pub proof fn law_plan_window(app: AppView, width: u16, height: u16)
    requires
        width > 0,
        app::plan_sources(text::lines_of(app.snapshot.plan.content), width).len() <= usize::MAX,
    ensures
        ({
            let written = app::plan_sources(text::lines_of(app.snapshot.plan.content), width);
            let all = app::plan_lines(app.snapshot.plan.content, width);
            let shown = app.plan_shown(width, height);
            let most: int = if all.len() > height {
                all.len() - height
            } else {
                0
            };
            let from: int = if app.scroll_offset > most {
                most
            } else {
                app.scroll_offset as int
            };
            &&& written.len() > 0 ==> all == written
            &&& written.len() == 0 ==> all.len() == 1 && all[0].spans.len() == 1
                && all[0].spans[0].content == "No plan content."@
            &&& shown == all.subrange(from, from + shown.len())
            &&& shown.len() == (if all.len() < height {
                all.len() as int
            } else {
                height as int
            })
            &&& app.plan_viewed(width, height).max_scroll == most
        }),
{
}

/// What can be marked is the text that the screen shows, line by line.
pub proof fn law_marked_lines_are_the_shown_ones(app: AppView, body: Rect)
    requires
        body.width >= 2,
    ensures
        ({
            let next = frame::drawn(app, body);
            let width = (body.width - 2) as u16;
            &&& app.plan_review ==> next.selection_region is None && next.selection_lines.len() == 0
                && next.snapshot == app.snapshot
            &&& !app.plan_review ==> {
                let shown = app.shown(width, body.height);
                &&& next.selection_lines.len() == shown.len()
                &&& forall|i: int|
                    0 <= i < shown.len() ==> next.selection_lines[i] == app::line_text(
                        (#[trigger] shown[i]).spans,
                    )
                &&& next.selection_region matches Some(region) ==> region.top == body.y
                    && region.left == (if body.x < u16::MAX {
                    body.x + 1
                } else {
                    u16::MAX as int
                }) && (body.x + body.width <= u16::MAX ==> region.right == body.x + body.width - 1)
                    && (body.y + body.height <= u16::MAX ==> region.bottom == body.y
                    + body.height)
                &&& next.snapshot == app.snapshot && next.input == app.input
            }
        }),
{
}

/// The text of a line is that of its spans, one behind the other.
pub proof fn law_line_text(spans: Seq<SpanView>, span: SpanView)
    ensures
        app::line_text(spans.push(span)) == app::line_text(spans) + app::span_text(span.content),
        app::line_text(Seq::empty()).len() == 0,
        !span.content.contains('\n') && span.content.len() > 0 ==> app::span_text(span.content)
            == span.content,
{
    assert(spans.push(span).drop_last() =~= spans);
    if !span.content.contains('\n') && span.content.len() > 0 {
        let parts = text::split(span.content, '\n');
        crate::laws::texts::law_joined_pieces_are_found_again(seq![span.content], '\n');
        assert(text::joined(seq![span.content], seq!['\n']) =~= span.content);
        assert(parts =~= seq![span.content]);
        assert(text::lines_of(span.content) =~= seq![span.content]);
        reveal_with_fuel(crate::unicode::concatenated, 3);
        assert(crate::unicode::concatenated(seq![span.content]) =~= span.content);
    }
}

/// What is shown of the input is a window of its rows in which the cursor stands, and the cursor
/// is shown where it stands, inside the frame of the input; it is not shown while a call waits
/// for approval and nothing is typed.
pub proof fn law_input_window(app: app::App, width: u16, area: Rect, row: int, column: int)
    requires
        frame::typed_cursor(app, width) == (row, column),
        0 <= row < frame::typed_rows(app, width).len(),
        0 <= column < 0x4000,
        row < 0x4000,
        area.x < 0x4000,
        area.y < 0x4000,
        area.height > 2,
    ensures
        ({
            let all = frame::typed_rows(app, width);
            let shown = frame::input_rows_of(app, width, area);
            let from: int = if row + 1 > area.height - 2 {
                row + 1 - (area.height - 2)
            } else {
                0
            };
            &&& shown == all.subrange(from, from + shown.len())
            &&& from <= row < from + shown.len()
            &&& shown.len() <= area.height - 2
            &&& shown.len() == area.height - 2 || from + shown.len() == all.len()
            &&& app.approval is None || app.input.text@.len() > 0 ==> (frame::cursor_of(
                app,
                width,
                area,
            ) matches Some((x, y)) && x == area.x + 1 + column && y == area.y + 1 + (row - from))
            &&& app.approval is Some && app.input.text@.len() == 0 ==> frame::cursor_of(
                app,
                width,
                area,
            ) is None
        }),
{
}

/// The input has room for its rows and its frame, up to the room that there is, and never less
/// than for one row; the menu for its commands and its frame.
pub proof fn law_rooms(app: AppView, height: u16, lines: int, available: int)
    requires
        0 < lines < 0x8000,
    ensures
        frame::box_rows(lines, available) >= 3,
        lines + 2 <= available ==> frame::box_rows(lines, available) == lines + 2,
        3 <= available < lines + 2 ==> frame::box_rows(lines, available) == available,
        available < 3 ==> frame::box_rows(lines, available) == 3,
        app.approval is Some || app.candidates().len() == 0 ==> frame::candidate_rows(app, height)
            == 0,
        height < 12 ==> frame::candidate_rows(app, height) == 0,
        height >= 9 ==> frame::candidate_rows(app, height) <= height - 9,
        app.approval is None && app.menu_visible() && 0 < app.candidates().len() <= height - 11
            ==> frame::candidate_rows(app, height) == app.candidates().len() + 2,
{
}

/// A new screen shows the state it is given, at its end, with nothing typed, asked or marked.
pub proof fn law_new_screens(snapshot: SnapshotView)
    ensures
        ({
            let app = app::new_app(snapshot);
            &&& app.snapshot == snapshot
            &&& app.input.before.len() == 0 && app.input.after.len() == 0
            &&& app.status == "Ready"@
            &&& app.approval is None && !app.plan_review && !app.plan_feedback && !app.busy
            &&& app.follow_tail && app.local_entries.len() == 0 && app.live_tool is None
            &&& app.text_selection is None && !app.transcript_details_expanded
        }),
{
}

/// A frame holds what was drawn: the head of the session, the plan under review or the window of
/// the transcript, the rows of the input, the title and the status.
pub proof fn law_frames_hold_what_is_drawn(
    content: frame::FrameContent,
    app: app::App,
    area: Rect,
    areas: frame::FrameAreas,
    body: Rect,
    sidebar: Option<Rect>,
)
    requires
        frame::frame_shows(content, app, area, areas, body, sidebar),
        body.width >= 2,
        body.height >= 2,
    ensures
        ({
            let view = app.deep_view();
            let width = (body.width - 2) as u16;
            &&& content.header.deep_view().spans == frame::header_spans(view.snapshot)
            &&& view.plan_review ==> (content.body matches frame::FrameBody::Plan(lines)
                && lines.deep_view() == view.plan_shown(width, (body.height - 2) as u16))
            &&& !view.plan_review ==> (content.body matches frame::FrameBody::Transcript {
                lines,
                selection,
            } && lines.deep_view() == view.shown(width, body.height))
            &&& content.input_rows.deep_view() == frame::input_rows_of(
                app,
                area.width,
                areas.input,
            )
            &&& content.input_title@ == frame::input_title_of(view).0
            &&& content.todos is Some <==> sidebar is Some
            &&& sidebar matches Some(place) ==> (content.todos matches Some((at, lines))
                && lines.deep_view() == frame::panel_lines(view.snapshot, place.width))
            &&& content.status.deep_view().spans == frame::status_spans(frame::drawn(view, body))
            &&& frame::drawn(view, body).status == view.status
        }),
{
}

/// The task list stands beside the transcript where there is one and the screen is wide enough.
pub proof fn law_when_tasks_stand_beside(app: AppView, transcript: Rect)
    ensures
        frame::shows_todos(app, transcript) <==> app.snapshot.todos.len() > 0 && transcript.width
            >= 72,
{
}

} // verus!
