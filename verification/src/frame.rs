//! One frame of the screen: how it is divided, and what stands in each part.
use crate::app::{line_text, App, AppView};
use crate::input::{layout_of, sat_add, InputLayout};
use crate::selection::{add16, Rect, SelectionRegion, TextSelection};
use crate::session::{self, CoreSnapshot, SnapshotView};
use crate::slash::{self, SlashCommandSpec, SlashSpecView};
use crate::style::{
    blank_line, color_accent, color_assistant, color_error, color_muted, color_text,
    color_tool, line_of, push_line, push_span, span_of, text_line, Color, Line, LineView, Span,
    SpanView, Style,
};
use crate::text;
use crate::todo::{CoreTodoItem, CoreTodoPhase, TodoItemView, TodoPhaseView};
use crate::transcript::{self, push_wrapped_line, wrapped_text};
use ratatui::layout;
use vstd::math::{max, min};
use vstd::prelude::*;
use vstd::string::*;

verus! {

/// The title of the plan while it is reviewed.
pub const PLAN_TITLE: &'static str = " Plan review · y approve · r refine · e edit · n cancel ";

/// The title of the todo list.
pub const TODOS_TITLE: &'static str = " Todos · /todo edit ";

/// The title of the menu of commands.
pub const MENU_TITLE: &'static str = " Slash commands · ↑↓ select · Tab complete · Esc close ";

/// How long a part of an area is: so much, or at least so much.
#[derive(Clone, Copy, Debug, PartialEq, Eq, Structural)]
pub enum AreaSize {
    Exactly(u16),
    AtLeast(u16),
}

/// The sum of `lengths`.
pub open spec fn total(lengths: Seq<int>) -> int
    decreases lengths.len(),
{
    if lengths.len() == 0 {
        0
    } else {
        total(lengths.drop_last()) + lengths.last()
    }
}

/// How long a part is at least.
pub open spec fn least_length(size: AreaSize) -> int {
    match size {
        AreaSize::Exactly(n) => n as int,
        AreaSize::AtLeast(n) => n as int,
    }
}

/// How long a part is where it takes nothing but its share.
pub open spec fn fixed_length(size: AreaSize) -> int {
    match size {
        AreaSize::Exactly(n) => n as int,
        AreaSize::AtLeast(_) => 0,
    }
}

/// Whether parts of these sizes have room in `space`: one of them grows, and all are as long as they
/// have to be.
pub open spec fn fits(sizes: Seq<AreaSize>, space: int) -> bool {
    &&& exists|grown: int|
        #![trigger sizes[grown]]
        0 <= grown < sizes.len() && sizes[grown] is AtLeast && forall|j: int|
            0 <= j < sizes.len() && j != grown ==> (#[trigger] sizes[j]) is Exactly
    &&& total(Seq::new(sizes.len(), |i: int| least_length(sizes[i]))) <= space
}

/// How long the parts are that have room in `space`: the one that grows takes what the others leave.
pub open spec fn lengths_in(sizes: Seq<AreaSize>, space: int) -> Seq<int> {
    Seq::new(
        sizes.len(),
        |i: int|
            match sizes[i] {
                AreaSize::Exactly(n) => n as int,
                AreaSize::AtLeast(_) => space - total(
                    Seq::new(sizes.len(), |j: int| fixed_length(sizes[j])),
                ),
            },
    )
}

/// Whether the parts have the lengths that they are to have, one directly behind the other.
pub open spec fn laid_out(
    parts: Seq<Rect>,
    area: Rect,
    vertical: bool,
    sizes: Seq<AreaSize>,
) -> bool {
    if vertical {
        forall|i: int|
            0 <= i < parts.len() ==> (#[trigger] parts[i]).y == area.y + total(
                lengths_in(sizes, area.height as int).take(i),
            ) && parts[i].height == lengths_in(sizes, area.height as int)[i]
    } else {
        forall|i: int|
            0 <= i < parts.len() ==> (#[trigger] parts[i]).x == area.x + total(
                lengths_in(sizes, area.width as int).take(i),
            ) && parts[i].width == lengths_in(sizes, area.width as int)[i]
    }
}

/// Whether the parts have room in the area, and the area on the screen.
pub open spec fn has_room(area: Rect, vertical: bool, sizes: Seq<AreaSize>) -> bool {
    if vertical {
        area.y + area.height <= u16::MAX && fits(sizes, area.height as int)
    } else {
        area.x + area.width <= u16::MAX && fits(sizes, area.width as int)
    }
}

/// Whether every part lies in the area, and each begins no earlier than those before it end.
pub open spec fn in_order(parts: Seq<Rect>, area: Rect, vertical: bool) -> bool {
    if vertical {
        &&& forall|i: int|
            0 <= i < parts.len() ==> area.y <= (#[trigger] parts[i]).y && parts[i].y
                + parts[i].height <= area.y + area.height
        &&& forall|i: int, j: int|
            0 <= i < j < parts.len() ==> (#[trigger] parts[i]).y + parts[i].height <= (
            #[trigger] parts[j]).y
    } else {
        &&& forall|i: int|
            0 <= i < parts.len() ==> area.x <= (#[trigger] parts[i]).x && parts[i].x
                + parts[i].width <= area.x + area.width
        &&& forall|i: int, j: int|
            0 <= i < j < parts.len() ==> (#[trigger] parts[i]).x + parts[i].width <= (
            #[trigger] parts[j]).x
    }
}

/// `ratatui`'s `Layout::split`: an area in parts, one below the other or side by side. There is a
/// part for each size, and each spans the whole area the other way. All parts lie in the area, in
/// the order of the sizes, and none reaches into another. Where the sizes have room and one of them
/// grows, that one takes what the others leave, and the parts stand one directly behind the other.
/// How long they are where the sizes do not fit is left to the solver behind it.
#[verifier::external_body]
pub(crate) fn split_area(area: Rect, vertical: bool, sizes: &Vec<AreaSize>) -> (r: Vec<Rect>)
    ensures
        r@.len() == sizes@.len(),
        forall|i: int|
            0 <= i < r@.len() && vertical ==> (#[trigger] r@[i]).x == area.x && r@[i].width
                == area.width,
        forall|i: int|
            0 <= i < r@.len() && !vertical ==> (#[trigger] r@[i]).y == area.y && r@[i].height
                == area.height,
        in_order(r@, area, vertical),
        has_room(area, vertical, sizes@) ==> laid_out(r@, area, vertical, sizes@),
{
    let direction = match vertical {
        true => layout::Direction::Vertical,
        false => layout::Direction::Horizontal,
    };
    let constraints = sizes.iter().map(|size| match size {
        AreaSize::Exactly(n) => layout::Constraint::Length(*n),
        AreaSize::AtLeast(n) => layout::Constraint::Min(*n),
    });
    let Rect { x, y, width, height } = area;
    let whole = layout::Rect { x, y, width, height };
    let parts = layout::Layout::new(direction, constraints).split(whole);
    parts.iter().map(|p| Rect { x: p.x, y: p.y, width: p.width, height: p.height }).collect()
}

/// The parts of a frame.
#[derive(Clone, Copy, Debug, PartialEq, Eq, Structural)]
pub struct FrameAreas {
    pub header: Rect,
    pub transcript: Rect,
    pub candidates: Rect,
    pub input: Rect,
    pub status: Rect,
}

/// How many commands the menu offers; none while it is hidden or a call waits for approval.
pub open spec fn offered(app: AppView) -> int {
    if app.approval is None && app.menu_visible() {
        app.candidates().len() as int
    } else {
        0
    }
}

/// How many rows the menu has.
pub open spec fn candidate_rows(app: AppView, height: u16) -> int {
    let most = max(0, height - 9);
    if offered(app) > 0 && most >= 3 {
        min(min(min(offered(app), u16::MAX as int) + 2, u16::MAX as int), most)
    } else {
        0
    }
}

/// How many rows a text of so many lines has in its box.
pub open spec fn box_rows(lines: int, available: int) -> int {
    max(3, min(min(lines + 2, u16::MAX as int), max(available, 3)))
}

/// The rows of the text that is typed.
pub open spec fn typed_rows(app: App, width: u16) -> Seq<Seq<char>> {
    let state = layout_of(app.input.text@, app.input.cursor as nat, max(0, width - 2) as u16);
    state.lines.push(state.line)
}

/// Where the cursor stands among those rows.
pub open spec fn typed_cursor(app: App, width: u16) -> (int, int) {
    match layout_of(
        app.input.text@,
        app.input.cursor as nat,
        max(0, width - 2) as u16,
    ).cursor {
        Some(place) => place,
        None => (0, 0),
    }
}

/// How the rows of a frame are divided: the header, the transcript, the menu, the input and the
/// status.
pub open spec fn frame_rows(app: App, area: Rect) -> Seq<AreaSize> {
    let menu = candidate_rows(app.deep_view(), area.height);
    seq![
        AreaSize::Exactly(1),
        AreaSize::AtLeast(4),
        AreaSize::Exactly(menu as u16),
        AreaSize::Exactly(
            box_rows(
                typed_rows(app, area.width).len() as int,
                max(0, area.height - (menu + 6)),
            ) as u16,
        ),
        AreaSize::Exactly(1),
    ]
}

/// How many rows the menu has.
fn menu_rows(app: &App, height: u16) -> (r: u16)
    requires
        app.wf(),
    ensures
        r == candidate_rows(app.deep_view(), height),
        r > 0 ==> r + 9 <= height,
{
    let count: usize = if app.approval.is_none() && app.slash_menu_visible() {
        app.slash_candidate_count()
    } else {
        0
    };
    let most: u16 = height.saturating_sub(9);
    if count > 0 && most >= 3 {
        let wanted: u16 = if count >= 65533 {
            65535
        } else {
            (count + 2) as u16
        };
        if wanted < most {
            wanted
        } else {
            most
        }
    } else {
        0
    }
}

/// How the rows of a frame are divided.
pub fn frame_sizes(app: &App, area: Rect) -> (r: Vec<AreaSize>)
    requires
        app.wf(),
    ensures
        r@ == frame_rows(*app, area),
{
    let menu = menu_rows(app, area.height);
    let layout = InputLayout::new(&app.input, area.width.saturating_sub(2));
    assert(layout.lines@.len() == layout.lines.deep_view().len());
    let input = layout.render_height(area.height.saturating_sub(menu + 6));
    let mut sizes: Vec<AreaSize> = Vec::new();
    sizes.push(AreaSize::Exactly(1));
    sizes.push(AreaSize::AtLeast(4));
    sizes.push(AreaSize::Exactly(menu));
    sizes.push(AreaSize::Exactly(input));
    sizes.push(AreaSize::Exactly(1));
    assert(sizes@ =~= frame_rows(*app, area));
    sizes
}

/// Whether the todo list has room beside the transcript.
pub open spec fn shows_todos(app: AppView, transcript: Rect) -> bool {
    app.snapshot.todos.len() > 0 && transcript.width >= 72
}

/// How the transcript's area is divided where the todo list stands beside it.
pub open spec fn body_columns(transcript: Rect) -> Seq<AreaSize> {
    seq![
        AreaSize::AtLeast(40),
        AreaSize::Exactly(max(26, min(transcript.width as int / 3, 40)) as u16),
    ]
}

/// How the transcript's area is divided where the todo list stands beside it.
pub fn body_sizes(transcript: Rect) -> (r: Vec<AreaSize>)
    ensures
        r@ == body_columns(transcript),
{
    let third: u16 = transcript.width / 3;
    let sidebar: u16 = if third < 26 {
        26
    } else if third > 40 {
        40
    } else {
        third
    };
    let mut sizes: Vec<AreaSize> = Vec::new();
    sizes.push(AreaSize::AtLeast(40));
    sizes.push(AreaSize::Exactly(sidebar));
    assert(sizes@ =~= body_columns(transcript));
    sizes
}

/// The colour of a phase.
pub open spec fn phase_color(phase: Seq<char>) -> Color {
    if phase == "idle"@ {
        color_assistant()
    } else if phase == "waiting_approval"@ || phase == "waiting_plan_review"@ {
        color_tool()
    } else if phase == "waiting_model"@ || phase == "waiting_tool"@ || phase
        == "waiting_compaction"@ {
        color_accent()
    } else {
        color_muted()
    }
}

/// The colour that tells whether the plan mode is on.
pub open spec fn plan_color(snapshot: SnapshotView) -> Color {
    if snapshot.plan.enabled {
        color_accent()
    } else {
        color_muted()
    }
}

/// The header: the program's name, the phase, and the plan and the compaction where there are any.
pub open spec fn header_spans(snapshot: SnapshotView) -> Seq<SpanView> {
    let bare = seq![
        span_of(" mycode "@, Style::plain().fg(color_text()).bg(color_accent()).bold()),
        span_of("  "@, Style::plain()),
        span_of(snapshot.phase, Style::plain().fg(phase_color(snapshot.phase)).bold()),
    ];
    let planned = if snapshot.plan.status != "none"@ {
        bare.push(
            span_of(
                "  plan r"@ + text::decimal(snapshot.plan.revision as nat) + " · "@
                    + snapshot.plan.status,
                Style::plain().fg(plan_color(snapshot)),
            ),
        )
    } else {
        bare
    };
    if snapshot.compaction.revision > 0 {
        planned.push(
            span_of(
                "  compact r"@ + text::decimal(snapshot.compaction.revision as nat),
                Style::plain().fg(color_muted()),
            ),
        )
    } else {
        planned
    }
}

fn build_phase_color(phase: &str) -> (r: Color)
    ensures
        r == phase_color(phase@),
{
    if text::str_eq(phase, "idle") {
        color_assistant()
    } else if text::str_eq(phase, "waiting_approval") || text::str_eq(
        phase,
        "waiting_plan_review",
    ) {
        color_tool()
    } else if text::str_eq(phase, "waiting_model") || text::str_eq(phase, "waiting_tool")
        || text::str_eq(phase, "waiting_compaction") {
        color_accent()
    } else {
        color_muted()
    }
}

/// The header.
pub fn header_line(snapshot: &CoreSnapshot) -> (r: Line)
    ensures
        r.deep_view() == line_of(header_spans(snapshot.deep_view())),
{
    let mut spans: Vec<Span> = Vec::new();
    assert(spans.deep_view() =~= Seq::empty());
    push_span(
        &mut spans,
        " mycode ",
        Style::plain().fg(color_text()).bg(color_accent()).bold(),
    );
    push_span(&mut spans, "  ", Style::plain());
    let phase = snapshot.phase.as_str();
    push_span(&mut spans, phase, Style::plain().fg(build_phase_color(phase)).bold());
    assert(spans.deep_view() =~= seq![
        span_of(" mycode "@, Style::plain().fg(color_text()).bg(color_accent()).bold()),
        span_of("  "@, Style::plain()),
        span_of(phase@, Style::plain().fg(phase_color(phase@)).bold()),
    ]);
    if !text::str_eq(snapshot.plan.status.as_str(), "none") {
        let mut content = text::cat("  plan r", text::number(snapshot.plan.revision).as_str());
        content.append(" · ");
        content.append(snapshot.plan.status.as_str());
        let color = if snapshot.plan.enabled {
            color_accent()
        } else {
            color_muted()
        };
        push_span(&mut spans, content.as_str(), Style::plain().fg(color));
    }
    if snapshot.compaction.revision > 0 {
        let content = text::cat(
            "  compact r",
            text::number(snapshot.compaction.revision).as_str(),
        );
        push_span(&mut spans, content.as_str(), Style::plain().fg(color_muted()));
    }
    Line::of_spans(spans)
}

/// One entry of the menu.
pub open spec fn candidate_line(spec: SlashSpecView, selected: bool) -> LineView {
    line_of(
        seq![
            if selected {
                span_of(" › "@, Style::plain().fg(color_accent()).bold())
            } else {
                span_of("   "@, Style::plain().fg(color_muted()))
            },
            span_of(
                spec.usage,
                if selected {
                    Style::plain().fg(color_text()).bold()
                } else {
                    Style::plain().fg(color_text())
                },
            ),
            span_of("  "@, Style::plain()),
            span_of(spec.description, Style::plain().fg(color_muted())),
        ],
    )
}

/// The first entry of the menu that is shown in `rows` rows: the selected one stays in view.
pub open spec fn menu_start(app: AppView, rows: int) -> int {
    max(0, sat_add(app.slash_selection as int, 1) - min(app.candidates().len() as int, rows))
}

/// The entries of the menu that are shown in `rows` rows.
pub open spec fn menu_lines(app: AppView, rows: int) -> Seq<LineView> {
    let all = app.candidates();
    let start = menu_start(app, rows);
    let end = min(all.len() as int, start + min(all.len() as int, rows));
    Seq::new(
        max(0, end - start) as nat,
        |k: int| candidate_line(all[start + k], start + k == app.slash_selection),
    )
}

fn build_candidate_line(spec: &SlashCommandSpec, selected: bool) -> (r: Line)
    ensures
        r.deep_view() == candidate_line(spec.deep_view(), selected),
{
    let mut spans: Vec<Span> = Vec::new();
    assert(spans.deep_view() =~= Seq::empty());
    if selected {
        push_span(&mut spans, " › ", Style::plain().fg(color_accent()).bold());
        push_span(&mut spans, spec.usage, Style::plain().fg(color_text()).bold());
    } else {
        push_span(&mut spans, "   ", Style::plain().fg(color_muted()));
        push_span(&mut spans, spec.usage, Style::plain().fg(color_text()));
    }
    push_span(&mut spans, "  ", Style::plain());
    push_span(&mut spans, spec.description, Style::plain().fg(color_muted()));
    let r = Line::of_spans(spans);
    assert(r.deep_view().spans =~= candidate_line(spec.deep_view(), selected).spans);
    r
}

/// The entries of the menu that are shown in at most `max_rows` rows.
pub fn slash_candidate_lines(app: &App, max_rows: usize) -> (r: Vec<Line>)
    requires
        app.wf(),
    ensures
        r.deep_view() == menu_lines(app.deep_view(), max_rows as int),
{
    proof {
        app.input.lemma_parts();
    }
    let specs = slash::slash_command_candidates(app.input.as_str());
    let ghost all = specs.deep_view();
    let count = specs.len();
    let rows: usize = if count < max_rows {
        count
    } else {
        max_rows
    };
    let start = app.slash_selection.saturating_add(1).saturating_sub(rows);
    let end: usize = if start >= count {
        start
    } else if rows > count - start {
        count
    } else {
        start + rows
    };
    let ghost wanted = menu_lines(app.deep_view(), max_rows as int);
    let mut out: Vec<Line> = Vec::new();
    let mut i: usize = start;
    assert(out.deep_view() =~= wanted.take(0));
    while i < end
        invariant
            all == specs.deep_view(),
            all == app.deep_view().candidates(),
            wanted == menu_lines(app.deep_view(), max_rows as int),
            start == menu_start(app.deep_view(), max_rows as int),
            start <= i <= end,
            start < end ==> end <= specs@.len(),
            wanted.len() == end - start,
            out.deep_view() == wanted.take(i - start),
        decreases end - i,
    {
        assert(all[i as int] == specs@[i as int].deep_view());
        push_line(&mut out, build_candidate_line(&specs[i], i == app.slash_selection));
        assert(out.deep_view() =~= wanted.take(i + 1 - start));
        i += 1;
    }
    assert(wanted.take(i - start) =~= wanted);
    out
}

/// The selected entry of the menu is among those shown.
pub proof fn law_selected_command_is_shown(app: AppView, rows: int)
    requires
        rows > 0,
        app.slash_selection < app.candidates().len() < usize::MAX,
    ensures
        ({
            let place = app.slash_selection - menu_start(app, rows);
            &&& 0 <= place < menu_lines(app, rows).len()
            &&& menu_lines(app, rows)[place] == candidate_line(
                app.candidates()[app.slash_selection as int],
                true,
            )
            &&& menu_lines(app, rows).len() == min(app.candidates().len() as int, rows)
        }),
{
}

/// The mark of a status and its colour.
pub open spec fn status_mark(status: Seq<char>) -> (Seq<char>, Color) {
    if status == "in_progress"@ {
        (">"@, color_accent())
    } else if status == "completed"@ {
        ("x"@, color_assistant())
    } else if status == "abandoned"@ {
        ("-"@, color_muted())
    } else if status == "blocked"@ {
        ("!"@, color_error())
    } else {
        (" "@, color_muted())
    }
}

/// The lines of a task.
pub open spec fn task_lines(task: TodoItemView, width: u16) -> Seq<LineView> {
    let mark = status_mark(task.status);
    wrapped_text("["@ + mark.0 + "] "@ + task.content, Style::plain().fg(mark.1), width)
        + match task.blocker {
        Some(blocker) => wrapped_text(
            "    blocked: "@ + blocker,
            Style::plain().fg(color_error()),
            width,
        ),
        None => Seq::empty(),
    }
}

/// The lines of tasks.
pub open spec fn tasks_lines(tasks: Seq<TodoItemView>, width: u16) -> Seq<LineView>
    decreases tasks.len(),
{
    if tasks.len() == 0 {
        Seq::empty()
    } else {
        tasks_lines(tasks.drop_last(), width) + task_lines(tasks.last(), width)
    }
}

/// The lines of phases.
pub open spec fn phases_lines(phases: Seq<TodoPhaseView>, width: u16) -> Seq<LineView>
    decreases phases.len(),
{
    if phases.len() == 0 {
        Seq::empty()
    } else {
        (phases_lines(phases.drop_last(), width).push(
            text_line(phases.last().name, Style::plain().fg(color_text()).bold()),
        ) + tasks_lines(phases.last().tasks, width)).push(blank_line())
    }
}

/// The lines that tell of the plan.
pub open spec fn plan_heading(snapshot: SnapshotView) -> Seq<LineView> {
    if snapshot.plan.status != "none"@ {
        seq![
            text_line(
                "Plan r"@ + text::decimal(snapshot.plan.revision as nat) + " · "@
                    + snapshot.plan.status,
                Style::plain().fg(plan_color(snapshot)).bold(),
            ),
            blank_line(),
        ]
    } else {
        Seq::empty()
    }
}

/// The todo panel.
pub open spec fn panel_lines(snapshot: SnapshotView, width: u16) -> Seq<LineView> {
    let inner = max(1, width - 2) as u16;
    let phases = plan_heading(snapshot) + phases_lines(snapshot.todos, inner);
    if snapshot.todos.len() == 0 {
        phases.push(
            text_line(
                "No todos. Run /todo or let the agent create them."@,
                Style::plain().fg(color_muted()),
            ),
        )
    } else {
        phases
    }
}

/// Adds the lines of a task.
fn push_task_lines(lines: &mut Vec<Line>, task: &CoreTodoItem, width: u16)
    ensures
        final(lines).deep_view() == old(lines).deep_view() + task_lines(task.deep_view(), width),
{
    let ghost before = lines.deep_view();
    let status = task.status.as_str();
    let (mark, color) = if text::str_eq(status, "in_progress") {
        (">", color_accent())
    } else if text::str_eq(status, "completed") {
        ("x", color_assistant())
    } else if text::str_eq(status, "abandoned") {
        ("-", color_muted())
    } else if text::str_eq(status, "blocked") {
        ("!", color_error())
    } else {
        (" ", color_muted())
    };
    assert((mark@, color) == status_mark(status@));
    let mut content = text::cat("[", mark);
    content.append("] ");
    content.append(task.content.as_str());
    push_wrapped_line(lines, content.as_str(), Style::plain().fg(color), width);
    if let Some(blocker) = &task.blocker {
        let content = text::cat("    blocked: ", blocker.as_str());
        push_wrapped_line(lines, content.as_str(), Style::plain().fg(color_error()), width);
    }
    assert(lines.deep_view() =~= before + task_lines(task.deep_view(), width));
}

/// Adds the lines of a phase.
fn push_phase_lines(lines: &mut Vec<Line>, phase: &CoreTodoPhase, width: u16)
    ensures
        final(lines).deep_view() == (old(lines).deep_view().push(
            text_line(phase.deep_view().name, Style::plain().fg(color_text()).bold()),
        ) + tasks_lines(phase.deep_view().tasks, width)).push(blank_line()),
{
    push_line(
        lines,
        Line::of_text(phase.name.as_str(), Style::plain().fg(color_text()).bold()),
    );
    let ghost start = lines.deep_view();
    let ghost all = phase.tasks.deep_view();
    let mut i: usize = 0;
    assert(start + tasks_lines(all.take(0), width) =~= start);
    while i < phase.tasks.len()
        invariant
            all == phase.tasks.deep_view(),
            i <= phase.tasks@.len(),
            lines.deep_view() == start + tasks_lines(all.take(i as int), width),
        decreases phase.tasks@.len() - i,
    {
        assert(all.take(i + 1).drop_last() =~= all.take(i as int));
        assert(all[i as int] == phase.tasks@[i as int].deep_view());
        push_task_lines(lines, &phase.tasks[i], width);
        assert(lines.deep_view() =~= start + tasks_lines(all.take(i + 1), width));
        i += 1;
    }
    assert(all.take(i as int) =~= all);
    push_line(lines, Line::blank());
}

/// The todo panel.
pub fn todo_panel_lines(snapshot: &CoreSnapshot, width: u16) -> (r: Vec<Line>)
    ensures
        r.deep_view() == panel_lines(snapshot.deep_view(), width),
{
    let inner: u16 = if width < 3 {
        1
    } else {
        width - 2
    };
    let mut lines: Vec<Line> = Vec::new();
    assert(lines.deep_view() =~= Seq::empty());
    if !text::str_eq(snapshot.plan.status.as_str(), "none") {
        let mut content = text::cat("Plan r", text::number(snapshot.plan.revision).as_str());
        content.append(" · ");
        content.append(snapshot.plan.status.as_str());
        let color = if snapshot.plan.enabled {
            color_accent()
        } else {
            color_muted()
        };
        push_line(&mut lines, Line::of_text(content.as_str(), Style::plain().fg(color).bold()));
        push_line(&mut lines, Line::blank());
    }
    assert(lines.deep_view() =~= plan_heading(snapshot.deep_view()));
    let ghost start = lines.deep_view();
    let ghost all = snapshot.todos.deep_view();
    let mut i: usize = 0;
    assert(start + phases_lines(all.take(0), inner) =~= start);
    while i < snapshot.todos.len()
        invariant
            all == snapshot.todos.deep_view(),
            i <= snapshot.todos@.len(),
            lines.deep_view() == start + phases_lines(all.take(i as int), inner),
        decreases snapshot.todos@.len() - i,
    {
        assert(all.take(i + 1).drop_last() =~= all.take(i as int));
        assert(all[i as int] == snapshot.todos@[i as int].deep_view());
        push_phase_lines(&mut lines, &snapshot.todos[i], inner);
        assert(lines.deep_view() =~= start + phases_lines(all.take(i + 1), inner));
        i += 1;
    }
    assert(all.take(i as int) =~= all);
    if snapshot.todos.len() == 0 {
        push_line(
            &mut lines,
            Line::of_text(
                "No todos. Run /todo or let the agent create them.",
                Style::plain().fg(color_muted()),
            ),
        );
    }
    lines
}

/// The title of the input and its colour.
pub open spec fn input_title_of(app: AppView) -> (Seq<char>, Color) {
    match app.approval {
        Some(call) => (
            " Approval · "@ + session::label_of(call)
                + " · y allow · n deny · /steer redirect "@,
            color_tool(),
        ),
        None => if app.plan_feedback {
            (" Plan feedback · Enter submit · Esc return to review "@, color_accent())
        } else if app.plan_review {
            (" Plan review · use y / r / e / n "@, color_accent())
        } else if app.busy && session::accepts_steer(app.snapshot.phase) {
            (" Message · Enter steer · Esc cancel "@, color_accent())
        } else if app.busy {
            (" Message · Esc cancel "@, color_accent())
        } else {
            (" Message · Enter send "@, color_muted())
        },
    }
}

/// The title of the input and its colour.
pub fn input_title(app: &App) -> (r: (String, Color))
    ensures
        (r.0@, r.1) == input_title_of(app.deep_view()),
{
    match &app.approval {
        Some(call) => {
            let mut title = text::cat(" Approval · ", call.display_label());
            title.append(" · y allow · n deny · /steer redirect ");
            (title, color_tool())
        },
        None => if app.plan_feedback {
            (" Plan feedback · Enter submit · Esc return to review ".to_owned(), color_accent())
        } else if app.plan_review {
            (" Plan review · use y / r / e / n ".to_owned(), color_accent())
        } else if app.busy && session::snapshot_accepts_steer(&app.snapshot) {
            (" Message · Enter steer · Esc cancel ".to_owned(), color_accent())
        } else if app.busy {
            (" Message · Esc cancel ".to_owned(), color_accent())
        } else {
            (" Message · Enter send ".to_owned(), color_muted())
        },
    }
}

/// How many tasks there are.
pub open spec fn task_count(phases: Seq<TodoPhaseView>) -> nat
    decreases phases.len(),
{
    if phases.len() == 0 {
        0
    } else {
        task_count(phases.drop_last()) + phases.last().tasks.len()
    }
}

/// The colour of the status.
pub open spec fn status_color(app: AppView) -> Color {
    if text::contains_text(app.status, "failed"@) || text::contains_text(app.status, "error"@) {
        color_error()
    } else if app.status == "Ready"@ {
        color_assistant()
    } else if app.busy {
        color_tool()
    } else {
        color_muted()
    }
}

/// What the status line says beside the status. More tasks than a machine word counts are shown
/// as the most it counts.
pub open spec fn status_facts(app: AppView) -> Seq<char> {
    " · pending "@ + text::decimal(app.snapshot.pending_calls.len()) + " · todos "@
        + text::decimal(min(task_count(app.snapshot.todos) as int, u64::MAX as int) as nat)
        + " · context "@ + text::decimal(app.snapshot.compaction.last_input_tokens as nat)
        + " · compact r"@ + text::decimal(app.snapshot.compaction.revision as nat) + " · steer "@
        + text::decimal(app.snapshot.pending_steers.len()) + " · safe "@ + text::decimal(
        app.snapshot.safe_tools.len(),
    ) + " · permission "@ + app.snapshot.permission_mode + (if app.max_scroll == 0 {
        Seq::empty()
    } else {
        " · view "@ + text::decimal(app.scroll_offset as nat) + "/"@ + text::decimal(
            app.max_scroll as nat,
        )
    }) + if app.transcript_details_expanded {
        " · Ctrl+O collapse details"@
    } else {
        " · Ctrl+O expand details"@
    }
}

/// The status line.
pub open spec fn status_spans(app: AppView) -> Seq<SpanView> {
    seq![
        span_of(" "@ + app.status, Style::plain().fg(status_color(app)).bold()),
        span_of(status_facts(app), Style::plain().fg(color_muted())),
    ]
}

/// How many tasks there are, at most the most a machine word counts.
fn count_tasks(phases: &Vec<CoreTodoPhase>) -> (r: u64)
    ensures
        r == min(task_count(phases.deep_view()) as int, u64::MAX as int),
{
    let ghost all = phases.deep_view();
    let mut count: u64 = 0;
    let mut i: usize = 0;
    while i < phases.len()
        invariant
            all == phases.deep_view(),
            i <= phases@.len(),
            count == min(task_count(all.take(i as int)) as int, u64::MAX as int),
        decreases phases@.len() - i,
    {
        assert(all.take(i + 1).drop_last() =~= all.take(i as int));
        assert(all[i as int] == phases@[i as int].deep_view());
        assert(all[i as int].tasks.len() == phases@[i as int].tasks@.len());
        count = count.saturating_add(phases[i].tasks.len() as u64);
        i += 1;
    }
    assert(all.take(i as int) =~= all);
    count
}

fn build_status_facts(app: &App) -> (r: String)
    ensures
        r@ == status_facts(app.deep_view()),
{
    let snapshot = &app.snapshot;
    let mut facts = text::cat(
        " · pending ",
        text::number(snapshot.pending_calls.len() as u64).as_str(),
    );
    facts.append(" · todos ");
    facts.append(text::number(count_tasks(&snapshot.todos)).as_str());
    facts.append(" · context ");
    facts.append(text::number(snapshot.compaction.last_input_tokens).as_str());
    facts.append(" · compact r");
    facts.append(text::number(snapshot.compaction.revision).as_str());
    facts.append(" · steer ");
    facts.append(text::number(snapshot.pending_steers.len() as u64).as_str());
    facts.append(" · safe ");
    facts.append(text::number(snapshot.safe_tools.len() as u64).as_str());
    facts.append(" · permission ");
    facts.append(snapshot.permission_mode.as_str());
    let ghost told = facts@;
    if app.max_scroll != 0 {
        facts.append(" · view ");
        facts.append(text::number(app.scroll_offset as u64).as_str());
        facts.append("/");
        facts.append(text::number(app.max_scroll as u64).as_str());
    }
    assert(facts@ =~= told + (if app.max_scroll == 0 {
        Seq::empty()
    } else {
        " · view "@ + text::decimal(app.scroll_offset as nat) + "/"@ + text::decimal(
            app.max_scroll as nat,
        )
    }));
    facts.append(
        if app.transcript_details_expanded {
            " · Ctrl+O collapse details"
        } else {
            " · Ctrl+O expand details"
        },
    );
    facts
}

/// The status line.
pub fn status_line(app: &App) -> (r: Line)
    ensures
        r.deep_view() == line_of(status_spans(app.deep_view())),
{
    let status = app.status.as_str();
    let color = if text::contains(status, "failed") || text::contains(status, "error") {
        color_error()
    } else if text::str_eq(status, "Ready") {
        color_assistant()
    } else if app.busy {
        color_tool()
    } else {
        color_muted()
    };
    let mut spans: Vec<Span> = Vec::new();
    assert(spans.deep_view() =~= Seq::empty());
    push_span(&mut spans, text::cat(" ", status).as_str(), Style::plain().fg(color).bold());
    push_span(
        &mut spans,
        build_status_facts(app).as_str(),
        Style::plain().fg(color_muted()),
    );
    assert(spans.deep_view() =~= status_spans(app.deep_view()));
    Line::of_spans(spans)
}

/// What stands in the large part of a frame.
#[derive(Debug)]
pub enum FrameBody {
    Plan(Vec<Line>),
    Transcript { lines: Vec<Line>, selection: Option<(TextSelection, SelectionRegion)> },
}

/// Everything a frame shows, and where.
#[derive(Debug)]
pub struct FrameContent {
    pub areas: FrameAreas,
    pub header: Line,
    pub body_area: Rect,
    pub body: FrameBody,
    pub todos: Option<(Rect, Vec<Line>)>,
    pub candidates: Option<Vec<Line>>,
    pub input_rows: Vec<String>,
    pub input_title: String,
    pub input_color: Color,
    pub cursor: Option<(u16, u16)>,
    pub status: Line,
}

/// How many rows of the input are shown.
pub open spec fn shown_rows(input: Rect) -> int {
    max(1, max(0, input.height - 2))
}

/// The first row of the input that is shown.
pub open spec fn first_row(app: App, width: u16, input: Rect) -> int {
    max(0, sat_add(typed_cursor(app, width).0, 1) - shown_rows(input))
}

/// The rows of the input that are shown.
pub open spec fn input_rows_of(app: App, width: u16, input: Rect) -> Seq<Seq<char>> {
    let all = typed_rows(app, width);
    let from = min(first_row(app, width, input), all.len() as int);
    all.subrange(from, min(all.len() as int, from + shown_rows(input)))
}

/// `n`, at most what sixteen bits hold.
pub open spec fn at_most_u16(n: int) -> int {
    min(n, u16::MAX as int)
}

/// Where the cursor stands on the screen. It is hidden while a call waits for approval and nothing
/// is typed.
pub open spec fn cursor_of(app: App, width: u16, input: Rect) -> Option<(u16, u16)> {
    if app.approval is None || app.input.text@.len() > 0 {
        let (row, column) = typed_cursor(app, width);
        Some(
            (
                add16(add16(input.x as int, 1), at_most_u16(column)) as u16,
                add16(
                    add16(input.y as int, 1),
                    at_most_u16(max(0, row - first_row(app, width, input))),
                ) as u16,
            ),
        )
    } else {
        None
    }
}

/// The application once a frame is drawn: the plan or the transcript is laid out for its area, and
/// the transcript can be selected.
pub open spec fn drawn(app: AppView, body: Rect) -> AppView {
    if app.plan_review {
        app.with_selectable(None, Seq::empty()).plan_viewed(
            max(0, body.width - 2) as u16,
            max(0, body.height - 2) as u16,
        )
    } else {
        let width = max(0, body.width - 2) as u16;
        app.viewed(width, body.height).with_selectable(
            SelectionRegion::of_transcript(body),
            app.shown(width, body.height).map_values(|line: LineView| line_text(line.spans)),
        )
    }
}

/// Whether this is what a body shows of an application.
pub open spec fn body_shows(body: FrameBody, app: AppView, area: Rect) -> bool {
    let width = max(0, area.width - 2) as u16;
    if app.plan_review {
        body matches FrameBody::Plan(lines) && lines.deep_view() == app.with_selectable(
            None,
            Seq::empty(),
        ).plan_shown(width, max(0, area.height - 2) as u16)
    } else {
        body matches FrameBody::Transcript { lines, selection } && lines.deep_view() == app.shown(
            width,
            area.height,
        ) && selection == match (drawn(app, area).text_selection, drawn(app, area).selection_region) {
            (Some(selection), Some(region)) => Some((selection, region)),
            _ => None,
        }
    }
}

/// Whether this is what a frame of `area` shows of an application, with these parts.
pub open spec fn frame_shows(
    content: FrameContent,
    app: App,
    area: Rect,
    areas: FrameAreas,
    body: Rect,
    sidebar: Option<Rect>,
) -> bool {
    &&& content.areas == areas
    &&& content.header.deep_view() == line_of(header_spans(app.deep_view().snapshot))
    &&& content.body_area == body
    &&& body_shows(content.body, app.deep_view(), body)
    &&& match sidebar {
        Some(place) => content.todos matches Some((at, lines)) && at == place && lines.deep_view()
            == panel_lines(app.deep_view().snapshot, place.width),
        None => content.todos is None,
    }
    &&& if candidate_rows(app.deep_view(), area.height) > 0 {
        content.candidates matches Some(lines) && lines.deep_view() == menu_lines(
            app.deep_view(),
            max(0, areas.candidates.height - 2),
        )
    } else {
        content.candidates is None
    }
    &&& content.input_rows.deep_view() == input_rows_of(app, area.width, areas.input)
    &&& (content.input_title@, content.input_color) == input_title_of(app.deep_view())
    &&& content.cursor == cursor_of(app, area.width, areas.input)
    &&& content.status.deep_view() == line_of(status_spans(drawn(app.deep_view(), body)))
}

/// Where the cursor stands on the screen.
fn place_cursor(app: &App, layout: &InputLayout, start: usize, input: Rect) -> (r: Option<
    (u16, u16),
>)
    ensures
        r == if app.approval is None || app.input.text@.len() > 0 {
            Some(
                (
                    add16(
                        add16(input.x as int, 1),
                        at_most_u16(layout.cursor_column as int),
                    ) as u16,
                    add16(
                        add16(input.y as int, 1),
                        at_most_u16(max(0, layout.cursor_row - start)),
                    ) as u16,
                ),
            )
        } else {
            None
        },
{
    if app.approval.is_some() && app.input.as_str().is_empty() {
        return None;
    }
    let row = layout.cursor_row.saturating_sub(start);
    let column: u16 = if layout.cursor_column > 65535 {
        65535
    } else {
        layout.cursor_column as u16
    };
    let row: u16 = if row > 65535 {
        65535
    } else {
        row as u16
    };
    Some(
        (
            input.x.saturating_add(1).saturating_add(column),
            input.y.saturating_add(1).saturating_add(row),
        ),
    )
}

/// Lays out the plan or the transcript for its area.
fn draw_body(app: &mut App, area: Rect) -> (r: FrameBody)
    requires
        old(app).wf(),
    ensures
        final(app).wf(),
        final(app).deep_view() == drawn(old(app).deep_view(), area),
        body_shows(r, old(app).deep_view(), area),
{
    let width = area.width.saturating_sub(2);
    if app.plan_review {
        let nothing: Vec<Line> = Vec::new();
        app.update_selection_content(None, &nothing);
        assert(nothing.deep_view().map_values(|line: LineView| line_text(line.spans))
            =~= Seq::<Seq<char>>::empty());
        FrameBody::Plan(app.visible_plan(width, area.height.saturating_sub(2)))
    } else {
        let lines = app.visible_transcript(width, area.height);
        app.update_selection_content(SelectionRegion::from_transcript_rect(area), &lines);
        let selection = match (app.text_selection, app.selection_region) {
            (Some(selection), Some(region)) => Some((selection, region)),
            _ => None,
        };
        FrameBody::Transcript { lines, selection }
    }
}

/// What a frame shows, once its parts are known.
pub fn draw_parts(
    app: &mut App,
    area: Rect,
    areas: FrameAreas,
    body: Rect,
    sidebar: Option<Rect>,
) -> (r: FrameContent)
    requires
        old(app).wf(),
    ensures
        final(app).wf(),
        final(app).deep_view() == drawn(old(app).deep_view(), body),
        frame_shows(r, *old(app), area, areas, body, sidebar),
{
    let ghost before = *app;
    let layout = InputLayout::new(&app.input, area.width.saturating_sub(2));
    assert(layout.lines.deep_view() == typed_rows(before, area.width));
    assert((layout.cursor_row as int, layout.cursor_column as int) == typed_cursor(
        before,
        area.width,
    ));
    let header = header_line(&app.snapshot);
    let todos = match sidebar {
        Some(place) => Some((place, todo_panel_lines(&app.snapshot, place.width))),
        None => None,
    };
    let candidates = if menu_rows(app, area.height) > 0 {
        Some(slash_candidate_lines(app, areas.candidates.height.saturating_sub(2) as usize))
    } else {
        None
    };
    let (input_title, input_color) = input_title(app);
    let shown: u16 = areas.input.height.saturating_sub(2);
    let rows: usize = if shown == 0 {
        1
    } else {
        shown as usize
    };
    let start = layout.visible_start(rows);
    let input_rows = layout.visible_text(start, rows);
    assert(input_rows.deep_view() == input_rows_of(before, area.width, areas.input));
    let cursor = place_cursor(app, &layout, start, areas.input);
    let shown_body = draw_body(app, body);
    let status = status_line(app);
    FrameContent {
        areas,
        header,
        body_area: body,
        body: shown_body,
        todos,
        candidates,
        input_rows,
        input_title,
        input_color,
        cursor,
        status,
    }
}

/// The parts of a frame from above.
pub open spec fn rows_of(areas: FrameAreas) -> Seq<Rect> {
    seq![areas.header, areas.transcript, areas.candidates, areas.input, areas.status]
}

/// Whether these can be the parts of a frame: each spans its width, and where the todo list stands
/// beside the transcript, both have its height. The parts lie in the frame, none reaching into
/// another, and where there is room they have their lengths.
pub open spec fn divides(
    app: App,
    area: Rect,
    areas: FrameAreas,
    body: Rect,
    sidebar: Option<Rect>,
) -> bool {
    &&& areas.header.x == area.x && areas.header.width == area.width
    &&& areas.transcript.x == area.x && areas.transcript.width == area.width
    &&& areas.candidates.x == area.x && areas.candidates.width == area.width
    &&& areas.input.x == area.x && areas.input.width == area.width
    &&& areas.status.x == area.x && areas.status.width == area.width
    &&& in_order(rows_of(areas), area, true)
    &&& has_room(area, true, frame_rows(app, area)) ==> laid_out(
        rows_of(areas),
        area,
        true,
        frame_rows(app, area),
    )
    &&& if shows_todos(app.deep_view(), areas.transcript) {
        &&& body.y == areas.transcript.y && body.height == areas.transcript.height
        &&& sidebar matches Some(place) && place.y == areas.transcript.y && place.height
            == areas.transcript.height && in_order(seq![body, place], areas.transcript, false)
            && (has_room(
            areas.transcript,
            false,
            body_columns(areas.transcript),
        ) ==> laid_out(
            seq![body, place],
            areas.transcript,
            false,
            body_columns(areas.transcript),
        ))
    } else {
        body == areas.transcript && sidebar is None
    }
}

/// However small a screen is, its frame stays on it: the header is above the transcript, that above
/// the menu, that above the input and that above the status, and the todo list is beside the
/// conversation. No part reaches into another.
pub proof fn law_frame_stays_on_the_screen(
    app: App,
    area: Rect,
    areas: FrameAreas,
    body: Rect,
    sidebar: Option<Rect>,
)
    requires
        divides(app, area, areas, body, sidebar),
    ensures
        area.y <= areas.header.y,
        areas.header.y + areas.header.height <= areas.transcript.y,
        areas.transcript.y + areas.transcript.height <= areas.candidates.y,
        areas.candidates.y + areas.candidates.height <= areas.input.y,
        areas.input.y + areas.input.height <= areas.status.y,
        areas.status.y + areas.status.height <= area.y + area.height,
        area.x <= body.x && body.x + body.width <= area.x + area.width,
        sidebar matches Some(place) ==> body.x + body.width <= place.x && place.x + place.width
            <= area.x + area.width,
{
    let rows = rows_of(areas);
    assert(rows[0] == areas.header && rows[1] == areas.transcript && rows[2] == areas.candidates);
    assert(rows[3] == areas.input && rows[4] == areas.status);
    if let Some(place) = sidebar {
        let columns = seq![body, place];
        assert(columns[0] == body && columns[1] == place);
    }
}

/// Where a frame has room, its parts fill the screen from top to bottom: one row for the header,
/// then the transcript with at least four rows, the menu, the input and one row for the status.
pub proof fn law_frame_fills_the_screen(
    app: App,
    area: Rect,
    areas: FrameAreas,
    body: Rect,
    sidebar: Option<Rect>,
)
    requires
        divides(app, area, areas, body, sidebar),
        has_room(area, true, frame_rows(app, area)),
    ensures
        areas.header.y == area.y && areas.header.height == 1,
        areas.transcript.y == area.y + 1 && areas.transcript.height >= 4,
        areas.candidates.y == areas.transcript.y + areas.transcript.height,
        areas.candidates.height == candidate_rows(app.deep_view(), area.height),
        areas.input.y == areas.candidates.y + areas.candidates.height,
        areas.status.y == areas.input.y + areas.input.height && areas.status.height == 1,
        areas.status.y + 1 == area.y + area.height,
{
    let sizes = frame_rows(app, area);
    let lengths = lengths_in(sizes, area.height as int);
    let least = Seq::new(sizes.len(), |i: int| least_length(sizes[i]));
    let fixed = Seq::new(sizes.len(), |i: int| fixed_length(sizes[i]));
    lemma_total_of_five(least);
    lemma_total_of_five(fixed);
    lemma_total_of_five(lengths);
    let parts = rows_of(areas);
    assert(parts[0] == areas.header && parts[1] == areas.transcript);
    assert(parts[2] == areas.candidates && parts[3] == areas.input && parts[4] == areas.status);
}

/// The sums of the beginnings of five numbers.
proof fn lemma_total_of_five(lengths: Seq<int>)
    requires
        lengths.len() == 5,
    ensures
        total(lengths.take(0)) == 0,
        total(lengths.take(1)) == lengths[0],
        total(lengths.take(2)) == lengths[0] + lengths[1],
        total(lengths.take(3)) == lengths[0] + lengths[1] + lengths[2],
        total(lengths.take(4)) == lengths[0] + lengths[1] + lengths[2] + lengths[3],
        total(lengths) == lengths[0] + lengths[1] + lengths[2] + lengths[3] + lengths[4],
{
    assert(lengths.take(1).drop_last() =~= lengths.take(0));
    assert(total(lengths.take(1)) == total(lengths.take(0)) + lengths[0]);
    assert(lengths.take(2).drop_last() =~= lengths.take(1));
    assert(total(lengths.take(2)) == total(lengths.take(1)) + lengths[1]);
    assert(lengths.take(3).drop_last() =~= lengths.take(2));
    assert(total(lengths.take(3)) == total(lengths.take(2)) + lengths[2]);
    assert(lengths.take(4).drop_last() =~= lengths.take(3));
    assert(total(lengths.take(4)) == total(lengths.take(3)) + lengths[3]);
    assert(lengths.drop_last() =~= lengths.take(4));
}

/// Draws a frame: the screen is divided, and the application laid out in its parts.
pub fn draw(app: &mut App, area: Rect) -> (r: FrameContent)
    requires
        old(app).wf(),
    ensures
        final(app).wf(),
        exists|areas: FrameAreas, body: Rect, sidebar: Option<Rect>|
            #![trigger frame_shows(r, *old(app), area, areas, body, sidebar)]
            divides(*old(app), area, areas, body, sidebar) && frame_shows(
                r,
                *old(app),
                area,
                areas,
                body,
                sidebar,
            ) && final(app).deep_view() == drawn(old(app).deep_view(), body),
{
    let rows = split_area(area, true, &frame_sizes(app, area));
    let areas = FrameAreas {
        header: rows[0],
        transcript: rows[1],
        candidates: rows[2],
        input: rows[3],
        status: rows[4],
    };
    assert(rows@ =~= rows_of(areas));
    let mut body = areas.transcript;
    let mut sidebar: Option<Rect> = None;
    if app.snapshot.todos.len() > 0 && areas.transcript.width >= 72 {
        let columns = split_area(areas.transcript, false, &body_sizes(areas.transcript));
        body = columns[0];
        sidebar = Some(columns[1]);
        assert(columns@ =~= seq![body, columns[1]]);
    }
    assert(divides(*app, area, areas, body, sidebar));
    draw_parts(app, area, areas, body, sidebar)
}

} // verus!
