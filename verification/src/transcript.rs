//! The transcript: messages, tool calls and their results as styled lines.
use crate::protocol::{ToolOutputStream, DEFAULT_MAX_TOOL_OUTPUT_BYTES};
use crate::session::{CoreMessage, CoreToolCall, MessageView, ToolCallView};
use crate::style::{Color, Line, LineView, Span, Style};
use crate::{session, style, text, unicode};
use vstd::prelude::*;
use vstd::string::*;

verus! {

/// How many of the last lines of each stream are shown of output that is folded.
pub const COLLAPSED_LIVE_TAIL_LINES: usize = 4;

/// How many rows of a command are shown while details are folded.
pub const COLLAPSED_COMMAND_LINES: usize = 2;

/// How many rows of a result are shown while details are folded.
pub const COLLAPSED_FILE_OUTPUT_LINES: usize = 8;

/// The rows of a line of text, wrapped; an empty line is one empty row.
pub open spec fn rows_of(source: Seq<char>, width: usize) -> Seq<Seq<char>> {
    if source.len() == 0 {
        seq![Seq::<char>::empty()]
    } else {
        unicode::wrapped_rows(source, width, ""@, ""@)
    }
}

/// The lines of rows in one style.
pub open spec fn styled_rows(rows: Seq<Seq<char>>, style: Style) -> Seq<LineView> {
    rows.map_values(|row: Seq<char>| style::text_line(row, style))
}

/// The lines of one line of text: an empty one is a blank line.
pub open spec fn wrapped_source(source: Seq<char>, style: Style, width: u16) -> Seq<LineView> {
    if source.len() == 0 {
        seq![style::blank_line()]
    } else {
        styled_rows(unicode::wrapped_rows(source, width as usize, ""@, ""@), style)
    }
}

/// The lines of several lines of text.
pub open spec fn wrapped_sources(sources: Seq<Seq<char>>, style: Style, width: u16) -> Seq<
    LineView,
>
    decreases sources.len(),
{
    if sources.len() == 0 {
        Seq::empty()
    } else {
        wrapped_sources(sources.drop_last(), style, width) + wrapped_source(
            sources.last(),
            style,
            width,
        )
    }
}

/// The lines of a text wrapped to a width; none where there is no width.
pub open spec fn wrapped_text(s: Seq<char>, style: Style, width: u16) -> Seq<LineView> {
    if width == 0 {
        Seq::empty()
    } else {
        wrapped_sources(text::split(s, '\n'), style, width)
    }
}

/// Adds one line for each row.
fn push_rows(lines: &mut Vec<Line>, rows: &Vec<String>, style: Style)
    ensures
        final(lines).deep_view() == old(lines).deep_view() + styled_rows(rows.deep_view(), style),
{
    let ghost before = lines.deep_view();
    let ghost shown = styled_rows(rows.deep_view(), style);
    let mut i: usize = 0;
    assert(before + shown.take(0) =~= before);
    while i < rows.len()
        invariant
            shown == styled_rows(rows.deep_view(), style),
            i <= rows@.len(),
            lines.deep_view() == before + shown.take(i as int),
        decreases rows@.len() - i,
    {
        let line = Line::of_text(rows[i].as_str(), style);
        assert(rows.deep_view()[i as int] == rows@[i as int]@);
        style::push_line(lines, line);
        assert(lines.deep_view() =~= before + shown.take(i + 1));
        i += 1;
    }
    assert(shown.take(i as int) =~= shown);
}

/// Adds the lines of a text wrapped to a width.
pub fn push_wrapped_line(lines: &mut Vec<Line>, text: &str, style: Style, width: u16)
    ensures
        final(lines).deep_view() == old(lines).deep_view() + wrapped_text(text@, style, width),
{
    let ghost before = lines.deep_view();
    if width == 0 {
        assert(before + Seq::<LineView>::empty() =~= before);
        return;
    }
    let sources = text::split_by(text, '\n');
    let ghost all = sources.deep_view();
    let mut i: usize = 0;
    assert(before + wrapped_sources(all.take(0), style, width) =~= before);
    while i < sources.len()
        invariant
            all == sources.deep_view(),
            i <= sources@.len(),
            lines.deep_view() == before + wrapped_sources(all.take(i as int), style, width),
        decreases sources@.len() - i,
    {
        let source = sources[i].as_str();
        let ghost shown = wrapped_sources(all.take(i as int), style, width);
        assert(all.take(i + 1).drop_last() =~= all.take(i as int));
        assert(all[i as int] == sources@[i as int]@);
        if source.is_empty() {
            style::push_line(lines, Line::blank());
            assert(lines.deep_view() =~= before + (shown + seq![style::blank_line()]));
        } else {
            let rows = unicode::wrap(source, width as usize, "", "");
            push_rows(lines, &rows, style);
            assert(lines.deep_view() =~= before + (shown + styled_rows(rows.deep_view(), style)));
        }
        i += 1;
    }
    assert(all.take(i as int) =~= all);
}

/// A part of a message: prose or a block of code.
#[derive(Debug, PartialEq, Eq)]
pub enum TranscriptContentPart {
    Text(String),
    Code(String),
}

/// What a part of a message says.
pub enum PartView {
    Text(Seq<char>),
    Code(Seq<char>),
}

impl DeepView for TranscriptContentPart {
    type V = PartView;

    open spec fn deep_view(&self) -> PartView {
        match self {
            TranscriptContentPart::Text(s) => PartView::Text(s@),
            TranscriptContentPart::Code(s) => PartView::Code(s@),
        }
    }
}

/// How far a message is taken apart: its finished parts, the lines of the part at work, and
/// whether that is code.
pub struct PartsState {
    pub parts: Seq<PartView>,
    pub buffer: Seq<Seq<char>>,
    pub in_code: bool,
}

/// Whether a line opens or closes a block of code.
pub open spec fn is_fence(line: Seq<char>) -> bool {
    text::starts_with(text::trimmed_start(line), "```"@)
}

/// The parts with the one at work finished; empty prose is left out.
pub open spec fn flushed(state: PartsState) -> Seq<PartView> {
    let content = text::joined(state.buffer, "\n"@);
    if state.in_code {
        state.parts.push(PartView::Code(content))
    } else if content.len() > 0 {
        state.parts.push(PartView::Text(content))
    } else {
        state.parts
    }
}

/// The state after some lines of a message.
pub open spec fn parts_state(lines: Seq<Seq<char>>) -> PartsState
    decreases lines.len(),
{
    if lines.len() == 0 {
        PartsState { parts: Seq::empty(), buffer: Seq::empty(), in_code: false }
    } else {
        let state = parts_state(lines.drop_last());
        if is_fence(lines.last()) {
            PartsState { parts: flushed(state), buffer: Seq::empty(), in_code: !state.in_code }
        } else {
            PartsState { buffer: state.buffer.push(lines.last()), ..state }
        }
    }
}

/// The parts of a message: prose, and the code between fences.
pub open spec fn content_parts(content: Seq<char>) -> Seq<PartView> {
    flushed(parts_state(text::split(content, '\n')))
}

/// Adds the part at work to the parts.
fn flush_part(parts: &mut Vec<TranscriptContentPart>, buffer: &Vec<String>, in_code: bool)
    ensures
        final(parts).deep_view() == flushed(
            (PartsState { parts: old(parts).deep_view(), buffer: buffer.deep_view(), in_code }),
        ),
{
    let content = text::join(buffer, "\n");
    let ghost before = parts.deep_view();
    if in_code {
        parts.push(TranscriptContentPart::Code(content));
        assert(parts.deep_view() =~= before.push(PartView::Code(content@)));
    } else if !content.as_str().is_empty() {
        parts.push(TranscriptContentPart::Text(content));
        assert(parts.deep_view() =~= before.push(PartView::Text(content@)));
    }
}

/// The parts of a message: prose, and the code between fences.
pub fn transcript_content_parts(content: &str) -> (r: Vec<TranscriptContentPart>)
    ensures
        r.deep_view() == content_parts(content@),
{
    let lines = text::split_by(content, '\n');
    let ghost all = lines.deep_view();
    let mut parts: Vec<TranscriptContentPart> = Vec::new();
    let mut buffer: Vec<String> = Vec::new();
    let mut in_code = false;
    let mut i: usize = 0;
    assert(parts.deep_view() =~= Seq::empty());
    assert(buffer.deep_view() =~= Seq::empty());
    while i < lines.len()
        invariant
            all == lines.deep_view(),
            i <= lines@.len(),
            parts_state(all.take(i as int)) == (PartsState {
                parts: parts.deep_view(),
                buffer: buffer.deep_view(),
                in_code,
            }),
        decreases lines@.len() - i,
    {
        assert(all.take(i + 1).drop_last() =~= all.take(i as int));
        assert(all[i as int] == lines@[i as int]@);
        let start = text::trim_start(lines[i].as_str());
        if text::has_prefix(start.as_str(), "```") {
            flush_part(&mut parts, &buffer, in_code);
            buffer = Vec::new();
            assert(buffer.deep_view() =~= Seq::empty());
            in_code = !in_code;
        } else {
            let ghost before = buffer.deep_view();
            buffer.push(lines[i].clone());
            assert(buffer.deep_view() =~= before.push(all[i as int]));
        }
        i += 1;
    }
    assert(all.take(i as int) =~= all);
    flush_part(&mut parts, &buffer, in_code);
    parts
}

/// A line on a background, filled up with spaces to a width.
pub open spec fn filled(line: LineView, background: Color, width: u16) -> LineView {
    let occupied = style::spans_columns(line.spans);
    let spans = if occupied < width {
        line.spans.push(
            style::span_of(style::repeated(' ', (width - occupied) as nat), Style::plain()),
        )
    } else {
        line.spans
    };
    LineView { spans, style: Style::plain().bg(background) }
}

/// A line on a background, filled up with spaces to a width.
pub fn fill_transcript_background(line: Line, background: Color, width: u16) -> (r: Line)
    ensures
        r.deep_view() == filled(line.deep_view(), background, width),
{
    let occupied = line.width();
    let mut spans = line.spans;
    if occupied < width as usize {
        let padding = style::repeat_char(' ', width as usize - occupied);
        style::push_span(&mut spans, padding.as_str(), Style::plain());
    }
    Line { spans, style: Style::plain().bg(background) }
}

/// The rows of several lines of text.
pub open spec fn all_rows(sources: Seq<Seq<char>>, width: usize) -> Seq<Seq<char>>
    decreases sources.len(),
{
    if sources.len() == 0 {
        Seq::empty()
    } else {
        all_rows(sources.drop_last(), width) + rows_of(sources.last(), width)
    }
}

/// The colours of a message.
#[derive(Clone, Copy, Debug, PartialEq, Eq, Structural)]
pub struct MessageColors {
    pub marker: Color,
    pub text: Color,
    pub background: Color,
}

/// One row of prose behind a marker.
pub open spec fn compact_row(
    prefix: Seq<char>,
    row: Seq<char>,
    colors: MessageColors,
    width: u16,
) -> LineView {
    filled(
        style::line_of(
            seq![
                style::span_of(prefix, Style::plain().fg(colors.marker).bold()),
                style::span_of(row, Style::plain().fg(colors.text)),
            ],
        ),
        colors.background,
        width,
    )
}

/// The columns that are left behind a marker of two columns, at least one.
pub open spec fn behind_marker(width: u16) -> usize {
    if width <= 3 {
        1
    } else {
        (width - 2) as usize
    }
}

/// The rows of prose: the first one behind the marker, the others behind two spaces.
pub open spec fn compact_rows(
    rows: Seq<Seq<char>>,
    marker: Seq<char>,
    colors: MessageColors,
    width: u16,
) -> Seq<LineView> {
    Seq::new(
        rows.len(),
        |i: int|
            compact_row(
                if i == 0 {
                    marker
                } else {
                    "  "@
                },
                rows[i],
                colors,
                width,
            ),
    )
}

/// The lines of prose.
pub open spec fn compact_text(
    s: Seq<char>,
    marker: Seq<char>,
    colors: MessageColors,
    width: u16,
) -> Seq<LineView> {
    if width == 0 {
        Seq::empty()
    } else {
        compact_rows(
            all_rows(text::split(s, '\n'), behind_marker(width)),
            marker,
            colors,
            width,
        )
    }
}

/// The rows of a text wrapped to a width.
fn wrap_all(s: &str, width: usize) -> (r: Vec<String>)
    ensures
        r.deep_view() == all_rows(text::split(s@, '\n'), width),
{
    let sources = text::split_by(s, '\n');
    let ghost all = sources.deep_view();
    let mut out: Vec<String> = Vec::new();
    let mut i: usize = 0;
    assert(out.deep_view() =~= all_rows(all.take(0), width));
    while i < sources.len()
        invariant
            all == sources.deep_view(),
            i <= sources@.len(),
            out.deep_view() == all_rows(all.take(i as int), width),
        decreases sources@.len() - i,
    {
        let source = sources[i].as_str();
        let ghost before = out.deep_view();
        assert(all.take(i + 1).drop_last() =~= all.take(i as int));
        assert(all[i as int] == sources@[i as int]@);
        if source.is_empty() {
            out.push(String::new());
            assert(out.deep_view() =~= before + seq![Seq::<char>::empty()]);
        } else {
            let mut rows = unicode::wrap(source, width, "", "");
            let ghost more = rows.deep_view();
            out.append(&mut rows);
            assert(out.deep_view() =~= before + more);
        }
        i += 1;
    }
    assert(all.take(i as int) =~= all);
    out
}

/// Adds the lines of prose.
pub fn push_compact_text(
    lines: &mut Vec<Line>,
    text: &str,
    marker: &str,
    colors: MessageColors,
    width: u16,
)
    ensures
        final(lines).deep_view() == old(lines).deep_view() + compact_text(
            text@,
            marker@,
            colors,
            width,
        ),
{
    let ghost before = lines.deep_view();
    if width == 0 {
        assert(before + Seq::<LineView>::empty() =~= before);
        return;
    }
    let available: usize = if width <= 3 {
        1
    } else {
        width as usize - 2
    };
    let rows = wrap_all(text, available);
    let ghost shown = compact_rows(rows.deep_view(), marker@, colors, width);
    let mut i: usize = 0;
    assert(before + shown.take(0) =~= before);
    while i < rows.len()
        invariant
            shown == compact_rows(rows.deep_view(), marker@, colors, width),
            i <= rows@.len(),
            lines.deep_view() == before + shown.take(i as int),
        decreases rows@.len() - i,
    {
        let prefix = if i == 0 {
            marker
        } else {
            "  "
        };
        let mut spans: Vec<Span> = Vec::new();
        assert(spans.deep_view() =~= Seq::empty());
        style::push_span(&mut spans, prefix, Style::plain().fg(colors.marker).bold());
        style::push_span(&mut spans, rows[i].as_str(), Style::plain().fg(colors.text));
        assert(rows.deep_view()[i as int] == rows@[i as int]@);
        assert(spans.deep_view() =~= seq![
            style::span_of(prefix@, Style::plain().fg(colors.marker).bold()),
            style::span_of(rows@[i as int]@, Style::plain().fg(colors.text)),
        ]);
        let line = fill_transcript_background(Line::of_spans(spans), colors.background, width);
        style::push_line(lines, line);
        assert(lines.deep_view() =~= before + shown.take(i + 1));
        i += 1;
    }
    assert(shown.take(i as int) =~= shown);
}

/// The lines with a blank line at the end, unless there is one or there are no lines.
pub open spec fn with_gap(lines: Seq<LineView>) -> Seq<LineView> {
    if lines.len() > 0 && lines.last().spans.len() > 0 {
        lines.push(style::blank_line())
    } else {
        lines
    }
}

/// Adds a blank line, unless there is one or there are no lines.
pub fn push_transcript_gap(lines: &mut Vec<Line>)
    ensures
        final(lines).deep_view() == with_gap(old(lines).deep_view()),
{
    if lines.len() > 0 && lines[lines.len() - 1].spans.len() > 0 {
        style::push_line(lines, Line::blank());
    }
}

/// The columns inside the frame of a block.
pub open spec fn block_content_width(width: u16) -> u16 {
    if width >= 5 {
        (width - 4) as u16
    } else if width > 2 {
        (width - 2) as u16
    } else {
        width
    }
}

/// The columns inside the frame of a block.
pub fn transcript_block_content_width(width: u16) -> (r: u16)
    ensures
        r == block_content_width(width),
{
    if width >= 5 {
        width - 4
    } else if width > 2 {
        width - 2
    } else {
        width
    }
}

/// The style of a block's frame.
pub open spec fn border_style(background: Color, border: Color) -> Style {
    Style::plain().fg(border).bg(background)
}

/// The upper or lower edge of a block.
pub open spec fn edge_line(
    left: Seq<char>,
    right: Seq<char>,
    background: Color,
    border: Color,
    width: u16,
) -> LineView {
    LineView {
        spans: seq![
            style::span_of(left, border_style(background, border)),
            style::span_of(
                style::repeated('─', (width - 2) as nat),
                border_style(background, border),
            ),
            style::span_of(right, border_style(background, border)),
        ],
        style: Style::plain().bg(background),
    }
}

/// A line inside a frame that is `width` columns wide.
pub open spec fn framed_line(
    line: LineView,
    background: Color,
    border: Color,
    width: u16,
) -> LineView {
    let occupied = crate::input::sat_add(style::spans_columns(line.spans), 1);
    let side = style::span_of("│"@, border_style(background, border));
    let head = seq![side, style::span_of(" "@, Style::plain())] + line.spans;
    let body = if occupied < width - 2 {
        head.push(
            style::span_of(style::repeated(' ', (width - 2 - occupied) as nat), Style::plain()),
        )
    } else {
        head
    };
    LineView { spans: body.push(side), style: Style::plain().bg(background) }
}

/// A line of a block that is too narrow for a frame.
pub open spec fn narrow_line(line: LineView, background: Color, width: u16) -> LineView {
    let padding: int = if width > 2 {
        1
    } else {
        0
    };
    let occupied = crate::input::sat_add(style::spans_columns(line.spans), padding);
    let head = if width > 2 {
        seq![style::span_of(" "@, Style::plain())] + line.spans
    } else {
        line.spans
    };
    let spans = if occupied < width {
        head.push(style::span_of(style::repeated(' ', (width - occupied) as nat), Style::plain()))
    } else {
        head
    };
    LineView { spans, style: Style::plain().bg(background) }
}

/// A block in its frame; below five columns it has none.
pub open spec fn styled_block(
    block: Seq<LineView>,
    background: Color,
    border: Color,
    width: u16,
) -> Seq<LineView> {
    if width < 5 {
        block.map_values(|line: LineView| narrow_line(line, background, width))
    } else {
        seq![edge_line("╭"@, "╮"@, background, border, width)] + block.map_values(
            |line: LineView| framed_line(line, background, border, width),
        ) + seq![edge_line("╰"@, "╯"@, background, border, width)]
    }
}

/// Adds all spans of another list.
fn append_spans(spans: &mut Vec<Span>, more: Vec<Span>)
    ensures
        final(spans).deep_view() == old(spans).deep_view() + more.deep_view(),
{
    let ghost before = spans.deep_view();
    let mut rest = more;
    spans.append(&mut rest);
    assert(spans.deep_view() =~= before + more.deep_view());
}

/// The upper or lower edge of a block.
fn block_edge(left: &str, right: &str, background: Color, border: Color, width: u16) -> (r: Line)
    requires
        width >= 5,
    ensures
        r.deep_view() == edge_line(left@, right@, background, border, width),
{
    let frame = Style::plain().fg(border).bg(background);
    let mut spans: Vec<Span> = Vec::new();
    assert(spans.deep_view() =~= Seq::empty());
    style::push_span(&mut spans, left, frame);
    let horizontal = style::repeat_char('─', width as usize - 2);
    style::push_span(&mut spans, horizontal.as_str(), frame);
    style::push_span(&mut spans, right, frame);
    let r = Line { spans, style: Style::plain().bg(background) };
    assert(r.deep_view().spans =~= edge_line(left@, right@, background, border, width).spans);
    r
}

/// A line inside a frame.
fn frame_line(line: Line, background: Color, border: Color, width: u16) -> (r: Line)
    requires
        width >= 5,
    ensures
        r.deep_view() == framed_line(line.deep_view(), background, border, width),
{
    let frame = Style::plain().fg(border).bg(background);
    let occupied = line.width().saturating_add(1);
    let inner: usize = width as usize - 2;
    let mut spans: Vec<Span> = Vec::new();
    assert(spans.deep_view() =~= Seq::empty());
    style::push_span(&mut spans, "│", frame);
    style::push_span(&mut spans, " ", Style::plain());
    assert(spans.deep_view() =~= seq![
        style::span_of("│"@, frame),
        style::span_of(" "@, Style::plain()),
    ]);
    append_spans(&mut spans, line.spans);
    if occupied < inner {
        let padding = style::repeat_char(' ', inner - occupied);
        style::push_span(&mut spans, padding.as_str(), Style::plain());
    }
    style::push_span(&mut spans, "│", frame);
    Line { spans, style: Style::plain().bg(background) }
}

/// A line of a block without a frame.
fn pad_narrow_line(line: Line, background: Color, width: u16) -> (r: Line)
    ensures
        r.deep_view() == narrow_line(line.deep_view(), background, width),
{
    let padding: usize = if width > 2 {
        1
    } else {
        0
    };
    let occupied = line.width().saturating_add(padding);
    let mut spans: Vec<Span> = Vec::new();
    assert(spans.deep_view() =~= Seq::empty());
    if width > 2 {
        style::push_span(&mut spans, " ", Style::plain());
        assert(spans.deep_view() =~= seq![style::span_of(" "@, Style::plain())]);
    }
    let ghost head = spans.deep_view();
    append_spans(&mut spans, line.spans);
    assert(width <= 2 ==> head + line.spans.deep_view() =~= line.spans.deep_view());
    if occupied < width as usize {
        let fill = style::repeat_char(' ', width as usize - occupied);
        style::push_span(&mut spans, fill.as_str(), Style::plain());
    }
    Line { spans, style: Style::plain().bg(background) }
}

/// A block in its frame.
pub fn style_transcript_block(
    block: Vec<Line>,
    background: Color,
    border_color: Color,
    width: u16,
) -> (r: Vec<Line>)
    ensures
        r.deep_view() == styled_block(block.deep_view(), background, border_color, width),
{
    let ghost all = block.deep_view();
    let mut styled: Vec<Line> = Vec::new();
    assert(styled.deep_view() =~= Seq::empty());
    if width >= 5 {
        style::push_line(&mut styled, block_edge("╭", "╮", background, border_color, width));
    }
    let ghost head = styled.deep_view();
    let ghost shown = all.map_values(
        |line: LineView|
            if width < 5 {
                narrow_line(line, background, width)
            } else {
                framed_line(line, background, border_color, width)
            },
    );
    let mut i: usize = 0;
    assert(head + shown.take(0) =~= head);
    while i < block.len()
        invariant
            all == block.deep_view(),
            shown == all.map_values(
                |line: LineView|
                    if width < 5 {
                        narrow_line(line, background, width)
                    } else {
                        framed_line(line, background, border_color, width)
                    },
            ),
            i <= block@.len(),
            styled.deep_view() == head + shown.take(i as int),
        decreases block@.len() - i,
    {
        let line = block[i].clone();
        assert(all[i as int] == line.deep_view());
        let dressed = if width < 5 {
            pad_narrow_line(line, background, width)
        } else {
            frame_line(line, background, border_color, width)
        };
        style::push_line(&mut styled, dressed);
        assert(styled.deep_view() =~= head + shown.take(i + 1));
        i += 1;
    }
    assert(shown.take(i as int) =~= shown);
    if width >= 5 {
        style::push_line(&mut styled, block_edge("╰", "╯", background, border_color, width));
    }
    assert(styled.deep_view() =~= styled_block(all, background, border_color, width));
    styled
}

/// The lines with a block in its frame and a gap behind it; an empty block adds nothing.
pub open spec fn with_block(
    lines: Seq<LineView>,
    block: Seq<LineView>,
    background: Color,
    border: Color,
    width: u16,
) -> Seq<LineView> {
    if block.len() == 0 {
        lines
    } else {
        with_gap(lines + styled_block(block, background, border, width))
    }
}

/// Adds a block in its frame and a gap behind it.
pub fn push_transcript_block(
    lines: &mut Vec<Line>,
    block: Vec<Line>,
    background: Color,
    border_color: Color,
    width: u16,
)
    ensures
        final(lines).deep_view() == with_block(
            old(lines).deep_view(),
            block.deep_view(),
            background,
            border_color,
            width,
        ),
{
    if block.len() == 0 {
        return;
    }
    let styled = style_transcript_block(block, background, border_color, width);
    style::append_lines(lines, styled);
    push_transcript_gap(lines);
}

/// The lines with the first parts of a message, and whether its marker has been shown.
pub open spec fn message_parts(
    lines: Seq<LineView>,
    parts: Seq<PartView>,
    marker: Seq<char>,
    colors: MessageColors,
    width: u16,
) -> (Seq<LineView>, bool)
    decreases parts.len(),
{
    if parts.len() == 0 {
        (lines, false)
    } else {
        let (before, marked) = message_parts(lines, parts.drop_last(), marker, colors, width);
        match parts.last() {
            PartView::Text(s) => (
                with_gap(
                    before + compact_text(
                        s,
                        if marked {
                            "  "@
                        } else {
                            marker
                        },
                        colors,
                        width,
                    ),
                ),
                true,
            ),
            PartView::Code(s) => (
                with_block(
                    before,
                    wrapped_text(
                        s,
                        Style::plain().fg(colors.text),
                        block_content_width(width),
                    ),
                    colors.background,
                    colors.marker,
                    width,
                ),
                marked,
            ),
        }
    }
}

/// The lines with a message: its prose behind the marker, its code in frames.
pub open spec fn with_message(
    lines: Seq<LineView>,
    content: Seq<char>,
    marker: Seq<char>,
    colors: MessageColors,
    width: u16,
) -> Seq<LineView> {
    message_parts(lines, content_parts(content), marker, colors, width).0
}

/// Adds a message.
pub fn push_human_message(
    lines: &mut Vec<Line>,
    content: &str,
    marker: &str,
    colors: MessageColors,
    width: u16,
)
    ensures
        final(lines).deep_view() == with_message(
            old(lines).deep_view(),
            content@,
            marker@,
            colors,
            width,
        ),
{
    let ghost start = lines.deep_view();
    let parts = transcript_content_parts(content);
    let ghost all = parts.deep_view();
    let mut marked = false;
    let mut i: usize = 0;
    while i < parts.len()
        invariant
            all == parts.deep_view(),
            i <= parts@.len(),
            (lines.deep_view(), marked) == message_parts(
                start,
                all.take(i as int),
                marker@,
                colors,
                width,
            ),
        decreases parts@.len() - i,
    {
        assert(all.take(i + 1).drop_last() =~= all.take(i as int));
        assert(all[i as int] == parts@[i as int].deep_view());
        match &parts[i] {
            TranscriptContentPart::Text(prose) => {
                let shown = if marked {
                    "  "
                } else {
                    marker
                };
                push_compact_text(lines, prose.as_str(), shown, colors, width);
                push_transcript_gap(lines);
                marked = true;
            },
            TranscriptContentPart::Code(code) => {
                let mut block: Vec<Line> = Vec::new();
                assert(block.deep_view() =~= Seq::empty());
                push_wrapped_line(
                    &mut block,
                    code.as_str(),
                    Style::plain().fg(colors.text),
                    transcript_block_content_width(width),
                );
                assert(block.deep_view() =~= wrapped_text(
                    code@,
                    Style::plain().fg(colors.text),
                    block_content_width(width),
                ));
                push_transcript_block(lines, block, colors.background, colors.marker, width);
            },
        }
        i += 1;
    }
    assert(all.take(i as int) =~= all);
}

/// The lines of one line of text behind two spaces.
pub open spec fn indented_source(source: Seq<char>, style: Style, width: u16) -> Seq<LineView> {
    if source.len() == 0 {
        seq![style::text_line("  "@, style)]
    } else {
        styled_rows(unicode::wrapped_rows(source, width as usize, "  "@, "  "@), style)
    }
}

/// The lines of several lines of text behind two spaces.
pub open spec fn indented_sources(sources: Seq<Seq<char>>, style: Style, width: u16) -> Seq<
    LineView,
>
    decreases sources.len(),
{
    if sources.len() == 0 {
        Seq::empty()
    } else {
        indented_sources(sources.drop_last(), style, width) + indented_source(
            sources.last(),
            style,
            width,
        )
    }
}

/// The lines of a text behind two spaces, wrapped to a width; none where there is no width.
pub open spec fn indented_text(s: Seq<char>, style: Style, width: u16) -> Seq<LineView> {
    if width == 0 {
        Seq::empty()
    } else {
        indented_sources(text::split(s, '\n'), style, width)
    }
}

/// The lines of a text behind two spaces, wrapped to a width.
pub fn indented_wrapped_lines(text: &str, style: Style, width: u16) -> (r: Vec<Line>)
    ensures
        r.deep_view() == indented_text(text@, style, width),
{
    let mut lines: Vec<Line> = Vec::new();
    assert(lines.deep_view() =~= Seq::empty());
    if width == 0 {
        return lines;
    }
    let sources = text::split_by(text, '\n');
    let ghost all = sources.deep_view();
    let mut i: usize = 0;
    assert(indented_sources(all.take(0), style, width) =~= Seq::empty());
    while i < sources.len()
        invariant
            all == sources.deep_view(),
            i <= sources@.len(),
            lines.deep_view() == indented_sources(all.take(i as int), style, width),
        decreases sources@.len() - i,
    {
        let source = sources[i].as_str();
        let ghost shown = lines.deep_view();
        assert(all.take(i + 1).drop_last() =~= all.take(i as int));
        assert(all[i as int] == sources@[i as int]@);
        if source.is_empty() {
            style::push_line(&mut lines, Line::of_text("  ", style));
            assert(lines.deep_view() =~= shown + seq![style::text_line("  "@, style)]);
        } else {
            let rows = unicode::wrap(source, width as usize, "  ", "  ");
            push_rows(&mut lines, &rows, style);
        }
        i += 1;
    }
    assert(all.take(i as int) =~= all);
    lines
}

/// The last `count` items.
pub open spec fn last_items(items: Seq<Seq<char>>, count: nat) -> Seq<Seq<char>> {
    if items.len() <= count {
        items
    } else {
        items.skip(items.len() - count)
    }
}

/// The last lines of a text.
pub open spec fn tail_of(s: Seq<char>, count: nat) -> Seq<char> {
    text::joined(last_items(text::lines_of(s), count), "\n"@)
}

/// The last lines of a text.
fn last_lines(s: &str, count: usize) -> (r: String)
    ensures
        r@ == tail_of(s@, count as nat),
{
    let all = text::lines(s);
    let from: usize = if all.len() <= count {
        0
    } else {
        all.len() - count
    };
    let mut kept: Vec<String> = Vec::new();
    let mut i: usize = from;
    assert(kept.deep_view() =~= Seq::empty());
    while i < all.len()
        invariant
            from <= i <= all@.len(),
            kept.deep_view() == all.deep_view().subrange(from as int, i as int),
        decreases all@.len() - i,
    {
        let ghost before = kept.deep_view();
        kept.push(all[i].clone());
        assert(kept.deep_view() =~= before.push(all@[i as int]@));
        assert(kept.deep_view() =~= all.deep_view().subrange(from as int, i + 1));
        i += 1;
    }
    assert(kept.deep_view() =~= last_items(text::lines_of(s@), count as nat));
    text::join(&kept, "\n")
}

/// The last lines of bytes.
pub fn tail_text(bytes: &[u8], lines: usize) -> (r: String)
    ensures
        r@ == tail_of(unicode::lossy(bytes@), lines as nat),
{
    let text = unicode::text_lossy(bytes);
    last_lines(text.as_str(), lines)
}

/// The output of a tool that still runs.
#[derive(Debug, PartialEq, Eq)]
pub struct LiveToolOutput {
    pub call_id: String,
    pub label: String,
    pub stdout: Vec<u8>,
    pub stderr: Vec<u8>,
}

/// What is known of a tool that still runs.
#[verifier::ext_equal]
pub struct LiveToolView {
    pub call_id: Seq<char>,
    pub label: Seq<char>,
    pub stdout: Seq<u8>,
    pub stderr: Seq<u8>,
}

impl DeepView for LiveToolOutput {
    type V = LiveToolView;

    open spec fn deep_view(&self) -> LiveToolView {
        LiveToolView {
            call_id: self.call_id@,
            label: self.label@,
            stdout: self.stdout@,
            stderr: self.stderr@,
        }
    }
}

/// The last bytes of `bytes`, at most as many as are kept of a stream.
pub open spec fn kept_output(bytes: Seq<u8>) -> Seq<u8> {
    if bytes.len() <= DEFAULT_MAX_TOOL_OUTPUT_BYTES {
        bytes
    } else {
        bytes.skip(bytes.len() - DEFAULT_MAX_TOOL_OUTPUT_BYTES)
    }
}

/// Adds bytes and drops from the front what is too much.
fn append_bounded(kept: &mut Vec<u8>, bytes: &[u8])
    ensures
        final(kept)@ == kept_output(old(kept)@ + bytes@),
{
    let ghost before = kept@;
    kept.extend_from_slice(bytes);
    assert(kept@ =~= before + bytes@);
    if kept.len() > DEFAULT_MAX_TOOL_OUTPUT_BYTES {
        let excess: usize = kept.len() - DEFAULT_MAX_TOOL_OUTPUT_BYTES;
        let rest = kept.split_off(excess);
        *kept = rest;
    }
}

impl LiveToolOutput {
    /// No output is kept beyond the limit.
    pub open spec fn wf(&self) -> bool {
        self.stdout@.len() <= DEFAULT_MAX_TOOL_OUTPUT_BYTES && self.stderr@.len()
            <= DEFAULT_MAX_TOOL_OUTPUT_BYTES
    }

    /// A tool that has begun.
    pub fn new(call_id: String, label: String) -> (r: Self)
        ensures
            r.call_id == call_id,
            r.label == label,
            r.stdout@ == Seq::<u8>::empty(),
            r.stderr@ == Seq::<u8>::empty(),
            r.wf(),
    {
        LiveToolOutput { call_id, label, stdout: Vec::new(), stderr: Vec::new() }
    }

    /// Adds a piece of one stream; only the end of each stream is kept.
    pub fn append(&mut self, stream: ToolOutputStream, bytes: &[u8])
        requires
            old(self).wf(),
        ensures
            final(self).wf(),
            final(self).call_id == old(self).call_id,
            final(self).label == old(self).label,
            stream == ToolOutputStream::Stdout ==> final(self).stdout@ == kept_output(
                old(self).stdout@ + bytes@,
            ) && final(self).stderr == old(self).stderr,
            stream == ToolOutputStream::Stderr ==> final(self).stderr@ == kept_output(
                old(self).stderr@ + bytes@,
            ) && final(self).stdout == old(self).stdout,
    {
        match stream {
            ToolOutputStream::Stdout => append_bounded(&mut self.stdout, bytes),
            ToolOutputStream::Stderr => append_bounded(&mut self.stderr, bytes),
        }
    }
}

/// The style of notes on what is shown.
pub open spec fn note_style() -> Style {
    Style::plain().fg(style::color_muted()).dim()
}

/// The lines of one stream of a running tool: all of it, or its last lines.
pub open spec fn stream_lines(
    name: Seq<char>,
    bytes: Seq<u8>,
    color: Color,
    width: u16,
    expanded: bool,
) -> Seq<LineView> {
    if bytes.len() == 0 {
        Seq::empty()
    } else {
        let content = if expanded {
            unicode::lossy(bytes)
        } else {
            tail_of(unicode::lossy(bytes), COLLAPSED_LIVE_TAIL_LINES as nat)
        };
        let heading = if expanded {
            "  "@ + name
        } else {
            "  "@ + name + " tail"@
        };
        seq![style::text_line(heading, note_style())] + indented_text(
            content,
            Style::plain().fg(color),
            width,
        )
    }
}

/// The lines of a running tool.
pub open spec fn live_tool_lines(live: LiveToolView, width: u16, expanded: bool) -> Seq<
    LineView,
> {
    let inner = block_content_width(width);
    let block = seq![
        style::text_line(
            "└ Running · "@ + live.label + "  #"@ + live.call_id,
            Style::plain().fg(style::color_tool()).bold(),
        ),
    ] + stream_lines("stdout"@, live.stdout, style::color_text(), inner, expanded) + stream_lines(
        "stderr"@,
        live.stderr,
        style::color_error(),
        inner,
        expanded,
    );
    styled_block(block, style::color_tool_background(), style::color_tool(), width)
}

/// Adds the lines of one stream of a running tool.
fn push_stream_lines(
    block: &mut Vec<Line>,
    name: &str,
    bytes: &Vec<u8>,
    color: Color,
    width: u16,
    expanded: bool,
)
    ensures
        final(block).deep_view() == old(block).deep_view() + stream_lines(
            name@,
            bytes@,
            color,
            width,
            expanded,
        ),
{
    let ghost before = block.deep_view();
    if bytes.len() == 0 {
        assert(before + Seq::<LineView>::empty() =~= before);
        return;
    }
    let content = if expanded {
        unicode::text_lossy(bytes.as_slice())
    } else {
        tail_text(bytes.as_slice(), COLLAPSED_LIVE_TAIL_LINES)
    };
    let mut heading = text::cat("  ", name);
    if !expanded {
        heading.append(" tail");
    }
    let note = Style::plain().fg(style::color_muted()).dim();
    style::push_line(block, Line::of_text(heading.as_str(), note));
    let rest = indented_wrapped_lines(content.as_str(), Style::plain().fg(color), width);
    style::append_lines(block, rest);
    assert(block.deep_view() =~= before + stream_lines(name@, bytes@, color, width, expanded));
}

/// The lines of a running tool.
pub fn build_live_tool_lines(live: &LiveToolOutput, width: u16, expanded: bool) -> (r: Vec<Line>)
    ensures
        r.deep_view() == live_tool_lines(live.deep_view(), width, expanded),
{
    let inner = transcript_block_content_width(width);
    let mut heading = text::cat("└ Running · ", live.label.as_str());
    heading.append("  #");
    heading.append(live.call_id.as_str());
    let mut block: Vec<Line> = Vec::new();
    assert(block.deep_view() =~= Seq::empty());
    let bold = Style::plain().fg(style::color_tool()).bold();
    style::push_line(&mut block, Line::of_text(heading.as_str(), bold));
    assert(block.deep_view() =~= seq![style::text_line(heading@, bold)]);
    push_stream_lines(
        &mut block,
        "stdout",
        &live.stdout,
        style::color_text(),
        inner,
        expanded,
    );
    push_stream_lines(
        &mut block,
        "stderr",
        &live.stderr,
        style::color_error(),
        inner,
        expanded,
    );
    style_transcript_block(block, style::color_tool_background(), style::color_tool(), width)
}

/// The lines of one search result: its first row behind a bullet.
pub open spec fn grep_rows(rows: Seq<Seq<char>>, style: Style) -> Seq<LineView> {
    Seq::new(
        rows.len(),
        |i: int|
            style::line_of(
                seq![
                    style::span_of(
                        if i == 0 {
                            "  • "@
                        } else {
                            "    "@
                        },
                        style.bold(),
                    ),
                    style::span_of(rows[i], style),
                ],
            ),
    )
}

/// The lines of several search results; those of white space alone are left out.
pub open spec fn grep_sources(sources: Seq<Seq<char>>, style: Style, width: usize) -> Seq<LineView>
    decreases sources.len(),
{
    if sources.len() == 0 {
        Seq::empty()
    } else {
        let before = grep_sources(sources.drop_last(), style, width);
        if text::trimmed(sources.last()).len() == 0 {
            before
        } else {
            before + grep_rows(
                unicode::wrapped_rows(sources.last(), width, ""@, ""@),
                style,
            )
        }
    }
}

/// The lines of search results.
pub open spec fn grep_lines(content: Seq<char>, style: Style, width: u16) -> Seq<LineView> {
    if width == 0 {
        Seq::empty()
    } else {
        grep_sources(text::lines_of(content), style, behind_marker(width))
    }
}

/// Adds the rows of one search result.
fn push_grep_rows(lines: &mut Vec<Line>, rows: &Vec<String>, style: Style)
    ensures
        final(lines).deep_view() == old(lines).deep_view() + grep_rows(rows.deep_view(), style),
{
    let ghost before = lines.deep_view();
    let ghost shown = grep_rows(rows.deep_view(), style);
    let mut i: usize = 0;
    assert(before + shown.take(0) =~= before);
    while i < rows.len()
        invariant
            shown == grep_rows(rows.deep_view(), style),
            i <= rows@.len(),
            lines.deep_view() == before + shown.take(i as int),
        decreases rows@.len() - i,
    {
        let prefix = if i == 0 {
            "  • "
        } else {
            "    "
        };
        let mut spans: Vec<Span> = Vec::new();
        assert(spans.deep_view() =~= Seq::empty());
        style::push_span(&mut spans, prefix, style.bold());
        style::push_span(&mut spans, rows[i].as_str(), style);
        assert(rows.deep_view()[i as int] == rows@[i as int]@);
        assert(spans.deep_view() =~= shown[i as int].spans);
        style::push_line(lines, Line::of_spans(spans));
        assert(lines.deep_view() =~= before + shown.take(i + 1));
        i += 1;
    }
    assert(shown.take(i as int) =~= shown);
}

/// The lines of search results.
pub fn build_grep_result_lines(content: &str, style: Style, width: u16) -> (r: Vec<Line>)
    ensures
        r.deep_view() == grep_lines(content@, style, width),
{
    let mut lines: Vec<Line> = Vec::new();
    assert(lines.deep_view() =~= Seq::empty());
    if width == 0 {
        return lines;
    }
    let available: usize = if width <= 3 {
        1
    } else {
        width as usize - 2
    };
    let sources = text::lines(content);
    let ghost all = sources.deep_view();
    let mut i: usize = 0;
    assert(grep_sources(all.take(0), style, available) =~= Seq::empty());
    while i < sources.len()
        invariant
            all == sources.deep_view(),
            i <= sources@.len(),
            lines.deep_view() == grep_sources(all.take(i as int), style, available),
        decreases sources@.len() - i,
    {
        let source = sources[i].as_str();
        assert(all.take(i + 1).drop_last() =~= all.take(i as int));
        assert(all[i as int] == sources@[i as int]@);
        if text::char_count(text::trim(source).as_str()) > 0 {
            let rows = unicode::wrap(source, available, "", "");
            push_grep_rows(&mut lines, &rows, style);
        }
        i += 1;
    }
    assert(all.take(i as int) =~= all);
    lines
}

/// The lines of the end of one finished stream.
pub open spec fn finished_stream(name: Seq<char>, s: Seq<char>, color: Color, width: u16) -> Seq<
    LineView,
> {
    if s.len() == 0 {
        Seq::empty()
    } else {
        seq![style::text_line("  "@ + name, note_style())] + indented_text(
            tail_of(s, COLLAPSED_LIVE_TAIL_LINES as nat),
            Style::plain().fg(color),
            width,
        )
    }
}

/// What of a command's output went to its two streams.
pub open spec fn output_streams(content: Seq<char>) -> (Seq<char>, Seq<char>) {
    let mark = "\n[stderr]\n"@;
    match text::find_from(content, mark, 0) {
        Some(at) => (
            content.subrange(0, at),
            content.subrange(at + mark.len(), content.len() as int),
        ),
        None => (content, Seq::empty()),
    }
}

/// The lines of the end of a command's output.
pub open spec fn bash_tail(content: Seq<char>, width: u16) -> Seq<LineView> {
    let (stdout, stderr) = output_streams(content);
    finished_stream("stdout tail"@, stdout, style::color_text(), width) + finished_stream(
        "stderr tail"@,
        stderr,
        style::color_error(),
        width,
    )
}

/// Adds the lines of the end of one finished stream.
fn push_finished_stream(lines: &mut Vec<Line>, name: &str, s: &str, color: Color, width: u16)
    ensures
        final(lines).deep_view() == old(lines).deep_view() + finished_stream(
            name@,
            s@,
            color,
            width,
        ),
{
    let ghost before = lines.deep_view();
    if s.is_empty() {
        assert(before + Seq::<LineView>::empty() =~= before);
        return;
    }
    let heading = text::cat("  ", name);
    let note = Style::plain().fg(style::color_muted()).dim();
    style::push_line(lines, Line::of_text(heading.as_str(), note));
    let tail = last_lines(s, COLLAPSED_LIVE_TAIL_LINES);
    style::append_lines(
        lines,
        indented_wrapped_lines(tail.as_str(), Style::plain().fg(color), width),
    );
    assert(lines.deep_view() =~= before + finished_stream(name@, s@, color, width));
}

/// The lines of the end of a command's output.
pub fn build_completed_bash_tail(content: &str, width: u16) -> (r: Vec<Line>)
    ensures
        r.deep_view() == bash_tail(content@, width),
{
    proof {
        text::lemma_find(content@, "\n[stderr]\n"@, 0);
    }
    let total = text::char_count(content);
    let (stdout, stderr) = match text::find(content, "\n[stderr]\n") {
        Some(at) => {
            assert(at + "\n[stderr]\n"@.len() <= total);
            let after = at + text::char_count("\n[stderr]\n");
            (text::substring(content, 0, at), text::substring(content, after, total))
        },
        None => (content.to_owned(), String::new()),
    };
    let mut lines: Vec<Line> = Vec::new();
    assert(lines.deep_view() =~= Seq::empty());
    push_finished_stream(&mut lines, "stdout tail", stdout.as_str(), style::color_text(), width);
    push_finished_stream(&mut lines, "stderr tail", stderr.as_str(), style::color_error(), width);
    assert(lines.deep_view() =~= bash_tail(content@, width));
    lines
}

/// A block folded to some of its lines, with a note on how many are hidden.
pub open spec fn folded(
    block: Seq<LineView>,
    expanded: bool,
    visible: nat,
    kind: Seq<char>,
    show_tail: bool,
) -> Seq<LineView> {
    if !expanded && block.len() > visible {
        let hidden = (block.len() - visible) as nat;
        let note = "  … "@ + text::decimal(hidden) + " "@ + kind
            + " lines hidden · Ctrl+O expand"@;
        seq![style::text_line(note, note_style())] + if show_tail {
            block.skip(hidden as int)
        } else {
            block.take(visible as int)
        }
    } else {
        block
    }
}

/// Adds a block, folded unless details are expanded.
pub fn push_folded_lines(
    lines: &mut Vec<Line>,
    block: Vec<Line>,
    expanded: bool,
    visible_lines: usize,
    kind: &str,
    show_tail: bool,
)
    ensures
        final(lines).deep_view() == old(lines).deep_view() + folded(
            block.deep_view(),
            expanded,
            visible_lines as nat,
            kind@,
            show_tail,
        ),
{
    let ghost before = lines.deep_view();
    let ghost all = block.deep_view();
    if !expanded && block.len() > visible_lines {
        let hidden: usize = block.len() - visible_lines;
        let mut note = text::cat("  … ", text::number(hidden as u64).as_str());
        note.append(" ");
        note.append(kind);
        note.append(" lines hidden · Ctrl+O expand");
        style::push_line(
            lines,
            Line::of_text(note.as_str(), Style::plain().fg(style::color_muted()).dim()),
        );
        let mut first = block;
        let kept = if show_tail {
            let rest = first.split_off(hidden);
            assert(rest.deep_view() =~= all.skip(hidden as int));
            rest
        } else {
            first.truncate(visible_lines);
            assert(first.deep_view() =~= all.take(visible_lines as int));
            first
        };
        style::append_lines(lines, kept);
        assert(lines.deep_view() =~= before + folded(
            all,
            expanded,
            visible_lines as nat,
            kind@,
            show_tail,
        ));
    } else {
        style::append_lines(lines, block);
    }
}

/// The columns of three texts one after the other.
pub open spec fn three_columns(a: Seq<char>, b: Seq<char>, c: Seq<char>) -> int {
    unicode::shown_columns(a) + unicode::shown_columns(b) + unicode::shown_columns(c)
}

/// What stands before a row of a tool call.
pub open spec fn call_indent(row: int) -> Seq<char> {
    if row == 0 {
        "  └─ "@
    } else {
        "     "@
    }
}

/// Whether the call id fits behind a row.
pub open spec fn id_fits(row: int, content: Seq<char>, suffix: Seq<char>, width: u16) -> bool {
    three_columns(call_indent(row), content, suffix) <= width
}

/// One row of a tool call.
pub open spec fn call_row(
    row: int,
    content: Seq<char>,
    suffix: Seq<char>,
    with_suffix: bool,
) -> LineView {
    let muted = Style::plain().fg(style::color_muted());
    let spans = seq![
        style::span_of(call_indent(row), muted),
        style::span_of(content, Style::plain().fg(style::color_accent())),
    ];
    style::line_of(
        if with_suffix {
            spans.push(style::span_of(suffix, muted))
        } else {
            spans
        },
    )
}

/// The rows of a tool call that are shown; the last one carries the call id where all are shown
/// and it fits.
pub open spec fn call_rows(
    rows: Seq<Seq<char>>,
    visible: nat,
    suffix: Seq<char>,
    width: u16,
    expanded: bool,
) -> Seq<LineView> {
    Seq::new(
        visible,
        |i: int|
            call_row(
                i,
                rows[i],
                suffix,
                expanded && i + 1 == visible && id_fits(i, rows[i], suffix, width),
            ),
    )
}

/// What follows the rows of a tool call: how many are hidden, or the call id where it did not fit.
pub open spec fn call_tail(
    rows: Seq<Seq<char>>,
    visible: nat,
    call_id: Seq<char>,
    width: u16,
    expanded: bool,
) -> Seq<LineView> {
    let suffix = "  #"@ + call_id;
    let muted = Style::plain().fg(style::color_muted());
    if !expanded && rows.len() > visible {
        seq![
            style::text_line(
                "     … "@ + text::decimal((rows.len() - visible) as nat)
                    + " command lines hidden · Ctrl+O expand  #"@ + call_id,
                note_style(),
            ),
        ]
    } else if expanded && rows.len() > 0 && !id_fits(
        rows.len() - 1,
        rows.last(),
        suffix,
        width,
    ) {
        seq![
            style::line_of(
                seq![style::span_of("     "@, muted), style::span_of(suffix, muted)],
            ),
        ]
    } else {
        Seq::empty()
    }
}

/// The rows of the summary of a tool call.
pub open spec fn summary_rows(call: ToolCallView, width: u16) -> Seq<Seq<char>> {
    let indent = unicode::shown_columns("  └─ "@) as int;
    let available = vstd::math::max(1, width - indent) as usize;
    unicode::wrapped_rows(session::summary_of(call), available, ""@, ""@)
}

/// The lines of a tool call.
pub open spec fn call_lines(call: ToolCallView, width: u16, expanded: bool) -> Seq<LineView> {
    if width == 0 {
        Seq::empty()
    } else {
        let rows = summary_rows(call, width);
        let visible = if expanded || rows.len() < COLLAPSED_COMMAND_LINES {
            rows.len()
        } else {
            COLLAPSED_COMMAND_LINES as nat
        };
        call_rows(rows, visible, "  #"@ + call.call_id, width, expanded) + call_tail(
            rows,
            visible,
            call.call_id,
            width,
            expanded,
        )
    }
}

/// Whether the call id fits behind a row.
fn suffix_fits(indent: &str, row: &str, suffix: &str, width: u16) -> (r: bool)
    ensures
        r == (three_columns(indent@, row@, suffix@) <= width),
{
    let total = unicode::display_width(indent).saturating_add(
        unicode::display_width(row),
    ).saturating_add(unicode::display_width(suffix));
    total <= width as usize
}

/// Adds the lines of a tool call.
pub fn append_tool_call_lines(
    lines: &mut Vec<Line>,
    call: &CoreToolCall,
    width: u16,
    expanded: bool,
)
    ensures
        final(lines).deep_view() == old(lines).deep_view() + call_lines(
            call.deep_view(),
            width,
            expanded,
        ),
{
    let ghost before = lines.deep_view();
    if width == 0 {
        assert(before + Seq::<LineView>::empty() =~= before);
        return;
    }
    let suffix = text::cat("  #", call.call_id.as_str());
    let left = (width as usize).saturating_sub(unicode::display_width("  └─ "));
    let available: usize = if left < 1 {
        1
    } else {
        left
    };
    let summary = call.transcript_summary();
    let wrapped = unicode::wrap(summary.as_str(), available, "", "");
    let ghost rows = wrapped.deep_view();
    assert(rows == summary_rows(call.deep_view(), width));
    let visible: usize = if expanded || wrapped.len() < COLLAPSED_COMMAND_LINES {
        wrapped.len()
    } else {
        COLLAPSED_COMMAND_LINES
    };
    let muted = Style::plain().fg(style::color_muted());
    let ghost shown = call_rows(rows, visible as nat, suffix@, width, expanded);
    let mut i: usize = 0;
    assert(before + shown.take(0) =~= before);
    while i < visible
        invariant
            rows == wrapped.deep_view(),
            visible <= wrapped@.len(),
            muted == Style::plain().fg(style::color_muted()),
            shown == call_rows(rows, visible as nat, suffix@, width, expanded),
            i <= visible,
            lines.deep_view() == before + shown.take(i as int),
        decreases visible - i,
    {
        let row = wrapped[i].as_str();
        assert(rows[i as int] == wrapped@[i as int]@);
        let indent = if i == 0 {
            "  └─ "
        } else {
            "     "
        };
        let fits = expanded && i + 1 == visible && suffix_fits(indent, row, suffix.as_str(), width);
        let mut spans: Vec<Span> = Vec::new();
        assert(spans.deep_view() =~= Seq::empty());
        style::push_span(&mut spans, indent, muted);
        style::push_span(&mut spans, row, Style::plain().fg(style::color_accent()));
        if fits {
            style::push_span(&mut spans, suffix.as_str(), muted);
        }
        assert(spans.deep_view() =~= shown[i as int].spans);
        style::push_line(lines, Line::of_spans(spans));
        assert(lines.deep_view() =~= before + shown.take(i + 1));
        i += 1;
    }
    assert(shown.take(i as int) =~= shown);
    let ghost tail = call_tail(rows, visible as nat, call.call_id@, width, expanded);
    if !expanded && wrapped.len() > visible {
        let hidden: usize = wrapped.len() - visible;
        let mut note = text::cat("     … ", text::number(hidden as u64).as_str());
        note.append(" command lines hidden · Ctrl+O expand  #");
        note.append(call.call_id.as_str());
        style::push_line(
            lines,
            Line::of_text(note.as_str(), Style::plain().fg(style::color_muted()).dim()),
        );
        assert(lines.deep_view() =~= before + (shown + tail));
    } else if expanded {
        let last = wrapped[wrapped.len() - 1].as_str();
        assert(rows.last() == last@);
        let last_indent = if wrapped.len() == 1 {
            "  └─ "
        } else {
            "     "
        };
        if !suffix_fits(last_indent, last, suffix.as_str(), width) {
            let mut spans: Vec<Span> = Vec::new();
            assert(spans.deep_view() =~= Seq::empty());
            style::push_span(&mut spans, "     ", muted);
            style::push_span(&mut spans, suffix.as_str(), muted);
            assert(spans.deep_view() =~= seq![
                style::span_of("     "@, muted),
                style::span_of(suffix@, muted),
            ]);
            style::push_line(lines, Line::of_spans(spans));
        }
        assert(lines.deep_view() =~= before + (shown + tail));
    } else {
        assert(lines.deep_view() =~= before + (shown + tail));
    }
}

/// The lines of several tool calls.
pub open spec fn calls_lines(calls: Seq<ToolCallView>, width: u16, expanded: bool) -> Seq<LineView>
    decreases calls.len(),
{
    if calls.len() == 0 {
        Seq::empty()
    } else {
        calls_lines(calls.drop_last(), width, expanded) + call_lines(
            calls.last(),
            width,
            expanded,
        )
    }
}

/// Whether one of the calls is of this tool.
pub open spec fn calls_tool(calls: Seq<ToolCallView>, name: Seq<char>) -> bool {
    exists|i: int| 0 <= i < calls.len() && #[trigger] calls[i].name == name
}

/// What a block of tool calls is about.
#[derive(Clone, Copy, Debug, PartialEq, Eq, Structural)]
pub enum ToolBlockKind {
    Error,
    File,
    Search,
    Other,
}

/// What a block of tool calls with this result is about.
pub open spec fn block_kind(calls: Seq<ToolCallView>, result: Option<MessageView>) -> ToolBlockKind {
    match result {
        Some(message) => if message.is_error {
            ToolBlockKind::Error
        } else if calls_tool(calls, "read"@) {
            ToolBlockKind::File
        } else if calls_tool(calls, "grep"@) {
            ToolBlockKind::Search
        } else {
            ToolBlockKind::Other
        },
        None => ToolBlockKind::Other,
    }
}

/// The colours of a block: its frame, its content and what is behind it.
pub open spec fn block_colors(kind: ToolBlockKind) -> (Color, Color, Color) {
    match kind {
        ToolBlockKind::Error => (
            style::color_error(),
            style::color_error(),
            style::color_error_background(),
        ),
        ToolBlockKind::File => (
            style::color_tool(),
            style::color_output(),
            style::color_file_background(),
        ),
        ToolBlockKind::Search => (
            style::color_search(),
            style::color_found(),
            style::color_grep_background(),
        ),
        ToolBlockKind::Other => (
            style::color_tool(),
            style::color_output(),
            style::color_tool_background(),
        ),
    }
}

/// The heading of a result.
pub open spec fn result_label(kind: ToolBlockKind) -> Seq<char> {
    match kind {
        ToolBlockKind::Error => "! Tool error"@,
        ToolBlockKind::File => "└ File result"@,
        ToolBlockKind::Search => "└ Search results"@,
        ToolBlockKind::Other => "└ Tool result"@,
    }
}

/// The lines of what a tool gave back. A search counts by its calls alone, whatever else was
/// called with it.
pub open spec fn result_lines(
    calls: Seq<ToolCallView>,
    message: MessageView,
    color: Color,
    width: u16,
    expanded: bool,
) -> Seq<LineView> {
    let content = message.content;
    let style = Style::plain().fg(color);
    let is_file = calls_tool(calls, "read"@) && !message.is_error;
    let is_search = calls_tool(calls, "grep"@) && !message.is_error;
    let is_todo = calls_tool(calls, "todo"@) && !message.is_error;
    let shown = COLLAPSED_FILE_OUTPUT_LINES as nat;
    if content.len() == 0 {
        Seq::empty()
    } else if is_todo {
        seq![style::text_line("  ✓ task list updated"@, style)]
    } else if calls_tool(calls, "bash"@) && !expanded {
        bash_tail(content, width)
    } else if is_search {
        folded(grep_lines(content, style, width), expanded, shown, "search result"@, true)
    } else {
        folded(
            indented_text(content, style, width),
            expanded,
            shown,
            if is_file {
                "file output"@
            } else {
                "tool output"@
            },
            !is_file,
        )
    }
}

/// The lines of tool calls and their result.
pub open spec fn tool_block(
    calls: Seq<ToolCallView>,
    result: Option<MessageView>,
    width: u16,
    expanded: bool,
) -> Seq<LineView> {
    let inner = block_content_width(width);
    let kind = block_kind(calls, result);
    let (border, color, _background) = block_colors(kind);
    calls_lines(calls, inner, expanded) + match result {
        Some(message) => wrapped_text(
            result_label(kind),
            Style::plain().fg(border).bold(),
            inner,
        ) + result_lines(calls, message, color, inner, expanded),
        None => Seq::empty(),
    }
}

/// Whether one of the calls is of this tool.
fn any_call(calls: &Vec<&CoreToolCall>, name: &str) -> (r: bool)
    ensures
        r == calls_tool(calls.deep_view(), name@),
{
    let ghost all = calls.deep_view();
    let mut i: usize = 0;
    while i < calls.len()
        invariant
            all == calls.deep_view(),
            i <= calls@.len(),
            forall|j: int| 0 <= j < i ==> #[trigger] all[j].name != name@,
        decreases calls@.len() - i,
    {
        assert(all[i as int].name == calls@[i as int].name@);
        if text::str_eq(calls[i].name.as_str(), name) {
            return true;
        }
        i += 1;
    }
    false
}

/// Adds the lines of what a tool gave back.
fn push_result_lines(
    block: &mut Vec<Line>,
    calls: &Vec<&CoreToolCall>,
    message: &CoreMessage,
    color: Color,
    width: u16,
    expanded: bool,
)
    ensures
        final(block).deep_view() == old(block).deep_view() + result_lines(
            calls.deep_view(),
            message.deep_view(),
            color,
            width,
            expanded,
        ),
{
    let ghost before = block.deep_view();
    let content = message.content.as_str();
    let style = Style::plain().fg(color);
    if content.is_empty() {
        assert(before + Seq::<LineView>::empty() =~= before);
        return;
    }
    let is_file = any_call(calls, "read") && !message.is_error;
    let is_search = any_call(calls, "grep") && !message.is_error;
    if any_call(calls, "todo") && !message.is_error {
        style::push_line(block, Line::of_text("  ✓ task list updated", style));
        assert(block.deep_view() =~= before + seq![
            style::text_line("  ✓ task list updated"@, style),
        ]);
    } else if any_call(calls, "bash") && !expanded {
        style::append_lines(block, build_completed_bash_tail(content, width));
    } else if is_search {
        let found = build_grep_result_lines(content, style, width);
        push_folded_lines(
            block,
            found,
            expanded,
            COLLAPSED_FILE_OUTPUT_LINES,
            "search result",
            true,
        );
    } else {
        let output = indented_wrapped_lines(content, style, width);
        push_folded_lines(
            block,
            output,
            expanded,
            COLLAPSED_FILE_OUTPUT_LINES,
            if is_file {
                "file output"
            } else {
                "tool output"
            },
            !is_file,
        );
    }
}

/// The lines of tool calls and their result, with the colours behind and around them.
pub fn build_tool_transcript_block(
    calls: &Vec<&CoreToolCall>,
    result: Option<&CoreMessage>,
    width: u16,
    details_expanded: bool,
) -> (r: (Vec<Line>, Color, Color))
    ensures
        r.0.deep_view() == tool_block(
            calls.deep_view(),
            result.deep_view(),
            width,
            details_expanded,
        ),
        r.1 == block_colors(block_kind(calls.deep_view(), result.deep_view())).2,
        r.2 == block_colors(block_kind(calls.deep_view(), result.deep_view())).0,
{
    let inner = transcript_block_content_width(width);
    let kind = match result {
        Some(message) => if message.is_error {
            ToolBlockKind::Error
        } else if any_call(calls, "read") {
            ToolBlockKind::File
        } else if any_call(calls, "grep") {
            ToolBlockKind::Search
        } else {
            ToolBlockKind::Other
        },
        None => ToolBlockKind::Other,
    };
    let (border, color, background) = match kind {
        ToolBlockKind::Error => (
            style::color_error(),
            style::color_error(),
            style::color_error_background(),
        ),
        ToolBlockKind::File => (
            style::color_tool(),
            style::color_output(),
            style::color_file_background(),
        ),
        ToolBlockKind::Search => (
            style::color_search(),
            style::color_found(),
            style::color_grep_background(),
        ),
        ToolBlockKind::Other => (
            style::color_tool(),
            style::color_output(),
            style::color_tool_background(),
        ),
    };
    let ghost all = calls.deep_view();
    let mut block: Vec<Line> = Vec::new();
    let mut i: usize = 0;
    assert(block.deep_view() =~= Seq::empty());
    while i < calls.len()
        invariant
            all == calls.deep_view(),
            i <= calls@.len(),
            block.deep_view() == calls_lines(all.take(i as int), inner, details_expanded),
        decreases calls@.len() - i,
    {
        assert(all.take(i + 1).drop_last() =~= all.take(i as int));
        assert(all[i as int] == calls@[i as int].deep_view());
        append_tool_call_lines(&mut block, calls[i], inner, details_expanded);
        i += 1;
    }
    assert(all.take(i as int) =~= all);
    let ghost called = block.deep_view();
    if let Some(message) = result {
        let label = match kind {
            ToolBlockKind::Error => "! Tool error",
            ToolBlockKind::File => "└ File result",
            ToolBlockKind::Search => "└ Search results",
            ToolBlockKind::Other => "└ Tool result",
        };
        push_wrapped_line(&mut block, label, Style::plain().fg(border).bold(), inner);
        push_result_lines(&mut block, calls, message, color, inner, details_expanded);
    }
    assert(block.deep_view() =~= tool_block(
        all,
        result.deep_view(),
        width,
        details_expanded,
    ));
    (block, background, border)
}

/// A question asked beside the conversation, and its answer.
#[derive(Debug, PartialEq, Eq)]
pub struct LocalTranscriptEntry {
    pub question: String,
    pub answer: String,
}

/// What such a question and its answer say.
#[verifier::ext_equal]
pub struct LocalEntryView {
    pub question: Seq<char>,
    pub answer: Seq<char>,
}

impl DeepView for LocalTranscriptEntry {
    type V = LocalEntryView;

    open spec fn deep_view(&self) -> LocalEntryView {
        LocalEntryView {
            question: self.question@,
            answer: self.answer@,
        }
    }
}

impl Clone for LocalTranscriptEntry {
    fn clone(&self) -> (r: Self)
        ensures
            r.deep_view() == self.deep_view(),
    {
        let r = LocalTranscriptEntry {
            question: self.question.clone(),
            answer: self.answer.clone(),
        };
        r
    }
}

/// The colours of the person's messages.
pub open spec fn user_colors() -> MessageColors {
    MessageColors {
        marker: style::color_user(),
        text: style::color_text(),
        background: style::color_user_background(),
    }
}

/// The colours of the assistant's messages.
pub open spec fn assistant_colors() -> MessageColors {
    MessageColors {
        marker: style::color_assistant(),
        text: style::color_text(),
        background: style::color_assistant_background(),
    }
}

/// The colours of other messages.
pub open spec fn other_colors() -> MessageColors {
    MessageColors {
        marker: style::color_muted(),
        text: style::color_text(),
        background: style::color_message_background(),
    }
}

/// The last of the calls with this id.
pub open spec fn last_call(calls: Seq<ToolCallView>, id: Seq<char>) -> Option<ToolCallView>
    decreases calls.len(),
{
    if calls.len() == 0 {
        None
    } else if calls.last().call_id == id {
        Some(calls.last())
    } else {
        last_call(calls.drop_last(), id)
    }
}

/// The last call with this id in the messages, results of tools aside.
pub open spec fn source_call(messages: Seq<MessageView>, id: Seq<char>) -> Option<ToolCallView>
    decreases messages.len(),
{
    if messages.len() == 0 {
        None
    } else if messages.last().role != "tool"@ && last_call(messages.last().tool_calls, id) is Some {
        last_call(messages.last().tool_calls, id)
    } else {
        source_call(messages.drop_last(), id)
    }
}

/// Whether a message is the result of the call with this id.
pub open spec fn is_result_of(message: MessageView, id: Seq<char>) -> bool {
    message.role == "tool"@ && message.tool_call_id == Some(id)
}

/// Whether the call with this id has a result in the messages.
pub open spec fn has_result(messages: Seq<MessageView>, id: Seq<char>) -> bool {
    exists|i: int| 0 <= i < messages.len() && is_result_of(#[trigger] messages[i], id)
}

/// Whether a call is shown where it was made: a search that has a result is shown with its result.
pub open spec fn shown_at_call(messages: Seq<MessageView>, call: ToolCallView) -> bool {
    !(call.name == "grep"@ && has_result(messages, call.call_id))
}

/// The lines with the tool calls of a message.
pub open spec fn with_calls(
    lines: Seq<LineView>,
    messages: Seq<MessageView>,
    calls: Seq<ToolCallView>,
    width: u16,
    expanded: bool,
) -> Seq<LineView> {
    let shown = calls.filter(|call: ToolCallView| shown_at_call(messages, call));
    if shown.len() == 0 {
        lines
    } else {
        let colors = block_colors(block_kind(shown, None));
        with_block(
            lines,
            tool_block(shown, None, block_content_width(width), expanded),
            colors.2,
            colors.0,
            width,
        )
    }
}

/// The lines with one more message of the conversation.
pub open spec fn with_conversation_message(
    lines: Seq<LineView>,
    messages: Seq<MessageView>,
    index: int,
    width: u16,
    expanded: bool,
) -> Seq<LineView> {
    let message = messages[index];
    if message.role == "tool"@ {
        let source = match message.tool_call_id {
            Some(id) => source_call(messages.take(index), id),
            None => None,
        };
        let calls = match source {
            Some(call) => seq![call],
            None => Seq::empty(),
        };
        let colors = block_colors(block_kind(calls, Some(message)));
        with_block(
            lines,
            tool_block(calls, Some(message), block_content_width(width), expanded),
            colors.2,
            colors.0,
            width,
        )
    } else if message.role == "user"@ {
        with_message(lines, message.content, "> "@, user_colors(), width)
    } else if message.role == "assistant"@ {
        let said = if message.content.len() > 0 {
            with_message(lines, message.content, "· "@, assistant_colors(), width)
        } else {
            lines
        };
        with_calls(said, messages, message.tool_calls, width, expanded)
    } else {
        with_message(lines, message.content, "· "@, other_colors(), width)
    }
}

/// The lines of the first `count` messages.
pub open spec fn conversation_lines(
    messages: Seq<MessageView>,
    count: int,
    width: u16,
    expanded: bool,
) -> Seq<LineView>
    decreases count,
{
    if count <= 0 {
        Seq::empty()
    } else {
        with_conversation_message(
            conversation_lines(messages, count - 1, width, expanded),
            messages,
            count - 1,
            width,
            expanded,
        )
    }
}

/// The lines with questions asked beside the conversation.
pub open spec fn with_entries(
    lines: Seq<LineView>,
    entries: Seq<LocalEntryView>,
    width: u16,
) -> Seq<LineView>
    decreases entries.len(),
{
    if entries.len() == 0 {
        lines
    } else {
        let before = with_entries(lines, entries.drop_last(), width);
        let asked = with_message(
            before,
            "BTW · "@ + entries.last().question,
            "> "@,
            user_colors(),
            width,
        );
        with_message(asked, entries.last().answer, "· "@, assistant_colors(), width)
    }
}

/// The lines of the whole transcript.
pub open spec fn transcript_lines(
    messages: Seq<MessageView>,
    entries: Seq<LocalEntryView>,
    width: u16,
    expanded: bool,
) -> Seq<LineView> {
    with_entries(
        conversation_lines(messages, messages.len() as int, width, expanded),
        entries,
        width,
    )
}

/// The last of the calls with this id.
fn find_last_call<'a>(calls: &'a Vec<CoreToolCall>, id: &str) -> (r: Option<&'a CoreToolCall>)
    ensures
        r.deep_view() == last_call(calls.deep_view(), id@),
{
    let ghost all = calls.deep_view();
    let mut i: usize = calls.len();
    assert(all.take(i as int) =~= all);
    while i > 0
        invariant
            all == calls.deep_view(),
            i <= calls@.len(),
            last_call(all, id@) == last_call(all.take(i as int), id@),
        decreases i,
    {
        assert(all.take(i as int).drop_last() =~= all.take(i - 1));
        assert(all.take(i as int).last() == calls@[i - 1].deep_view());
        if text::str_eq(calls[i - 1].call_id.as_str(), id) {
            return Some(&calls[i - 1]);
        }
        i -= 1;
    }
    None
}

/// The last call with this id in the messages before `end`, results of tools aside.
fn find_source_call<'a>(messages: &'a Vec<CoreMessage>, end: usize, id: &str) -> (r: Option<
    &'a CoreToolCall,
>)
    requires
        end <= messages@.len(),
    ensures
        r.deep_view() == source_call(messages.deep_view().take(end as int), id@),
{
    let ghost all = messages.deep_view();
    let mut i: usize = end;
    while i > 0
        invariant
            all == messages.deep_view(),
            i <= end <= messages@.len(),
            source_call(all.take(end as int), id@) == source_call(all.take(i as int), id@),
        decreases i,
    {
        let message = &messages[i - 1];
        assert(all.take(i as int).drop_last() =~= all.take(i - 1));
        assert(all.take(i as int).last() == message.deep_view());
        if !text::str_eq(message.role.as_str(), "tool") {
            let found = find_last_call(&message.tool_calls, id);
            if found.is_some() {
                return found;
            }
        }
        i -= 1;
    }
    None
}

/// Whether the call with this id has a result in the messages.
fn result_exists(messages: &Vec<CoreMessage>, id: &str) -> (r: bool)
    ensures
        r == has_result(messages.deep_view(), id@),
{
    let ghost all = messages.deep_view();
    let mut i: usize = 0;
    while i < messages.len()
        invariant
            all == messages.deep_view(),
            i <= messages@.len(),
            forall|j: int| 0 <= j < i ==> !is_result_of(#[trigger] all[j], id@),
        decreases messages@.len() - i,
    {
        let message = &messages[i];
        assert(all[i as int] == message.deep_view());
        if text::str_eq(message.role.as_str(), "tool") {
            if let Some(own) = &message.tool_call_id {
                if text::str_eq(own.as_str(), id) {
                    assert(is_result_of(all[i as int], id@));
                    return true;
                }
            }
        }
        i += 1;
    }
    false
}

/// The calls of a message that are shown where they were made.
fn calls_shown<'a>(messages: &Vec<CoreMessage>, calls: &'a Vec<CoreToolCall>) -> (r: Vec<
    &'a CoreToolCall,
>)
    ensures
        r.deep_view() == calls.deep_view().filter(
            |call: ToolCallView| shown_at_call(messages.deep_view(), call),
        ),
{
    let ghost all = calls.deep_view();
    let ghost fits = |call: ToolCallView| shown_at_call(messages.deep_view(), call);
    let mut out: Vec<&'a CoreToolCall> = Vec::new();
    let mut i: usize = 0;
    proof {
        reveal(Seq::filter);
    }
    assert(out.deep_view() =~= all.take(0).filter(fits));
    while i < calls.len()
        invariant
            all == calls.deep_view(),
            fits == (|call: ToolCallView| shown_at_call(messages.deep_view(), call)),
            i <= calls@.len(),
            out.deep_view() == all.take(i as int).filter(fits),
        decreases calls@.len() - i,
    {
        let call = &calls[i];
        let ghost before = out.deep_view();
        proof {
            reveal(Seq::filter);
            assert(all.take(i + 1).drop_last() =~= all.take(i as int));
            assert(all[i as int] == call.deep_view());
        }
        let hidden = text::str_eq(call.name.as_str(), "grep") && result_exists(
            messages,
            call.call_id.as_str(),
        );
        if !hidden {
            out.push(call);
            assert(out.deep_view() =~= before.push(call.deep_view()));
        }
        i += 1;
    }
    assert(all.take(i as int) =~= all);
    out
}

/// Adds one message of the conversation.
fn push_conversation_message(
    lines: &mut Vec<Line>,
    messages: &Vec<CoreMessage>,
    index: usize,
    width: u16,
    expanded: bool,
)
    requires
        index < messages@.len(),
    ensures
        final(lines).deep_view() == with_conversation_message(
            old(lines).deep_view(),
            messages.deep_view(),
            index as int,
            width,
            expanded,
        ),
{
    let content_width = transcript_block_content_width(width);
    let message = &messages[index];
    let role = message.role.as_str();
    assert(messages.deep_view()[index as int] == message.deep_view());
    if text::str_eq(role, "tool") {
        let source = match &message.tool_call_id {
            Some(id) => find_source_call(messages, index, id.as_str()),
            None => None,
        };
        let mut calls: Vec<&CoreToolCall> = Vec::new();
        if let Some(call) = source {
            calls.push(call);
        }
        assert(calls.deep_view() =~= match source.deep_view() {
            Some(call) => seq![call],
            None => Seq::empty(),
        });
        let (block, background, border) = build_tool_transcript_block(
            &calls,
            Some(message),
            content_width,
            expanded,
        );
        push_transcript_block(lines, block, background, border, width);
    } else if text::str_eq(role, "user") {
        let colors = MessageColors {
            marker: style::color_user(),
            text: style::color_text(),
            background: style::color_user_background(),
        };
        push_human_message(lines, message.content.as_str(), "> ", colors, width);
    } else if text::str_eq(role, "assistant") {
        if !message.content.as_str().is_empty() {
            let colors = MessageColors {
                marker: style::color_assistant(),
                text: style::color_text(),
                background: style::color_assistant_background(),
            };
            push_human_message(lines, message.content.as_str(), "· ", colors, width);
        }
        let calls = calls_shown(messages, &message.tool_calls);
        if calls.len() > 0 {
            let (block, background, border) = build_tool_transcript_block(
                &calls,
                None,
                content_width,
                expanded,
            );
            push_transcript_block(lines, block, background, border, width);
        }
    } else {
        let colors = MessageColors {
            marker: style::color_muted(),
            text: style::color_text(),
            background: style::color_message_background(),
        };
        push_human_message(lines, message.content.as_str(), "· ", colors, width);
    }
}

/// The lines of the whole transcript: the conversation, then the questions asked beside it.
pub fn build_transcript_lines(
    messages: &Vec<CoreMessage>,
    local_entries: &Vec<LocalTranscriptEntry>,
    width: u16,
    details_expanded: bool,
) -> (r: Vec<Line>)
    ensures
        r.deep_view() == transcript_lines(
            messages.deep_view(),
            local_entries.deep_view(),
            width,
            details_expanded,
        ),
{
    let mut lines: Vec<Line> = Vec::new();
    assert(lines.deep_view() =~= Seq::empty());
    let mut i: usize = 0;
    while i < messages.len()
        invariant
            i <= messages@.len(),
            lines.deep_view() == conversation_lines(
                messages.deep_view(),
                i as int,
                width,
                details_expanded,
            ),
        decreases messages@.len() - i,
    {
        push_conversation_message(&mut lines, messages, i, width, details_expanded);
        i += 1;
    }
    let ghost said = lines.deep_view();
    let ghost all = local_entries.deep_view();
    let mut k: usize = 0;
    while k < local_entries.len()
        invariant
            all == local_entries.deep_view(),
            k <= local_entries@.len(),
            lines.deep_view() == with_entries(said, all.take(k as int), width),
        decreases local_entries@.len() - k,
    {
        assert(all.take(k + 1).drop_last() =~= all.take(k as int));
        let entry = &local_entries[k];
        assert(all[k as int] == entry.deep_view());
        let user = MessageColors {
            marker: style::color_user(),
            text: style::color_text(),
            background: style::color_user_background(),
        };
        let assistant = MessageColors {
            marker: style::color_assistant(),
            text: style::color_text(),
            background: style::color_assistant_background(),
        };
        let question = text::cat("BTW · ", entry.question.as_str());
        push_human_message(&mut lines, question.as_str(), "> ", user, width);
        push_human_message(&mut lines, entry.answer.as_str(), "· ", assistant, width);
        k += 1;
    }
    assert(all.take(k as int) =~= all);
    lines
}

/// No two blank lines follow each other where a gap is put behind lines that had none at their
/// end, and a gap is put once.
pub proof fn law_gap_is_single(lines: Seq<LineView>)
    ensures
        with_gap(with_gap(lines)) == with_gap(lines),
        with_gap(lines).len() <= lines.len() + 1,
        lines.len() > 0 ==> with_gap(lines).last().spans.len() == 0,
        text_prefix(lines, with_gap(lines)),
{
    assert(with_gap(lines).take(lines.len() as int) =~= lines);
}

/// Whether the longer list begins with the shorter one.
pub open spec fn text_prefix(shorter: Seq<LineView>, longer: Seq<LineView>) -> bool {
    shorter.len() <= longer.len() && longer.take(shorter.len() as int) == shorter
}

/// Folding shows a note and exactly as many lines as asked for, or all lines.
pub proof fn law_folding(
    block: Seq<LineView>,
    expanded: bool,
    visible: nat,
    kind: Seq<char>,
    show_tail: bool,
)
    ensures
        expanded || block.len() <= visible ==> folded(block, expanded, visible, kind, show_tail)
            == block,
        !expanded && block.len() > visible ==> folded(
            block,
            expanded,
            visible,
            kind,
            show_tail,
        ).len() == visible + 1,
{
}

/// A running tool keeps the end of what it wrote, whatever pieces it came in.
pub proof fn law_live_output_is_the_end(kept: Seq<u8>, a: Seq<u8>, b: Seq<u8>)
    ensures
        kept_output(kept_output(kept + a) + b) == kept_output(kept + (a + b)),
        kept_output(a).len() <= DEFAULT_MAX_TOOL_OUTPUT_BYTES,
{
    assert(kept + (a + b) =~= (kept + a) + b);
    assert(kept_output(kept_output(kept + a) + b) =~= kept_output((kept + a) + b));
}

} // verus!
