//! Styled text: colours, spans and lines.
use crate::unicode;
use vstd::prelude::*;
use vstd::string::*;

verus! {

/// A terminal colour.
#[derive(Clone, Copy, Debug, PartialEq, Eq, Structural)]
pub enum Color {
    Reset,
    Black,
    Red,
    Green,
    Yellow,
    Blue,
    Magenta,
    Cyan,
    Gray,
    Rgb(u8, u8, u8),
}

/// The colour of what is at work or selected.
#[verifier::allow_in_spec]
pub fn color_accent() -> (r: Color)
    returns
        Color::Rgb(139, 92, 246),
{
    Color::Rgb(139, 92, 246)
}

/// The colour of the person's messages.
#[verifier::allow_in_spec]
pub fn color_user() -> (r: Color)
    returns
        Color::Rgb(56, 189, 248),
{
    Color::Rgb(56, 189, 248)
}

/// The colour of the assistant's messages.
#[verifier::allow_in_spec]
pub fn color_assistant() -> (r: Color)
    returns
        Color::Rgb(74, 222, 128),
{
    Color::Rgb(74, 222, 128)
}

/// The colour of tools.
#[verifier::allow_in_spec]
pub fn color_tool() -> (r: Color)
    returns
        Color::Rgb(250, 204, 21),
{
    Color::Rgb(250, 204, 21)
}

/// The colour of text.
#[verifier::allow_in_spec]
pub fn color_text() -> (r: Color)
    returns
        Color::Rgb(228, 228, 231),
{
    Color::Rgb(228, 228, 231)
}

/// The colour of what matters less.
#[verifier::allow_in_spec]
pub fn color_muted() -> (r: Color)
    returns
        Color::Rgb(113, 113, 122),
{
    Color::Rgb(113, 113, 122)
}

/// The colour of errors.
#[verifier::allow_in_spec]
pub fn color_error() -> (r: Color)
    returns
        Color::Rgb(248, 113, 113),
{
    Color::Rgb(248, 113, 113)
}

/// The colour behind the person's messages.
#[verifier::allow_in_spec]
pub fn color_user_background() -> (r: Color)
    returns
        Color::Black,
{
    Color::Black
}

/// The colour behind the assistant's messages.
#[verifier::allow_in_spec]
pub fn color_assistant_background() -> (r: Color)
    returns
        Color::Reset,
{
    Color::Reset
}

/// The colour behind tool output.
#[verifier::allow_in_spec]
pub fn color_tool_background() -> (r: Color)
    returns
        Color::Rgb(42, 36, 13),
{
    Color::Rgb(42, 36, 13)
}

/// The colour behind file contents.
#[verifier::allow_in_spec]
pub fn color_file_background() -> (r: Color)
    returns
        Color::Black,
{
    Color::Black
}

/// The colour behind search results.
#[verifier::allow_in_spec]
pub fn color_grep_background() -> (r: Color)
    returns
        Color::Rgb(18, 34, 48),
{
    Color::Rgb(18, 34, 48)
}

/// The colour behind errors.
#[verifier::allow_in_spec]
pub fn color_error_background() -> (r: Color)
    returns
        Color::Rgb(49, 20, 24),
{
    Color::Rgb(49, 20, 24)
}

/// The colour behind other messages.
#[verifier::allow_in_spec]
pub fn color_message_background() -> (r: Color)
    returns
        Color::Rgb(30, 30, 34),
{
    Color::Rgb(30, 30, 34)
}

/// The colour of tool output.
#[verifier::allow_in_spec]
pub fn color_output() -> (r: Color)
    returns
        Color::Rgb(161, 161, 170),
{
    Color::Rgb(161, 161, 170)
}

/// The colour of the frame of search results.
#[verifier::allow_in_spec]
pub fn color_search() -> (r: Color)
    returns
        Color::Rgb(56, 189, 248),
{
    Color::Rgb(56, 189, 248)
}

/// The colour of search results.
#[verifier::allow_in_spec]
pub fn color_found() -> (r: Color)
    returns
        Color::Rgb(186, 230, 253),
{
    Color::Rgb(186, 230, 253)
}

/// How a text is shown.
#[derive(Clone, Copy, Debug, PartialEq, Eq, Structural)]
pub struct Style {
    pub fg: Option<Color>,
    pub bg: Option<Color>,
    pub bold: bool,
    pub dim: bool,
}

impl Style {
    /// Nothing is asked for.
    #[verifier::allow_in_spec]
    pub fn plain() -> (r: Style)
        returns
            (Style { fg: None, bg: None, bold: false, dim: false }),
    {
        Style { fg: None, bg: None, bold: false, dim: false }
    }

    /// With this colour.
    #[verifier::allow_in_spec]
    pub fn fg(self, color: Color) -> (r: Style)
        returns
            (Style { fg: Some(color), bg: self.bg, bold: self.bold, dim: self.dim }),
    {
        Style { fg: Some(color), bg: self.bg, bold: self.bold, dim: self.dim }
    }

    /// On this colour.
    #[verifier::allow_in_spec]
    pub fn bg(self, color: Color) -> (r: Style)
        returns
            (Style { fg: self.fg, bg: Some(color), bold: self.bold, dim: self.dim }),
    {
        Style { fg: self.fg, bg: Some(color), bold: self.bold, dim: self.dim }
    }

    /// Bold.
    #[verifier::allow_in_spec]
    pub fn bold(self) -> (r: Style)
        returns
            (Style { fg: self.fg, bg: self.bg, bold: true, dim: self.dim }),
    {
        Style { fg: self.fg, bg: self.bg, bold: true, dim: self.dim }
    }

    /// Dim.
    #[verifier::allow_in_spec]
    pub fn dim(self) -> (r: Style)
        returns
            (Style { fg: self.fg, bg: self.bg, bold: self.bold, dim: true }),
    {
        Style { fg: self.fg, bg: self.bg, bold: self.bold, dim: true }
    }
}

/// A text in one style.
#[derive(Debug, PartialEq, Eq)]
pub struct Span {
    pub content: String,
    pub style: Style,
}

/// Spans one after the other, with a style of the whole line.
#[derive(Debug, PartialEq, Eq)]
pub struct Line {
    pub spans: Vec<Span>,
    pub style: Style,
}

/// What a span shows.
#[verifier::ext_equal]
pub struct SpanView {
    pub content: Seq<char>,
    pub style: Style,
}

/// What a line shows.
#[verifier::ext_equal]
pub struct LineView {
    pub spans: Seq<SpanView>,
    pub style: Style,
}

impl DeepView for Span {
    type V = SpanView;

    open spec fn deep_view(&self) -> SpanView {
        SpanView { content: self.content@, style: self.style }
    }
}

impl DeepView for Line {
    type V = LineView;

    open spec fn deep_view(&self) -> LineView {
        LineView { spans: self.spans.deep_view(), style: self.style }
    }
}

impl Clone for Span {
    fn clone(&self) -> (r: Self)
        ensures
            r.deep_view() == self.deep_view(),
    {
        Span { content: self.content.clone(), style: self.style }
    }
}

impl Clone for Line {
    fn clone(&self) -> (r: Self)
        ensures
            r.deep_view() == self.deep_view(),
    {
        let r = Line { spans: self.spans.clone(), style: self.style };
        assert(r.spans.deep_view() =~= self.spans.deep_view());
        r
    }
}

/// The span of a text in a style.
pub open spec fn span_of(content: Seq<char>, style: Style) -> SpanView {
    SpanView { content, style }
}

/// The line of these spans.
pub open spec fn line_of(spans: Seq<SpanView>) -> LineView {
    LineView { spans, style: Style::plain() }
}

/// The line without spans.
pub open spec fn blank_line() -> LineView {
    line_of(Seq::empty())
}

/// The line of one text in a style.
pub open spec fn text_line(content: Seq<char>, style: Style) -> LineView {
    line_of(seq![span_of(content, style)])
}

/// `count` times the same character.
pub open spec fn repeated(c: char, count: nat) -> Seq<char> {
    Seq::new(count, |i: int| c)
}

/// The columns of spans one after the other, at most the largest `usize`.
pub open spec fn spans_columns(spans: Seq<SpanView>) -> int
    decreases spans.len(),
{
    if spans.len() == 0 {
        0
    } else {
        crate::input::sat_add(
            spans_columns(spans.drop_last()),
            unicode::text_columns(spans.last().content) as int,
        )
    }
}

/// A span of a text.
pub fn span(content: &str, style: Style) -> (r: Span)
    ensures
        r.deep_view() == span_of(content@, style),
{
    Span { content: content.to_owned(), style }
}

/// `count` times the same character.
pub fn repeat_char(c: char, count: usize) -> (r: String)
    ensures
        r@ == repeated(c, count as nat),
{
    let mut out = String::new();
    let mut i: usize = 0;
    while i < count
        invariant
            i <= count,
            out@ == repeated(c, i as nat),
        decreases count - i,
    {
        out.push(c);
        i += 1;
        assert(out@ =~= repeated(c, i as nat));
    }
    assert(out@ =~= repeated(c, count as nat));
    out
}

/// Adds a span at the end.
pub fn push_span(spans: &mut Vec<Span>, content: &str, style: Style)
    ensures
        final(spans).deep_view() == old(spans).deep_view().push(span_of(content@, style)),
{
    let ghost before = spans.deep_view();
    spans.push(span(content, style));
    assert(spans.deep_view() =~= before.push(span_of(content@, style)));
}

/// Adds a line at the end.
pub fn push_line(lines: &mut Vec<Line>, line: Line)
    ensures
        final(lines).deep_view() == old(lines).deep_view().push(line.deep_view()),
{
    let ghost before = lines.deep_view();
    lines.push(line);
    assert(lines.deep_view() =~= before.push(line.deep_view()));
}

/// Adds all lines of another list.
pub fn append_lines(lines: &mut Vec<Line>, more: Vec<Line>)
    ensures
        final(lines).deep_view() == old(lines).deep_view() + more.deep_view(),
{
    let ghost before = lines.deep_view();
    let mut rest = more;
    lines.append(&mut rest);
    assert(lines.deep_view() =~= before + more.deep_view());
}

impl Line {
    /// The line without spans.
    pub fn blank() -> (r: Line)
        ensures
            r.deep_view() == blank_line(),
    {
        let r = Line { spans: Vec::new(), style: Style::plain() };
        assert(r.spans.deep_view() =~= Seq::empty());
        r
    }

    /// The line of these spans.
    pub fn of_spans(spans: Vec<Span>) -> (r: Line)
        ensures
            r.deep_view() == line_of(spans.deep_view()),
    {
        Line { spans, style: Style::plain() }
    }

    /// The line of one text in a style.
    pub fn of_text(content: &str, style: Style) -> (r: Line)
        ensures
            r.deep_view() == text_line(content@, style),
    {
        let mut spans: Vec<Span> = Vec::new();
        assert(spans.deep_view() =~= Seq::empty());
        push_span(&mut spans, content, style);
        assert(spans.deep_view() =~= seq![span_of(content@, style)]);
        Line { spans, style: Style::plain() }
    }

    /// The columns of the line.
    pub fn width(&self) -> (r: usize)
        ensures
            r == spans_columns(self.deep_view().spans),
    {
        let ghost all = self.spans.deep_view();
        let mut total: usize = 0;
        let mut i: usize = 0;
        while i < self.spans.len()
            invariant
                all == self.spans.deep_view(),
                i <= self.spans@.len(),
                total == spans_columns(all.take(i as int)),
            decreases self.spans@.len() - i,
        {
            assert(all.take(i + 1).drop_last() =~= all.take(i as int));
            assert(all[i as int].content == self.spans@[i as int].content@);
            total = total.saturating_add(unicode::text_width(self.spans[i].content.as_str()));
            i += 1;
        }
        assert(all.take(i as int) =~= all);
        total
    }
}

} // verus!
