//! Selecting text on the screen with the mouse.
use crate::input::{self, sat_add, InputClass};
use crate::{text, unicode};
use vstd::math::{max, min};
use vstd::prelude::*;
use vstd::string::*;

verus! {

/// The most bytes that are copied at once.
pub const MAX_SELECTION_BYTES: usize = 1024 * 1024;

/// How long after a click another one counts with it, in nanoseconds.
pub const MULTI_CLICK_INTERVAL: u64 = 500_000_000;

/// A rectangle of the screen.
#[derive(Clone, Copy, Debug, PartialEq, Eq, Structural)]
pub struct Rect {
    pub x: u16,
    pub y: u16,
    pub width: u16,
    pub height: u16,
}

/// A cell of the screen.
#[derive(Clone, Copy, Debug, PartialEq, Eq, Structural)]
pub struct SelectionPoint {
    pub row: u16,
    pub column: u16,
}

/// The cells that can be selected: from `left` up to `right`, from `top` up to `bottom`.
#[derive(Clone, Copy, Debug, PartialEq, Eq, Structural)]
pub struct SelectionRegion {
    pub left: u16,
    pub top: u16,
    pub right: u16,
    pub bottom: u16,
}

/// What is selected: the cells from one point to another.
#[derive(Clone, Copy, Debug, PartialEq, Eq, Structural)]
pub struct TextSelection {
    pub anchor: SelectionPoint,
    pub focus: SelectionPoint,
    pub dragging: bool,
}

/// The last click: where, when in nanoseconds, and the how-manieth in a row.
#[derive(Clone, Copy, Debug, PartialEq, Eq, Structural)]
pub struct ClickTracker {
    pub point: SelectionPoint,
    pub at: u64,
    pub count: u8,
}

/// What a mouse event asks for.
#[derive(Debug, PartialEq, Eq)]
pub enum MouseAction {
    Ignore,
    Redraw,
    Scroll(i32),
    Copy(String),
    SelectionTooLarge,
}

/// What such a request says.
pub enum MouseActionView {
    Ignore,
    Redraw,
    Scroll(i32),
    Copy(Seq<char>),
    SelectionTooLarge,
}

impl DeepView for MouseAction {
    type V = MouseActionView;

    open spec fn deep_view(&self) -> MouseActionView {
        match self {
            MouseAction::Ignore => MouseActionView::Ignore,
            MouseAction::Redraw => MouseActionView::Redraw,
            MouseAction::Scroll(rows) => MouseActionView::Scroll(*rows),
            MouseAction::Copy(s) => MouseActionView::Copy(s@),
            MouseAction::SelectionTooLarge => MouseActionView::SelectionTooLarge,
        }
    }
}

/// `a + b`, at most the largest `u16`.
pub open spec fn add16(a: int, b: int) -> int {
    min(a + b, u16::MAX as int)
}

impl SelectionPoint {
    /// Whether the cell is not behind another, row by row.
    pub open spec fn up_to(self, other: SelectionPoint) -> bool {
        self.row < other.row || (self.row == other.row && self.column <= other.column)
    }
}

impl SelectionRegion {
    /// The region has at least one cell.
    pub open spec fn wf(self) -> bool {
        self.left < self.right && self.top < self.bottom
    }

    /// Whether a cell lies in the region.
    pub open spec fn holds(self, point: SelectionPoint) -> bool {
        self.left <= point.column < self.right && self.top <= point.row < self.bottom
    }

    /// The cell of the region that is nearest to a cell.
    pub open spec fn nearest(self, point: SelectionPoint) -> SelectionPoint {
        SelectionPoint {
            row: min(max(point.row as int, self.top as int), self.bottom - 1) as u16,
            column: min(max(point.column as int, self.left as int), self.right - 1) as u16,
        }
    }

    /// The region of a transcript: its rectangle without the first and the last column.
    pub open spec fn of_transcript(rect: Rect) -> Option<SelectionRegion> {
        let region = SelectionRegion {
            left: add16(rect.x as int, 1) as u16,
            top: rect.y,
            right: add16(rect.x as int, max(0, rect.width - 1)) as u16,
            bottom: add16(rect.y as int, rect.height as int) as u16,
        };
        if region.wf() {
            Some(region)
        } else {
            None
        }
    }

    /// The region of a transcript: its rectangle without the first and the last column.
    pub fn from_transcript_rect(rect: Rect) -> (r: Option<Self>)
        ensures
            r == SelectionRegion::of_transcript(rect),
    {
        let region = SelectionRegion {
            left: rect.x.saturating_add(1),
            top: rect.y,
            right: rect.x.saturating_add(rect.width.saturating_sub(1)),
            bottom: rect.y.saturating_add(rect.height),
        };
        if region.left < region.right && region.top < region.bottom {
            Some(region)
        } else {
            None
        }
    }

    /// Whether a cell lies in the region.
    pub fn contains(self, point: SelectionPoint) -> (r: bool)
        ensures
            r == self.holds(point),
    {
        point.column >= self.left && point.column < self.right && point.row >= self.top && point.row
            < self.bottom
    }

    /// The cell of the region that is nearest to a cell.
    pub fn clamp(self, point: SelectionPoint) -> (r: SelectionPoint)
        requires
            self.wf(),
        ensures
            r == self.nearest(point),
            self.holds(r),
            self.holds(point) ==> r == point,
    {
        let row: u16 = if point.row < self.top {
            self.top
        } else if point.row > self.bottom - 1 {
            self.bottom - 1
        } else {
            point.row
        };
        let column: u16 = if point.column < self.left {
            self.left
        } else if point.column > self.right - 1 {
            self.right - 1
        } else {
            point.column
        };
        SelectionPoint { row, column }
    }
}

impl TextSelection {
    /// The two ends, the earlier one first.
    pub open spec fn ends(self) -> (SelectionPoint, SelectionPoint) {
        if self.anchor.up_to(self.focus) {
            (self.anchor, self.focus)
        } else {
            (self.focus, self.anchor)
        }
    }

    /// Whether a cell is selected: it lies between the two ends, row by row.
    pub open spec fn selects(self, point: SelectionPoint) -> bool {
        self.ends().0.up_to(point) && point.up_to(self.ends().1)
    }

    /// The two ends, the earlier one first.
    pub fn ordered(self) -> (r: (SelectionPoint, SelectionPoint))
        ensures
            r == self.ends(),
            r.0.up_to(r.1),
    {
        let forward = self.anchor.row < self.focus.row || (self.anchor.row == self.focus.row
            && self.anchor.column <= self.focus.column);
        if forward {
            (self.anchor, self.focus)
        } else {
            (self.focus, self.anchor)
        }
    }

    /// Whether a cell is selected.
    pub fn contains(self, point: SelectionPoint) -> (r: bool)
        ensures
            r == self.selects(point),
    {
        let (start, end) = self.ordered();
        if point.row < start.row || point.row > end.row {
            return false;
        }
        if start.row == end.row {
            return point.column >= start.column && point.column <= end.column;
        }
        if point.row == start.row {
            return point.column >= start.column;
        }
        if point.row == end.row {
            return point.column <= end.column;
        }
        true
    }
}

/// A selection does not depend on which end it was begun at, and holds both ends.
pub proof fn law_selection_is_symmetric(selection: TextSelection, point: SelectionPoint)
    ensures
        ({
            let turned = TextSelection {
                anchor: selection.focus,
                focus: selection.anchor,
                dragging: selection.dragging,
            };
            &&& turned.ends() == selection.ends()
            &&& turned.selects(point) == selection.selects(point)
            &&& selection.selects(selection.anchor)
            &&& selection.selects(selection.focus)
        }),
{
}

/// The columns of a character; a control character has none.
pub open spec fn columns_of(c: char) -> int {
    match unicode::char_columns(c) {
        Some(width) => width as int,
        None => 0,
    }
}

/// How far a line is read: the selected characters, the columns passed, and whether the last
/// character with columns was selected.
pub struct BetweenState {
    pub chosen: Seq<char>,
    pub column: int,
    pub inside: bool,
}

/// The state after the characters of a line: one with columns is selected if it overlaps the
/// columns from `start` up to `end`, one without goes with the character before it.
pub open spec fn between(line: Seq<char>, start: int, end: int) -> BetweenState
    decreases line.len(),
{
    if line.len() == 0 {
        BetweenState { chosen: Seq::empty(), column: 0, inside: false }
    } else {
        let state = between(line.drop_last(), start, end);
        let width = columns_of(line.last());
        let column = sat_add(state.column, width);
        let inside = if width == 0 {
            state.inside
        } else {
            column > start && state.column < end
        };
        BetweenState {
            chosen: if inside {
                state.chosen.push(line.last())
            } else {
                state.chosen
            },
            column,
            inside,
        }
    }
}

/// The text of a line that overlaps the columns from `start` up to `end`.
pub fn text_between_columns(line: &str, start: usize, end: usize) -> (r: String)
    ensures
        r@ == between(line@, start as int, end as int).chosen,
{
    let chars = text::chars_of(line);
    let mut result = String::new();
    let mut column: usize = 0;
    let mut inside = false;
    let mut i: usize = 0;
    while i < chars.len()
        invariant
            chars@ == line@,
            i <= chars@.len(),
            between(line@.take(i as int), start as int, end as int) == (BetweenState {
                chosen: result@,
                column: column as int,
                inside,
            }),
        decreases chars@.len() - i,
    {
        let c = chars[i];
        assert(line@.take(i + 1).drop_last() =~= line@.take(i as int));
        let width: usize = match unicode::char_width(c) {
            Some(width) => width,
            None => 0,
        };
        let next = column.saturating_add(width);
        if width > 0 {
            inside = next > start && column < end;
        }
        if inside {
            result.push(c);
        }
        column = next;
        i += 1;
    }
    assert(line@.take(i as int) =~= line@);
    result
}

/// Whether a character is the side of a frame.
pub open spec fn frame_side(c: char) -> bool {
    c == '│' || c == '┃' || c == '║'
}

/// Whether a character draws a frame.
pub open spec fn frame_char(c: char) -> bool {
    frame_side(c) || c == '╭' || c == '╮' || c == '╰' || c == '╯' || c == '─' || c == '┌' || c
        == '┐' || c == '└' || c == '┘'
}

/// Whether a line holds nothing but a frame.
pub open spec fn pure_border(line: Seq<char>) -> bool {
    let s = text::trimmed(line);
    s.len() > 0 && forall|i: int|
        0 <= i < s.len() ==> text::white_space(#[trigger] s[i]) || frame_char(s[i])
}

fn is_frame_side(c: char) -> (r: bool)
    ensures
        r == frame_side(c),
{
    c == '│' || c == '┃' || c == '║'
}

/// Whether a line holds nothing but a frame.
pub fn is_pure_box_border(line: &str) -> (r: bool)
    ensures
        r == pure_border(line@),
{
    let trimmed = text::trim(line);
    let chars = text::chars_of(trimmed.as_str());
    if chars.len() == 0 {
        return false;
    }
    let mut i: usize = 0;
    while i < chars.len()
        invariant
            chars@ == text::trimmed(line@),
            i <= chars@.len(),
            forall|j: int|
                0 <= j < i ==> text::white_space(#[trigger] chars@[j]) || frame_char(chars@[j]),
        decreases chars@.len() - i,
    {
        let c = chars[i];
        let drawn = is_frame_side(c) || c == '╭' || c == '╮' || c == '╰' || c == '╯' || c == '─'
            || c == '┌' || c == '┐' || c == '└' || c == '┘';
        if !text::is_whitespace(c) && !drawn {
            return false;
        }
        i += 1;
    }
    true
}

/// The column at which the content of a line begins: behind the side of a frame and one space.
pub open spec fn content_start(line: Seq<char>) -> int {
    if line.len() > 0 && frame_side(line[0]) {
        if line.len() > 1 && line[1] == ' ' {
            sat_add(columns_of(line[0]), 1)
        } else {
            columns_of(line[0])
        }
    } else {
        0
    }
}

/// A line without the side of a frame at its end.
pub open spec fn without_right_side(line: Seq<char>) -> Seq<char> {
    let s = text::trimmed_end(line);
    if s.len() > 0 && frame_side(s.last()) {
        s.drop_last()
    } else {
        s
    }
}

/// The columns of a line that hold its content, if it has any: without the sides of a frame and
/// the white space at the end.
pub open spec fn content_span(line: Seq<char>) -> Option<(int, int)> {
    let start = content_start(line);
    let end = unicode::text_columns(text::trimmed_end(without_right_side(line))) as int;
    if text::trimmed(line).len() == 0 || pure_border(line) || start >= end {
        None
    } else {
        Some((start, end))
    }
}

/// The columns of a line that hold its content.
pub fn selection_content_span(line: &str) -> (r: Option<(usize, usize)>)
    ensures
        r is Some <==> content_span(line@) is Some,
        r matches Some((start, end)) ==> content_span(line@) == Some((start as int, end as int)),
{
    if text::char_count(text::trim(line).as_str()) == 0 || is_pure_box_border(line) {
        return None;
    }
    let chars = text::chars_of(line);
    let mut start: usize = 0;
    if chars.len() > 0 && is_frame_side(chars[0]) {
        start = match unicode::char_width(chars[0]) {
            Some(width) => width,
            None => 0,
        };
        if chars.len() > 1 && chars[1] == ' ' {
            start = start.saturating_add(1);
        }
    }
    let trimmed = text::trim_end(line);
    let inner = text::chars_of(trimmed.as_str());
    let count: usize = if inner.len() > 0 && is_frame_side(inner[inner.len() - 1]) {
        inner.len() - 1
    } else {
        inner.len()
    };
    let body = text::string_range(&inner, 0, count);
    assert(body@ =~= without_right_side(line@));
    let end = unicode::text_width(text::trim_end(body.as_str()).as_str());
    if start < end {
        Some((start, end))
    } else {
        None
    }
}

/// A grapheme on the screen: its columns and its class.
#[derive(Clone, Copy, Debug, PartialEq, Eq, Structural)]
pub struct WordSpan {
    pub start: u16,
    pub end: u16,
    pub class: InputClass,
}

/// The graphemes of a line that have columns.
pub open spec fn word_spans(graphemes: Seq<Seq<char>>) -> Seq<WordSpan>
    decreases graphemes.len(),
{
    if graphemes.len() == 0 {
        Seq::empty()
    } else {
        let before = word_spans(graphemes.drop_last());
        let column = if before.len() == 0 {
            0
        } else {
            before.last().end as int
        };
        let width = min(unicode::text_columns(graphemes.last()) as int, u16::MAX as int);
        if width == 0 {
            before
        } else {
            before.push(
                WordSpan {
                    start: column as u16,
                    end: add16(column, width) as u16,
                    class: input::class_of(graphemes.last()),
                },
            )
        }
    }
}

/// The first grapheme from `from` on that covers a column.
pub open spec fn span_at(spans: Seq<WordSpan>, column: u16, from: int) -> Option<int>
    decreases spans.len() - from,
{
    if from < 0 || from >= spans.len() {
        None
    } else if spans[from].start <= column < spans[from].end {
        Some(from)
    } else {
        span_at(spans, column, from + 1)
    }
}

/// The first grapheme of the run of one class that reaches to `at`.
pub open spec fn run_start(spans: Seq<WordSpan>, at: int) -> int
    decreases at,
{
    if 0 < at < spans.len() && spans[at - 1].class == spans[at].class {
        run_start(spans, at - 1)
    } else {
        at
    }
}

/// The last grapheme of the run of one class that begins at `at`.
pub open spec fn run_end(spans: Seq<WordSpan>, at: int) -> int
    decreases spans.len() - at,
{
    if 0 <= at < spans.len() - 1 && spans[at + 1].class == spans[at].class {
        run_end(spans, at + 1)
    } else {
        at
    }
}

/// The column of the screen at which the content column `column` of a region lies.
pub open spec fn screen_column(region: SelectionRegion, column: int) -> u16 {
    add16(region.left as int, min(column, u16::MAX as int)) as u16
}

/// The last column of the screen before the content column `column` of a region.
pub open spec fn screen_last_column(region: SelectionRegion, column: int) -> u16 {
    max(0, min(screen_column(region, column) as int, region.right as int) - 1) as u16
}

/// The row of the screen at which a line of a region lies.
pub open spec fn screen_row(region: SelectionRegion, line: int) -> u16 {
    add16(region.top as int, min(line, u16::MAX as int)) as u16
}

/// The line of a region that a cell lies in.
pub open spec fn line_at(
    region: SelectionRegion,
    lines: Seq<Seq<char>>,
    point: SelectionPoint,
) -> Option<int> {
    if point.row >= region.top && point.row - region.top < lines.len() {
        Some(point.row - region.top)
    } else {
        None
    }
}

/// The selection from one cell to another that is not dragged.
pub open spec fn fixed_selection(row1: u16, column1: u16, row2: u16, column2: u16) -> TextSelection {
    TextSelection {
        anchor: SelectionPoint { row: row1, column: column1 },
        focus: SelectionPoint { row: row2, column: column2 },
        dragging: false,
    }
}

/// The word at a cell: the run of graphemes of one class there, as far as it is content.
pub open spec fn word_at(
    region: SelectionRegion,
    lines: Seq<Seq<char>>,
    point: SelectionPoint,
) -> Option<TextSelection> {
    match line_at(region, lines, point) {
        Some(index) => if point.column < region.left {
            None
        } else {
            let column = (point.column - region.left) as u16;
            let spans = word_spans(unicode::clusters(lines[index]));
            match (content_span(lines[index]), span_at(spans, column, 0)) {
                (Some((start, end)), Some(clicked)) => if column < start || column >= end {
                    None
                } else {
                    Some(
                        fixed_selection(
                            point.row,
                            screen_column(
                                region,
                                max(spans[run_start(spans, clicked)].start as int, start),
                            ),
                            point.row,
                            screen_last_column(
                                region,
                                min(spans[run_end(spans, clicked)].end as int, end),
                            ),
                        ),
                    )
                },
                _ => None,
            }
        },
        None => None,
    }
}

/// The content of the line at a cell.
pub open spec fn whole_line_at(
    region: SelectionRegion,
    lines: Seq<Seq<char>>,
    point: SelectionPoint,
) -> Option<TextSelection> {
    match line_at(region, lines, point) {
        Some(index) => match content_span(lines[index]) {
            Some((start, end)) => Some(
                fixed_selection(
                    point.row,
                    screen_column(region, start),
                    point.row,
                    screen_last_column(region, end),
                ),
            ),
            None => None,
        },
        None => None,
    }
}

/// The first of the lines with content that reach without a break to `at`.
pub open spec fn paragraph_start(lines: Seq<Seq<char>>, at: int) -> int
    decreases at,
{
    if 0 < at <= lines.len() && content_span(lines[at - 1]) is Some {
        paragraph_start(lines, at - 1)
    } else {
        at
    }
}

/// The last of the lines with content that follow `at` without a break.
pub open spec fn paragraph_end(lines: Seq<Seq<char>>, at: int) -> int
    decreases lines.len() - at,
{
    if -1 <= at < lines.len() - 1 && content_span(lines[at + 1]) is Some {
        paragraph_end(lines, at + 1)
    } else {
        at
    }
}

/// The paragraph at a cell: the lines with content around it.
pub open spec fn paragraph_at(
    region: SelectionRegion,
    lines: Seq<Seq<char>>,
    point: SelectionPoint,
) -> Option<TextSelection> {
    match line_at(region, lines, point) {
        Some(index) => if content_span(lines[index]) is None {
            None
        } else {
            let first = paragraph_start(lines, index);
            let last = paragraph_end(lines, index);
            Some(
                fixed_selection(
                    screen_row(region, first),
                    screen_column(region, (content_span(lines[first])->0).0),
                    screen_row(region, last),
                    screen_last_column(region, (content_span(lines[last])->0).1),
                ),
            )
        },
        None => None,
    }
}

/// `n`, at most the largest `u16`.
fn clip16(n: usize) -> (r: u16)
    ensures
        r == min(n as int, u16::MAX as int),
{
    if n > 65535 {
        65535
    } else {
        n as u16
    }
}

fn column_on_screen(region: SelectionRegion, column: usize) -> (r: u16)
    ensures
        r == screen_column(region, column as int),
{
    region.left.saturating_add(clip16(column))
}

fn last_column_on_screen(region: SelectionRegion, column: usize) -> (r: u16)
    ensures
        r == screen_last_column(region, column as int),
{
    let end = column_on_screen(region, column);
    let bounded: u16 = if end < region.right {
        end
    } else {
        region.right
    };
    bounded.saturating_sub(1)
}

fn row_on_screen(region: SelectionRegion, line: usize) -> (r: u16)
    ensures
        r == screen_row(region, line as int),
{
    region.top.saturating_add(clip16(line))
}

fn line_index(region: SelectionRegion, lines: &Vec<String>, point: SelectionPoint) -> (r: Option<
    usize,
>)
    ensures
        r is Some <==> line_at(region, lines.deep_view(), point) is Some,
        r matches Some(i) ==> line_at(region, lines.deep_view(), point) == Some(i as int) && i
            < lines@.len(),
{
    if point.row >= region.top && ((point.row - region.top) as usize) < lines.len() {
        Some((point.row - region.top) as usize)
    } else {
        None
    }
}

/// The graphemes of a line that have columns.
fn spans_of(line: &str) -> (r: Vec<WordSpan>)
    ensures
        r@ == word_spans(unicode::clusters(line@)),
{
    let graphemes = unicode::graphemes(line);
    let ghost all = graphemes.deep_view();
    let mut out: Vec<WordSpan> = Vec::new();
    let mut column: u16 = 0;
    let mut i: usize = 0;
    while i < graphemes.len()
        invariant
            all == graphemes.deep_view(),
            i <= graphemes@.len(),
            out@ == word_spans(all.take(i as int)),
            column == if out@.len() == 0 {
                0u16
            } else {
                out@.last().end
            },
        decreases graphemes@.len() - i,
    {
        let grapheme = graphemes[i].as_str();
        assert(all.take(i + 1).drop_last() =~= all.take(i as int));
        assert(all[i as int] == grapheme@);
        let width = clip16(unicode::text_width(grapheme));
        if width > 0 {
            let end = column.saturating_add(width);
            out.push(WordSpan { start: column, end, class: input::input_class(grapheme) });
            column = end;
        }
        i += 1;
    }
    assert(all.take(i as int) =~= all);
    out
}

proof fn lemma_runs(spans: Seq<WordSpan>, at: int)
    requires
        0 <= at < spans.len(),
    ensures
        0 <= run_start(spans, at) <= at <= run_end(spans, at) < spans.len(),
    decreases at,
{
    if at > 0 {
        lemma_runs(spans, at - 1);
    }
    lemma_run_end(spans, at);
}

proof fn lemma_run_end(spans: Seq<WordSpan>, at: int)
    requires
        0 <= at < spans.len(),
    ensures
        at <= run_end(spans, at) < spans.len(),
    decreases spans.len() - at,
{
    if at + 1 < spans.len() {
        lemma_run_end(spans, at + 1);
    }
}

/// The first grapheme that covers a column.
fn find_span(spans: &Vec<WordSpan>, column: u16) -> (r: Option<usize>)
    ensures
        r is Some <==> span_at(spans@, column, 0) is Some,
        r matches Some(at) ==> span_at(spans@, column, 0) == Some(at as int) && at < spans@.len(),
{
    let mut i: usize = 0;
    while i < spans.len()
        invariant
            i <= spans@.len(),
            span_at(spans@, column, 0) == span_at(spans@, column, i as int),
        decreases spans@.len() - i,
    {
        if column >= spans[i].start && column < spans[i].end {
            return Some(i);
        }
        i += 1;
    }
    None
}

/// The word at a cell.
pub fn word_selection(region: SelectionRegion, lines: &Vec<String>, point: SelectionPoint) -> (r:
    Option<TextSelection>)
    ensures
        r == word_at(region, lines.deep_view(), point),
{
    let index = match line_index(region, lines, point) {
        Some(index) => index,
        None => {
            return None;
        },
    };
    let line = lines[index].as_str();
    assert(lines.deep_view()[index as int] == line@);
    if point.column < region.left {
        return None;
    }
    let clicked_column: u16 = point.column - region.left;
    let (content_start, content_end) = match selection_content_span(line) {
        Some(span) => span,
        None => {
            return None;
        },
    };
    if (clicked_column as usize) < content_start || clicked_column as usize >= content_end {
        return None;
    }
    let spans = spans_of(line);
    let clicked = match find_span(&spans, clicked_column) {
        Some(clicked) => clicked,
        None => {
            return None;
        },
    };
    proof {
        lemma_runs(spans@, clicked as int);
    }
    let mut first: usize = clicked;
    while first > 0 && spans[first - 1].class == spans[first].class
        invariant
            first <= clicked < spans@.len(),
            run_start(spans@, clicked as int) == run_start(spans@, first as int),
        decreases first,
    {
        first -= 1;
    }
    let mut last: usize = clicked;
    while last < spans.len() - 1 && spans[last + 1].class == spans[last].class
        invariant
            clicked <= last < spans@.len(),
            run_end(spans@, clicked as int) == run_end(spans@, last as int),
        decreases spans@.len() - last,
    {
        last += 1;
    }
    let from: usize = if spans[first].start as usize > content_start {
        spans[first].start as usize
    } else {
        content_start
    };
    let to: usize = if (spans[last].end as usize) < content_end {
        spans[last].end as usize
    } else {
        content_end
    };
    Some(
        TextSelection {
            anchor: SelectionPoint { row: point.row, column: column_on_screen(region, from) },
            focus: SelectionPoint { row: point.row, column: last_column_on_screen(region, to) },
            dragging: false,
        },
    )
}

/// The content of the line at a cell.
pub fn line_selection(region: SelectionRegion, lines: &Vec<String>, point: SelectionPoint) -> (r:
    Option<TextSelection>)
    ensures
        r == whole_line_at(region, lines.deep_view(), point),
{
    let index = match line_index(region, lines, point) {
        Some(index) => index,
        None => {
            return None;
        },
    };
    assert(lines.deep_view()[index as int] == lines@[index as int]@);
    match selection_content_span(lines[index].as_str()) {
        Some((start, end)) => Some(
            TextSelection {
                anchor: SelectionPoint { row: point.row, column: column_on_screen(region, start) },
                focus: SelectionPoint {
                    row: point.row,
                    column: last_column_on_screen(region, end),
                },
                dragging: false,
            },
        ),
        None => None,
    }
}

/// Whether a line has content.
fn has_content(lines: &Vec<String>, index: usize) -> (r: bool)
    requires
        index < lines@.len(),
    ensures
        r == (content_span(lines.deep_view()[index as int]) is Some),
{
    selection_content_span(lines[index].as_str()).is_some()
}

/// The paragraph at a cell.
pub fn paragraph_selection(
    region: SelectionRegion,
    lines: &Vec<String>,
    point: SelectionPoint,
) -> (r: Option<TextSelection>)
    ensures
        r == paragraph_at(region, lines.deep_view(), point),
{
    let ghost all = lines.deep_view();
    let clicked = match line_index(region, lines, point) {
        Some(index) => index,
        None => {
            return None;
        },
    };
    if !has_content(lines, clicked) {
        return None;
    }
    let mut first: usize = clicked;
    while first > 0 && has_content(lines, first - 1)
        invariant
            all == lines.deep_view(),
            first <= clicked < lines@.len(),
            content_span(all[first as int]) is Some,
            paragraph_start(all, clicked as int) == paragraph_start(all, first as int),
        decreases first,
    {
        first -= 1;
    }
    let mut last: usize = clicked;
    while last < lines.len() - 1 && has_content(lines, last + 1)
        invariant
            all == lines.deep_view(),
            clicked <= last < lines@.len(),
            content_span(all[last as int]) is Some,
            paragraph_end(all, clicked as int) == paragraph_end(all, last as int),
        decreases lines@.len() - last,
    {
        last += 1;
    }
    let (start, _) = match selection_content_span(lines[first].as_str()) {
        Some(span) => span,
        None => {
            return None;
        },
    };
    let (_, end) = match selection_content_span(lines[last].as_str()) {
        Some(span) => span,
        None => {
            return None;
        },
    };
    Some(
        TextSelection {
            anchor: SelectionPoint {
                row: row_on_screen(region, first),
                column: column_on_screen(region, start),
            },
            focus: SelectionPoint {
                row: row_on_screen(region, last),
                column: last_column_on_screen(region, end),
            },
            dragging: false,
        },
    )
}

/// The line of a region at a row of the screen; empty where there is none.
pub open spec fn shown_line(region: SelectionRegion, lines: Seq<Seq<char>>, row: int) -> Seq<char> {
    let index = max(0, row - region.top);
    if index < lines.len() {
        lines[index]
    } else {
        Seq::empty()
    }
}

/// What of the line at a row is selected.
pub open spec fn row_text(
    region: SelectionRegion,
    lines: Seq<Seq<char>>,
    start: SelectionPoint,
    end: SelectionPoint,
    row: int,
) -> Seq<char> {
    let line = shown_line(region, lines, row);
    match content_span(line) {
        Some((content_start, content_end)) => {
            let from = if row == start.row {
                max(0, start.column - region.left)
            } else {
                content_start
            };
            let to = if row == end.row {
                add16(max(0, end.column - region.left), 1)
            } else {
                content_end
            };
            text::trimmed_end(
                between(line, max(from, content_start), min(to, content_end)).chosen,
            )
        },
        None => Seq::empty(),
    }
}

/// The text of the rows from the first selected one up to `row`, joined by line feeds; rows that
/// only draw a frame are left out. There is none if it would be too large.
pub open spec fn rows_text(
    region: SelectionRegion,
    lines: Seq<Seq<char>>,
    start: SelectionPoint,
    end: SelectionPoint,
    row: int,
) -> Option<(Seq<char>, nat)>
    decreases row - start.row,
{
    if row <= start.row {
        Some((Seq::empty(), 0))
    } else {
        match rows_text(region, lines, start, end, row - 1) {
            Some((before, count)) => if pure_border(shown_line(region, lines, row - 1)) {
                Some((before, count))
            } else {
                let selected = row_text(region, lines, start, end, row - 1);
                let separator: int = if count > 0 {
                    1
                } else {
                    0
                };
                if sat_add(
                    sat_add(text::utf8_len(before) as int, separator),
                    text::utf8_len(selected) as int,
                ) > MAX_SELECTION_BYTES {
                    None
                } else if count > 0 {
                    Some((before.push('\n') + selected, count + 1))
                } else {
                    Some((before + selected, count + 1))
                }
            },
            None => None,
        }
    }
}

/// The text of a selection, if it is not too large.
pub open spec fn selected_text(
    region: SelectionRegion,
    lines: Seq<Seq<char>>,
    selection: TextSelection,
) -> Option<Seq<char>> {
    let (start, end) = selection.ends();
    match rows_text(region, lines, start, end, end.row + 1) {
        Some((s, _count)) => Some(s),
        None => None,
    }
}

/// What of the line at a row is selected.
fn text_of_row(
    region: SelectionRegion,
    line: &str,
    start: SelectionPoint,
    end: SelectionPoint,
    row: u16,
) -> (r: String)
    ensures
        forall|lines: Seq<Seq<char>>|
            shown_line(region, lines, row as int) == line@ ==> r@ == #[trigger] row_text(
                region,
                lines,
                start,
                end,
                row as int,
            ),
{
    match selection_content_span(line) {
        Some((content_start, content_end)) => {
            let from: usize = if row == start.row {
                start.column.saturating_sub(region.left) as usize
            } else {
                content_start
            };
            let to: usize = if row == end.row {
                end.column.saturating_sub(region.left).saturating_add(1) as usize
            } else {
                content_end
            };
            let first: usize = if from > content_start {
                from
            } else {
                content_start
            };
            let last: usize = if to < content_end {
                to
            } else {
                content_end
            };
            let chosen = text_between_columns(line, first, last);
            text::trim_end(chosen.as_str())
        },
        None => String::new(),
    }
}

proof fn lemma_none_stays(
    region: SelectionRegion,
    lines: Seq<Seq<char>>,
    start: SelectionPoint,
    end: SelectionPoint,
    row: int,
    to: int,
)
    requires
        row <= to,
        rows_text(region, lines, start, end, row) is None,
    ensures
        rows_text(region, lines, start, end, to) is None,
    decreases to - row,
{
    if row < to {
        lemma_none_stays(region, lines, start, end, row, to - 1);
        lemma_some_at_start(region, lines, start, end, row);
    }
}

proof fn lemma_some_at_start(
    region: SelectionRegion,
    lines: Seq<Seq<char>>,
    start: SelectionPoint,
    end: SelectionPoint,
    row: int,
)
    requires
        rows_text(region, lines, start, end, row) is None,
    ensures
        row > start.row,
{
}

/// The text of a selection, if it is not too large.
pub fn selection_text(
    region: SelectionRegion,
    lines: &Vec<String>,
    selection: TextSelection,
) -> (r: Option<String>)
    ensures
        r.deep_view() == selected_text(region, lines.deep_view(), selection),
{
    let (start, end) = selection.ordered();
    let ghost all = lines.deep_view();
    let mut text = String::new();
    let mut selected_rows: usize = 0;
    let mut row: usize = start.row as usize;
    while row <= end.row as usize
        invariant
            all == lines.deep_view(),
            (start, end) == selection.ends(),
            start.row <= row <= end.row + 1,
            selected_rows <= row - start.row,
            rows_text(region, all, start, end, row as int) == Some((text@, selected_rows as nat)),
        decreases end.row + 1 - row,
    {
        let index: usize = row.saturating_sub(region.top as usize);
        let line = if index < lines.len() {
            lines[index].as_str()
        } else {
            ""
        };
        proof {
            reveal_strlit("");
            assert(""@ =~= Seq::<char>::empty());
            assert(shown_line(region, all, row as int) == line@);
        }
        if !is_pure_box_border(line) {
            let selected = text_of_row(region, line, start, end, row as u16);
            assert(selected@ == row_text(region, all, start, end, row as int));
            let separator: usize = if selected_rows > 0 {
                1
            } else {
                0
            };
            let total = text::byte_len(text.as_str()).saturating_add(separator).saturating_add(
                text::byte_len(selected.as_str()),
            );
            if total > MAX_SELECTION_BYTES {
                proof {
                    assert(rows_text(region, all, start, end, row + 1) is None);
                    lemma_none_stays(region, all, start, end, row + 1, end.row + 1);
                }
                return None;
            }
            if selected_rows > 0 {
                text.push('\n');
            }
            text.append(selected.as_str());
            selected_rows += 1;
        }
        row += 1;
    }
    Some(text)
}

} // verus!
