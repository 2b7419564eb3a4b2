//! What the mouse marks and copies, and what the screen shows of a transcript.
use crate::app::{AppView, MouseEvent, MouseEventKind};
use crate::input::InputClass;
use crate::selection::{
    self, MouseActionView, SelectionPoint, SelectionRegion, TextSelection, WordSpan,
};
use crate::text;
use crate::unicode;
use vstd::prelude::*;

verus! {

/// Of a line whose characters take a column each, the characters between two columns are those at
/// these places, as they stand.
pub proof fn law_columns_are_places(line: Seq<char>, start: int, end: int)
    requires
        0 <= start <= end,
        line.len() <= usize::MAX,
        forall|i: int| 0 <= i < line.len() ==> unicode::char_columns(#[trigger] line[i]) == Some(
            1usize,
        ),
    ensures
        selection::between(line, start, end).column == line.len(),
        selection::between(line, start, end).chosen == line.subrange(
            if start < line.len() {
                start
            } else {
                line.len() as int
            },
            if end < line.len() {
                end
            } else {
                line.len() as int
            },
        ),
    decreases line.len(),
{
    if line.len() == 0 {
        assert(selection::between(line, start, end).chosen =~= line.subrange(0, 0));
    } else {
        let rest = line.drop_last();
        assert forall|i: int| 0 <= i < rest.len() implies unicode::char_columns(
            #[trigger] rest[i],
        ) == Some(1usize) by {
            assert(rest[i] == line[i]);
        }
        law_columns_are_places(rest, start, end);
        assert(unicode::char_columns(line[line.len() - 1]) == Some(1usize));
        let from = if start < line.len() {
            start
        } else {
            line.len() as int
        };
        let to = if end < line.len() {
            end
        } else {
            line.len() as int
        };
        assert(selection::between(line, start, end).chosen =~= line.subrange(from, to));
    }
}

/// A character that takes no column goes with the one before it.
pub proof fn law_marks_go_with_their_character(line: Seq<char>, mark: char, start: int, end: int)
    requires
        unicode::char_columns(mark) == Some(0usize) || unicode::char_columns(mark) is None,
    ensures
        ({
            let before = selection::between(line, start, end);
            let after = selection::between(line.push(mark), start, end);
            &&& after.inside == before.inside
            &&& after.chosen == (if before.inside {
                before.chosen.push(mark)
            } else {
                before.chosen
            })
        }),
{
    assert(line.push(mark).drop_last() =~= line);
}

/// What is marked on the rows up to one, without the rows that are only border.
pub open spec fn marked_rows(
    region: SelectionRegion,
    lines: Seq<Seq<char>>,
    start: SelectionPoint,
    end: SelectionPoint,
    row: int,
) -> Seq<Seq<char>>
    decreases row - start.row,
{
    if row <= start.row {
        Seq::empty()
    } else {
        let before = marked_rows(region, lines, start, end, row - 1);
        if selection::pure_border(selection::shown_line(region, lines, row - 1)) {
            before
        } else {
            before.push(selection::row_text(region, lines, start, end, row - 1))
        }
    }
}

proof fn lemma_rows_joined(
    region: SelectionRegion,
    lines: Seq<Seq<char>>,
    start: SelectionPoint,
    end: SelectionPoint,
    row: int,
)
    ensures
        selection::rows_text(region, lines, start, end, row) matches Some((s, count)) ==> {
            let rows = marked_rows(region, lines, start, end, row);
            s == text::joined(rows, seq!['\n']) && count == rows.len()
        },
    decreases row - start.row,
{
    if row > start.row {
        lemma_rows_joined(region, lines, start, end, row - 1);
        if let Some((s, count)) = selection::rows_text(region, lines, start, end, row) {
            let rows = marked_rows(region, lines, start, end, row);
            let before = marked_rows(region, lines, start, end, row - 1);
            if rows.len() > before.len() {
                assert(rows.drop_last() =~= before);
                assert(s =~= text::joined(rows, seq!['\n']));
            }
        }
    }
}

/// What is copied is what is marked, row by row with a line feed between, but for rows that are
/// only border; and it is never longer than may be copied.
pub proof fn law_marked_text_is_copied(
    region: SelectionRegion,
    lines: Seq<Seq<char>>,
    marked: TextSelection,
)
    ensures
        selection::selected_text(region, lines, marked) matches Some(s) ==> {
            let (start, end) = marked.ends();
            s == text::joined(
                marked_rows(region, lines, start, end, end.row + 1),
                seq!['\n'],
            )
        },
        marked.ends().0.row <= marked.ends().1.row,
        marked.ends() == (marked.anchor, marked.focus) || marked.ends() == (
            marked.focus,
            marked.anchor,
        ),
        marked.ends().0.row == marked.ends().1.row ==> marked.ends().0.column
            <= marked.ends().1.column,
{
    let (start, end) = marked.ends();
    lemma_rows_joined(region, lines, start, end, end.row + 1);
}

/// A row between the first and the last marked one is marked from the beginning of its content to
/// its end; the first from where the marking begins and the last to where it ends, neither beyond
/// the content.
pub proof fn law_marked_rows(
    region: SelectionRegion,
    lines: Seq<Seq<char>>,
    start: SelectionPoint,
    end: SelectionPoint,
    row: int,
    from: int,
    to: int,
)
    requires
        region.top <= row < region.top + lines.len(),
        selection::content_span(lines[row - region.top]) == Some((from, to)),
        region.left <= start.column,
        region.left <= end.column < u16::MAX,
    ensures
        ({
            let line = lines[row - region.top];
            let first: int = if row == start.row && start.column - region.left > from {
                start.column - region.left
            } else {
                from
            };
            let last: int = if row == end.row && end.column + 1 - region.left < to {
                end.column + 1 - region.left
            } else {
                to
            };
            selection::row_text(region, lines, start, end, row) == text::trimmed_end(
                selection::between(line, first, last).chosen,
            )
        }),
{
}

/// A point is in a region if its column and its row are; the nearest point of a region is the
/// point itself if it is in there, and otherwise one on the edge.
pub proof fn law_nearest_point(region: SelectionRegion, point: SelectionPoint)
    requires
        region.left < region.right,
        region.top < region.bottom,
    ensures
        region.holds(point) <==> region.left <= point.column < region.right && region.top
            <= point.row < region.bottom,
        region.holds(region.nearest(point)),
        region.holds(point) ==> region.nearest(point) == point,
        point.row < region.top ==> region.nearest(point).row == region.top,
        point.row >= region.bottom ==> region.nearest(point).row == region.bottom - 1,
        point.column < region.left ==> region.nearest(point).column == region.left,
        point.column >= region.right ==> region.nearest(point).column == region.right - 1,
{
}

/// Text is copied only when the button goes up, and it is then the text that is marked.
pub proof fn law_copying(app: AppView, event: MouseEvent, now: u64)
    ensures
        app.after_mouse(event, now).1 matches MouseActionView::Copy(s) ==> {
            let next = app.after_mouse(event, now).0;
            &&& event.kind == MouseEventKind::LeftUp
            &&& app.selection_region matches Some(region) && (next.text_selection matches Some(
                marked,
            ) && selection::selected_text(region, app.selection_lines, marked) == Some(s)
                && marked.anchor == (app.text_selection->0).anchor)
            &&& text::trimmed(s).len() > 0
        },
        app.after_mouse(event, now).1 matches MouseActionView::Scroll(rows) ==> (rows == 1
            && event.kind == MouseEventKind::ScrollDown) || (rows == -1 && event.kind
            == MouseEventKind::ScrollUp),
{
}

/// The mouse changes only what is marked and what was clicked.
#[verifier::rlimit(40)]
#[verifier::spinoff_prover]
pub proof fn law_mouse_marks_only(app: AppView, event: MouseEvent, now: u64)
    ensures
        ({
            let next = app.after_mouse(event, now).0;
            next == (AppView {
                text_selection: next.text_selection,
                last_click: next.last_click,
                pending_click_selection: next.pending_click_selection,
                ..app
            })
        }),
{
}

/// The wheel scrolls where it turns over the transcript, and drops what is marked.
pub proof fn law_wheel(app: AppView, event: MouseEvent, now: u64)
    requires
        event.kind == MouseEventKind::ScrollUp || event.kind == MouseEventKind::ScrollDown,
    ensures
        ({
            let (next, action) = app.after_mouse(event, now);
            let over = app.selection_region matches Some(region) && region.top <= event.row
                < region.bottom;
            &&& over ==> next.text_selection is None && next.last_click is None && action
                == MouseActionView::Scroll(
                (if event.kind == MouseEventKind::ScrollUp {
                    -1
                } else {
                    1
                }) as i32,
            )
            &&& !over ==> next == app && action == MouseActionView::Ignore
        }),
{
}

/// A first press in the transcript begins to mark at its point, and pressing elsewhere drops what
/// is marked.
pub proof fn law_pressing(app: AppView, event: MouseEvent, now: u64, region: SelectionRegion)
    requires
        event.kind == MouseEventKind::LeftDown,
        app.selection_region == Some(region),
    ensures
        ({
            let (next, action) = app.after_mouse(event, now);
            let point = SelectionPoint { row: event.row, column: event.column };
            &&& !region.holds(point) ==> next.text_selection is None && next.last_click is None
            &&& region.holds(point) && app.last_click is None && !event.control
                ==> next.text_selection == Some(
                TextSelection { anchor: point, focus: point, dragging: true },
            ) && action == MouseActionView::Redraw
            &&& region.holds(point) && app.last_click is None && event.control ==> (
            next.text_selection matches Some(marked) && marked.focus == point && marked.dragging
                && marked.anchor == (match app.text_selection {
                Some(held) => held.anchor,
                None => point,
            }))
            &&& region.holds(point) ==> (next.last_click matches Some(click) && click.point == point
                && click.at == now)
        }),
{
}

/// Presses at one point within half a second count up to three and begin anew.
pub proof fn law_clicks_are_counted(app: AppView, point: SelectionPoint, now: u64)
    ensures
        app.last_click is None ==> app.click_count(point, now) == 1,
        app.last_click matches Some(last) ==> {
            let again = last.point == point && last.at <= now <= last.at + 500_000_000;
            &&& !again ==> app.click_count(point, now) == 1
            &&& again && last.count < 3 ==> app.click_count(point, now) == last.count + 1
            &&& again && last.count >= 3 ==> app.click_count(point, now) == 1
        },
{
}

/// While the button is down, what is marked reaches from where it began to the point of the
/// region nearest to the mouse.
pub proof fn law_dragging(
    app: AppView,
    event: MouseEvent,
    now: u64,
    region: SelectionRegion,
    held: TextSelection,
)
    requires
        event.kind == MouseEventKind::LeftDrag,
        app.selection_region == Some(region),
        app.text_selection == Some(held),
    ensures
        ({
            let (next, action) = app.after_mouse(event, now);
            let point = SelectionPoint { row: event.row, column: event.column };
            &&& held.dragging ==> action == MouseActionView::Redraw && next.text_selection == Some(
                TextSelection {
                    anchor: held.anchor,
                    focus: region.nearest(point),
                    dragging: true,
                },
            )
            &&& !held.dragging ==> action == MouseActionView::Ignore && next == app
        }),
{
}

/// When the button goes up where it went down, nothing is marked; elsewhere what is marked stays,
/// and is copied unless it is blank or too long.
pub proof fn law_releasing(
    app: AppView,
    event: MouseEvent,
    now: u64,
    region: SelectionRegion,
    held: TextSelection,
)
    requires
        event.kind == MouseEventKind::LeftUp,
        app.selection_region == Some(region),
        app.text_selection == Some(held),
        held.dragging,
        !app.pending_click_selection,
    ensures
        ({
            let (next, action) = app.after_mouse(event, now);
            let focus = region.nearest(SelectionPoint { row: event.row, column: event.column });
            let marked = TextSelection { anchor: held.anchor, focus, dragging: false };
            let s = selection::selected_text(region, app.selection_lines, marked);
            &&& held.anchor == focus ==> next.text_selection is None && action
                == MouseActionView::Redraw
            &&& held.anchor != focus && s is None ==> next.text_selection == Some(marked) && action
                == MouseActionView::SelectionTooLarge
            &&& held.anchor != focus && s is Some && text::trimmed(s->0).len() > 0
                ==> next.text_selection == Some(marked) && action == MouseActionView::Copy(s->0)
            &&& held.anchor != focus && s is Some && text::trimmed(s->0).len() == 0
                ==> next.text_selection is None && action == MouseActionView::Redraw
        }),
{
}

/// Two presses at a point mark the word there, or with control the line; three mark the
/// paragraph. What they mark is copied when the button goes up.
pub proof fn law_many_presses(
    app: AppView,
    event: MouseEvent,
    now: u64,
    region: SelectionRegion,
    count: u8,
)
    requires
        event.kind == MouseEventKind::LeftDown,
        app.selection_region == Some(region),
        region.holds(SelectionPoint { row: event.row, column: event.column }),
        count == app.click_count(SelectionPoint { row: event.row, column: event.column }, now),
    ensures
        ({
            let next = app.after_mouse(event, now).0;
            let point = SelectionPoint { row: event.row, column: event.column };
            let lines = app.selection_lines;
            &&& count == 2 && !event.control && selection::word_at(region, lines, point) is Some
                ==> next.text_selection == selection::word_at(region, lines, point)
                && next.pending_click_selection
            &&& count == 2 && event.control && selection::whole_line_at(region, lines, point)
                is Some ==> next.text_selection == selection::whole_line_at(region, lines, point)
                && next.pending_click_selection
            &&& count == 3 && selection::paragraph_at(region, lines, point) is Some
                ==> next.text_selection == selection::paragraph_at(region, lines, point)
                && next.pending_click_selection
        }),
{
}

proof fn lemma_runs(spans: Seq<WordSpan>, at: int)
    requires
        0 <= at < spans.len(),
    ensures
        0 <= selection::run_start(spans, at) <= at,
        at <= selection::run_end(spans, at) < spans.len(),
        forall|k: int|
            selection::run_start(spans, at) <= k <= at ==> (#[trigger] spans[k]).class
                == spans[at].class,
        selection::run_start(spans, at) > 0 ==> spans[selection::run_start(spans, at) - 1].class
            != spans[at].class,
    decreases at,
{
    lemma_run_ends(spans, at);
    if 0 < at && spans[at - 1].class == spans[at].class {
        lemma_runs(spans, at - 1);
    }
}

proof fn lemma_run_ends(spans: Seq<WordSpan>, at: int)
    requires
        0 <= at < spans.len(),
    ensures
        at <= selection::run_end(spans, at) < spans.len(),
        forall|k: int|
            at <= k <= selection::run_end(spans, at) ==> (#[trigger] spans[k]).class
                == spans[at].class,
        selection::run_end(spans, at) < spans.len() - 1 ==> spans[selection::run_end(spans, at)
            + 1].class != spans[at].class,
    decreases spans.len() - at,
{
    if at < spans.len() - 1 && spans[at + 1].class == spans[at].class {
        lemma_run_ends(spans, at + 1);
    }
}

/// A word is everything of one kind around a place, and nothing beyond it.
pub proof fn law_words_are_of_one_kind(spans: Seq<WordSpan>, at: int, k: int)
    requires
        0 <= at < spans.len(),
    ensures
        selection::run_start(spans, at) <= k <= selection::run_end(spans, at) ==> 0 <= k
            < spans.len() && spans[k].class == spans[at].class,
        selection::run_start(spans, at) <= at <= selection::run_end(spans, at),
        selection::run_start(spans, at) > 0 ==> spans[selection::run_start(spans, at) - 1].class
            != spans[at].class,
        selection::run_end(spans, at) < spans.len() - 1 ==> spans[selection::run_end(spans, at)
            + 1].class != spans[at].class,
{
    lemma_runs(spans, at);
    lemma_run_ends(spans, at);
}

/// The first span over a column is found, if there is one.
pub proof fn law_spans_are_found(spans: Seq<WordSpan>, column: u16, from: int)
    requires
        0 <= from,
    ensures
        selection::span_at(spans, column, from) matches Some(i) ==> from <= i < spans.len()
            && spans[i].start <= column < spans[i].end,
        selection::span_at(spans, column, from) is None ==> forall|i: int|
            from <= i < spans.len() ==> !((#[trigger] spans[i]).start <= column < spans[i].end),
    decreases spans.len() - from,
{
    if from < spans.len() && !(spans[from].start <= column < spans[from].end) {
        law_spans_are_found(spans, column, from + 1);
    }
}

/// The spans of a line stand one behind the other, each as wide as its character and of its kind.
pub proof fn law_spans_stand_in_order(graphemes: Seq<Seq<char>>, grapheme: Seq<char>)
    ensures
        ({
            let before = selection::word_spans(graphemes);
            let after = selection::word_spans(graphemes.push(grapheme));
            let width = unicode::text_columns(grapheme);
            let at: int = if before.len() == 0 {
                0
            } else {
                before.last().end as int
            };
            &&& width == 0 ==> after == before
            &&& width > 0 ==> after.drop_last() == before && after.len() == before.len() + 1
                && after.last().start == at && (at + width <= u16::MAX ==> after.last().end == at
                + width) && after.last().class == crate::input::class_of(grapheme)
        }),
{
    assert(graphemes.push(grapheme).drop_last() =~= graphemes);
}

/// A character is white space, part of an identifier, or punctuation, by its first scalar.
pub proof fn law_kinds_of_characters(grapheme: Seq<char>)
    ensures
        grapheme.len() > 0 && text::white_space(grapheme[0]) <==> crate::input::class_of(grapheme)
            == InputClass::Whitespace,
        grapheme.len() > 0 && !text::white_space(grapheme[0]) && (unicode::letter_or_number(
            grapheme[0],
        ) || grapheme[0] == '_') <==> crate::input::class_of(grapheme) == InputClass::Identifier,
{
}

/// A paragraph is every line with content around a line, and nothing beyond it.
pub proof fn law_paragraphs(lines: Seq<Seq<char>>, at: int, k: int)
    requires
        0 <= at < lines.len(),
        selection::content_span(lines[at]) is Some,
    ensures
        ({
            let first = selection::paragraph_start(lines, at);
            let last = selection::paragraph_end(lines, at);
            &&& 0 <= first <= at <= last < lines.len()
            &&& first <= k <= last ==> selection::content_span(lines[k]) is Some
            &&& first > 0 ==> selection::content_span(lines[first - 1]) is None
            &&& last < lines.len() - 1 ==> selection::content_span(lines[last + 1]) is None
        }),
{
    lemma_paragraph_start(lines, at, k);
    lemma_paragraph_end(lines, at, k);
}

proof fn lemma_paragraph_start(lines: Seq<Seq<char>>, at: int, k: int)
    requires
        0 <= at < lines.len(),
        selection::content_span(lines[at]) is Some,
    ensures
        ({
            let first = selection::paragraph_start(lines, at);
            &&& 0 <= first <= at
            &&& first <= k <= at ==> selection::content_span(lines[k]) is Some
            &&& first > 0 ==> selection::content_span(lines[first - 1]) is None
        }),
    decreases at,
{
    if 0 < at && selection::content_span(lines[at - 1]) is Some {
        lemma_paragraph_start(lines, at - 1, k);
    }
}

proof fn lemma_paragraph_end(lines: Seq<Seq<char>>, at: int, k: int)
    requires
        0 <= at < lines.len(),
        selection::content_span(lines[at]) is Some,
    ensures
        ({
            let last = selection::paragraph_end(lines, at);
            &&& at <= last < lines.len()
            &&& at <= k <= last ==> selection::content_span(lines[k]) is Some
            &&& last < lines.len() - 1 ==> selection::content_span(lines[last + 1]) is None
        }),
    decreases lines.len() - at,
{
    if at < lines.len() - 1 && selection::content_span(lines[at + 1]) is Some {
        lemma_paragraph_end(lines, at + 1, k);
    }
}

/// A paragraph is marked from the beginning of the content of its first line to the end of the
/// content of its last; a line from the beginning to the end of its own; a word on its own line.
pub proof fn law_marked_units(
    region: SelectionRegion,
    lines: Seq<Seq<char>>,
    point: SelectionPoint,
)
    requires
        region.holds(point),
        point.row - region.top < lines.len(),
        region.right < 0x4000,
        region.bottom < 0x4000,
    ensures
        ({
            let at = point.row - region.top;
            let span = selection::content_span(lines[at]);
            let first = selection::paragraph_start(lines, at);
            let last = selection::paragraph_end(lines, at);
            let head = selection::content_span(lines[first]);
            let tail = selection::content_span(lines[last]);
            &&& selection::whole_line_at(region, lines, point) is Some <==> span is Some
            &&& selection::paragraph_at(region, lines, point) is Some <==> span is Some
            &&& selection::word_at(region, lines, point) is Some ==> span is Some
            &&& selection::whole_line_at(region, lines, point) matches Some(marked) ==> {
                &&& marked.anchor.row == point.row && marked.focus.row == point.row
                &&& !marked.dragging
                &&& (span->0).0 < 0x4000 ==> marked.anchor.column == region.left + (span->0).0
                &&& region.left + (span->0).1 <= region.right ==> marked.focus.column
                    == region.left + (span->0).1 - 1
            }
            &&& selection::word_at(region, lines, point) matches Some(marked) ==> {
                &&& marked.anchor.row == point.row && marked.focus.row == point.row
                &&& !marked.dragging
            }
            &&& selection::paragraph_at(region, lines, point) matches Some(marked) ==> {
                &&& !marked.dragging
                &&& last < 0x4000 ==> marked.anchor.row == region.top + first && marked.focus.row
                    == region.top + last
                &&& (head->0).0 < 0x4000 ==> marked.anchor.column == region.left + (head->0).0
                &&& region.left + (tail->0).1 <= region.right ==> marked.focus.column
                    == region.left + (tail->0).1 - 1
            }
        }),
{
    let at = point.row - region.top;
    if selection::content_span(lines[at]) is Some {
        law_paragraphs(lines, at, at);
        law_paragraphs(lines, at, selection::paragraph_start(lines, at));
        law_paragraphs(lines, at, selection::paragraph_end(lines, at));
        assert(selection::content_start(lines[at]) >= 0);
    }
}

/// A line of plain text has its content from its first column to the end of its last character
/// that is no white space; a framed line between its sides; a blank line and a border have none.
pub proof fn law_content_of_lines(line: Seq<char>)
    ensures
        text::trimmed(line).len() == 0 ==> selection::content_span(line) is None,
        selection::content_span(line) matches Some((from, to)) ==> {
            let framed = line.len() > 0 && (line[0] == '│' || line[0] == '┃' || line[0] == '║');
            &&& text::trimmed(line).len() > 0
            &&& from < to
            &&& !framed ==> from == 0
            &&& framed && unicode::char_columns(line[0]) == Some(1usize) && line.len() > 1
                && line[1] == ' ' ==> from == 2
        },
        line.len() > 0 && !text::white_space(line[0]) && !text::white_space(line.last())
            && !selection::frame_char(line[0]) && line.last() != '│' && line.last() != '┃'
            && line.last() != '║' && unicode::text_columns(line) > 0 ==> selection::content_span(
            line,
        ) == Some((0int, unicode::text_columns(line) as int)),
{
    if line.len() > 0 && !text::white_space(line[0]) && !text::white_space(line.last()) {
        text::lemma_trimmed(line);
        assert(text::trimmed(line) == line);
        assert(text::trimmed_end(line) == line);
    }
}

/// A row is border exactly if it holds nothing but frame characters and white space, and at least
/// one of the first.
pub proof fn law_borders(line: Seq<char>, i: int)
    ensures
        0 <= i < text::trimmed(line).len() && !text::white_space(text::trimmed(line)[i])
            && text::trimmed(line)[i] != '│' && text::trimmed(line)[i] != '┃' && text::trimmed(
            line,
        )[i] != '║' && text::trimmed(line)[i] != '╭' && text::trimmed(line)[i] != '╮'
            && text::trimmed(line)[i] != '╰' && text::trimmed(line)[i] != '╯' && text::trimmed(
            line,
        )[i] != '─' && text::trimmed(line)[i] != '┌' && text::trimmed(line)[i] != '┐'
            && text::trimmed(line)[i] != '└' && text::trimmed(line)[i] != '┘'
            ==> !selection::pure_border(line),
        text::trimmed(line).len() == 0 ==> !selection::pure_border(line),
{
}

/// A point is marked exactly if it lies between the two ends, in reading order.
pub proof fn law_marked_points(marked: TextSelection, point: SelectionPoint)
    ensures
        marked.selects(point) <==> {
            let (start, end) = marked.ends();
            &&& start.row < point.row || (start.row == point.row && start.column <= point.column)
            &&& point.row < end.row || (point.row == end.row && point.column <= end.column)
        },
{
}

/// Scrolling by a number of rows goes up where it is negative and down where it is positive.
pub proof fn law_scrolling_by(app: AppView, rows: int)
    requires
        !app.follow_tail,
        app.scroll_offset <= app.max_scroll,
        0 < app.max_scroll < 0x4000_0000,
        -0x4000_0000 < rows < 0x4000_0000,
    ensures
        ({
            let next = app.scrolled_by(rows);
            let to = app.scroll_offset + rows;
            &&& rows != 0 ==> next.scroll_offset == (if to < 0 {
                0
            } else if to > app.max_scroll {
                app.max_scroll as int
            } else {
                to
            })
            &&& rows == 0 ==> next == app
            &&& rows > 0 ==> next.follow_tail == (to >= app.max_scroll)
            &&& next.snapshot == app.snapshot && next.input == app.input
        }),
{
}

proof fn lemma_spans_ordered(graphemes: Seq<Seq<char>>)
    ensures
        ({
            let spans = selection::word_spans(graphemes);
            &&& forall|i: int, j: int|
                0 <= i <= j < spans.len() ==> (#[trigger] spans[i]).start <= (
                #[trigger] spans[j]).start && spans[i].end <= spans[j].end
            &&& forall|i: int| 0 <= i < spans.len() ==> (#[trigger] spans[i]).start <= spans[i].end
        }),
    decreases graphemes.len(),
{
    if graphemes.len() > 0 {
        lemma_spans_ordered(graphemes.drop_last());
        let before = selection::word_spans(graphemes.drop_last());
        let spans = selection::word_spans(graphemes);
        if spans.len() > before.len() {
            assert(spans.drop_last() =~= before);
            assert forall|i: int, j: int| 0 <= i <= j < spans.len() implies (
            #[trigger] spans[i]).start <= (#[trigger] spans[j]).start && spans[i].end
                <= spans[j].end by {
                if i < before.len() {
                    assert(spans[i] == before[i]);
                    assert(before[i].end <= before[before.len() - 1].end);
                    assert(before[i].start <= before[i].end);
                }
                if j < before.len() {
                    assert(spans[j] == before[j]);
                }
            }
            assert forall|i: int| 0 <= i < spans.len() implies (#[trigger] spans[i]).start
                <= spans[i].end by {
                if i < before.len() {
                    assert(spans[i] == before[i]);
                }
            }
        }
    }
}

proof fn lemma_screen_columns(region: SelectionRegion, from: int, to: int, column: int)
    requires
        region.left < region.right < 0x4000,
        0 <= from <= column < to <= 2 * u16::MAX,
        column < region.right - region.left,
    ensures
        selection::screen_column(region, from) == region.left + from,
        region.left + column <= selection::screen_last_column(region, to),
        selection::screen_last_column(region, to) < region.right,
        selection::screen_last_column(region, to) < region.left + to,
        region.left + to <= region.right ==> selection::screen_last_column(region, to)
            == region.left + to - 1,
{
}

/// The word that is marked by two presses is on the row pressed and around the place pressed,
/// whole: it reaches over everything of one kind there, and not beyond the content of the row.
pub proof fn law_marked_words(
    region: SelectionRegion,
    lines: Seq<Seq<char>>,
    point: SelectionPoint,
    marked: TextSelection,
    k: int,
)
    requires
        region.holds(point),
        region.right < 0x4000,
        point.row - region.top < lines.len(),
        selection::word_at(region, lines, point) == Some(marked),
        selection::span_at(
            selection::word_spans(unicode::clusters(lines[point.row - region.top])),
            (point.column - region.left) as u16,
            0,
        ) == Some(k),
    ensures
        marked.anchor.row == point.row,
        marked.focus.row == point.row,
        marked.anchor.column <= point.column <= marked.focus.column,
        marked.focus.column < region.right,
        ({
            let spans = selection::word_spans(unicode::clusters(lines[point.row - region.top]));
            let (start, end) = selection::content_span(lines[point.row - region.top])->0;
            let first = spans[selection::run_start(spans, k)].start;
            let last = spans[selection::run_end(spans, k)].end;
            &&& marked.anchor.column == region.left + (if first > start {
                first as int
            } else {
                start
            })
            &&& marked.focus.column < region.left + last
            &&& last <= end && region.left + last <= region.right ==> marked.focus.column
                == region.left + last - 1
        }),
{
    let line = lines[point.row - region.top];
    let graphemes = unicode::clusters(line);
    let spans = selection::word_spans(graphemes);
    let column = (point.column - region.left) as u16;
    let first = selection::run_start(spans, k);
    let last = selection::run_end(spans, k);
    assert(spans[first].start <= column < spans[last].end) by {
        law_spans_are_found(spans, column, 0);
        lemma_spans_ordered(graphemes);
        lemma_runs(spans, k);
        lemma_run_ends(spans, k);
        assert(spans[first].start <= spans[k].start);
        assert(spans[k].end <= spans[last].end);
    }
    let (start, end) = selection::content_span(line)->0;
    let from = vstd::math::max(spans[first].start as int, start);
    let to = vstd::math::min(spans[last].end as int, end);
    assert(from >= 0);
    lemma_screen_columns(region, from, to, column as int);
}

} // verus!
