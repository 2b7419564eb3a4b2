//! What the transcript shows.
use crate::session::{MessageView, ToolCallView};
use crate::style::{Color, LineView, SpanView, Style};
use crate::text;
use crate::transcript::{self, LocalEntryView, MessageColors, PartView};
use crate::unicode;
use vstd::prelude::*;

verus! {

/// The rows of a line of a text: those it is wrapped to, or one empty row.
pub open spec fn line_rows(line: Seq<char>, width: int) -> Seq<Seq<char>> {
    if line.len() == 0 {
        seq![Seq::<char>::empty()]
    } else {
        unicode::wrapped_rows(line, width as usize, ""@, ""@)
    }
}

/// The rows of a text: those of its lines, one line behind the other.
pub open spec fn text_rows(s: Seq<char>, width: int) -> Seq<Seq<char>> {
    text::split(s, '\n').map_values(|line: Seq<char>| line_rows(line, width)).flatten_alt()
}

/// How wide the text behind a marker is.
pub open spec fn prose_width(width: u16) -> int {
    if width <= 3 {
        1
    } else {
        width - 2
    }
}

/// Whether a line shows a row of prose behind a marker or an indent, and nothing else but blanks.
pub open spec fn shows_row(line: LineView, before: Seq<char>, row: Seq<char>) -> bool {
    &&& 2 <= line.spans.len() <= 3
    &&& line.spans[0].content == before
    &&& line.spans[1].content == row
    &&& line.spans.len() == 3 ==> forall|i: int|
        0 <= i < line.spans[2].content.len() ==> #[trigger] line.spans[2].content[i] == ' '
}

/// Whether lines show rows of prose, one for one and in order, the first behind the marker and
/// every other behind an indent of its width.
pub open spec fn shows_rows(
    lines: Seq<LineView>,
    marker: Seq<char>,
    rows: Seq<Seq<char>>,
) -> bool {
    &&& lines.len() == rows.len()
    &&& forall|i: int|
        0 <= i < rows.len() ==> shows_row(
            lines[i],
            if i == 0 {
                marker
            } else {
                "  "@
            },
            #[trigger] rows[i],
        )
}

proof fn lemma_all_rows(sources: Seq<Seq<char>>, width: int)
    requires
        0 <= width <= usize::MAX,
    ensures
        transcript::all_rows(sources, width as usize) == sources.map_values(
            |line: Seq<char>| line_rows(line, width),
        ).flatten_alt(),
    decreases sources.len(),
{
    let pieces = sources.map_values(|line: Seq<char>| line_rows(line, width));
    if sources.len() > 0 {
        lemma_all_rows(sources.drop_last(), width);
        assert(pieces.drop_last() =~= sources.drop_last().map_values(
            |line: Seq<char>| line_rows(line, width),
        ));
    }
}

/// Prose is shown row by row: row i of the screen shows the i-th wrapped row of the text, so that
/// every row is on the screen, in order and once.
pub proof fn law_prose_is_shown_in_order(
    s: Seq<char>,
    marker: Seq<char>,
    colors: MessageColors,
    width: u16,
)
    requires
        width > 0,
    ensures
        shows_rows(
            transcript::compact_text(s, marker, colors, width),
            marker,
            text_rows(s, prose_width(width)),
        ),
{
    lemma_all_rows(text::split(s, '\n'), prose_width(width));
}

/// What a line says behind nothing: its only span, if it has one.
pub open spec fn said(line: LineView) -> Seq<char> {
    if line.spans.len() == 0 {
        Seq::empty()
    } else {
        line.spans[0].content
    }
}

/// Whether lines say rows, one for one and in order, and nothing else.
pub open spec fn says_rows(lines: Seq<LineView>, rows: Seq<Seq<char>>) -> bool {
    &&& lines.len() == rows.len()
    &&& forall|i: int|
        0 <= i < rows.len() ==> said(lines[i]) == #[trigger] rows[i] && lines[i].spans.len() <= 1
}

proof fn lemma_wrapped_sources(sources: Seq<Seq<char>>, style: Style, width: u16)
    ensures
        says_rows(
            transcript::wrapped_sources(sources, style, width),
            sources.map_values(|line: Seq<char>| line_rows(line, width as int)).flatten_alt(),
        ),
    decreases sources.len(),
{
    let pieces = sources.map_values(|line: Seq<char>| line_rows(line, width as int));
    if sources.len() > 0 {
        lemma_wrapped_sources(sources.drop_last(), style, width);
        assert(pieces.drop_last() =~= sources.drop_last().map_values(
            |line: Seq<char>| line_rows(line, width as int),
        ));
        let before = transcript::wrapped_sources(sources.drop_last(), style, width);
        let lines = transcript::wrapped_sources(sources, style, width);
        let earlier = pieces.drop_last().flatten_alt();
        let rows = pieces.flatten_alt();
        let last = line_rows(sources.last(), width as int);
        assert(rows == earlier + last);
        assert forall|i: int| 0 <= i < rows.len() implies said(lines[i]) == #[trigger] rows[i]
            && lines[i].spans.len() <= 1 by {
            if i < earlier.len() {
                assert(rows[i] == earlier[i]);
                assert(lines[i] == before[i]);
            } else {
                assert(rows[i] == last[i - earlier.len()]);
                assert(lines[i] == transcript::wrapped_source(sources.last(), style, width)[i
                    - earlier.len()]);
            }
        }
    }
}

/// The text of a code block is shown row by row, in order and once.
pub proof fn law_code_is_shown_in_order(s: Seq<char>, style: Style, width: u16)
    requires
        width > 0,
    ensures
        says_rows(transcript::wrapped_text(s, style, width), text_rows(s, width as int)),
{
    lemma_wrapped_sources(text::split(s, '\n'), style, width);
}

/// Whether a line holds the spans of another, one behind the other.
pub open spec fn holds_spans(line: LineView, spans: Seq<SpanView>, at: int) -> bool {
    0 <= at && at + spans.len() <= line.spans.len() && line.spans.subrange(at, at + spans.len())
        == spans
}

/// A block shows its lines as they are, one for one and in order, each between its sides; where
/// there is room for a frame, a line stands above them and one below them.
pub proof fn law_blocks_keep_their_lines(
    block: Seq<LineView>,
    background: Color,
    border: Color,
    width: u16,
)
    ensures
        ({
            let shown = transcript::styled_block(block, background, border, width);
            if width < 5 {
                &&& shown.len() == block.len()
                &&& forall|i: int|
                    0 <= i < block.len() ==> holds_spans(
                        shown[i],
                        (#[trigger] block[i]).spans,
                        if width > 2 {
                            1
                        } else {
                            0
                        },
                    )
            } else {
                &&& shown.len() == block.len() + 2
                &&& shown[0].spans[0].content == "╭"@
                &&& shown.last().spans[0].content == "╰"@
                &&& forall|i: int|
                    0 <= i < block.len() ==> holds_spans(
                        shown[i + 1],
                        (#[trigger] block[i]).spans,
                        2,
                    ) && shown[i + 1].spans[0].content == "│"@ && shown[i + 1].spans.last().content
                        == "│"@
            }
        }),
{
    let shown = transcript::styled_block(block, background, border, width);
    if width < 5 {
        assert forall|i: int| 0 <= i < block.len() implies holds_spans(
            shown[i],
            (#[trigger] block[i]).spans,
            if width > 2 {
                1
            } else {
                0
            },
        ) by {
            let at: int = if width > 2 {
                1
            } else {
                0
            };
            assert(shown[i].spans.subrange(at, at + block[i].spans.len()) =~= block[i].spans);
        }
    } else {
        assert forall|i: int| 0 <= i < block.len() implies holds_spans(
            shown[i + 1],
            (#[trigger] block[i]).spans,
            2,
        ) && shown[i + 1].spans[0].content == "│"@ && shown[i + 1].spans.last().content
            == "│"@ by {
            assert(shown[i + 1].spans.subrange(2, 2int + block[i].spans.len())
                =~= block[i].spans);
        }
    }
}

proof fn lemma_gap_keeps(lines: Seq<LineView>, more: Seq<LineView>)
    ensures
        lines.is_prefix_of(lines + more),
        lines.is_prefix_of(transcript::with_gap(lines)),
        lines.is_prefix_of(transcript::with_gap(lines + more)),
{
    assert((lines + more).subrange(0, lines.len() as int) =~= lines);
    assert(transcript::with_gap(lines).subrange(0, lines.len() as int) =~= lines);
    assert(transcript::with_gap(lines + more).subrange(0, lines.len() as int) =~= lines);
}

proof fn lemma_prefix_transitive(a: Seq<LineView>, b: Seq<LineView>, c: Seq<LineView>)
    requires
        a.is_prefix_of(b),
        b.is_prefix_of(c),
    ensures
        a.is_prefix_of(c),
{
    assert(c.subrange(0, a.len() as int) =~= b.subrange(0, a.len() as int));
}

proof fn lemma_block_keeps(
    lines: Seq<LineView>,
    block: Seq<LineView>,
    background: Color,
    border: Color,
    width: u16,
)
    ensures
        lines.is_prefix_of(transcript::with_block(lines, block, background, border, width)),
{
    lemma_gap_keeps(lines, transcript::styled_block(block, background, border, width));
    assert(lines.subrange(0, lines.len() as int) =~= lines);
}

proof fn lemma_parts_keep(
    lines: Seq<LineView>,
    parts: Seq<PartView>,
    marker: Seq<char>,
    colors: MessageColors,
    width: u16,
)
    ensures
        lines.is_prefix_of(transcript::message_parts(lines, parts, marker, colors, width).0),
    decreases parts.len(),
{
    if parts.len() == 0 {
        assert(lines.subrange(0, lines.len() as int) =~= lines);
    } else {
        lemma_parts_keep(lines, parts.drop_last(), marker, colors, width);
        let (before, marked) = transcript::message_parts(
            lines,
            parts.drop_last(),
            marker,
            colors,
            width,
        );
        let after = transcript::message_parts(lines, parts, marker, colors, width).0;
        match parts.last() {
            PartView::Text(s) => {
                lemma_gap_keeps(
                    before,
                    transcript::compact_text(
                        s,
                        if marked {
                            "  "@
                        } else {
                            marker
                        },
                        colors,
                        width,
                    ),
                );
            },
            PartView::Code(s) => {
                lemma_block_keeps(
                    before,
                    transcript::wrapped_text(
                        s,
                        Style::plain().fg(colors.text),
                        transcript::block_content_width(width),
                    ),
                    colors.background,
                    colors.marker,
                    width,
                );
            },
        }
        lemma_prefix_transitive(lines, before, after);
    }
}

/// Whether a line opens or closes a block of code: three backquotes behind white space.
pub open spec fn fences(line: Seq<char>) -> bool {
    let rest = text::trimmed_start(line);
    rest.len() >= 3 && rest[0] == '`' && rest[1] == '`' && rest[2] == '`'
}

proof fn lemma_fences(line: Seq<char>)
    ensures
        transcript::is_fence(line) == fences(line),
{
    reveal_strlit("```");
    let rest = text::trimmed_start(line);
    if rest.len() >= 3 {
        assert(rest.subrange(0, 3)[0] == rest[0]);
        assert(rest.subrange(0, 3)[1] == rest[1]);
        assert(rest.subrange(0, 3)[2] == rest[2]);
        assert(fences(line) ==> rest.subrange(0, 3) =~= "```"@);
    }
}

/// Whether no line of a text opens or closes a block of code.
pub open spec fn is_prose(s: Seq<char>) -> bool {
    forall|i: int|
        0 <= i < text::split(s, '\n').len() ==> !fences(#[trigger] text::split(s, '\n')[i])
}

proof fn lemma_prose_state(lines: Seq<Seq<char>>)
    requires
        forall|i: int| 0 <= i < lines.len() ==> !fences(#[trigger] lines[i]),
    ensures
        transcript::parts_state(lines).parts.len() == 0,
        transcript::parts_state(lines).buffer == lines,
        !transcript::parts_state(lines).in_code,
    decreases lines.len(),
{
    if lines.len() > 0 {
        lemma_prose_state(lines.drop_last());
        lemma_fences(lines.last());
        assert(lines.drop_last().push(lines.last()) =~= lines);
    }
}

/// The pieces of a text between its line feeds, put together with line feeds, are the text.
proof fn lemma_split_joined(s: Seq<char>)
    ensures
        text::joined(text::split(s, '\n'), "\n"@) == s,
    decreases s.len(),
{
    crate::laws::texts::law_pieces_make_the_text(s, '\n');
    reveal_strlit("\n");
    assert("\n"@ =~= seq!['\n']);
}

/// A text without blocks of code is one part of prose, whole.
pub proof fn law_prose_is_one_part(s: Seq<char>)
    requires
        is_prose(s),
    ensures
        s.len() > 0 ==> transcript::content_parts(s) == seq![PartView::Text(s)],
        s.len() == 0 ==> transcript::content_parts(s).len() == 0,
{
    lemma_prose_state(text::split(s, '\n'));
    lemma_split_joined(s);
    assert(Seq::<PartView>::empty().push(PartView::Text(s)) =~= seq![PartView::Text(s)]);
    let state = transcript::parts_state(text::split(s, '\n'));
    assert(state.parts =~= Seq::<PartView>::empty());
}

/// A message of prose leaves what stood above it as it was and shows every row of its text, in
/// order, behind its marker.
pub proof fn law_messages_are_shown(
    lines: Seq<LineView>,
    content: Seq<char>,
    marker: Seq<char>,
    colors: MessageColors,
    width: u16,
)
    requires
        width > 0,
        is_prose(content),
        content.len() > 0,
    ensures
        ({
            let shown = transcript::with_message(lines, content, marker, colors, width);
            let rows = text_rows(content, prose_width(width));
            &&& lines.is_prefix_of(shown)
            &&& lines.len() + rows.len() <= shown.len() <= lines.len() + rows.len() + 1
            &&& shows_rows(
                shown.subrange(lines.len() as int, (lines.len() + rows.len()) as int),
                marker,
                rows,
            )
            &&& shown.len() > lines.len() + rows.len() ==> shown.last().spans.len() == 0
        }),
{
    law_prose_is_one_part(content);
    law_prose_is_shown_in_order(content, marker, colors, width);
    let parts = transcript::content_parts(content);
    lemma_parts_keep(lines, parts, marker, colors, width);
    let none = parts.drop_last();
    assert(none.len() == 0);
    assert(transcript::message_parts(lines, none, marker, colors, width) == (lines, false));
    let body = transcript::compact_text(content, marker, colors, width);
    let shown = transcript::with_message(lines, content, marker, colors, width);
    assert(shown == transcript::with_gap(lines + body));
    assert(shown.subrange(lines.len() as int, (lines.len() + body.len()) as int) =~= body);
}

/// The characters of a text but for its line feeds.
pub open spec fn unbroken(s: Seq<char>) -> Seq<char> {
    s.filter(|c: char| c != '\n')
}

/// What the parts of a text say, one behind the other, but for line feeds.
pub open spec fn parts_say(parts: Seq<PartView>) -> Seq<char> {
    parts.map_values(
        |part: PartView|
            match part {
                PartView::Text(s) => unbroken(s),
                PartView::Code(s) => unbroken(s),
            },
    ).flatten_alt()
}

proof fn lemma_unbroken_sum(a: Seq<char>, b: Seq<char>)
    ensures
        unbroken(a + b) == unbroken(a) + unbroken(b),
{
    Seq::filter_distributes_over_add(a, b, |c: char| c != '\n');
}

proof fn lemma_unbroken_joined(lines: Seq<Seq<char>>)
    ensures
        unbroken(text::joined(lines, "\n"@)) == lines.map_values(
            |line: Seq<char>| unbroken(line),
        ).flatten_alt(),
    decreases lines.len(),
{
    reveal(Seq::filter);
    let pieces = lines.map_values(|line: Seq<char>| unbroken(line));
    if lines.len() == 1 {
        assert(pieces.drop_last() =~= Seq::<Seq<char>>::empty());
        assert(pieces.drop_last().flatten_alt() =~= Seq::<char>::empty());
        assert(pieces.flatten_alt() =~= unbroken(lines[0]));
    } else if lines.len() > 1 {
        lemma_unbroken_joined(lines.drop_last());
        assert(pieces.drop_last() =~= lines.drop_last().map_values(
            |line: Seq<char>| unbroken(line),
        ));
        let head = text::joined(lines.drop_last(), "\n"@);
        lemma_unbroken_sum(head + "\n"@, lines.last());
        lemma_unbroken_sum(head, "\n"@);
        reveal_strlit("\n");
        assert("\n"@.drop_last() =~= Seq::<char>::empty());
        assert(unbroken("\n"@.drop_last()) =~= Seq::<char>::empty());
        assert(unbroken("\n"@) =~= Seq::<char>::empty());
        assert(unbroken(head) + Seq::<char>::empty() =~= unbroken(head));
    }
}

/// What the lines of a text that open or close no block of code say, but for line feeds.
pub open spec fn lines_say(lines: Seq<Seq<char>>) -> Seq<char> {
    lines.map_values(
        |line: Seq<char>|
            if fences(line) {
                Seq::<char>::empty()
            } else {
                unbroken(line)
            },
    ).flatten_alt()
}

proof fn lemma_flushed(state: transcript::PartsState)
    ensures
        parts_say(transcript::flushed(state)) == parts_say(state.parts) + unbroken(
            text::joined(state.buffer, "\n"@),
        ),
{
    reveal(Seq::filter);
    let after = transcript::flushed(state);
    let content = text::joined(state.buffer, "\n"@);
    let say = |part: PartView|
        match part {
            PartView::Text(s) => unbroken(s),
            PartView::Code(s) => unbroken(s),
        };
    if after.len() > state.parts.len() {
        assert(after.drop_last() =~= state.parts);
        assert(after.map_values(say).drop_last() =~= state.parts.map_values(say));
    } else {
        assert(unbroken(content) =~= Seq::<char>::empty());
        assert(parts_say(state.parts) + Seq::<char>::empty() =~= parts_say(state.parts));
    }
}

proof fn lemma_parts_say(lines: Seq<Seq<char>>)
    ensures
        parts_say(transcript::flushed(transcript::parts_state(lines))) == lines_say(lines),
    decreases lines.len(),
{
    reveal(Seq::filter);
    let state = transcript::parts_state(lines);
    lemma_flushed(state);
    if lines.len() == 0 {
        assert(unbroken(text::joined(state.buffer, "\n"@)) =~= Seq::<char>::empty());
        assert(parts_say(state.parts) =~= Seq::<char>::empty());
        assert(lines_say(lines) =~= Seq::<char>::empty());
    } else {
        let before = transcript::parts_state(lines.drop_last());
        lemma_parts_say(lines.drop_last());
        lemma_flushed(before);
        lemma_fences(lines.last());
        let say = |line: Seq<char>|
            if fences(line) {
                Seq::<char>::empty()
            } else {
                unbroken(line)
            };
        assert(lines.map_values(say).drop_last() =~= lines.drop_last().map_values(say));
        assert(lines_say(lines) == lines_say(lines.drop_last()) + say(lines.last()));
        if fences(lines.last()) {
            assert(text::joined(state.buffer, "\n"@) =~= Seq::<char>::empty());
            assert(unbroken(text::joined(state.buffer, "\n"@)) =~= Seq::<char>::empty());
        } else {
            lemma_unbroken_joined(state.buffer);
            lemma_unbroken_joined(before.buffer);
            let plain = |line: Seq<char>| unbroken(line);
            assert(state.buffer.map_values(plain).drop_last() =~= before.buffer.map_values(plain));
        }
        assert(parts_say(transcript::flushed(state)) =~= lines_say(lines));
    }
}

/// The parts of a text say everything that its lines say but for those that open or close a
/// block of code, in order and once.
pub proof fn law_parts_keep_the_text(s: Seq<char>)
    ensures
        parts_say(transcript::content_parts(s)) == lines_say(text::split(s, '\n')),
{
    lemma_parts_say(text::split(s, '\n'));
}

/// How often a block of code is opened or closed.
pub open spec fn fence_count(lines: Seq<Seq<char>>) -> nat {
    lines.filter(|line: Seq<char>| fences(line)).len()
}

/// A text ends inside a block of code exactly if an odd number of its lines open or close one.
pub proof fn law_fences_open_and_close(lines: Seq<Seq<char>>)
    ensures
        transcript::parts_state(lines).in_code == (fence_count(lines) % 2 == 1),
    decreases lines.len(),
{
    reveal(Seq::filter);
    if lines.len() > 0 {
        law_fences_open_and_close(lines.drop_last());
        lemma_fences(lines.last());
    }
}

/// A text of prose, a block of code and more prose are shown as those three parts, each whole.
pub proof fn law_code_stands_between_fences(
    before: Seq<Seq<char>>,
    opening: Seq<char>,
    code: Seq<Seq<char>>,
    closing: Seq<char>,
    after: Seq<Seq<char>>,
)
    requires
        fences(opening),
        fences(closing),
        forall|i: int| 0 <= i < before.len() ==> !fences(#[trigger] before[i]),
        forall|i: int| 0 <= i < code.len() ==> !fences(#[trigger] code[i]),
        forall|i: int| 0 <= i < after.len() ==> !fences(#[trigger] after[i]),
        text::joined(before, "\n"@).len() > 0,
        text::joined(after, "\n"@).len() > 0,
    ensures
        transcript::flushed(
            transcript::parts_state(before.push(opening) + code + seq![closing] + after),
        ) == seq![
            PartView::Text(text::joined(before, "\n"@)),
            PartView::Code(text::joined(code, "\n"@)),
            PartView::Text(text::joined(after, "\n"@)),
        ],
{
    lemma_prose_state(before);
    let opened = before.push(opening);
    assert(opened.drop_last() =~= before);
    lemma_fences(opening);
    lemma_plain_lines(opened, code);
    let inside = opened + code;
    let closed = inside + seq![closing];
    assert(closed.drop_last() =~= inside);
    lemma_fences(closing);
    assert(transcript::parts_state(inside).buffer =~= code);
    lemma_plain_lines(closed, after);
    assert(transcript::parts_state(closed + after).buffer =~= after);
}

proof fn lemma_plain_lines(lines: Seq<Seq<char>>, more: Seq<Seq<char>>)
    requires
        forall|i: int| 0 <= i < more.len() ==> !fences(#[trigger] more[i]),
    ensures
        ({
            let before = transcript::parts_state(lines);
            let after = transcript::parts_state(lines + more);
            &&& after.parts == before.parts
            &&& after.in_code == before.in_code
            &&& after.buffer == before.buffer + more
        }),
    decreases more.len(),
{
    if more.len() == 0 {
        assert(lines + more =~= lines);
        assert(transcript::parts_state(lines).buffer + more =~= transcript::parts_state(
            lines,
        ).buffer);
    } else {
        lemma_plain_lines(lines, more.drop_last());
        assert((lines + more).drop_last() =~= lines + more.drop_last());
        lemma_fences(more.last());
        assert(transcript::parts_state(lines).buffer + more =~= (transcript::parts_state(
            lines,
        ).buffer + more.drop_last()).push(more.last()));
    }
}

proof fn lemma_message_keeps(
    lines: Seq<LineView>,
    messages: Seq<MessageView>,
    index: int,
    width: u16,
    expanded: bool,
)
    ensures
        lines.is_prefix_of(
            transcript::with_conversation_message(lines, messages, index, width, expanded),
        ),
{
    let message = messages[index];
    assert(lines.subrange(0, lines.len() as int) =~= lines);
    if message.role == "tool"@ {
        let source = match message.tool_call_id {
            Some(id) => transcript::source_call(messages.take(index), id),
            None => None,
        };
        let calls = match source {
            Some(call) => seq![call],
            None => Seq::empty(),
        };
        let colors = transcript::block_colors(transcript::block_kind(calls, Some(message)));
        lemma_block_keeps(
            lines,
            transcript::tool_block(
                calls,
                Some(message),
                transcript::block_content_width(width),
                expanded,
            ),
            colors.2,
            colors.0,
            width,
        );
    } else {
        let marker = if message.role == "user"@ {
            "> "@
        } else {
            "· "@
        };
        let colors = if message.role == "user"@ {
            transcript::user_colors()
        } else if message.role == "assistant"@ {
            transcript::assistant_colors()
        } else {
            transcript::other_colors()
        };
        let parts = transcript::content_parts(message.content);
        lemma_parts_keep(lines, parts, marker, colors, width);
        if message.role == "assistant"@ {
            let said = if message.content.len() > 0 {
                transcript::with_message(lines, message.content, marker, colors, width)
            } else {
                lines
            };
            lemma_calls_keep(said, messages, message.tool_calls, width, expanded);
            lemma_prefix_transitive(
                lines,
                said,
                transcript::with_calls(said, messages, message.tool_calls, width, expanded),
            );
        }
    }
}

proof fn lemma_calls_keep(
    lines: Seq<LineView>,
    messages: Seq<MessageView>,
    calls: Seq<ToolCallView>,
    width: u16,
    expanded: bool,
)
    ensures
        lines.is_prefix_of(transcript::with_calls(lines, messages, calls, width, expanded)),
{
    let shown = calls.filter(|call: ToolCallView| transcript::shown_at_call(messages, call));
    let colors = transcript::block_colors(transcript::block_kind(shown, None));
    lemma_block_keeps(
        lines,
        transcript::tool_block(shown, None, transcript::block_content_width(width), expanded),
        colors.2,
        colors.0,
        width,
    );
    assert(lines.subrange(0, lines.len() as int) =~= lines);
}

proof fn lemma_conversation_grows(
    messages: Seq<MessageView>,
    from: int,
    to: int,
    width: u16,
    expanded: bool,
)
    requires
        0 <= from <= to,
    ensures
        transcript::conversation_lines(messages, from, width, expanded).is_prefix_of(
            transcript::conversation_lines(messages, to, width, expanded),
        ),
    decreases to - from,
{
    let first = transcript::conversation_lines(messages, from, width, expanded);
    if from == to {
        assert(first.subrange(0, first.len() as int) =~= first);
    } else {
        lemma_conversation_grows(messages, from, to - 1, width, expanded);
        let before = transcript::conversation_lines(messages, to - 1, width, expanded);
        lemma_message_keeps(before, messages, to - 1, width, expanded);
        lemma_prefix_transitive(
            first,
            before,
            transcript::conversation_lines(messages, to, width, expanded),
        );
    }
}

proof fn lemma_entries_keep(lines: Seq<LineView>, entries: Seq<LocalEntryView>, width: u16)
    ensures
        lines.is_prefix_of(transcript::with_entries(lines, entries, width)),
    decreases entries.len(),
{
    if entries.len() == 0 {
        assert(lines.subrange(0, lines.len() as int) =~= lines);
    } else {
        lemma_entries_keep(lines, entries.drop_last(), width);
        let before = transcript::with_entries(lines, entries.drop_last(), width);
        let question = "BTW · "@ + entries.last().question;
        let asked = transcript::with_message(
            before,
            question,
            "> "@,
            transcript::user_colors(),
            width,
        );
        lemma_parts_keep(
            before,
            transcript::content_parts(question),
            "> "@,
            transcript::user_colors(),
            width,
        );
        lemma_parts_keep(
            asked,
            transcript::content_parts(entries.last().answer),
            "· "@,
            transcript::assistant_colors(),
            width,
        );
        let after = transcript::with_entries(lines, entries, width);
        lemma_prefix_transitive(lines, before, asked);
        lemma_prefix_transitive(lines, asked, after);
    }
}

/// Every message of a user or an assistant in prose is on the screen, row by row: a user's behind
/// `> `, an assistant's behind `· `. It stands behind the messages before it and before all that
/// come after it.
pub proof fn law_conversation_is_shown(
    messages: Seq<MessageView>,
    entries: Seq<LocalEntryView>,
    index: int,
    width: u16,
    expanded: bool,
)
    requires
        width > 0,
        0 <= index < messages.len(),
        messages[index].role == "user"@ || messages[index].role == "assistant"@,
        messages[index].content.len() > 0,
        is_prose(messages[index].content),
    ensures
        ({
            let shown = transcript::transcript_lines(messages, entries, width, expanded);
            let start = transcript::conversation_lines(messages, index, width, expanded).len();
            let rows = text_rows(messages[index].content, prose_width(width));
            let end = start + rows.len();
            &&& end <= transcript::conversation_lines(messages, index + 1, width, expanded).len()
                <= shown.len()
            &&& shows_rows(
                shown.subrange(start as int, end as int),
                if messages[index].role == "user"@ {
                    "> "@
                } else {
                    "· "@
                },
                rows,
            )
        }),
{
    reveal_strlit("tool");
    reveal_strlit("user");
    reveal_strlit("assistant");
    assert("tool"@[0] != "user"@[0]);
    assert("tool"@.len() != "assistant"@.len());
    let message = messages[index];
    let before = transcript::conversation_lines(messages, index, width, expanded);
    let marker = if message.role == "user"@ {
        "> "@
    } else {
        "· "@
    };
    let colors = if message.role == "user"@ {
        transcript::user_colors()
    } else {
        transcript::assistant_colors()
    };
    assert("user"@.len() != "assistant"@.len());
    let said_lines = transcript::with_message(before, message.content, marker, colors, width);
    law_messages_are_shown(before, message.content, marker, colors, width);
    let after = transcript::conversation_lines(messages, index + 1, width, expanded);
    if message.role == "assistant"@ {
        lemma_calls_keep(said_lines, messages, message.tool_calls, width, expanded);
    } else {
        assert(said_lines.subrange(0, said_lines.len() as int) =~= said_lines);
    }
    assert(said_lines.is_prefix_of(after));
    let all = transcript::conversation_lines(messages, messages.len() as int, width, expanded);
    lemma_conversation_grows(messages, index + 1, messages.len() as int, width, expanded);
    lemma_prefix_transitive(said_lines, after, all);
    lemma_entries_keep(all, entries, width);
    let shown = transcript::transcript_lines(messages, entries, width, expanded);
    lemma_prefix_transitive(said_lines, all, shown);
    lemma_prefix_transitive(after, all, shown);
    let rows = text_rows(message.content, prose_width(width));
    let start = before.len() as int;
    let end = start + rows.len();
    assert(shown.subrange(start, end) =~= said_lines.subrange(start, end));
}

/// What was asked and answered beside the conversation stands behind it, each question and answer
/// in prose row by row and in order.
pub proof fn law_side_questions_are_shown(
    lines: Seq<LineView>,
    entries: Seq<LocalEntryView>,
    entry: LocalEntryView,
    width: u16,
)
    requires
        width > 0,
        is_prose("BTW · "@ + entry.question),
        is_prose(entry.answer),
        entry.answer.len() > 0,
    ensures
        ({
            let before = transcript::with_entries(lines, entries, width);
            let shown = transcript::with_entries(lines, entries.push(entry), width);
            let asked = text_rows("BTW · "@ + entry.question, prose_width(width));
            let answered = text_rows(entry.answer, prose_width(width));
            &&& before.is_prefix_of(shown)
            &&& exists|at: int|
                before.len() + asked.len() <= at <= before.len() + asked.len() + 1 && at
                    + answered.len() <= shown.len() && shows_rows(
                    #[trigger] shown.subrange(at, at + answered.len()),
                    "· "@,
                    answered,
                )
            &&& before.len() + asked.len() <= shown.len() && shows_rows(
                shown.subrange(before.len() as int, (before.len() + asked.len()) as int),
                "> "@,
                asked,
            )
        }),
{
    let before = transcript::with_entries(lines, entries, width);
    let question = "BTW · "@ + entry.question;
    assert(entries.push(entry).drop_last() =~= entries);
    reveal_strlit("BTW · ");
    law_messages_are_shown(before, question, "> "@, transcript::user_colors(), width);
    let asked_lines = transcript::with_message(
        before,
        question,
        "> "@,
        transcript::user_colors(),
        width,
    );
    law_messages_are_shown(
        asked_lines,
        entry.answer,
        "· "@,
        transcript::assistant_colors(),
        width,
    );
    let shown = transcript::with_entries(lines, entries.push(entry), width);
    lemma_prefix_transitive(before, asked_lines, shown);
    let asked = text_rows(question, prose_width(width));
    let answered = text_rows(entry.answer, prose_width(width));
    let at = asked_lines.len() as int;
    assert(shows_rows(shown.subrange(at, at + answered.len()), "· "@, answered));
    let start = before.len() as int;
    assert(shown.subrange(start, start + asked.len()) =~= asked_lines.subrange(
        start,
        start + asked.len(),
    ));
}

/// A part of a message stands behind the parts before it. Prose is shown row by row, behind the
/// marker if it is the first prose of the message and behind an indent otherwise; code is shown
/// row by row in a block of its own.
pub proof fn law_parts_are_shown(
    lines: Seq<LineView>,
    parts: Seq<PartView>,
    part: PartView,
    marker: Seq<char>,
    colors: MessageColors,
    width: u16,
)
    requires
        width > 0,
    ensures
        ({
            let before = transcript::message_parts(lines, parts, marker, colors, width).0;
            let shown = transcript::message_parts(lines, parts.push(part), marker, colors, width).0;
            let first = forall|i: int|
                0 <= i < parts.len() ==> (#[trigger] parts[i]) is Code;
            &&& before.is_prefix_of(shown)
            &&& part matches PartView::Text(s) ==> {
                let rows = text_rows(s, prose_width(width));
                &&& before.len() + rows.len() <= shown.len()
                &&& shows_rows(
                    shown.subrange(before.len() as int, (before.len() + rows.len()) as int),
                    if first {
                        marker
                    } else {
                        "  "@
                    },
                    rows,
                )
            }
            &&& part matches PartView::Code(s) ==> {
                let inner = transcript::block_content_width(width);
                let rows = text_rows(s, inner as int);
                rows.len() > 0 ==> exists|block: Seq<LineView>| #[trigger]
                    says_rows(block, rows) && (before + transcript::styled_block(
                        block,
                        colors.background,
                        colors.marker,
                        width,
                    )).is_prefix_of(shown)
            }
        }),
{
    let (before, marked) = transcript::message_parts(lines, parts, marker, colors, width);
    let shown = transcript::message_parts(lines, parts.push(part), marker, colors, width).0;
    assert(parts.push(part).drop_last() =~= parts);
    lemma_marked(lines, parts, marker, colors, width);
    let head = if marked {
        "  "@
    } else {
        marker
    };
    match part {
        PartView::Text(s) => {
            law_prose_is_shown_in_order(s, head, colors, width);
            let body = transcript::compact_text(s, head, colors, width);
            lemma_gap_keeps(before, body);
            assert(shown.subrange(before.len() as int, (before.len() + body.len()) as int)
                =~= body);
        },
        PartView::Code(s) => {
            let inner = transcript::block_content_width(width);
            let style = Style::plain().fg(colors.text);
            let block = transcript::wrapped_text(s, style, inner);
            lemma_block_keeps(before, block, colors.background, colors.marker, width);
            law_code_is_shown_in_order(s, style, inner);
            let framed = transcript::styled_block(block, colors.background, colors.marker, width);
            if block.len() > 0 {
                assert(before + framed =~= shown.subrange(0, (before + framed).len() as int));
            }
        },
    }
}

proof fn lemma_marked(
    lines: Seq<LineView>,
    parts: Seq<PartView>,
    marker: Seq<char>,
    colors: MessageColors,
    width: u16,
)
    ensures
        transcript::message_parts(lines, parts, marker, colors, width).1 == !(forall|i: int|
            0 <= i < parts.len() ==> (#[trigger] parts[i]) is Code),
    decreases parts.len(),
{
    if parts.len() > 0 {
        let rest = parts.drop_last();
        lemma_marked(lines, rest, marker, colors, width);
        let all = forall|i: int| 0 <= i < parts.len() ==> (#[trigger] parts[i]) is Code;
        let most = forall|i: int| 0 <= i < rest.len() ==> (#[trigger] rest[i]) is Code;
        if all {
            assert forall|i: int| 0 <= i < rest.len() implies (#[trigger] rest[i]) is Code by {
                assert(parts[i] is Code);
            }
            assert(parts[parts.len() - 1] is Code);
        } else {
            if most && parts.last() is Code {
                assert forall|i: int| 0 <= i < parts.len() implies (#[trigger] parts[i]) is Code by {
                    if i < rest.len() {
                        assert(rest[i] is Code);
                    }
                }
            }
        }
    }
}

/// Whether a text is so many of one character.
pub open spec fn all_of(s: Seq<char>, c: char, count: int) -> bool {
    s.len() == count && forall|i: int| 0 <= i < s.len() ==> #[trigger] s[i] == c
}

/// A frame is as wide as its block: its edges are drawn over the whole width, and a line that is
/// shorter is filled with blanks up to the side.
pub proof fn law_frames_fill_their_width(
    block: Seq<LineView>,
    background: Color,
    border: Color,
    width: u16,
    i: int,
)
    requires
        width >= 5,
        0 <= i < block.len(),
    ensures
        ({
            let shown = transcript::styled_block(block, background, border, width);
            let line = shown[i + 1];
            let columns = crate::style::spans_columns(block[i].spans);
            &&& shown[0].spans.len() == 3 && all_of(shown[0].spans[1].content, '─', width - 2)
            &&& shown[0].spans[2].content == "╮"@
            &&& shown.last().spans.len() == 3 && all_of(
                shown.last().spans[1].content,
                '─',
                width - 2,
            )
            &&& shown.last().spans[2].content == "╯"@
            &&& 0 <= columns < width - 3 ==> line.spans.len() == block[i].spans.len() + 4 && all_of(
                line.spans[block[i].spans.len() + 2int].content,
                ' ',
                width - 3 - columns,
            )
            &&& columns >= width - 3 ==> line.spans.len() == block[i].spans.len() + 3
        }),
{
}

/// A row of prose that is narrower than the screen is filled with blanks up to its edge.
pub proof fn law_rows_are_filled(
    rows: Seq<Seq<char>>,
    marker: Seq<char>,
    colors: MessageColors,
    width: u16,
    i: int,
)
    requires
        0 <= i < rows.len(),
    ensures
        ({
            let line = transcript::compact_rows(rows, marker, colors, width)[i];
            let columns = crate::style::spans_columns(line.spans.take(2));
            &&& 0 <= columns < width ==> line.spans.len() == 3 && all_of(
                line.spans[2].content,
                ' ',
                width - columns,
            )
            &&& columns >= width ==> line.spans.len() == 2
        }),
{
    let line = transcript::compact_rows(rows, marker, colors, width)[i];
    let bare = seq![
        crate::style::span_of(
            if i == 0 {
                marker
            } else {
                "  "@
            },
            Style::plain().fg(colors.marker).bold(),
        ),
        crate::style::span_of(rows[i], Style::plain().fg(colors.text)),
    ];
    assert(line.spans.take(2) =~= bare);
}

} // verus!
