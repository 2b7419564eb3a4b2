//! What the transcript shows of tools.
use crate::laws::showing::{line_rows, prose_width, says_rows, text_rows};
use crate::session::{MessageView, ToolCallView};
use crate::style::{Color, LineView, Style};
use crate::text;
use crate::transcript::{self, LiveToolView};
use crate::unicode;
use vstd::prelude::*;

verus! {

/// The rows of a line of a text behind an indent of two blanks.
pub open spec fn indented_line_rows(line: Seq<char>, width: u16) -> Seq<Seq<char>> {
    if line.len() == 0 {
        seq!["  "@]
    } else {
        unicode::wrapped_rows(line, width as usize, "  "@, "  "@)
    }
}

/// The rows of a text behind an indent of two blanks.
pub open spec fn indented_rows(s: Seq<char>, width: u16) -> Seq<Seq<char>> {
    text::split(s, '\n').map_values(|line: Seq<char>| indented_line_rows(line, width)).flatten_alt()
}

proof fn lemma_indented_sources(sources: Seq<Seq<char>>, style: Style, width: u16)
    ensures
        says_rows(
            transcript::indented_sources(sources, style, width),
            sources.map_values(|line: Seq<char>| indented_line_rows(line, width)).flatten_alt(),
        ),
    decreases sources.len(),
{
    let pieces = sources.map_values(|line: Seq<char>| indented_line_rows(line, width));
    if sources.len() > 0 {
        lemma_indented_sources(sources.drop_last(), style, width);
        assert(pieces.drop_last() =~= sources.drop_last().map_values(
            |line: Seq<char>| indented_line_rows(line, width),
        ));
        let earlier = pieces.drop_last().flatten_alt();
        let last = indented_line_rows(sources.last(), width);
        lemma_rows_behind(
            transcript::indented_sources(sources.drop_last(), style, width),
            earlier,
            transcript::indented_source(sources.last(), style, width),
            last,
        );
    }
}

proof fn lemma_rows_behind(
    before: Seq<LineView>,
    earlier: Seq<Seq<char>>,
    after: Seq<LineView>,
    later: Seq<Seq<char>>,
)
    requires
        says_rows(before, earlier),
        says_rows(after, later),
    ensures
        says_rows(before + after, earlier + later),
{
    let lines = before + after;
    let rows = earlier + later;
    assert forall|i: int| 0 <= i < rows.len() implies crate::laws::showing::said(lines[i])
        == #[trigger] rows[i] && lines[i].spans.len() <= 1 by {
        if i < earlier.len() {
            assert(rows[i] == earlier[i]);
        } else {
            assert(rows[i] == later[i - earlier.len()]);
        }
    }
}

/// What a tool printed is shown row by row, in order and once.
pub proof fn law_output_is_shown_in_order(s: Seq<char>, style: Style, width: u16)
    requires
        width > 0,
    ensures
        says_rows(transcript::indented_text(s, style, width), indented_rows(s, width)),
{
    lemma_indented_sources(text::split(s, '\n'), style, width);
}

/// What is folded is the beginning or the end of a block, as it was, and a note says how many
/// lines are hidden; what is not folded is the block.
pub proof fn law_folding_hides_and_tells(
    block: Seq<LineView>,
    expanded: bool,
    visible: nat,
    kind: Seq<char>,
    show_tail: bool,
)
    ensures
        ({
            let shown = transcript::folded(block, expanded, visible, kind, show_tail);
            if expanded || block.len() <= visible {
                shown == block
            } else {
                &&& shown.len() == visible + 1
                &&& shown[0].spans.len() == 1
                &&& shown[0].spans[0].content == "  … "@ + text::decimal(
                    (block.len() - visible) as nat,
                ) + " "@ + kind + " lines hidden · Ctrl+O expand"@
                &&& show_tail ==> shown.skip(1).is_suffix_of(block)
                &&& !show_tail ==> shown.skip(1).is_prefix_of(block)
            }
        }),
{
    let shown = transcript::folded(block, expanded, visible, kind, show_tail);
    if !expanded && block.len() > visible {
        let rest = shown.skip(1);
        let hidden = block.len() - visible;
        if show_tail {
            assert(rest =~= block.skip(hidden));
            assert(rest =~= block.subrange(block.len() - rest.len(), block.len() as int));
        } else {
            assert(rest =~= block.take(visible as int));
            assert(rest =~= block.subrange(0, rest.len() as int));
        }
    }
}

/// The end of a text is its last lines: all of them where there are no more than were asked for.
pub proof fn law_tails(s: Seq<char>, count: nat)
    ensures
        ({
            let kept = transcript::last_items(text::lines_of(s), count);
            &&& kept.is_suffix_of(text::lines_of(s))
            &&& kept.len() == (if text::lines_of(s).len() < count {
                text::lines_of(s).len()
            } else {
                count
            })
            &&& transcript::tail_of(s, count) == text::joined(kept, "\n"@)
        }),
{
    let all = text::lines_of(s);
    let kept = transcript::last_items(all, count);
    assert(kept =~= all.subrange(all.len() - kept.len(), all.len() as int));
}

/// A call is shown by the rows of its summary: all of them, in order, where the transcript is
/// unfolded or there are no more than two; otherwise the first two and a note on the others. The
/// id of the call is told wherever it is unfolded or something is hidden.
pub proof fn law_calls_are_shown(call: ToolCallView, width: u16, expanded: bool)
    requires
        width > 0,
    ensures
        ({
            let shown = transcript::call_lines(call, width, expanded);
            let indent = unicode::shown_columns("  └─ "@);
            let rows = unicode::wrapped_rows(
                crate::session::summary_of(call),
                (if width > indent + 1 {
                    width - indent
                } else {
                    1
                }) as usize,
                ""@,
                ""@,
            );
            let visible: int = if expanded || rows.len() < 2 {
                rows.len() as int
            } else {
                2
            };
            &&& visible <= shown.len() <= visible + 1
            &&& forall|i: int|
                0 <= i < visible ==> {
                    &&& shown[i].spans.len() >= 2
                    &&& shown[i].spans[1].content == #[trigger] rows[i]
                    &&& shown[i].spans[0].content == (if i == 0 {
                        "  └─ "@
                    } else {
                        "     "@
                    })
                }
            &&& !expanded && rows.len() > 2 ==> shown.len() == 3 && shown[2].spans.len() == 1
                && shown[2].spans[0].content == "     … "@ + text::decimal(
                (rows.len() - 2) as nat,
            ) + " command lines hidden · Ctrl+O expand  #"@ + call.call_id
            &&& expanded && rows.len() > 0 ==> shown.last().spans.last().content == "  #"@
                + call.call_id
        }),
{
}

/// The two streams of a result are what stands before and behind the first mark of the errors; a
/// result without the mark is all output.
pub proof fn law_streams_are_parted(content: Seq<char>)
    ensures
        ({
            let (stdout, stderr) = transcript::output_streams(content);
            let mark = "\n[stderr]\n"@;
            ||| content == stdout + mark + stderr && !text::contains_text(
                (stdout + mark).drop_last(),
                mark,
            )
            ||| content == stdout && stderr.len() == 0 && !text::contains_text(content, mark)
        }),
{
    let mark = "\n[stderr]\n"@;
    reveal_strlit("\n[stderr]\n");
    crate::laws::texts::law_first_occurrence(content, mark);
    let (stdout, stderr) = transcript::output_streams(content);
    if let Some(at) = text::find_from(content, mark, 0) {
        assert(content =~= stdout + mark + stderr);
        let head = (stdout + mark).drop_last();
        if text::contains_text(head, mark) {
            let j = choose|j: int| text::occurs_at(head, mark, j);
            assert(head.subrange(j, j + mark.len()) =~= content.subrange(j, j + mark.len()));
            assert(j < at);
        }
    }
}

/// A result of a tool is headed as an error exactly if it is one; otherwise it is headed by the
/// tool whose it is.
pub proof fn law_errors_are_marked(calls: Seq<ToolCallView>, message: MessageView)
    ensures
        ({
            let label = transcript::result_label(transcript::block_kind(calls, Some(message)));
            let reads = exists|i: int| 0 <= i < calls.len() && #[trigger] calls[i].name == "read"@;
            let seeks = exists|i: int| 0 <= i < calls.len() && #[trigger] calls[i].name == "grep"@;
            &&& message.is_error <==> label == "! Tool error"@
            &&& !message.is_error && reads ==> label == "└ File result"@
            &&& !message.is_error && !reads && seeks ==> label == "└ Search results"@
            &&& !message.is_error && !reads && !seeks ==> label == "└ Tool result"@
        }),
{
    reveal_strlit("! Tool error");
    reveal_strlit("└ File result");
    reveal_strlit("└ Search results");
    reveal_strlit("└ Tool result");
    assert("! Tool error"@[0] == '!');
    assert("└ File result"@[0] == '└');
    assert("└ Search results"@[0] == '└');
    assert("└ Tool result"@[0] == '└');
}

/// What a tool printed is on the screen, row by row, where the transcript is unfolded: of every
/// tool but the searches, which have a shape of their own, and the task list, which is only said
/// to be updated.
pub proof fn law_results_are_shown_unfolded(
    calls: Seq<ToolCallView>,
    message: MessageView,
    color: Color,
    width: u16,
)
    requires
        width > 0,
        message.content.len() > 0,
        message.is_error || forall|i: int|
            0 <= i < calls.len() ==> (#[trigger] calls[i]).name != "grep"@ && calls[i].name
                != "todo"@,
    ensures
        says_rows(
            transcript::result_lines(calls, message, color, width, true),
            indented_rows(message.content, width),
        ),
{
    law_output_is_shown_in_order(message.content, Style::plain().fg(color), width);
}

/// A result that is empty shows nothing; the result of a change of the task list says so.
pub proof fn law_short_results(
    calls: Seq<ToolCallView>,
    message: MessageView,
    color: Color,
    width: u16,
    expanded: bool,
)
    ensures
        ({
            let shown = transcript::result_lines(calls, message, color, width, expanded);
            &&& message.content.len() == 0 ==> shown.len() == 0
            &&& message.content.len() > 0 && !message.is_error && (exists|i: int|
                0 <= i < calls.len() && #[trigger] calls[i].name == "todo"@) ==> shown.len() == 1
                && shown[0].spans.len() == 1 && shown[0].spans[0].content
                == "  ✓ task list updated"@
        }),
{
}

/// A block of a tool shows its calls and, where there is one, the heading and the lines of the
/// result behind them.
pub proof fn law_tool_blocks(
    calls: Seq<ToolCallView>,
    message: MessageView,
    width: u16,
    expanded: bool,
)
    ensures
        ({
            let inner = transcript::block_content_width(width);
            let alone = transcript::tool_block(calls, None, width, expanded);
            let whole = transcript::tool_block(calls, Some(message), width, expanded);
            let label = transcript::result_label(transcript::block_kind(calls, Some(message)));
            let rows = text_rows(label, inner as int);
            &&& alone == transcript::calls_lines(calls, inner, expanded)
            &&& alone.is_prefix_of(whole)
            &&& inner > 0 ==> alone.len() + rows.len() <= whole.len() && says_rows(
                whole.subrange(alone.len() as int, (alone.len() + rows.len()) as int),
                rows,
            )
            &&& inner > 0 ==> exists|color: Color|
                whole.skip((alone.len() + rows.len()) as int) == #[trigger] transcript::result_lines(
                    calls,
                    message,
                    color,
                    inner,
                    expanded,
                )
        }),
{
    let inner = transcript::block_content_width(width);
    let kind = transcript::block_kind(calls, Some(message));
    let label = transcript::result_label(kind);
    let (border, color, _background) = transcript::block_colors(kind);
    let alone = transcript::tool_block(calls, None, width, expanded);
    let whole = transcript::tool_block(calls, Some(message), width, expanded);
    let heading = transcript::wrapped_text(label, Style::plain().fg(border).bold(), inner);
    let lines = transcript::result_lines(calls, message, color, inner, expanded);
    assert(alone =~= transcript::calls_lines(calls, inner, expanded));
    assert(whole =~= alone + heading + lines);
    assert(alone =~= whole.subrange(0, alone.len() as int));
    if inner > 0 {
        crate::laws::showing::law_code_is_shown_in_order(
            label,
            Style::plain().fg(border).bold(),
            inner,
        );
        let rows = text_rows(label, inner as int);
        assert(whole.subrange(alone.len() as int, (alone.len() + rows.len()) as int) =~= heading);
        assert(whole.skip((alone.len() + rows.len()) as int) =~= lines);
    }
}

/// The calls of a message are shown one behind the other, none left out.
pub proof fn law_calls_stand_in_order(
    calls: Seq<ToolCallView>,
    call: ToolCallView,
    width: u16,
    expanded: bool,
)
    ensures
        transcript::calls_lines(calls.push(call), width, expanded) == transcript::calls_lines(
            calls,
            width,
            expanded,
        ) + transcript::call_lines(call, width, expanded),
        transcript::calls_lines(Seq::empty(), width, expanded).len() == 0,
{
    assert(calls.push(call).drop_last() =~= calls);
}

/// The call that a result answers is the last one of its id before it.
pub proof fn law_results_find_their_call(messages: Seq<MessageView>, id: Seq<char>)
    ensures
        transcript::source_call(messages, id) matches Some(call) ==> call.call_id == id && exists|
            i: int,
            j: int,
        |
            0 <= i < messages.len() && 0 <= j < messages[i].tool_calls.len()
                && #[trigger] messages[i].tool_calls[j] == call && messages[i].role != "tool"@,
        transcript::source_call(messages, id) is None ==> forall|i: int, j: int|
            0 <= i < messages.len() && 0 <= j < messages[i].tool_calls.len() && messages[i].role
                != "tool"@ ==> (#[trigger] messages[i].tool_calls[j]).call_id != id,
    decreases messages.len(),
{
    if messages.len() > 0 {
        let last = messages.last();
        lemma_last_call(last.tool_calls, id);
        law_results_find_their_call(messages.drop_last(), id);
        if last.role != "tool"@ && transcript::last_call(last.tool_calls, id) is Some {
            let call = transcript::last_call(last.tool_calls, id)->0;
            let j = choose|j: int|
                0 <= j < last.tool_calls.len() && #[trigger] last.tool_calls[j] == call;
            assert(messages[messages.len() - 1].tool_calls[j] == call);
        } else {
            let rest = messages.drop_last();
            if let Some(call) = transcript::source_call(rest, id) {
                let (i, j) = choose|i: int, j: int|
                    0 <= i < rest.len() && 0 <= j < rest[i].tool_calls.len()
                        && #[trigger] rest[i].tool_calls[j] == call && rest[i].role != "tool"@;
                assert(messages[i].tool_calls[j] == call);
            } else {
                assert forall|i: int, j: int|
                    0 <= i < messages.len() && 0 <= j < messages[i].tool_calls.len()
                        && messages[i].role != "tool"@ implies (
                #[trigger] messages[i].tool_calls[j]).call_id != id by {
                    if i < rest.len() {
                        assert(rest[i].tool_calls[j] == messages[i].tool_calls[j]);
                    } else {
                        assert(messages[i] == last);
                    }
                }
            }
        }
    }
}

proof fn lemma_last_call(calls: Seq<ToolCallView>, id: Seq<char>)
    ensures
        transcript::last_call(calls, id) matches Some(call) ==> call.call_id == id && exists|j: int|
            0 <= j < calls.len() && #[trigger] calls[j] == call,
        transcript::last_call(calls, id) is None ==> forall|j: int|
            0 <= j < calls.len() ==> (#[trigger] calls[j]).call_id != id,
    decreases calls.len(),
{
    if calls.len() > 0 {
        lemma_last_call(calls.drop_last(), id);
        if calls.last().call_id == id {
            assert(calls[calls.len() - 1] == calls.last());
        } else if let Some(call) = transcript::last_call(calls.drop_last(), id) {
            let j = choose|j: int|
                0 <= j < calls.drop_last().len() && #[trigger] calls.drop_last()[j] == call;
            assert(calls[j] == call);
        } else {
            assert forall|j: int| 0 <= j < calls.len() implies (#[trigger] calls[j]).call_id
                != id by {
                if j < calls.len() - 1 {
                    assert(calls.drop_last()[j] == calls[j]);
                }
            }
        }
    }
}

/// Whether a line of two spans shows a row.
pub open spec fn shows_pair(line: LineView, row: Seq<char>) -> bool {
    line.spans.len() == 2 && line.spans[0].content + line.spans[1].content == row
}

/// Whether lines of two spans show rows, one for one and in order.
pub open spec fn shows_pairs(lines: Seq<LineView>, rows: Seq<Seq<char>>) -> bool {
    &&& lines.len() == rows.len()
    &&& forall|i: int| 0 <= i < rows.len() ==> shows_pair(lines[i], #[trigger] rows[i])
}

/// The rows of a search are shown in order, a mark before the first row of every line that is not
/// blank.
pub proof fn law_searches_are_shown(content: Seq<char>, style: Style, width: u16)
    requires
        width > 0,
    ensures
        ({
            let shown = transcript::grep_lines(content, style, width);
            let rows = text::lines_of(content).map_values(
                |line: Seq<char>| found_rows(line, prose_width(width)),
            ).flatten_alt();
            shows_pairs(shown, rows)
        }),
{
    lemma_grep_sources(text::lines_of(content), style, prose_width(width));
}

/// The rows that a line of a search shows.
pub open spec fn found_rows(line: Seq<char>, width: int) -> Seq<Seq<char>> {
    let rows = line_rows(line, width);
    if text::trimmed(line).len() == 0 {
        Seq::empty()
    } else {
        Seq::new(
            rows.len(),
            |i: int|
                (if i == 0 {
                    "  • "@
                } else {
                    "    "@
                }) + rows[i],
        )
    }
}

proof fn lemma_grep_sources(sources: Seq<Seq<char>>, style: Style, width: int)
    requires
        0 <= width <= usize::MAX,
    ensures
        ({
            let shown = transcript::grep_sources(sources, style, width as usize);
            let rows = sources.map_values(
                |line: Seq<char>| found_rows(line, width),
            ).flatten_alt();
            shows_pairs(shown, rows)
        }),
    decreases sources.len(),
{
    let pieces = sources.map_values(|line: Seq<char>| found_rows(line, width));
    if sources.len() > 0 {
        lemma_grep_sources(sources.drop_last(), style, width);
        assert(pieces.drop_last() =~= sources.drop_last().map_values(
            |line: Seq<char>| found_rows(line, width),
        ));
        let before = transcript::grep_sources(sources.drop_last(), style, width as usize);
        let shown = transcript::grep_sources(sources, style, width as usize);
        let earlier = pieces.drop_last().flatten_alt();
        let last = found_rows(sources.last(), width);
        let rows = pieces.flatten_alt();
        assert(rows == earlier + last);
        assert(text::trimmed(Seq::<char>::empty()).len() == 0) by {
            reveal_with_fuel(text::trimmed_start, 2);
            reveal_with_fuel(text::trimmed_end, 2);
        }
        let marked = transcript::grep_rows(
            unicode::wrapped_rows(sources.last(), width as usize, ""@, ""@),
            style,
        );
        if text::trimmed(sources.last()).len() > 0 {
            assert(sources.last().len() > 0);
            assert(shown == before + marked);
            assert(marked.len() == last.len());
        } else {
            assert(rows =~= earlier);
        }
        assert(shown.len() == rows.len());
        assert forall|i: int| 0 <= i < rows.len() implies shows_pair(
            shown[i],
            #[trigger] rows[i],
        ) by {
            if i < earlier.len() {
                assert(rows[i] == earlier[i]);
                assert(shown[i] == before[i]);
            } else {
                assert(rows[i] == last[i - earlier.len()]);
                assert(shown[i] == marked[i - earlier.len()]);
            }
        }
    }
}

/// What a running tool printed is shown under the name of its stream: all of it where the
/// transcript is unfolded, otherwise its last lines.
pub proof fn law_streams_are_shown(
    name: Seq<char>,
    bytes: Seq<u8>,
    color: Color,
    width: u16,
    expanded: bool,
)
    requires
        width > 0,
    ensures
        ({
            let shown = transcript::stream_lines(name, bytes, color, width, expanded);
            let printed = unicode::lossy(bytes);
            let told = if expanded {
                printed
            } else {
                transcript::tail_of(printed, 4)
            };
            &&& bytes.len() == 0 ==> shown.len() == 0
            &&& bytes.len() > 0 ==> {
                &&& shown.len() > 0 && shown[0].spans.len() == 1
                &&& shown[0].spans[0].content == (if expanded {
                    "  "@ + name
                } else {
                    "  "@ + name + " tail"@
                })
                &&& says_rows(shown.skip(1), indented_rows(told, width))
            }
        }),
{
    if bytes.len() > 0 {
        let printed = unicode::lossy(bytes);
        let told = if expanded {
            printed
        } else {
            transcript::tail_of(printed, 4)
        };
        law_output_is_shown_in_order(told, Style::plain().fg(color), width);
        let shown = transcript::stream_lines(name, bytes, color, width, expanded);
        assert(shown.skip(1) =~= transcript::indented_text(told, Style::plain().fg(color), width));
    }
}

/// A running tool is shown as a block: its label and its id, then its output, then its errors.
pub proof fn law_running_tools_are_shown(live: LiveToolView, width: u16, expanded: bool)
    ensures
        exists|block: Seq<LineView>, background: Color, border: Color|
            transcript::live_tool_lines(live, width, expanded)
                == #[trigger] transcript::styled_block(block, background, border, width)
                && block.len() > 0 && block[0].spans.len() == 1 && block[0].spans[0].content
                == "└ Running · "@ + live.label + "  #"@ + live.call_id && exists|
                a: Color,
                b: Color,
            |
                block.skip(1) == #[trigger] transcript::stream_lines(
                    "stdout"@,
                    live.stdout,
                    a,
                    transcript::block_content_width(width),
                    expanded,
                ) + #[trigger] transcript::stream_lines(
                    "stderr"@,
                    live.stderr,
                    b,
                    transcript::block_content_width(width),
                    expanded,
                ),
{
    let inner = transcript::block_content_width(width);
    let out = transcript::stream_lines(
        "stdout"@,
        live.stdout,
        crate::style::color_text(),
        inner,
        expanded,
    );
    let err = transcript::stream_lines(
        "stderr"@,
        live.stderr,
        crate::style::color_error(),
        inner,
        expanded,
    );
    let head = seq![
        crate::style::text_line(
            "└ Running · "@ + live.label + "  #"@ + live.call_id,
            Style::plain().fg(crate::style::color_tool()).bold(),
        ),
    ];
    let block = head + out + err;
    assert(block.skip(1) =~= out + err);
    assert(transcript::live_tool_lines(live, width, expanded) == transcript::styled_block(
        block,
        crate::style::color_tool_background(),
        crate::style::color_tool(),
        width,
    ));
}

/// The width inside a block leaves room for its sides.
pub proof fn law_block_width(width: u16)
    ensures
        width >= 5 ==> transcript::block_content_width(width) == width - 4,
        2 < width < 5 ==> transcript::block_content_width(width) == width - 2,
        width <= 2 ==> transcript::block_content_width(width) == width,
{
}

/// What is kept of the output of a running tool is its end, no more than a result may hold.
pub proof fn law_kept_output(bytes: Seq<u8>)
    ensures
        transcript::kept_output(bytes).is_suffix_of(bytes),
        transcript::kept_output(bytes).len() == (if bytes.len() < 262_144 {
            bytes.len()
        } else {
            262_144
        }),
{
    let kept = transcript::kept_output(bytes);
    assert(kept =~= bytes.subrange(bytes.len() - kept.len(), bytes.len() as int));
}

/// What a finished command printed is shown under the name of its stream by its last four lines,
/// row by row; a stream without output shows nothing.
pub proof fn law_finished_streams_are_shown(
    name: Seq<char>,
    s: Seq<char>,
    color: Color,
    width: u16,
)
    requires
        width > 0,
    ensures
        ({
            let shown = transcript::finished_stream(name, s, color, width);
            &&& s.len() == 0 ==> shown.len() == 0
            &&& s.len() > 0 ==> {
                &&& shown.len() > 0 && shown[0].spans.len() == 1
                &&& shown[0].spans[0].content == "  "@ + name
                &&& says_rows(shown.skip(1), indented_rows(transcript::tail_of(s, 4), width))
            }
        }),
{
    if s.len() > 0 {
        let told = transcript::tail_of(s, 4);
        law_output_is_shown_in_order(told, Style::plain().fg(color), width);
        let shown = transcript::finished_stream(name, s, color, width);
        assert(shown.skip(1) =~= transcript::indented_text(told, Style::plain().fg(color), width));
    }
}

/// Where the transcript is folded, the result of a command shows the end of its output and then
/// the end of its errors; any other result shows eight lines of its output and a note on the
/// rest: the first lines of a file, the last lines of anything else.
pub proof fn law_results_are_shown_folded(
    calls: Seq<ToolCallView>,
    message: MessageView,
    color: Color,
    width: u16,
)
    requires
        width > 0,
        message.content.len() > 0,
        message.is_error || forall|i: int|
            0 <= i < calls.len() ==> (#[trigger] calls[i]).name != "grep"@ && calls[i].name
                != "todo"@,
    ensures
        ({
            let shown = transcript::result_lines(calls, message, color, width, false);
            let runs = exists|i: int| 0 <= i < calls.len() && #[trigger] calls[i].name == "bash"@;
            let reads = !message.is_error && exists|i: int|
                0 <= i < calls.len() && #[trigger] calls[i].name == "read"@;
            let rows = indented_rows(message.content, width);
            let (stdout, stderr) = transcript::output_streams(message.content);
            &&& runs ==> exists|a: Color, b: Color|
                shown == #[trigger] transcript::finished_stream("stdout tail"@, stdout, a, width)
                    + #[trigger] transcript::finished_stream("stderr tail"@, stderr, b, width)
            &&& !runs ==> exists|block: Seq<LineView>| #[trigger]
                says_rows(block, rows) && shown == transcript::folded(
                    block,
                    false,
                    8,
                    if reads {
                        "file output"@
                    } else {
                        "tool output"@
                    },
                    !reads,
                )
        }),
{
    let style = Style::plain().fg(color);
    law_output_is_shown_in_order(message.content, style, width);
    let (stdout, stderr) = transcript::output_streams(message.content);
    let shown = transcript::result_lines(calls, message, color, width, false);
    let runs = exists|i: int| 0 <= i < calls.len() && #[trigger] calls[i].name == "bash"@;
    if runs {
        assert(shown == transcript::finished_stream(
            "stdout tail"@,
            stdout,
            crate::style::color_text(),
            width,
        ) + transcript::finished_stream("stderr tail"@, stderr, crate::style::color_error(), width));
    } else {
        let reads = !message.is_error && exists|i: int|
            0 <= i < calls.len() && #[trigger] calls[i].name == "read"@;
        let block = transcript::indented_text(message.content, style, width);
        let kind = if reads {
            "file output"@
        } else {
            "tool output"@
        };
        assert(says_rows(block, indented_rows(message.content, width)));
        assert(shown == transcript::folded(block, false, 8, kind, !reads));
    }
}

/// The call that a message answers, if it is known.
pub open spec fn answered_calls(messages: Seq<MessageView>, index: int) -> Seq<ToolCallView> {
    match messages[index].tool_call_id {
        Some(id) => match transcript::source_call(messages.take(index), id) {
            Some(call) => seq![call],
            None => Seq::empty(),
        },
        None => Seq::empty(),
    }
}

/// The result of a tool is shown as a block behind what stood above it, with the call that it
/// answers where that is known.
pub proof fn law_tool_messages_are_shown(
    lines: Seq<LineView>,
    messages: Seq<MessageView>,
    index: int,
    width: u16,
    expanded: bool,
)
    requires
        0 <= index < messages.len(),
        messages[index].role == "tool"@,
    ensures
        ({
            let message = messages[index];
            let block = transcript::tool_block(
                answered_calls(messages, index),
                Some(message),
                transcript::block_content_width(width),
                expanded,
            );
            let shown = transcript::with_conversation_message(
                lines,
                messages,
                index,
                width,
                expanded,
            );
            &&& block.len() == 0 ==> shown == lines
            &&& block.len() > 0 ==> exists|background: Color, border: Color|
                (lines + #[trigger] transcript::styled_block(
                    block,
                    background,
                    border,
                    width,
                )).is_prefix_of(shown)
        }),
{
    let message = messages[index];
    let calls = answered_calls(messages, index);
    let colors = transcript::block_colors(transcript::block_kind(calls, Some(message)));
    let block = transcript::tool_block(
        calls,
        Some(message),
        transcript::block_content_width(width),
        expanded,
    );
    let framed = transcript::styled_block(block, colors.2, colors.0, width);
    let shown = transcript::with_conversation_message(lines, messages, index, width, expanded);
    if block.len() > 0 {
        assert((lines + framed) =~= shown.subrange(0, (lines + framed).len() as int));
        assert((lines + transcript::styled_block(block, colors.2, colors.0, width)).is_prefix_of(
            shown,
        ));
    }
}

/// Of the calls of an assistant those are shown where they stand that are no searches with a
/// result, all of them and in order; a search is shown with its result.
pub proof fn law_calls_are_shown_once(
    lines: Seq<LineView>,
    messages: Seq<MessageView>,
    calls: Seq<ToolCallView>,
    width: u16,
    expanded: bool,
)
    ensures
        ({
            let own = calls.filter(
                |call: ToolCallView|
                    !(call.name == "grep"@ && exists|i: int|
                        0 <= i < messages.len() && (#[trigger] messages[i]).role == "tool"@
                            && messages[i].tool_call_id == Some(call.call_id)),
            );
            let shown = transcript::with_calls(lines, messages, calls, width, expanded);
            let block = transcript::tool_block(
                own,
                None,
                transcript::block_content_width(width),
                expanded,
            );
            &&& own.len() == 0 ==> shown == lines
            &&& own.len() > 0 && block.len() > 0 ==> exists|background: Color, border: Color|
                (lines + #[trigger] transcript::styled_block(
                    block,
                    background,
                    border,
                    width,
                )).is_prefix_of(shown)
        }),
{
    let keep = |call: ToolCallView|
        !(call.name == "grep"@ && exists|i: int|
            0 <= i < messages.len() && (#[trigger] messages[i]).role == "tool"@
                && messages[i].tool_call_id == Some(call.call_id));
    let kept = |call: ToolCallView| transcript::shown_at_call(messages, call);
    assert forall|call: ToolCallView| #[trigger] keep(call) == kept(call) by {
        if exists|i: int|
            0 <= i < messages.len() && (#[trigger] messages[i]).role == "tool"@
                && messages[i].tool_call_id == Some(call.call_id) {
            let i = choose|i: int|
                0 <= i < messages.len() && (#[trigger] messages[i]).role == "tool"@
                    && messages[i].tool_call_id == Some(call.call_id);
            assert(transcript::is_result_of(messages[i], call.call_id));
        }
    }
    assert(keep =~= kept);
    let own = calls.filter(keep);
    let shown = transcript::with_calls(lines, messages, calls, width, expanded);
    let block = transcript::tool_block(
        own,
        None,
        transcript::block_content_width(width),
        expanded,
    );
    let colors = transcript::block_colors(transcript::block_kind(own, None));
    let framed = transcript::styled_block(block, colors.2, colors.0, width);
    if own.len() > 0 && block.len() > 0 {
        assert((lines + framed) =~= shown.subrange(0, (lines + framed).len() as int));
    }
}

/// Errors stand out: their frame has another colour than that of any other result.
pub proof fn law_errors_stand_out(calls: Seq<ToolCallView>, message: MessageView)
    ensures
        message.is_error ==> transcript::block_colors(
            transcript::block_kind(calls, Some(message)),
        ).0 == crate::style::color_error(),
        !message.is_error ==> transcript::block_colors(
            transcript::block_kind(calls, Some(message)),
        ).0 != crate::style::color_error(),
{
}

} // verus!
