//! What typing and the commands of the input come to.
use crate::app::AppView;
use crate::input::{self, InputClass, InputView};
use crate::keys::{KeyActionView, KeyCode, KeyEvent};
use crate::slash::{
    self, SlashCommandKind, SlashCommandView, SlashErrorView, SlashSpecView, SubmissionView,
};
use crate::text;
use crate::unicode;
use vstd::prelude::*;

verus! {

/// Typing puts a character before the cursor and changes nothing else.
pub proof fn law_typing(typed: InputView, c: char)
    ensures
        ({
            let next = typed.inserted(c);
            &&& next.before == typed.before.push(c)
            &&& next.after == typed.after
            &&& next.text() == typed.before + seq![c] + typed.after
        }),
        typed.text() == typed.before + typed.after,
{
    assert(typed.inserted(c).text() =~= typed.before + seq![c] + typed.after);
}

/// Moving the cursor changes no text. To the left it goes before the last character before it,
/// to the right behind the first character behind it.
pub proof fn law_moving_by_a_character(typed: InputView)
    requires
        typed.before.len() > 0 ==> unicode::last_cluster(typed.before).is_suffix_of(typed.before),
        typed.after.len() > 0 ==> unicode::clusters(typed.after)[0].is_prefix_of(typed.after),
    ensures
        typed.left().text() == typed.before + typed.after,
        typed.right().text() == typed.before + typed.after,
        typed.before.len() > 0 ==> typed.left().before + unicode::last_cluster(typed.before)
            == typed.before,
        typed.before.len() == 0 ==> typed.left() == typed,
        typed.after.len() > 0 ==> unicode::clusters(typed.after)[0] + typed.right().after
            == typed.after,
        typed.after.len() == 0 ==> typed.right() == typed,
{
    if typed.before.len() > 0 {
        let last = unicode::last_cluster(typed.before);
        let rest = input::without_last(typed.before);
        assert(rest + last =~= typed.before);
        assert(rest + (last + typed.after) =~= typed.before + typed.after);
    }
    if typed.after.len() > 0 {
        let first = unicode::clusters(typed.after)[0];
        let rest = input::without_first(typed.after);
        assert(first + rest =~= typed.after);
        assert((typed.before + first) + rest =~= typed.before + typed.after);
    }
}

/// Deleting takes away the last character before the cursor, or the first one behind it, and
/// nothing else.
pub proof fn law_deleting_a_character(typed: InputView)
    requires
        typed.before.len() > 0 ==> unicode::last_cluster(typed.before).is_suffix_of(typed.before),
        typed.after.len() > 0 ==> unicode::clusters(typed.after)[0].is_prefix_of(typed.after),
    ensures
        typed.backspaced().after == typed.after,
        typed.before.len() > 0 ==> typed.backspaced().before + unicode::last_cluster(typed.before)
            == typed.before,
        typed.before.len() == 0 ==> typed.backspaced() == typed,
        typed.deleted().before == typed.before,
        typed.after.len() > 0 ==> unicode::clusters(typed.after)[0] + typed.deleted().after
            == typed.after,
        typed.after.len() == 0 ==> typed.deleted() == typed,
{
    if typed.before.len() > 0 {
        assert(input::without_last(typed.before) + unicode::last_cluster(typed.before)
            =~= typed.before);
    }
    if typed.after.len() > 0 {
        assert(unicode::clusters(typed.after)[0] + input::without_first(typed.after)
            =~= typed.after);
    }
}

/// Moving to the beginning, the end, or the beginning or end of the line changes no text. The
/// beginning of a line is behind the last line feed before the cursor, its end before the first
/// line feed behind it.
pub proof fn law_moving_far(typed: InputView)
    ensures
        ({
            let all = typed.before + typed.after;
            &&& typed.at_start().before.len() == 0 && typed.at_start().after == all
            &&& typed.at_end().before == all && typed.at_end().after.len() == 0
            &&& typed.at_line_start().text() == all
            &&& typed.at_line_end().text() == all
            &&& typed.at_line_start().before.is_prefix_of(typed.before)
            &&& typed.at_line_start().before.len() > 0 ==> typed.at_line_start().before.last()
                == '\n'
            &&& !typed.before.skip(typed.at_line_start().before.len() as int).contains('\n')
            &&& typed.at_line_end().after.is_suffix_of(typed.after)
            &&& typed.at_line_end().after.len() > 0 ==> typed.at_line_end().after[0] == '\n'
            &&& !typed.after.take(typed.after.len() - typed.at_line_end().after.len()).contains(
                '\n',
            )
        }),
{
    let all = typed.before + typed.after;
    lemma_last_newline(typed.before);
    lemma_first_newline(typed.after);
    let head = input::through_last_newline(typed.before);
    let tail = input::from_first_newline(typed.after);
    assert(all.take(head.len() as int) + all.skip(head.len() as int) =~= all);
    let cut = all.len() - tail.len();
    assert(all.take(cut) + all.skip(cut) =~= all);
    assert(all.take(head.len() as int) =~= head);
    assert(all.skip(cut) =~= tail);
    assert(head =~= typed.before.subrange(0, head.len() as int));
}

proof fn lemma_last_newline(s: Seq<char>)
    ensures
        ({
            let head = input::through_last_newline(s);
            &&& head.len() <= s.len() && head == s.subrange(0, head.len() as int)
            &&& head.len() > 0 ==> head.last() == '\n'
            &&& !s.skip(head.len() as int).contains('\n')
        }),
    decreases s.len(),
{
    let head = input::through_last_newline(s);
    if s.len() == 0 || s.last() == '\n' {
        assert(head =~= s.subrange(0, s.len() as int));
        assert(s.skip(s.len() as int) =~= Seq::<char>::empty());
    } else {
        lemma_last_newline(s.drop_last());
        assert(head =~= s.subrange(0, head.len() as int));
        let rest = s.skip(head.len() as int);
        if rest.contains('\n') {
            let k = choose|k: int| 0 <= k < rest.len() && rest[k] == '\n';
            assert(k < rest.len() - 1);
            assert(s.drop_last().skip(head.len() as int)[k] == '\n');
        }
    }
}

proof fn lemma_first_newline(s: Seq<char>)
    ensures
        ({
            let tail = input::from_first_newline(s);
            &&& tail.len() <= s.len() && tail == s.subrange(s.len() - tail.len(), s.len() as int)
            &&& tail.len() > 0 ==> tail[0] == '\n'
            &&& !s.take(s.len() - tail.len()).contains('\n')
        }),
    decreases s.len(),
{
    let tail = input::from_first_newline(s);
    if s.len() == 0 || s[0] == '\n' {
        assert(tail =~= s.subrange(0, s.len() as int));
        assert(s.take(0) =~= Seq::<char>::empty());
    } else {
        let rest = s.subrange(1, s.len() as int);
        lemma_first_newline(rest);
        assert(tail =~= s.subrange(s.len() - tail.len(), s.len() as int));
        let head = s.take(s.len() - tail.len());
        if head.contains('\n') {
            let k = choose|k: int| 0 <= k < head.len() && head[k] == '\n';
            assert(k > 0);
            assert(rest.take(rest.len() - tail.len())[k - 1] == '\n');
        }
    }
}

/// Moving by a word changes no text; deleting a word changes only one side of the cursor. What
/// is passed or deleted ends at the cursor.
pub proof fn law_words(typed: InputView)
    ensures
        ({
            let all = typed.before + typed.after;
            let head = input::before_word(typed.before);
            let tail = input::behind_word(typed.after);
            &&& typed.word_left().text() == all
            &&& typed.word_right().text() == all
            &&& head.is_prefix_of(typed.before)
            &&& tail.is_suffix_of(typed.after)
            &&& typed.word_left().before == head
            &&& typed.word_right().after == tail
            &&& typed.word_left_deleted().before == head
            &&& typed.word_left_deleted().after == typed.after
            &&& typed.word_right_deleted().before == typed.before
            &&& typed.word_right_deleted().after == tail
        }),
{
    let all = typed.before + typed.after;
    let head = input::before_word(typed.before);
    let tail = input::behind_word(typed.after);
    lemma_before_word(typed.before);
    lemma_behind_word(typed.after);
    assert(all.take(head.len() as int) + all.skip(head.len() as int) =~= all);
    let cut = all.len() - tail.len();
    assert(all.take(cut) + all.skip(cut) =~= all);
    assert(all.take(head.len() as int) =~= head);
    assert(all.skip(cut) =~= tail);
}

proof fn lemma_skip_back(s: Seq<char>, class: InputClass)
    ensures
        input::skip_back(s, class).len() <= s.len(),
        input::skip_back(s, class) == s.subrange(0, input::skip_back(s, class).len() as int),
    decreases s.len(),
{
    let rest = input::skip_back(s, class);
    if s.len() > 0 && input::class_of(unicode::last_cluster(s)) == class && 0
        < unicode::last_cluster(s).len() <= s.len() {
        lemma_skip_back(input::without_last(s), class);
    }
    assert(rest =~= s.subrange(0, rest.len() as int));
}

proof fn lemma_skip_forward(s: Seq<char>, class: InputClass)
    ensures
        input::skip_forward(s, class).len() <= s.len(),
        input::skip_forward(s, class) == s.subrange(
            s.len() - input::skip_forward(s, class).len(),
            s.len() as int,
        ),
    decreases s.len(),
{
    let rest = input::skip_forward(s, class);
    if s.len() > 0 && input::class_of(input::first_cluster(s)) == class && 0
        < input::first_cluster(s).len() <= s.len() {
        lemma_skip_forward(input::without_first(s), class);
    }
    assert(rest =~= s.subrange(s.len() - rest.len(), s.len() as int));
}

proof fn lemma_before_word(s: Seq<char>)
    ensures
        input::before_word(s).is_prefix_of(s),
{
    lemma_skip_back(s, InputClass::Whitespace);
    let rest = input::skip_back(s, InputClass::Whitespace);
    lemma_skip_back(rest, input::class_of(unicode::last_cluster(rest)));
    let head = input::before_word(s);
    assert(head =~= s.subrange(0, head.len() as int));
}

proof fn lemma_behind_word(s: Seq<char>)
    ensures
        input::behind_word(s).is_suffix_of(s),
{
    lemma_skip_forward(s, InputClass::Whitespace);
    let rest = input::skip_forward(s, InputClass::Whitespace);
    lemma_skip_forward(rest, input::class_of(input::first_cluster(rest)));
    let tail = input::behind_word(s);
    assert(tail =~= s.subrange(s.len() - tail.len(), s.len() as int));
}

/// What is skipped is of one kind, and what is left before it is not.
pub proof fn law_skipping_stops_at_another_kind(s: Seq<char>, class: InputClass)
    ensures
        ({
            let rest = input::skip_back(s, class);
            rest.len() > 0 && 0 < unicode::last_cluster(rest).len() <= rest.len()
                ==> input::class_of(unicode::last_cluster(rest)) != class
        }),
        ({
            let rest = input::skip_forward(s, class);
            rest.len() > 0 && 0 < unicode::clusters(rest)[0].len() <= rest.len()
                ==> input::class_of(unicode::clusters(rest)[0]) != class
        }),
        s.len() > 0 && 0 < unicode::last_cluster(s).len() <= s.len() && input::class_of(
            unicode::last_cluster(s),
        ) == class ==> input::skip_back(s, class).len() < s.len(),
        s.len() > 0 && 0 < unicode::clusters(s)[0].len() <= s.len() && input::class_of(
            unicode::clusters(s)[0],
        ) == class ==> input::skip_forward(s, class).len() < s.len(),
    decreases s.len(),
{
    if s.len() > 0 && input::class_of(unicode::last_cluster(s)) == class && 0
        < unicode::last_cluster(s).len() <= s.len() {
        lemma_skip_back(input::without_last(s), class);
        law_skipping_stops_at_another_kind(input::without_last(s), class);
    }
    if s.len() > 0 && input::class_of(input::first_cluster(s)) == class && 0
        < input::first_cluster(s).len() <= s.len() {
        lemma_skip_forward(input::without_first(s), class);
        law_skipping_stops_at_another_kind(input::without_first(s), class);
    }
}

/// The keys move the cursor as they say, and change no text.
pub proof fn law_keys_move_the_cursor(app: AppView, key: KeyEvent)
    requires
        !app.plan_review,
        app.approval is None,
        !(key.control && (key.code == KeyCode::Char('c') || key.code == KeyCode::Char('o'))),
    ensures
        ({
            let (next, action) = app.after_key(key);
            let by_word = key.control || key.alt;
            let moved = |to: InputView| next == (AppView { input: to, ..app }) && action
                == KeyActionView::Ignore;
            &&& key.code == KeyCode::Left && !by_word ==> moved(app.input.left())
            &&& key.code == KeyCode::Left && by_word ==> moved(app.input.word_left())
            &&& key.code == KeyCode::Right && !by_word ==> moved(app.input.right())
            &&& key.code == KeyCode::Right && by_word ==> moved(app.input.word_right())
            &&& key.code == KeyCode::Home && key.control ==> moved(app.input.at_start())
            &&& key.code == KeyCode::End && key.control ==> moved(app.input.at_end())
            &&& key.code == KeyCode::Char('a') && key.control ==> moved(app.input.at_line_start())
            &&& key.code == KeyCode::Char('e') && key.control ==> moved(app.input.at_line_end())
            &&& key.code == KeyCode::Char('b') && key.control ==> moved(app.input.left())
            &&& key.code == KeyCode::Char('f') && key.control ==> moved(app.input.right())
            &&& key.code == KeyCode::Home && !key.control && app.input.before.len()
                + app.input.after.len() > 0 ==> moved(app.input.at_line_start())
            &&& key.code == KeyCode::End && !key.control && app.input.before.len()
                + app.input.after.len() > 0 ==> moved(app.input.at_line_end())
            &&& key.code == KeyCode::Delete ==> next.input == app.input.deleted()
            &&& key.code == KeyCode::Char('w') && key.control ==> next.input
                == app.input.word_left_deleted()
            &&& key.code == KeyCode::Backspace && by_word ==> next.input
                == app.input.word_left_deleted()
            &&& key.code == KeyCode::Char('d') && key.alt && !key.control ==> next.input
                == app.input.word_right_deleted()
            &&& key.code == KeyCode::Char('b') && key.alt && !key.control ==> moved(
                app.input.word_left(),
            )
            &&& key.code == KeyCode::Char('f') && key.alt && !key.control ==> moved(
                app.input.word_right(),
            )
            &&& key.code == KeyCode::Backspace && !by_word ==> next.input
                == app.input.backspaced()
        }),
{
    assert(app.input.text().len() == app.input.before.len() + app.input.after.len());
    lemma_before_word(app.input.before);
    lemma_behind_word(app.input.after);
    let head = input::before_word(app.input.before);
    if head.len() == app.input.before.len() {
        assert(head =~= app.input.before);
    }
    let tail = input::behind_word(app.input.after);
    if tail.len() == app.input.after.len() {
        assert(tail =~= app.input.after);
    }
}

/// The commands are these six, each by its own name.
pub proof fn law_commands_and_their_names(i: int)
    requires
        0 <= i < slash::command_table().len(),
    ensures
        slash::command_table().len() == 6,
        ({
            let command = slash::command_table()[i];
            &&& command.name == (match command.kind {
                SlashCommandKind::Btw => "btw"@,
                SlashCommandKind::Compact => "compact"@,
                SlashCommandKind::Exit => "exit"@,
                SlashCommandKind::Plan => "plan"@,
                SlashCommandKind::Steer => "steer"@,
                SlashCommandKind::Todo => "todo"@,
            })
            &&& ("/"@ + command.name).is_prefix_of(command.usage)
            &&& !command.takes_arguments <==> command.kind == SlashCommandKind::Exit
                || command.kind == SlashCommandKind::Todo
        }),
{
    reveal_strlit("/");
    reveal_strlit("btw");
    reveal_strlit("compact");
    reveal_strlit("exit");
    reveal_strlit("plan");
    reveal_strlit("steer");
    reveal_strlit("todo");
    reveal_strlit("/btw <question>");
    reveal_strlit("/compact [instructions]");
    reveal_strlit("/exit");
    reveal_strlit("/plan <goal>");
    reveal_strlit("/steer <instruction>");
    reveal_strlit("/todo");
    let command = slash::command_table()[i];
    let head = "/"@ + command.name;
    assert(head =~= command.usage.subrange(0, head.len() as int));
}

/// The name of a command, and the white space behind it.
proof fn lemma_name(name: Seq<char>, rest: Seq<char>)
    requires
        forall|i: int| 0 <= i < name.len() ==> !text::white_space(#[trigger] name[i]),
        rest.len() > 0 ==> text::white_space(rest[0]),
    ensures
        slash::name_len(name + rest) == name.len(),
    decreases name.len(),
{
    let all = name + rest;
    if name.len() > 0 {
        let tail = name.subrange(1, name.len() as int);
        assert forall|i: int| 0 <= i < tail.len() implies !text::white_space(#[trigger] tail[i]) by {
            assert(tail[i] == name[i + 1]);
        }
        lemma_name(tail, rest);
        assert(all.subrange(1, all.len() as int) =~= tail + rest);
        assert(all[0] == name[0]);
    }
}

/// A command that takes words is given the words behind its name, without the white space around
/// them; without words only `/compact` is complete.
pub proof fn law_commands_are_given_their_words(name: Seq<char>, words: Seq<char>)
    requires
        name == "btw"@ || name == "plan"@ || name == "steer"@ || name == "compact"@,
    ensures
        ({
            let typed = "/"@ + name + " "@ + words;
            let given = text::trimmed(words);
            &&& given.len() > 0 ==> (slash::submission_of(typed) matches Ok(
                SubmissionView::Command(command),
            ) && command == (if name == "btw"@ {
                SlashCommandView::Btw(given)
            } else if name == "plan"@ {
                SlashCommandView::Plan(given)
            } else if name == "steer"@ {
                SlashCommandView::Steer(given)
            } else {
                SlashCommandView::Compact(Some(given))
            }))
            &&& given.len() == 0 && name == "compact"@ ==> slash::submission_of(typed) == Ok::<
                SubmissionView,
                SlashErrorView,
            >(SubmissionView::Command(SlashCommandView::Compact(None)))
            &&& given.len() == 0 && name != "compact"@ ==> (slash::submission_of(typed) matches Err(
                SlashErrorView::InvalidUsage(_),
            ))
        }),
{
    lemma_slash_names();
    reveal_strlit("/");
    reveal_strlit("//");
    reveal_strlit(" ");
    let typed = "/"@ + name + " "@ + words;
    let command = typed.subrange(1, typed.len() as int);
    let rest = " "@ + words;
    assert(command =~= name + rest);
    lemma_name(name, rest);
    assert(command.subrange(0, name.len() as int) =~= name);
    assert(command.subrange(name.len() + 1int, command.len() as int) =~= words);
    assert(typed.subrange(0, 1) =~= "/"@);
    assert(typed[1] == name[0]);
    assert(!text::starts_with(typed, "//"@)) by {
        if text::starts_with(typed, "//"@) {
            assert(typed.subrange(0, 2)[1] == '/');
        }
    }
    lemma_found_names();
}

/// A command that takes no words is one without them; an unknown name is refused by that name.
pub proof fn law_bare_commands(name: Seq<char>)
    requires
        name.len() > 0,
        name[0] != '/',
        forall|i: int| 0 <= i < name.len() ==> !text::white_space(#[trigger] name[i]),
    ensures
        name == "exit"@ ==> slash::submission_of("/"@ + name) == Ok::<
            SubmissionView,
            SlashErrorView,
        >(SubmissionView::Command(SlashCommandView::Exit)),
        name == "todo"@ ==> slash::submission_of("/"@ + name) == Ok::<
            SubmissionView,
            SlashErrorView,
        >(SubmissionView::Command(SlashCommandView::Todo)),
        name != "exit"@ && name != "todo"@ && name != "btw"@ && name != "plan"@ && name != "steer"@
            && name != "compact"@ ==> slash::submission_of("/"@ + name) == Err::<
            SubmissionView,
            SlashErrorView,
        >(SlashErrorView::Unknown(name)),
{
    lemma_slash_names();
    reveal_strlit("/");
    reveal_strlit("//");
    let typed = "/"@ + name;
    let command = typed.subrange(1, typed.len() as int);
    assert(command =~= name);
    lemma_name(name, Seq::empty());
    assert(name + Seq::<char>::empty() =~= name);
    assert(command.subrange(0, name.len() as int) =~= name);
    assert(typed.subrange(0, 1) =~= "/"@);
    assert(!text::starts_with(typed, "//"@)) by {
        if text::starts_with(typed, "//"@) {
            assert(typed.subrange(0, 2)[1] == '/');
        }
    }
    lemma_found_names();
    if name != "exit"@ && name != "todo"@ && name != "btw"@ && name != "plan"@ && name != "steer"@
        && name != "compact"@ {
        reveal_with_fuel(slash::entry_named, 8);
    }
}

proof fn lemma_slash_names()
    ensures
        "btw"@.len() == 3 && "btw"@[0] == 'b' && "btw"@[1] == 't' && "btw"@[2] == 'w',
        "plan"@.len() == 4 && "plan"@[0] == 'p' && "plan"@[1] == 'l' && "plan"@[2] == 'a'
            && "plan"@[3] == 'n',
        "exit"@.len() == 4 && "exit"@[0] == 'e',
        "todo"@.len() == 4 && "todo"@[0] == 't',
        "steer"@.len() == 5 && "steer"@[0] == 's' && "steer"@[1] == 't' && "steer"@[2] == 'e'
            && "steer"@[3] == 'e' && "steer"@[4] == 'r',
        "compact"@.len() == 7 && "compact"@[0] == 'c' && "compact"@[1] == 'o' && "compact"@[2]
            == 'm' && "compact"@[3] == 'p' && "compact"@[4] == 'a' && "compact"@[5] == 'c'
            && "compact"@[6] == 't',
{
    reveal_strlit("btw");
    reveal_strlit("compact");
    reveal_strlit("exit");
    reveal_strlit("plan");
    reveal_strlit("steer");
    reveal_strlit("todo");
}

proof fn lemma_found_names()
    ensures
        slash::entry_named(slash::command_table(), "btw"@, 0) == Some(slash::command_table()[0]),
        slash::entry_named(slash::command_table(), "compact"@, 0) == Some(
            slash::command_table()[1],
        ),
        slash::entry_named(slash::command_table(), "exit"@, 0) == Some(slash::command_table()[2]),
        slash::entry_named(slash::command_table(), "plan"@, 0) == Some(slash::command_table()[3]),
        slash::entry_named(slash::command_table(), "steer"@, 0) == Some(slash::command_table()[4]),
        slash::entry_named(slash::command_table(), "todo"@, 0) == Some(slash::command_table()[5]),
{
    lemma_slash_names();
    reveal_with_fuel(slash::entry_named, 8);
}

/// The columns of characters, one behind the other.
pub open spec fn columns_sum(graphemes: Seq<Seq<char>>) -> int
    decreases graphemes.len(),
{
    if graphemes.len() == 0 {
        0
    } else {
        columns_sum(graphemes.drop_last()) + unicode::text_columns(graphemes.last())
    }
}

/// The bytes of characters, one behind the other.
pub open spec fn bytes_sum(graphemes: Seq<Seq<char>>) -> int
    decreases graphemes.len(),
{
    if graphemes.len() == 0 {
        0
    } else {
        bytes_sum(graphemes.drop_last()) + text::utf8_len(graphemes.last())
    }
}

/// What is typed on one line that fits the width is laid out as that line; the cursor stands
/// behind the columns of what is before it.
pub proof fn law_short_lines_are_laid_out(graphemes: Seq<Seq<char>>, k: int, width: int)
    requires
        0 <= k,
        columns_sum(graphemes) <= width <= u16::MAX,
        forall|i: int|
            0 <= i < graphemes.len() ==> (#[trigger] graphemes[i]).len() > 0 && graphemes[i]
                != seq!['\n'],
    ensures
        ({
            let cursor = bytes_sum(graphemes.take(k)) as nat;
            let state = input::LayoutState::over(graphemes, cursor, width);
            k <= graphemes.len() ==> {
                &&& state.lines.len() == 0
                &&& state.line == unicode::concatenated(graphemes)
                &&& state.column == columns_sum(graphemes)
                &&& state.offset == bytes_sum(graphemes)
                &&& k < graphemes.len() ==> state.cursor == Some(
                    (0int, columns_sum(graphemes.take(k))),
                )
            }
        }),
        0 <= columns_sum(graphemes) && graphemes.len() <= bytes_sum(graphemes),
    decreases graphemes.len(),
{
    if graphemes.len() > 0 {
        let before = graphemes.drop_last();
        let last = graphemes.last();
        assert(graphemes[graphemes.len() - 1] == last);
        assert forall|i: int| 0 <= i < before.len() implies (#[trigger] before[i]).len() > 0
            && before[i] != seq!['\n'] by {
            assert(before[i] == graphemes[i]);
        }
        text::lemma_utf8_len(last);
        law_short_lines_are_laid_out(before, k, width);
        lemma_no_cursor(graphemes, bytes_sum(graphemes.take(k)) as nat, width);
        if k <= graphemes.len() {
            lemma_bytes_not_negative(graphemes.take(k));
            if k == graphemes.len() {
                assert(graphemes.take(k) =~= graphemes);
            } else if k == before.len() {
                assert(graphemes.take(k) =~= before);
                lemma_no_cursor(before, bytes_sum(before) as nat, width);
            } else {
                assert(graphemes.take(k) =~= before.take(k));
                lemma_bytes_grow(before, k);
            }
        }
    } else {
        assert(unicode::concatenated(graphemes) =~= Seq::<char>::empty());
    }
}

proof fn lemma_bytes_grow(graphemes: Seq<Seq<char>>, k: int)
    requires
        0 <= k < graphemes.len(),
        forall|i: int| 0 <= i < graphemes.len() ==> (#[trigger] graphemes[i]).len() > 0,
    ensures
        bytes_sum(graphemes.take(k)) < bytes_sum(graphemes),
    decreases graphemes.len(),
{
    let before = graphemes.drop_last();
    text::lemma_utf8_len(graphemes.last());
    assert(graphemes[graphemes.len() - 1].len() > 0);
    if k == before.len() {
        assert(graphemes.take(k) =~= before);
    } else {
        assert(graphemes.take(k) =~= before.take(k));
        assert forall|i: int| 0 <= i < before.len() implies (#[trigger] before[i]).len() > 0 by {
            assert(before[i] == graphemes[i]);
        }
        lemma_bytes_grow(before, k);
    }
}

proof fn lemma_no_cursor(graphemes: Seq<Seq<char>>, cursor: nat, width: int)
    requires
        columns_sum(graphemes) <= width <= u16::MAX,
        forall|i: int|
            0 <= i < graphemes.len() ==> (#[trigger] graphemes[i]).len() > 0 && graphemes[i]
                != seq!['\n'],
    ensures
        ({
            let state = input::LayoutState::over(graphemes, cursor, width);
            &&& state.lines.len() == 0
            &&& state.line == unicode::concatenated(graphemes)
            &&& state.column == columns_sum(graphemes)
            &&& state.offset == bytes_sum(graphemes)
        }),
        0 <= columns_sum(graphemes),
    decreases graphemes.len(),
{
    if graphemes.len() > 0 {
        let before = graphemes.drop_last();
        assert forall|i: int| 0 <= i < before.len() implies (#[trigger] before[i]).len() > 0
            && before[i] != seq!['\n'] by {
            assert(before[i] == graphemes[i]);
        }
        assert(graphemes[graphemes.len() - 1] == graphemes.last());
        lemma_sum_not_negative(before);
        lemma_no_cursor(before, cursor, width);
    } else {
        assert(unicode::concatenated(graphemes) =~= Seq::<char>::empty());
    }
}

proof fn lemma_bytes_not_negative(graphemes: Seq<Seq<char>>)
    ensures
        0 <= bytes_sum(graphemes),
    decreases graphemes.len(),
{
    if graphemes.len() > 0 {
        lemma_bytes_not_negative(graphemes.drop_last());
    }
}

proof fn lemma_sum_not_negative(graphemes: Seq<Seq<char>>)
    ensures
        0 <= columns_sum(graphemes),
    decreases graphemes.len(),
{
    if graphemes.len() > 0 {
        lemma_sum_not_negative(graphemes.drop_last());
    }
}

/// A line feed ends the row that it stands on, and a character that does not fit begins another.
pub proof fn law_rows_are_broken(
    graphemes: Seq<Seq<char>>,
    grapheme: Seq<char>,
    cursor: nat,
    width: int,
)
    requires
        0 < width <= u16::MAX,
    ensures
        ({
            let before = input::LayoutState::over(graphemes, cursor, width);
            let feed = input::LayoutState::over(graphemes.push(seq!['\n']), cursor, width);
            let after = input::LayoutState::over(graphemes.push(grapheme), cursor, width);
            let columns = unicode::text_columns(grapheme);
            &&& 0 <= before.column < width ==> feed.lines == before.lines.push(before.line)
                && feed.line.len() == 0 && feed.column == 0
            &&& grapheme != seq!['\n'] && before.column > 0 && columns > 0 && before.column
                + columns > width && before.column + columns <= usize::MAX ==> after.lines
                == before.lines.push(before.line) && after.line == grapheme
            &&& grapheme != seq!['\n'] && 0 <= before.column && before.column + columns <= width
                ==> after.lines == before.lines && after.line == before.line + grapheme
                && after.column == before.column + columns
        }),
{
    assert(graphemes.push(seq!['\n']).drop_last() =~= graphemes);
    assert(graphemes.push(grapheme).drop_last() =~= graphemes);
    assert(Seq::<char>::empty() + grapheme =~= grapheme);
}

/// While only the beginning of a command is typed, exactly the commands that begin so are offered,
/// in order; with white space behind it, or two slashes, none is.
pub proof fn law_commands_are_offered(rest: Seq<char>)
    ensures
        ({
            let offered = slash::candidates_of(seq!['/'] + rest);
            let spaced = exists|i: int|
                0 <= i < rest.len() && text::white_space(#[trigger] rest[i]);
            &&& !spaced && (rest.len() > 0 ==> rest[0] != '/') ==> offered
                == slash::command_table().filter(
                |command: SlashSpecView| text::starts_with(command.name, rest),
            )
            &&& spaced || (rest.len() > 0 && rest[0] == '/') ==> offered.len() == 0
        }),
{
    let typed = seq!['/'] + rest;
    assert(typed.subrange(1, typed.len() as int) =~= rest);
    let spaced = exists|i: int| 0 <= i < rest.len() && text::white_space(#[trigger] rest[i]);
    assert(spaced == slash::has_space(rest));
}

} // verus!
