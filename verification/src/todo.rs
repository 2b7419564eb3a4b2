//! The todo list and its Markdown form, which a person edits.
use crate::text;
use vstd::prelude::*;
use vstd::string::*;

verus! {

/// The most phases a todo list may hold.
pub const MAX_PHASES: usize = 16;

/// The most tasks a todo list may hold over all its phases.
pub const MAX_TASKS: usize = 64;

/// The most characters of a phase name, a task or a blocker.
pub const MAX_NAME_CHARS: usize = 200;

/// One task.
#[derive(Debug, PartialEq, Eq)]
pub struct CoreTodoItem {
    pub content: String,
    pub status: String,
    pub blocker: Option<String>,
}

/// A named group of tasks.
#[derive(Debug, PartialEq, Eq)]
pub struct CoreTodoPhase {
    pub name: String,
    pub tasks: Vec<CoreTodoItem>,
}

/// What a task holds.
#[verifier::ext_equal]
pub struct TodoItemView {
    pub content: Seq<char>,
    pub status: Seq<char>,
    pub blocker: Option<Seq<char>>,
}

/// What a phase holds.
#[verifier::ext_equal]
pub struct TodoPhaseView {
    pub name: Seq<char>,
    pub tasks: Seq<TodoItemView>,
}

impl DeepView for CoreTodoItem {
    type V = TodoItemView;

    open spec fn deep_view(&self) -> TodoItemView {
        TodoItemView {
            content: self.content@,
            status: self.status@,
            blocker: self.blocker.deep_view(),
        }
    }
}

impl DeepView for CoreTodoPhase {
    type V = TodoPhaseView;

    open spec fn deep_view(&self) -> TodoPhaseView {
        TodoPhaseView { name: self.name@, tasks: self.tasks.deep_view() }
    }
}

impl Clone for CoreTodoItem {
    fn clone(&self) -> (r: Self)
        ensures
            r.deep_view() == self.deep_view(),
    {
        CoreTodoItem {
            content: self.content.clone(),
            status: self.status.clone(),
            blocker: self.blocker.clone(),
        }
    }
}

impl Clone for CoreTodoPhase {
    fn clone(&self) -> (r: Self)
        ensures
            r.deep_view() == self.deep_view(),
    {
        let r = CoreTodoPhase { name: self.name.clone(), tasks: self.tasks.clone() };
        assert(r.tasks.deep_view() =~= self.tasks.deep_view());
        r
    }
}

/// Why a todo document is refused, and on which line, counted from one.
#[derive(Debug, PartialEq, Eq)]
pub struct TodoDocumentError {
    pub line: usize,
    pub message: String,
}

/// What an error says.
pub struct TodoDocumentErrorView {
    pub line: nat,
    pub message: Seq<char>,
}

impl DeepView for TodoDocumentError {
    type V = TodoDocumentErrorView;

    open spec fn deep_view(&self) -> TodoDocumentErrorView {
        TodoDocumentErrorView { line: self.line as nat, message: self.message@ }
    }
}

/// The mark of a status in a task's box; an unknown status is shown as pending.
pub open spec fn marker(status: Seq<char>) -> char {
    if status == "in_progress"@ {
        '>'
    } else if status == "completed"@ {
        'x'
    } else if status == "abandoned"@ {
        '-'
    } else if status == "blocked"@ {
        '!'
    } else {
        ' '
    }
}

/// The status that a mark stands for.
pub open spec fn marked_status(mark: char) -> Option<Seq<char>> {
    if mark == ' ' {
        Some("pending"@)
    } else if mark == '>' {
        Some("in_progress"@)
    } else if mark == 'x' {
        Some("completed"@)
    } else if mark == '-' {
        Some("abandoned"@)
    } else if mark == '!' {
        Some("blocked"@)
    } else {
        None
    }
}

/// The beginning of a task line with the given mark.
pub open spec fn box_text(mark: char) -> Seq<char> {
    seq!['-', ' ', '[', mark, ']', ' ']
}

/// The line of one task.
pub open spec fn task_line(task: TodoItemView) -> Seq<char> {
    let line = box_text(marker(task.status)) + task.content;
    match task.blocker {
        Some(blocker) => line + " <!-- blocker: "@ + blocker + " -->"@,
        None => line,
    }
}

/// The lines of one phase: its heading, its tasks and an empty line.
pub open spec fn phase_lines(phase: TodoPhaseView) -> Seq<Seq<char>> {
    seq!["## "@ + phase.name] + phase.tasks.map_values(|task: TodoItemView| task_line(task)) + seq![
        Seq::<char>::empty(),
    ]
}

/// The lines of a todo document.
pub open spec fn document_lines(phases: Seq<TodoPhaseView>) -> Seq<Seq<char>>
    decreases phases.len(),
{
    if phases.len() == 0 {
        Seq::empty()
    } else {
        document_lines(phases.drop_last()) + phase_lines(phases.last())
    }
}

/// The number of tasks of all phases.
pub open spec fn task_total(phases: Seq<TodoPhaseView>) -> nat
    decreases phases.len(),
{
    if phases.len() == 0 {
        0
    } else {
        task_total(phases.drop_last()) + phases.last().tasks.len()
    }
}

/// Whether a phase has this name.
pub open spec fn has_phase(phases: Seq<TodoPhaseView>, name: Seq<char>) -> bool {
    exists|i: int| 0 <= i < phases.len() && #[trigger] phases[i].name == name
}

/// Whether a task of any phase has this content.
pub open spec fn has_task(phases: Seq<TodoPhaseView>, content: Seq<char>) -> bool {
    exists|i: int, j: int|
        0 <= i < phases.len() && 0 <= j < phases[i].tasks.len()
            && #[trigger] phases[i].tasks[j].content == content
}

/// Whether `s` may be a name: at least one character and at most `MAX_NAME_CHARS`.
pub open spec fn name_len_ok(s: Seq<char>) -> bool {
    1 <= s.len() <= MAX_NAME_CHARS
}

/// The content and the blocker that the rest of a task line behind its box holds.
pub open spec fn task_parts(rest: Seq<char>) -> (Seq<char>, Option<Seq<char>>) {
    let comment = " <!-- blocker: "@;
    let body = rest.subrange(0, rest.len() - " -->"@.len());
    if text::ends_with(rest, " -->"@) && text::rfind_from(body, comment, body.len() as int) is Some {
        let at = text::rfind_from(body, comment, body.len() as int)->0;
        (
            text::trimmed(body.subrange(0, at)),
            Some(text::trimmed(body.subrange(at + comment.len(), body.len() as int))),
        )
    } else {
        (text::trimmed(rest), None)
    }
}

/// The status and the rest of a line that begins with a box, if it does.
pub open spec fn task_box(line: Seq<char>) -> Option<(Seq<char>, Seq<char>)> {
    if line.len() >= 6 && marked_status(line[3]) is Some && text::starts_with(line, box_text(line[3])) {
        Some((marked_status(line[3])->0, line.subrange(6, line.len() as int)))
    } else {
        None
    }
}

pub open spec fn problem(line: nat, message: Seq<char>) -> Result<
    Seq<TodoPhaseView>,
    TodoDocumentErrorView,
> {
    Err(TodoDocumentErrorView { line, message })
}

/// The phases after a heading.
pub open spec fn after_heading(
    phases: Seq<TodoPhaseView>,
    name: Seq<char>,
    number: nat,
) -> Result<Seq<TodoPhaseView>, TodoDocumentErrorView> {
    if !name_len_ok(name) {
        problem(number, "phase name must contain 1-200 characters"@)
    } else if phases.len() >= MAX_PHASES {
        problem(number, "todo list may contain at most 16 phases"@)
    } else if has_phase(phases, name) {
        problem(number, "duplicate phase `"@ + name + "`"@)
    } else {
        Ok(phases.push(TodoPhaseView { name, tasks: Seq::empty() }))
    }
}

/// The phases with one more task in the last of them.
pub open spec fn with_task(phases: Seq<TodoPhaseView>, task: TodoItemView) -> Seq<TodoPhaseView> {
    let last = phases.last();
    phases.drop_last().push(TodoPhaseView { name: last.name, tasks: last.tasks.push(task) })
}

/// The phases after a task line.
pub open spec fn after_task(
    phases: Seq<TodoPhaseView>,
    status: Seq<char>,
    rest: Seq<char>,
    number: nat,
) -> Result<Seq<TodoPhaseView>, TodoDocumentErrorView> {
    let (content, blocker) = task_parts(rest);
    if !name_len_ok(content) {
        problem(number, "task content must contain 1-200 characters"@)
    } else if blocker is Some && !name_len_ok(blocker->0) {
        problem(number, "blocker must contain 1-200 characters"@)
    } else if has_task(phases, content) {
        problem(number, "duplicate task `"@ + content + "`"@)
    } else if task_total(phases) >= MAX_TASKS {
        problem(number, "todo list may contain at most 64 tasks"@)
    } else {
        Ok(with_task(phases, TodoItemView { content, status, blocker }))
    }
}

/// The phases after one more line of the document.
pub open spec fn after_line(phases: Seq<TodoPhaseView>, raw: Seq<char>, number: nat) -> Result<
    Seq<TodoPhaseView>,
    TodoDocumentErrorView,
> {
    let line = text::trimmed(raw);
    if line.len() == 0 {
        Ok(phases)
    } else if text::starts_with(line, "## "@) {
        after_heading(
            phases,
            text::trimmed(line.subrange("## "@.len() as int, line.len() as int)),
            number,
        )
    } else if phases.len() == 0 {
        problem(number, "task appears before a `## Phase` heading"@)
    } else {
        match task_box(line) {
            Some((status, rest)) => after_task(phases, status, rest, number),
            None => problem(
                number,
                "expected `- [ ]`, `- [>]`, `- [x]`, `- [-]`, or `- [!]`"@,
            ),
        }
    }
}

/// The phases that the lines of a document describe, or the first problem in them.
pub open spec fn phases_of(lines: Seq<Seq<char>>) -> Result<
    Seq<TodoPhaseView>,
    TodoDocumentErrorView,
>
    decreases lines.len(),
{
    if lines.len() == 0 {
        Ok(Seq::empty())
    } else {
        match phases_of(lines.drop_last()) {
            Ok(phases) => after_line(phases, lines.last(), lines.len()),
            Err(error) => Err(error),
        }
    }
}

/// The mark of a status.
fn marker_of(status: &str) -> (r: char)
    ensures
        r == marker(status@),
{
    if text::str_eq(status, "in_progress") {
        '>'
    } else if text::str_eq(status, "completed") {
        'x'
    } else if text::str_eq(status, "abandoned") {
        '-'
    } else if text::str_eq(status, "blocked") {
        '!'
    } else {
        ' '
    }
}

/// Adds the line of one task.
fn push_task_line(out: &mut String, task: &CoreTodoItem)
    ensures
        final(out)@ == old(out)@ + task_line(task.deep_view()).push('\n'),
{
    proof {
        reveal_strlit("- [");
        reveal_strlit("] ");
    }
    let mark = marker_of(task.status.as_str());
    out.append("- [");
    out.push(mark);
    out.append("] ");
    out.append(task.content.as_str());
    let ghost line = box_text(mark) + task.content@;
    assert(out@ =~= old(out)@ + line);
    if let Some(blocker) = &task.blocker {
        out.append(" <!-- blocker: ");
        out.append(blocker.as_str());
        out.append(" -->");
        assert(out@ =~= old(out)@ + (line + " <!-- blocker: "@ + blocker@ + " -->"@));
    }
    out.push('\n');
    assert(out@ =~= old(out)@ + task_line(task.deep_view()).push('\n'));
}

proof fn lemma_terminated_push(lines: Seq<Seq<char>>, line: Seq<char>)
    ensures
        text::terminated(lines.push(line)) == text::terminated(lines) + line.push('\n'),
{
    assert(lines.push(line).drop_last() =~= lines);
}

/// The Markdown form of a todo list: each phase a heading followed by its tasks and an empty
/// line.
pub fn todos_to_markdown(phases: &Vec<CoreTodoPhase>) -> (output: String)
    ensures
        output@ == text::terminated(document_lines(phases.deep_view())),
{
    let mut output = String::new();
    let mut i: usize = 0;
    let ghost all = phases.deep_view();
    while i < phases.len()
        invariant
            all == phases.deep_view(),
            i <= phases@.len(),
            output@ == text::terminated(document_lines(all.take(i as int))),
        decreases phases@.len() - i,
    {
        let phase = &phases[i];
        let ghost view = phase.deep_view();
        let ghost before = document_lines(all.take(i as int));
        let ghost heading = "## "@ + view.name;
        let ghost lines = view.tasks.map_values(|task: TodoItemView| task_line(task));
        let ghost start = output@;
        output.append("## ");
        output.append(phase.name.as_str());
        output.push('\n');
        proof {
            assert(output@ =~= start + heading.push('\n'));
            lemma_terminated_push(before, heading);
        }
        let mut j: usize = 0;
        assert(before.push(heading) + lines.take(0) =~= before.push(heading));
        while j < phase.tasks.len()
            invariant
                view == phase.deep_view(),
                lines == view.tasks.map_values(|task: TodoItemView| task_line(task)),
                j <= phase.tasks@.len(),
                output@ == text::terminated(before.push(heading) + lines.take(j as int)),
            decreases phase.tasks@.len() - j,
        {
            push_task_line(&mut output, &phase.tasks[j]);
            proof {
                let done = before.push(heading) + lines.take(j as int);
                assert(view.tasks[j as int] == phase.tasks@[j as int].deep_view());
                lemma_terminated_push(done, lines[j as int]);
                assert(done.push(lines[j as int]) =~= before.push(heading) + lines.take(j + 1));
            }
            j += 1;
        }
        assert(lines.take(j as int) =~= lines);
        output.push('\n');
        proof {
            let done = before.push(heading) + lines;
            let blank = Seq::<char>::empty();
            lemma_terminated_push(done, blank);
            assert(text::terminated(done) + blank.push('\n') =~= text::terminated(done).push('\n'));
            assert(done.push(blank) =~= before + phase_lines(view));
            assert(all.take(i + 1).drop_last() =~= all.take(i as int));
        }
        i += 1;
    }
    assert(all.take(i as int) =~= all);
    output
}

/// Whether a phase has this name.
fn phase_named(phases: &Vec<CoreTodoPhase>, name: &str) -> (r: bool)
    ensures
        r == has_phase(phases.deep_view(), name@),
{
    let ghost all = phases.deep_view();
    let mut i: usize = 0;
    while i < phases.len()
        invariant
            all == phases.deep_view(),
            i <= phases@.len(),
            forall|k: int| 0 <= k < i ==> #[trigger] all[k].name != name@,
        decreases phases@.len() - i,
    {
        assert(all[i as int].name == phases@[i as int].name@);
        if text::str_eq(phases[i].name.as_str(), name) {
            return true;
        }
        i += 1;
    }
    false
}

/// Whether a task of any phase has this content.
fn task_named(phases: &Vec<CoreTodoPhase>, content: &str) -> (r: bool)
    ensures
        r == has_task(phases.deep_view(), content@),
{
    let ghost all = phases.deep_view();
    let mut i: usize = 0;
    while i < phases.len()
        invariant
            all == phases.deep_view(),
            i <= phases@.len(),
            forall|k: int, j: int|
                0 <= k < i && 0 <= j < all[k].tasks.len() ==> #[trigger] all[k].tasks[j].content
                    != content@,
        decreases phases@.len() - i,
    {
        let tasks = &phases[i].tasks;
        assert(all[i as int].tasks == tasks.deep_view());
        let mut j: usize = 0;
        while j < tasks.len()
            invariant
                all == phases.deep_view(),
                i < phases@.len(),
                all[i as int].tasks == tasks.deep_view(),
                j <= tasks@.len(),
                forall|k: int|
                    0 <= k < j ==> #[trigger] all[i as int].tasks[k].content != content@,
            decreases tasks@.len() - j,
        {
            assert(all[i as int].tasks[j as int].content == tasks@[j as int].content@);
            if text::str_eq(tasks[j].content.as_str(), content) {
                return true;
            }
            j += 1;
        }
        i += 1;
    }
    false
}

/// Whether `s` has the length of a name.
fn name_ok(s: &str) -> (r: bool)
    ensures
        r == name_len_ok(s@),
{
    let count = text::char_count(s);
    1 <= count && count <= MAX_NAME_CHARS
}

/// The status and the rest of a line that begins with a box, if it does.
fn open_box(line: &str) -> (r: Option<(&'static str, String)>)
    ensures
        r is Some <==> task_box(line@) is Some,
        r matches Some((status, rest)) ==> task_box(line@) == Some((status@, rest@)),
{
    let chars = text::chars_of(line);
    if chars.len() < 6 {
        return None;
    }
    let status = match chars[3] {
        ' ' => "pending",
        '>' => "in_progress",
        'x' => "completed",
        '-' => "abandoned",
        '!' => "blocked",
        _ => {
            return None;
        },
    };
    let matches = chars[0] == '-' && chars[1] == ' ' && chars[2] == '[' && chars[4] == ']'
        && chars[5] == ' ';
    proof {
        let first = line@.subrange(0, 6);
        let wanted = box_text(line@[3]);
        assert(wanted.len() == 6);
        assert(matches ==> first =~= wanted);
        assert(first == wanted ==> first[0] == wanted[0] && first[1] == wanted[1] && first[2]
            == wanted[2] && first[4] == wanted[4] && first[5] == wanted[5]);
    }
    if matches {
        Some((status, text::string_range(&chars, 6, chars.len())))
    } else {
        None
    }
}

/// The content and the blocker of a task line.
fn parts_of(rest: &str) -> (r: (String, Option<String>))
    ensures
        (r.0@, r.1.deep_view()) == task_parts(rest@),
{
    if let Some(body) = text::strip_suffix(rest, " -->") {
        if let Some(at) = text::rfind(body.as_str(), " <!-- blocker: ") {
            proof {
                text::lemma_rfind(body@, " <!-- blocker: "@, body@.len() as int);
            }
            let total = text::char_count(body.as_str());
            assert(at + " <!-- blocker: "@.len() <= total);
            let after = at + text::char_count(" <!-- blocker: ");
            let content = text::substring(body.as_str(), 0, at);
            let blocker = text::substring(body.as_str(), after, total);
            return (text::trim(content.as_str()), Some(text::trim(blocker.as_str())));
        }
    }
    (text::trim(rest), None)
}

/// The error on one line.
fn refusal(line: usize, message: &str) -> (r: TodoDocumentError)
    ensures
        r.deep_view() == (TodoDocumentErrorView { line: line as nat, message: message@ }),
{
    TodoDocumentError { line, message: message.to_owned() }
}

/// The error that names what occurs twice.
fn duplicate(line: usize, what: &str, name: &str) -> (r: TodoDocumentError)
    ensures
        r.deep_view() == (TodoDocumentErrorView {
            line: line as nat,
            message: what@ + name@ + "`"@,
        }),
{
    let mut message = text::cat(what, name);
    message.append("`");
    TodoDocumentError { line, message }
}

/// Whether `r` and what it left behind are what `expected` says.
pub open spec fn meets(
    expected: Result<Seq<TodoPhaseView>, TodoDocumentErrorView>,
    r: Result<(), TodoDocumentError>,
    phases: Seq<TodoPhaseView>,
) -> bool {
    match expected {
        Ok(wanted) => r is Ok && phases == wanted,
        Err(error) => r matches Err(e) && e.deep_view() == error,
    }
}

/// Reads one more line into the phases.
fn read_line(
    phases: &mut Vec<CoreTodoPhase>,
    task_count: &mut usize,
    raw: &str,
    number: usize,
) -> (r: Result<(), TodoDocumentError>)
    requires
        *old(task_count) == task_total(old(phases).deep_view()),
        *old(task_count) <= MAX_TASKS,
    ensures
        meets(
            after_line(old(phases).deep_view(), raw@, number as nat),
            r,
            final(phases).deep_view(),
        ),
        r is Ok ==> *final(task_count) == task_total(final(phases).deep_view())
            && *final(task_count) <= MAX_TASKS,
{
    let line = text::trim(raw);
    if text::char_count(line.as_str()) == 0 {
        return Ok(());
    }
    let ghost before = phases.deep_view();
    if let Some(rest) = text::strip_prefix(line.as_str(), "## ") {
        let name = text::trim(rest.as_str());
        if !name_ok(name.as_str()) {
            return Err(refusal(number, "phase name must contain 1-200 characters"));
        }
        if phases.len() >= MAX_PHASES {
            return Err(refusal(number, "todo list may contain at most 16 phases"));
        }
        if phase_named(phases, name.as_str()) {
            return Err(duplicate(number, "duplicate phase `", name.as_str()));
        }
        let phase = CoreTodoPhase { name, tasks: Vec::new() };
        assert(phase.deep_view() =~= TodoPhaseView { name: name@, tasks: Seq::empty() });
        phases.push(phase);
        assert(phases.deep_view() =~= before.push(phase.deep_view()));
        assert(phases.deep_view().drop_last() =~= before);
        return Ok(());
    }
    if phases.len() == 0 {
        return Err(refusal(number, "task appears before a `## Phase` heading"));
    }
    let (status, rest) = match open_box(line.as_str()) {
        Some(found) => found,
        None => {
            return Err(
                refusal(number, "expected `- [ ]`, `- [>]`, `- [x]`, `- [-]`, or `- [!]`"),
            );
        },
    };
    let (content, blocker) = parts_of(rest.as_str());
    if !name_ok(content.as_str()) {
        return Err(refusal(number, "task content must contain 1-200 characters"));
    }
    if let Some(text) = &blocker {
        if !name_ok(text.as_str()) {
            return Err(refusal(number, "blocker must contain 1-200 characters"));
        }
    }
    if task_named(phases, content.as_str()) {
        return Err(duplicate(number, "duplicate task `", content.as_str()));
    }
    if *task_count >= MAX_TASKS {
        return Err(refusal(number, "todo list may contain at most 64 tasks"));
    }
    let task = CoreTodoItem { content, status: status.to_owned(), blocker };
    let ghost added = task.deep_view();
    let ghost last = before.last();
    if let Some(mut phase) = phases.pop() {
        assert(phase.deep_view() == last);
        phase.tasks.push(task);
        assert(phase.tasks.deep_view() =~= last.tasks.push(added));
        phases.push(phase);
        assert(phases.deep_view() =~= with_task(before, added));
        assert(with_task(before, added).drop_last() =~= before.drop_last());
    }
    *task_count += 1;
    Ok(())
}

/// Reads a todo document. The first line that breaks a rule is reported with its number.
pub fn parse_todos_markdown(document: &str) -> (r: Result<Vec<CoreTodoPhase>, TodoDocumentError>)
    ensures
        match phases_of(text::lines_of(document@)) {
            Ok(phases) => r matches Ok(v) && v.deep_view() == phases,
            Err(error) => r matches Err(e) && e.deep_view() == error,
        },
{
    let lines = text::lines(document);
    let ghost all = text::lines_of(document@);
    let mut phases: Vec<CoreTodoPhase> = Vec::new();
    let mut task_count: usize = 0;
    let mut i: usize = 0;
    assert(phases.deep_view() =~= Seq::empty());
    while i < lines.len()
        invariant
            all == text::lines_of(document@),
            lines.deep_view() == all,
            i <= lines@.len(),
            phases_of(all.take(i as int)) == Ok::<Seq<TodoPhaseView>, TodoDocumentErrorView>(
                phases.deep_view(),
            ),
            task_count == task_total(phases.deep_view()),
            task_count <= MAX_TASKS,
        decreases lines@.len() - i,
    {
        assert(all.take(i + 1).drop_last() =~= all.take(i as int));
        assert(all[i as int] == lines@[i as int]@);
        let step = read_line(&mut phases, &mut task_count, lines[i].as_str(), i + 1);
        if let Err(error) = step {
            proof {
                lemma_error_stays(all, i + 1);
            }
            return Err(error);
        }
        i += 1;
    }
    assert(all.take(i as int) =~= all);
    Ok(phases)
}

/// A document that is refused is refused for its first line that cannot be taken, whatever follows
/// that line.
pub proof fn law_first_bad_line_is_told(lines: Seq<Seq<char>>, good: int)
    requires
        0 <= good < lines.len(),
        phases_of(lines.take(good)) is Ok,
        phases_of(lines.take(good + 1)) is Err,
    ensures
        phases_of(lines) == phases_of(lines.take(good + 1)),
        phases_of(lines) matches Err(error) && error.line == good + 1,
{
    lemma_error_stays(lines, good + 1);
    assert(lines.take(good + 1).drop_last() =~= lines.take(good));
}

proof fn lemma_error_stays(lines: Seq<Seq<char>>, upto: int)
    requires
        0 <= upto <= lines.len(),
        phases_of(lines.take(upto)) is Err,
    ensures
        phases_of(lines) == phases_of(lines.take(upto)),
    decreases lines.len(),
{
    if upto < lines.len() {
        assert(lines.drop_last().take(upto) =~= lines.take(upto));
        lemma_error_stays(lines.drop_last(), upto);
    } else {
        assert(lines.take(upto) =~= lines);
    }
}

/// Whether `s` is a name that a document keeps as it is: of the right length, trimmed and on one
/// line.
pub open spec fn plain_name(s: Seq<char>) -> bool {
    name_len_ok(s) && text::trimmed(s) == s && !s.contains('\n')
}

/// Whether reading the line of a task gives back the task: its texts are plain, its status is one
/// that has a mark, and the comment that names the blocker is found where it was written.
pub open spec fn plain_task(task: TodoItemView) -> bool {
    &&& plain_name(task.content)
    &&& marked_status(marker(task.status)) == Some(task.status)
    &&& match task.blocker {
        Some(blocker) => {
            let body = task.content + " <!-- blocker: "@ + blocker;
            &&& plain_name(blocker)
            &&& text::rfind_from(body, " <!-- blocker: "@, body.len() as int) == Some(
                task.content.len() as int,
            )
        },
        None => task_parts(task.content).1 is None,
    }
}

/// Whether a todo list is one that a document can hold: within the limits, with plain and distinct
/// names.
pub open spec fn plain_todos(phases: Seq<TodoPhaseView>) -> bool {
    &&& phases.len() <= MAX_PHASES
    &&& task_total(phases) <= MAX_TASKS
    &&& forall|i: int| 0 <= i < phases.len() ==> plain_name(#[trigger] phases[i].name)
    &&& forall|i: int, j: int|
        0 <= i < j < phases.len() ==> #[trigger] phases[i].name != #[trigger] phases[j].name
    &&& forall|i: int, k: int|
        0 <= i < phases.len() && 0 <= k < phases[i].tasks.len() ==> plain_task(
            #[trigger] phases[i].tasks[k],
        )
    &&& forall|i: int, k: int, j: int, l: int|
        0 <= i < phases.len() && 0 <= k < phases[i].tasks.len() && 0 <= j < phases.len() && 0 <= l
            < phases[j].tasks.len() && (i != j || k != l)
            ==> #[trigger] phases[i].tasks[k].content != #[trigger] phases[j].tasks[l].content
}

proof fn lemma_heading(phases: Seq<TodoPhaseView>, name: Seq<char>, number: nat)
    requires
        plain_name(name),
        phases.len() < MAX_PHASES,
        !has_phase(phases, name),
    ensures
        after_line(phases, "## "@ + name, number) == Ok::<
            Seq<TodoPhaseView>,
            TodoDocumentErrorView,
        >(phases.push(TodoPhaseView { name, tasks: Seq::empty() })),
        text::is_line("## "@ + name),
{
    reveal_strlit("## ");
    let line = "## "@ + name;
    text::lemma_trimmed(line);
    text::lemma_trimmed(name);
    assert(line.last() == name.last());
    assert(line.subrange(0, 3) =~= "## "@);
    assert(line.subrange(3, line.len() as int) =~= name);
    assert forall|i: int| 0 <= i < line.len() implies line[i] != '\n' by {
        if i >= 3 {
            assert(name[i - 3] == line[i]);
            assert(name.contains(name[i - 3]));
        }
    }
}

/// What stands behind the box of a task.
spec fn task_rest(task: TodoItemView) -> Seq<char> {
    match task.blocker {
        Some(blocker) => task.content + " <!-- blocker: "@ + blocker + " -->"@,
        None => task.content,
    }
}

/// What stands behind the box gives the texts of the task, and is on one line.
#[verifier::spinoff_prover]
proof fn lemma_task_rest(task: TodoItemView)
    requires
        plain_task(task),
    ensures
        task_parts(task_rest(task)) == (task.content, task.blocker),
        task_rest(task).len() > 0 && !text::white_space(task_rest(task).last()),
        forall|i: int| 0 <= i < task_rest(task).len() ==> #[trigger] task_rest(task)[i] != '\n',
{
    reveal_strlit(" -->");
    reveal_strlit(" <!-- blocker: ");
    let content = task.content;
    let rest = task_rest(task);
    text::lemma_trimmed(content);
    match task.blocker {
        Some(blocker) => {
            let body = content + " <!-- blocker: "@ + blocker;
            let at = content.len() as int;
            assert(rest =~= body + " -->"@);
            assert(rest.subrange(rest.len() - 4, rest.len() as int) =~= " -->"@);
            assert(rest.subrange(0, rest.len() - 4) =~= body);
            assert(body.subrange(0, at) =~= content);
            assert(body.subrange(at + 15, body.len() as int) =~= blocker);
            assert forall|i: int| 0 <= i < rest.len() implies #[trigger] rest[i] != '\n' by {
                if i < at {
                    assert(rest[i] == content[i]);
                    assert(content.contains(content[i]));
                } else if i < at + 15 {
                    assert(rest[i] == " <!-- blocker: "@[i - at]);
                } else if i < at + 15 + blocker.len() {
                    assert(rest[i] == blocker[i - at - 15]);
                    assert(blocker.contains(blocker[i - at - 15]));
                } else {
                    assert(rest[i] == " -->"@[i - at - 15 - blocker.len()]);
                }
            }
        },
        None => {
            assert forall|i: int| 0 <= i < rest.len() implies #[trigger] rest[i] != '\n' by {
                assert(content.contains(content[i]));
            }
        },
    }
}

#[verifier::spinoff_prover]
proof fn lemma_task(phases: Seq<TodoPhaseView>, task: TodoItemView, number: nat)
    requires
        plain_task(task),
        phases.len() > 0,
        !has_task(phases, task.content),
        task_total(phases) < MAX_TASKS,
    ensures
        after_line(phases, task_line(task), number) == Ok::<
            Seq<TodoPhaseView>,
            TodoDocumentErrorView,
        >(with_task(phases, task)),
        text::is_line(task_line(task)),
{
    reveal_strlit("## ");
    let mark = marker(task.status);
    let head = box_text(mark);
    let line = task_line(task);
    let rest = task_rest(task);
    lemma_task_rest(task);
    assert(line =~= head + rest);
    text::lemma_trimmed(line);
    assert(line[0] == '-');
    assert(line.last() == rest.last());
    assert(text::trimmed(line) == line);
    assert(line.subrange(0, 3)[0] != "## "@[0]);
    assert(line.subrange(0, 6) =~= head);
    assert(line[3] == mark);
    assert(line.subrange(6, line.len() as int) =~= rest);
    assert(task_box(line) == Some((task.status, rest)));
    assert(TodoItemView { content: task.content, status: task.status, blocker: task.blocker }
        == task);
    assert forall|i: int| 0 <= i < line.len() implies line[i] != '\n' by {
        if i < 6 {
            assert(line[i] == head[i]);
        } else {
            assert(line[i] == rest[i - 6]);
        }
    }
    assert(!line.contains('\n'));
}

proof fn lemma_task_lines(
    before: Seq<Seq<char>>,
    phases: Seq<TodoPhaseView>,
    phase: TodoPhaseView,
    count: int,
)
    requires
        phases_of(before) == Ok::<Seq<TodoPhaseView>, TodoDocumentErrorView>(phases),
        plain_todos(phases.push(phase)),
        0 <= count <= phase.tasks.len(),
    ensures
        ({
            let lines = before.push("## "@ + phase.name) + phase.tasks.map_values(
                |task: TodoItemView| task_line(task),
            ).take(count);
            let read = TodoPhaseView { name: phase.name, tasks: phase.tasks.take(count) };
            phases_of(lines) == Ok::<Seq<TodoPhaseView>, TodoDocumentErrorView>(phases.push(read))
        }),
        forall|k: int| 0 <= k < count ==> text::is_line(task_line(#[trigger] phase.tasks[k])),
        text::is_line("## "@ + phase.name),
    decreases count,
{
    let all = phases.push(phase);
    let heading = "## "@ + phase.name;
    let task_lines = phase.tasks.map_values(|task: TodoItemView| task_line(task));
    let lines = before.push(heading) + task_lines.take(count);
    let read = TodoPhaseView { name: phase.name, tasks: phase.tasks.take(count) };
    assert(all.last() == phase);
    assert(all.drop_last() =~= phases);
    if count == 0 {
        assert(lines =~= before.push(heading));
        assert(lines.drop_last() =~= before);
        assert(plain_name(all[phases.len() as int].name));
        assert(!has_phase(phases, phase.name)) by {
            if has_phase(phases, phase.name) {
                let i = choose|i: int|
                    0 <= i < phases.len() && #[trigger] phases[i].name == phase.name;
                assert(all[i].name == phase.name);
                assert(all[phases.len() as int].name == phase.name);
            }
        }
        lemma_heading(phases, phase.name, lines.len());
        assert(read.tasks =~= Seq::<TodoItemView>::empty());
    } else {
        lemma_task_lines(before, phases, phase, count - 1);
        let shorter = TodoPhaseView { name: phase.name, tasks: phase.tasks.take(count - 1) };
        let held = phases.push(shorter);
        let task = phase.tasks[count - 1];
        assert(lines.drop_last() =~= before.push(heading) + task_lines.take(count - 1));
        assert(lines.last() == task_line(task));
        assert(all[phases.len() as int].tasks[count - 1] == task);
        assert(plain_task(task));
        assert(!has_task(held, task.content)) by {
            if has_task(held, task.content) {
                let (i, k) = choose|i: int, k: int|
                    0 <= i < held.len() && 0 <= k < held[i].tasks.len()
                        && #[trigger] held[i].tasks[k].content == task.content;
                assert(all[i].tasks[k] == held[i].tasks[k]);
                assert(all[phases.len() as int].tasks[count - 1] == task);
                assert(all[i].tasks[k].content
                    != all[phases.len() as int].tasks[count - 1].content);
            }
        }
        assert(held.drop_last() =~= phases);
        assert(task_total(held) == task_total(phases) + count - 1);
        assert(task_total(all) == task_total(phases) + phase.tasks.len());
        lemma_task(held, task, lines.len());
        assert(shorter.tasks.push(task) =~= read.tasks);
        assert(with_task(held, task) =~= phases.push(read));
    }
}

proof fn lemma_document(phases: Seq<TodoPhaseView>)
    requires
        plain_todos(phases),
    ensures
        phases_of(document_lines(phases)) == Ok::<Seq<TodoPhaseView>, TodoDocumentErrorView>(
            phases,
        ),
        forall|i: int|
            0 <= i < document_lines(phases).len() ==> text::is_line(
                #[trigger] document_lines(phases)[i],
            ),
    decreases phases.len(),
{
    if phases.len() == 0 {
        assert(phases =~= Seq::empty());
    } else {
        let init = phases.drop_last();
        let phase = phases.last();
        assert(init.push(phase) =~= phases);
        assert(plain_todos(init)) by {
            assert forall|i: int| 0 <= i < init.len() implies plain_name(
                #[trigger] init[i].name,
            ) by {
                assert(plain_name(phases[i].name));
            }
            assert forall|i: int, k: int|
                0 <= i < init.len() && 0 <= k < init[i].tasks.len() implies plain_task(
                #[trigger] init[i].tasks[k],
            ) by {
                assert(plain_task(phases[i].tasks[k]));
            }
            assert forall|i: int, k: int, j: int, l: int|
                0 <= i < init.len() && 0 <= k < init[i].tasks.len() && 0 <= j < init.len() && 0
                    <= l < init[j].tasks.len() && (i != j || k != l) implies #[trigger] init[i].tasks[k].content
                != #[trigger] init[j].tasks[l].content by {
                assert(phases[i].tasks[k].content != phases[j].tasks[l].content);
            }
        }
        lemma_document(init);
        let before = document_lines(init);
        lemma_task_lines(before, init, phase, phase.tasks.len() as int);
        let task_lines = phase.tasks.map_values(|task: TodoItemView| task_line(task));
        assert(task_lines.take(phase.tasks.len() as int) =~= task_lines);
        assert(phase.tasks.take(phase.tasks.len() as int) =~= phase.tasks);
        let heading = "## "@ + phase.name;
        let lines = document_lines(phases);
        assert(lines =~= before.push(heading) + task_lines + seq![Seq::<char>::empty()]);
        assert(lines.drop_last() =~= before.push(heading) + task_lines);
        assert(lines.last() =~= Seq::<char>::empty());
        text::lemma_trimmed(lines.last());
        assert forall|i: int| 0 <= i < lines.len() implies text::is_line(#[trigger] lines[i]) by {
            if i < before.len() {
                assert(lines[i] == document_lines(init)[i]);
            } else if before.len() < i < lines.len() - 1 {
                assert(lines[i] == task_line(phase.tasks[i - before.len() - 1]));
            }
        }
    }
}

/// Reading the Markdown form of a todo list gives back the todo list.
pub proof fn law_todo_markdown_round_trip(phases: Seq<TodoPhaseView>)
    requires
        plain_todos(phases),
    ensures
        phases_of(text::lines_of(text::terminated(document_lines(phases)))) == Ok::<
            Seq<TodoPhaseView>,
            TodoDocumentErrorView,
        >(phases),
{
    lemma_document(phases);
    text::lemma_lines_of_terminated(document_lines(phases));
}

/// Whether `s` is a name as a document gives it: trimmed, with one to two hundred characters.
pub open spec fn bounded_name(s: Seq<char>) -> bool {
    name_len_ok(s) && text::trimmed(s) == s
}

/// Whether a task is one that a document can give: its texts are names, and its status is one of
/// the five.
pub open spec fn bounded_task(task: TodoItemView) -> bool {
    &&& bounded_name(task.content)
    &&& task.blocker matches Some(blocker) ==> bounded_name(blocker)
    &&& {
        ||| task.status == "pending"@
        ||| task.status == "in_progress"@
        ||| task.status == "completed"@
        ||| task.status == "abandoned"@
        ||| task.status == "blocked"@
    }
}

/// Whatever is read from a document keeps the limits of a todo list: not too many phases and
/// tasks, every text a name, every status known, no name twice.
pub open spec fn bounded_todos(phases: Seq<TodoPhaseView>) -> bool {
    &&& phases.len() <= MAX_PHASES
    &&& task_total(phases) <= MAX_TASKS
    &&& forall|i: int| 0 <= i < phases.len() ==> bounded_name(#[trigger] phases[i].name)
    &&& forall|i: int, j: int|
        0 <= i < j < phases.len() ==> #[trigger] phases[i].name != #[trigger] phases[j].name
    &&& forall|i: int, k: int|
        0 <= i < phases.len() && 0 <= k < phases[i].tasks.len() ==> bounded_task(
            #[trigger] phases[i].tasks[k],
        )
    &&& forall|i: int, k: int, j: int, l: int|
        0 <= i < phases.len() && 0 <= k < phases[i].tasks.len() && 0 <= j < phases.len() && 0 <= l
            < phases[j].tasks.len() && (i != j || k != l)
            ==> #[trigger] phases[i].tasks[k].content != #[trigger] phases[j].tasks[l].content
}

/// The parts of a task line are trimmed.
proof fn lemma_parts_are_trimmed(rest: Seq<char>)
    ensures
        text::trimmed(task_parts(rest).0) == task_parts(rest).0,
        task_parts(rest).1 matches Some(blocker) ==> text::trimmed(blocker) == blocker,
{
    let comment = " <!-- blocker: "@;
    let body = rest.subrange(0, rest.len() - " -->"@.len());
    text::lemma_trimmed_twice(rest);
    if let Some(at) = text::rfind_from(body, comment, body.len() as int) {
        text::lemma_trimmed_twice(body.subrange(0, at));
        text::lemma_trimmed_twice(body.subrange(at + comment.len(), body.len() as int));
    }
}

/// A document that is accepted describes a todo list within the limits.
pub proof fn law_accepted_todos_are_bounded(lines: Seq<Seq<char>>)
    ensures
        phases_of(lines) matches Ok(phases) ==> bounded_todos(phases),
    decreases lines.len(),
{
    if lines.len() > 0 {
        let init = lines.drop_last();
        law_accepted_todos_are_bounded(init);
        if let Ok(held) = phases_of(init) {
            if let Ok(phases) = phases_of(lines) {
                if phases != held {
                    let line = text::trimmed(lines.last());
                    if text::starts_with(line, "## "@) {
                        text::lemma_trimmed_twice(
                            line.subrange("## "@.len() as int, line.len() as int),
                        );
                        assert(phases.drop_last() =~= held);
                        assert forall|i: int, j: int|
                            0 <= i < j < phases.len() implies #[trigger] phases[i].name
                            != #[trigger] phases[j].name by {
                            assert(held[i].name == phases[i].name);
                        }
                        assert forall|i: int, k: int|
                            0 <= i < phases.len() && 0 <= k
                                < phases[i].tasks.len() implies bounded_task(
                            #[trigger] phases[i].tasks[k],
                        ) by {
                            assert(held[i].tasks[k] == phases[i].tasks[k]);
                        }
                        assert forall|i: int, k: int, j: int, l: int|
                            0 <= i < phases.len() && 0 <= k < phases[i].tasks.len() && 0 <= j
                                < phases.len() && 0 <= l < phases[j].tasks.len() && (i != j || k
                                != l) implies #[trigger] phases[i].tasks[k].content
                            != #[trigger] phases[j].tasks[l].content by {
                            assert(held[i].tasks[k] == phases[i].tasks[k]);
                            assert(held[j].tasks[l] == phases[j].tasks[l]);
                        }
                    } else {
                        let last = held.len() - 1;
                        let at = held[last].tasks.len() as int;
                        let rest = (task_box(line)->0).1;
                        lemma_parts_are_trimmed(rest);
                        assert(bounded_task(phases[last].tasks[at]));
                        assert(phases.drop_last() =~= held.drop_last());
                        assert forall|i: int, k: int|
                            0 <= i < phases.len() && 0 <= k
                                < phases[i].tasks.len() implies bounded_task(
                            #[trigger] phases[i].tasks[k],
                        ) by {
                            if i != last || k != at {
                                assert(held[i].tasks[k] == phases[i].tasks[k]);
                            }
                        }
                        assert forall|i: int, j: int|
                            0 <= i < j < phases.len() implies #[trigger] phases[i].name
                            != #[trigger] phases[j].name by {
                            assert(held[i].name == phases[i].name);
                            assert(held[j].name == phases[j].name);
                        }
                        assert forall|i: int| 0 <= i < phases.len() implies bounded_name(
                            #[trigger] phases[i].name,
                        ) by {
                            assert(held[i].name == phases[i].name);
                        }
                        assert forall|i: int, k: int, j: int, l: int|
                            0 <= i < phases.len() && 0 <= k < phases[i].tasks.len() && 0 <= j
                                < phases.len() && 0 <= l < phases[j].tasks.len() && (i != j || k
                                != l) implies #[trigger] phases[i].tasks[k].content
                            != #[trigger] phases[j].tasks[l].content by {
                            if i != last || k != at {
                                assert(held[i].tasks[k] == phases[i].tasks[k]);
                            }
                            if j != last || l != at {
                                assert(held[j].tasks[l] == phases[j].tasks[l]);
                            }
                        }
                    }
                }
            }
        }
    }
}

} // verus!
