//! What the requests of a person, and the news of the work, come to.
use crate::app::AppView;
use crate::keys::{KeyActionView, PlanReviewView};
use crate::laws::driving::carries_only;
use crate::protocol::ToolOutputStream;
use crate::runtime::{FinalView, UpdateView};
use crate::session::{CoreResponseView, EventView, PermissionMode, SnapshotView};
use crate::shell::{
    self, ActionStartView, ActionView, ShellRequestView, StartupErrorView, StartupView,
};
use crate::text;
use crate::todo::{self, TodoPhaseView};
use vstd::prelude::*;

verus! {

/// Whether an event says nothing of tokens, tools or the mode that it does not have to.
pub open spec fn is_bare(event: EventView) -> bool {
    &&& event.input_tokens == 0
    &&& event.safe_tools.len() == 0
    &&& event.permission_mode == "auto"@
    &&& !event.automatic
}

/// What a person decides about a call is told the core as it was decided, of that call.
pub proof fn law_approvals_reach_the_core(call_id: Seq<char>, approved: bool)
    ensures
        shell::start_of(ActionView::Approval { call_id, approved }) matches ActionStartView::Send(
            event,
        ) && {
            &&& event.kind == "approval_result"@
            &&& event.call_id == Some(call_id)
            &&& event.approved == Some(approved)
            &&& event.text is None && event.content is None && event.is_error is None
            &&& event.tool_calls.len() == 0 && event.todos.len() == 0
            &&& is_bare(event)
        },
{
}

/// What a person decides about a plan is told the core: an approval and a cancellation as such,
/// feedback and a new plan word for word.
pub proof fn law_plan_decisions_reach_the_core(decision: PlanReviewView)
    ensures
        shell::start_of(ActionView::PlanReview(decision)) matches ActionStartView::Send(event) && {
            &&& event.kind == "plan_review_result"@
            &&& event.approved == (match decision {
                PlanReviewView::Approve => Some(true),
                PlanReviewView::Cancel => Some(false),
                _ => None,
            })
            &&& event.text is Some <==> decision is Refine
            &&& decision matches PlanReviewView::Refine(feedback) ==> event.text == Some(feedback)
            &&& event.content is Some <==> decision is Edit
            &&& decision matches PlanReviewView::Edit(content) ==> event.content == Some(content)
            &&& event.call_id is None && event.is_error is None
            &&& event.tool_calls.len() == 0 && event.todos.len() == 0
            &&& is_bare(event)
        },
{
}

/// What a person submits, plans, steers or has summarised is told the core word for word.
pub proof fn law_words_reach_the_core(s: Seq<char>, instructions: Option<Seq<char>>)
    ensures
        shell::start_of(ActionView::Submit(s)) matches ActionStartView::Send(event) && event.kind
            == "submit"@ && event.text == Some(s) && carries_only(event, true, false, false, false)
            && is_bare(event),
        shell::start_of(ActionView::EnterPlan(s)) matches ActionStartView::Send(event) && event.kind
            == "enter_plan"@ && event.text == Some(s) && carries_only(
            event,
            true,
            false,
            false,
            false,
        ) && is_bare(event),
        shell::start_of(ActionView::Steer(s)) matches ActionStartView::Send(event) && event.kind
            == "steer"@ && event.text == Some(s) && carries_only(event, true, false, false, false)
            && is_bare(event),
        shell::start_of(ActionView::Compact(instructions)) matches ActionStartView::Send(event)
            && event.kind == "start_compaction"@ && event.text == instructions && carries_only(
            event,
            true,
            false,
            false,
            false,
        ) && is_bare(event),
{
}

/// The task list that a person edited is told the core as it is.
pub proof fn law_todos_reach_the_core(todos: Seq<TodoPhaseView>)
    ensures
        shell::start_of(ActionView::ReplaceTodos(todos)) matches ActionStartView::Send(event) && {
            &&& event.kind == "replace_todos"@
            &&& event.todos == todos
            &&& event.text is None && event.content is None && event.approved is None
            &&& event.call_id is None && event.tool_calls.len() == 0
            &&& is_bare(event)
        },
{
}

/// A question beside the conversation is asked as it stands, of the state it was asked in; a
/// reply to be driven is driven.
pub proof fn law_questions_are_asked(
    question: Seq<char>,
    snapshot: SnapshotView,
    reply: CoreResponseView,
)
    ensures
        shell::start_of(ActionView::Btw { question, snapshot }) == (ActionStartView::Ask {
            question,
            snapshot,
        }),
        shell::start_of(ActionView::Drive(reply)) == ActionStartView::Drive(reply),
{
}

/// What differs between a state and the next is the status, and that an action is at work.
pub open spec fn only_busy(app: AppView, next: AppView, status: Seq<char>) -> bool {
    next == (AppView { busy: true, status, ..app })
}

/// Where no action is at work, every request of a key begins the action it asks for, with the
/// very words, call and decision of the request.
pub proof fn law_requests_begin_actions(app: AppView, action: KeyActionView)
    ensures
        ({
            let (next, request) = app.asked(action, false);
            match action {
                KeyActionView::Ignore => request == ShellRequestView::Nothing && next == app,
                KeyActionView::Quit => request == ShellRequestView::Quit && next == app,
                KeyActionView::Cancel => request == ShellRequestView::Nothing && next == app,
                KeyActionView::Submit(s) => request == ShellRequestView::Spawn(
                    ActionView::Submit(s),
                ) && only_busy(app, next, "Submitting…"@),
                KeyActionView::Compact(s) => request == ShellRequestView::Spawn(
                    ActionView::Compact(s),
                ) && only_busy(app, next, "Compacting context…"@),
                KeyActionView::EnterPlan(s) => request == ShellRequestView::Spawn(
                    ActionView::EnterPlan(s),
                ) && only_busy(app, next, "Entering plan mode…"@),
                KeyActionView::EditTodos => request == ShellRequestView::EditTodos(
                    text::terminated(todo::document_lines(app.snapshot.todos)),
                ) && next == app,
                KeyActionView::EditPlan => request == ShellRequestView::EditPlan(
                    app.snapshot.plan.content,
                ) && next == app,
                KeyActionView::PlanReview(decision) => request == ShellRequestView::Spawn(
                    ActionView::PlanReview(decision),
                ) && next == (AppView {
                    plan_review: false,
                    plan_feedback: false,
                    follow_tail: true,
                    busy: true,
                    status: "Applying plan decision…"@,
                    ..app
                }),
                KeyActionView::Steer(s) => request == ShellRequestView::Spawn(
                    ActionView::Steer(s),
                ) && next == (AppView {
                    approval: None,
                    busy: true,
                    status: "Steering…"@,
                    ..app
                }),
                KeyActionView::Btw(question) => request == ShellRequestView::Spawn(
                    ActionView::Btw { question, snapshot: app.snapshot },
                ) && only_busy(app, next, "Asking BTW…"@),
                KeyActionView::Approval { call_id, approved } => request
                    == ShellRequestView::Spawn(ActionView::Approval { call_id, approved })
                    && next == (AppView {
                    approval: None,
                    busy: true,
                    status: "Applying approval…"@,
                    ..app
                }),
            }
        }),
{
}

/// While an action is at work, nothing begins but the end: quitting, cancelling it, and giving it
/// another direction, word for word.
pub proof fn law_requests_during_work(app: AppView, action: KeyActionView)
    ensures
        ({
            let (next, request) = app.asked(action, true);
            match action {
                KeyActionView::Quit => request == ShellRequestView::Quit && next == app,
                KeyActionView::Cancel => request == ShellRequestView::Cancel && only_busy(
                    app,
                    next,
                    "Cancelling…"@,
                ),
                KeyActionView::Steer(s) => request == ShellRequestView::Steer(s) && next == app,
                _ => request == ShellRequestView::Nothing && next == app,
            }
        }),
{
}

/// A task list that was edited replaces the old one where it can be read; otherwise the line that
/// cannot is told and nothing begins.
pub proof fn law_edited_todos(app: AppView, edited: Result<Seq<char>, Seq<char>>)
    ensures
        ({
            let (next, request) = app.todos_edited(edited);
            &&& edited matches Err(message) ==> request == ShellRequestView::Nothing && next == (
            AppView { status: "Error: "@ + message, ..app })
            &&& edited matches Ok(document) ==> match todo::phases_of(text::lines_of(document)) {
                Ok(phases) => request == ShellRequestView::Spawn(ActionView::ReplaceTodos(phases))
                    && only_busy(app, next, "Saving todos…"@),
                Err(error) => request == ShellRequestView::Nothing && next == (AppView {
                    status: "Error: invalid todo document at line "@ + text::decimal(error.line)
                        + ": "@ + error.message,
                    ..app
                }),
            }
        }),
{
}

/// A plan that was edited is told as it stands where it differs from the old one; one that does
/// not differ is not told.
pub proof fn law_edited_plans(app: AppView, edited: Result<Seq<char>, Seq<char>>)
    ensures
        ({
            let (next, request) = app.plan_edited(edited);
            &&& edited matches Err(message) ==> request == ShellRequestView::Nothing && next == (
            AppView { status: "Error: "@ + message, ..app })
            &&& edited matches Ok(content) ==> {
                &&& content == app.snapshot.plan.content ==> request == ShellRequestView::Nothing
                    && next == (AppView {
                    status: "Plan unchanged · y approve · r refine · e edit · n cancel"@,
                    ..app
                })
                &&& content != app.snapshot.plan.content ==> request == ShellRequestView::Spawn(
                    ActionView::PlanReview(PlanReviewView::Edit(content)),
                ) && next == (AppView {
                    plan_review: false,
                    busy: true,
                    status: "Saving plan revision…"@,
                    ..app
                })
            }
        }),
{
}

/// Work that has settled leaves its state, its status, its call to approve and its plan to review
/// on the screen, adds what was said beside the conversation, and frees the input.
pub proof fn law_settled_work(app: AppView, end: FinalView)
    ensures
        app.updated(UpdateView::Settled(end)) matches Some(next) && {
            &&& next.snapshot == end.snapshot
            &&& next.status == end.status
            &&& next.approval == end.approval
            &&& next.plan_review == end.plan_review
            &&& !next.plan_feedback && !next.busy && next.live_tool is None
            &&& next.text_selection is None
            &&& next.input == app.input
            &&& end.local_entry is None ==> next.local_entries == app.local_entries
            &&& end.local_entry matches Some(entry) ==> next.local_entries
                == app.local_entries.push(entry) && next.transcript_layout is None
            &&& end.plan_review && !app.plan_review ==> next.scroll_offset == 0 && !next.follow_tail
            &&& !(end.plan_review && !app.plan_review) ==> next.scroll_offset
                == app.scroll_offset && next.follow_tail == app.follow_tail
        },
{
}

/// Work that has failed tells why and frees the input; the conversation stays as it was.
pub proof fn law_failed_work(app: AppView, message: Seq<char>)
    ensures
        app.updated(UpdateView::Failed(message)) matches Some(next) && {
            &&& next.status == "Error: "@ + message
            &&& !next.busy && !next.plan_feedback && next.live_tool is None
            &&& next.plan_review == (app.snapshot.phase == "waiting_plan_review"@)
            &&& next.snapshot == app.snapshot && next.approval == app.approval
            &&& next.input == app.input && next.local_entries == app.local_entries
            &&& next.scroll_offset == app.scroll_offset && next.follow_tail == app.follow_tail
        },
{
}

/// Progress shows the state and the status it tells; a tool that starts is shown with its label,
/// with nothing printed yet, until it is finished.
pub proof fn law_progress_is_shown(
    app: AppView,
    snapshot: SnapshotView,
    status: Seq<char>,
    call_id: Seq<char>,
    label: Seq<char>,
)
    ensures
        app.updated(UpdateView::Progress { snapshot, status }) matches Some(next) && {
            &&& next.snapshot == snapshot && next.status == status && next.busy
            &&& next.input == app.input && next.approval == app.approval
            &&& next.live_tool == app.live_tool && next.local_entries == app.local_entries
        },
        app.updated(UpdateView::ToolStarted { call_id, label }) matches Some(next) && {
            &&& next.live_tool matches Some(live) && live.call_id == call_id && live.label == label
                && live.stdout.len() == 0 && live.stderr.len() == 0
            &&& next.status == "Running "@ + label + "…"@ && next.busy
            &&& next.snapshot == app.snapshot && next.input == app.input
        },
        app.updated(UpdateView::ToolFinished { call_id }) matches Some(next) && {
            &&& (app.live_tool matches Some(live) && live.call_id == call_id)
                ==> next.live_tool is None
            &&& !(app.live_tool matches Some(live) && live.call_id == call_id) ==> next == app
            &&& next.snapshot == app.snapshot && next.input == app.input && next.busy == app.busy
                && next.status == app.status
        },
{
}

/// What a running tool prints is put behind what it had printed on that stream, of which the end
/// is kept; the other stream stays as it was. Another tool's output starts anew.
pub proof fn law_printed_bytes_are_kept(
    app: AppView,
    call_id: Seq<char>,
    stream: ToolOutputStream,
    bytes: Seq<u8>,
)
    ensures
        ({
            let next = app.with_progress(call_id, stream, bytes);
            let same = app.live_tool matches Some(live) && live.call_id == call_id;
            let stdout = if same {
                (app.live_tool->0).stdout
            } else {
                Seq::empty()
            };
            let stderr = if same {
                (app.live_tool->0).stderr
            } else {
                Seq::empty()
            };
            &&& next.live_tool matches Some(live) && {
                &&& live.call_id == call_id
                &&& live.label == (if same {
                    (app.live_tool->0).label
                } else {
                    "tool"@
                })
                &&& stream == ToolOutputStream::Stdout ==> live.stderr == stderr
                    && live.stdout.is_suffix_of(stdout + bytes) && (stdout.len() + bytes.len()
                    <= 262_144 ==> live.stdout == stdout + bytes)
                &&& stream == ToolOutputStream::Stderr ==> live.stdout == stdout
                    && live.stderr.is_suffix_of(stderr + bytes) && (stderr.len() + bytes.len()
                    <= 262_144 ==> live.stderr == stderr + bytes)
            }
            &&& next.snapshot == app.snapshot && next.input == app.input && next.status
                == app.status
        }),
{
    let next = app.with_progress(call_id, stream, bytes);
    let same = app.live_tool matches Some(live) && live.call_id == call_id;
    let stdout = if same {
        (app.live_tool->0).stdout
    } else {
        Seq::empty()
    };
    let stderr = if same {
        (app.live_tool->0).stderr
    } else {
        Seq::empty()
    };
    crate::laws::reporting::law_kept_output(stdout + bytes);
    crate::laws::reporting::law_kept_output(stderr + bytes);
}

/// A session that is idle is configured and given the prompt, if there is one; one that was left
/// at work goes on where it was left, and takes no prompt.
pub proof fn law_sessions_are_opened(
    app: AppView,
    prompt: Option<Seq<char>>,
    safe_tools: Seq<Seq<char>>,
    mode: PermissionMode,
)
    ensures
        ({
            let phase = app.snapshot.phase;
            let opened = app.opened(prompt, safe_tools, mode);
            let index = app.snapshot.current_call as int;
            let pending = app.snapshot.pending_calls;
            &&& phase == "idle"@ ==> (opened matches Ok((next, start)) && next == app && (
            start matches StartupView::Configure { event, prompt: given } && given == prompt
                && event.kind == "configure_tools"@ && event.safe_tools == safe_tools
                && event.permission_mode == mode.wire() && event.text is None))
            &&& phase == "waiting_model"@ && prompt is None ==> (opened matches Ok((next, start))
                && next == app && (start matches StartupView::Resume(reply) && reply.ok
                && reply.snapshot == app.snapshot && reply.effects.len() == 1
                && reply.effects[0].kind == "request_model"@))
            &&& phase == "waiting_approval"@ && prompt is None && index < pending.len() ==> (
            opened matches Ok((next, start)) && start == StartupView::Wait && next.approval
                == Some(pending[index]) && next.snapshot == app.snapshot)
            &&& phase == "waiting_tool"@ && prompt is None && index < pending.len() ==> (
            opened matches Ok((next, start)) && next == app && (start matches StartupView::Recover(
                event,
            ) && event.kind == "tool_completed"@ && event.call_id == Some(pending[index].call_id)
                && event.is_error == Some(true) && event.content == Some(
                "Tool execution was interrupted by a process restart and was not replayed."@,
            )))
            &&& phase == "waiting_plan_review"@ && prompt is None ==> (opened matches Ok(
                (next, start),
            ) && start == StartupView::Wait && next.plan_review && next.snapshot == app.snapshot)
            &&& phase == "waiting_compaction"@ && prompt is None ==> (opened matches Ok(
                (next, start),
            ) && next == app && (start matches StartupView::Recover(event) && event.kind
                == "compaction_failed"@))
            &&& opened matches Err(StartupErrorView::PromptWhileResuming { phase: told }) ==> prompt
                is Some && told == phase
            &&& opened matches Err(StartupErrorView::MissingPendingTool { phase: told }) ==> told
                == phase && index >= pending.len() && (phase == "waiting_tool"@ || phase
                == "waiting_approval"@)
            &&& opened matches Err(StartupErrorView::UnsupportedSessionPhase { phase: told }) ==> told
                == phase
            &&& phase != "idle"@ && prompt is Some ==> opened is Err
        }),
{
    reveal_strlit("idle");
    reveal_strlit("waiting_model");
    reveal_strlit("waiting_approval");
    reveal_strlit("waiting_tool");
    reveal_strlit("waiting_plan_review");
    reveal_strlit("waiting_compaction");
    assert("idle"@.len() == 4 && "waiting_model"@.len() == 13 && "waiting_approval"@.len() == 16
        && "waiting_tool"@.len() == 12 && "waiting_plan_review"@.len() == 19
        && "waiting_compaction"@.len() == 18);
}

} // verus!
