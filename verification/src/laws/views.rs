//! That the views of values say what the values hold.
use crate::app::App;
use crate::input::InputBuffer;
use crate::json::{Json, JsonNumber, JsonNumberView, JsonView};
use crate::keys::{KeyAction, KeyActionView, PlanReviewAction, PlanReviewView};
use crate::protocol::ToolSpec;
use crate::runtime::{DriveEvent, DriveEventView, DriveRequest, DriveRequestView, ModelCompletion};
use crate::session::{
    CoreEffect, CoreEvent, CoreMessage, CoreResponse, CoreSnapshot, CoreToolCall,
};
use crate::shell::{
    ActionStart, ActionStartView, ActionView, RuntimeAction, ShellRequest, ShellRequestView,
};
use crate::style::{Line, Span};
use crate::todo::{CoreTodoItem, CoreTodoPhase};
use crate::transcript::LocalTranscriptEntry;
use vstd::prelude::*;
use vstd::utf8::encode_utf8;

verus! {

/// The view of a call holds its id, its name and its arguments.
pub proof fn law_calls_are_viewed(call: CoreToolCall)
    ensures
        call.deep_view().call_id == call.call_id@,
        call.deep_view().name == call.name@,
        call.deep_view().arguments == call.arguments.deep_view(),
{
}

/// The view of a message holds its role, its content, its calls and what it answers.
pub proof fn law_messages_are_viewed(message: CoreMessage, i: int)
    ensures
        message.deep_view().role == message.role@,
        message.deep_view().content == message.content@,
        message.deep_view().tool_calls.len() == message.tool_calls@.len(),
        0 <= i < message.tool_calls@.len() ==> message.deep_view().tool_calls[i]
            == message.tool_calls@[i].deep_view(),
        message.tool_call_id matches Some(id) ==> message.deep_view().tool_call_id == Some(id@),
        message.tool_call_id is None ==> message.deep_view().tool_call_id is None,
        message.deep_view().is_error == message.is_error,
{
}

/// The view of an event holds all that it tells.
pub proof fn law_events_are_viewed(event: CoreEvent, i: int)
    ensures
        event.deep_view().kind == event.kind@,
        event.text matches Some(s) ==> event.deep_view().text == Some(s@),
        event.text is None ==> event.deep_view().text is None,
        event.deep_view().tool_calls.len() == event.tool_calls@.len(),
        0 <= i < event.tool_calls@.len() ==> event.deep_view().tool_calls[i]
            == event.tool_calls@[i].deep_view(),
        event.call_id matches Some(id) ==> event.deep_view().call_id == Some(id@),
        event.call_id is None ==> event.deep_view().call_id is None,
        event.deep_view().approved == event.approved,
        event.content matches Some(s) ==> event.deep_view().content == Some(s@),
        event.content is None ==> event.deep_view().content is None,
        event.deep_view().is_error == event.is_error,
        event.deep_view().permission_mode == event.permission_mode@,
        event.deep_view().input_tokens == event.input_tokens,
        event.deep_view().automatic == event.automatic,
        event.deep_view().todos.len() == event.todos@.len(),
        0 <= i < event.todos@.len() ==> event.deep_view().todos[i] == event.todos@[i].deep_view(),
        event.deep_view().safe_tools.len() == event.safe_tools@.len(),
        0 <= i < event.safe_tools@.len() ==> event.deep_view().safe_tools[i]
            == event.safe_tools@[i]@,
{
}

/// The view of a state holds its phase, its messages and its calls, in order.
pub proof fn law_states_are_viewed(snapshot: CoreSnapshot, i: int)
    ensures
        snapshot.deep_view().phase == snapshot.phase@,
        snapshot.deep_view().messages.len() == snapshot.messages@.len(),
        0 <= i < snapshot.messages@.len() ==> snapshot.deep_view().messages[i]
            == snapshot.messages@[i].deep_view(),
        snapshot.deep_view().pending_calls.len() == snapshot.pending_calls@.len(),
        0 <= i < snapshot.pending_calls@.len() ==> snapshot.deep_view().pending_calls[i]
            == snapshot.pending_calls@[i].deep_view(),
        snapshot.deep_view().current_call == snapshot.current_call,
        snapshot.deep_view().permission_mode == snapshot.permission_mode@,
        snapshot.deep_view().plan.content == snapshot.plan.content@,
        snapshot.deep_view().plan.enabled == snapshot.plan.enabled,
        snapshot.deep_view().compaction.summary == snapshot.compaction.summary@,
        snapshot.deep_view().compaction.first_kept_message
            == snapshot.compaction.first_kept_message,
{
}

/// The view of a reply holds what it says and its effects, in order.
pub proof fn law_replies_are_viewed(reply: CoreResponse, effect: CoreEffect, i: int)
    ensures
        reply.deep_view().version == reply.version,
        reply.deep_view().request_id == reply.request_id@,
        reply.deep_view().ok == reply.ok,
        reply.deep_view().snapshot == reply.snapshot.deep_view(),
        reply.deep_view().effects.len() == reply.effects@.len(),
        0 <= i < reply.effects@.len() ==> reply.deep_view().effects[i]
            == reply.effects@[i].deep_view(),
        reply.error matches Some(error) ==> reply.deep_view().error == Some(error@),
        effect.deep_view().kind == effect.kind@,
        effect.call matches Some(call) ==> effect.deep_view().call == Some(call.deep_view()),
        effect.call is None ==> effect.deep_view().call is None,
{
}

/// The view of an answer holds its text, its calls and its tokens.
pub proof fn law_answers_are_viewed(answer: ModelCompletion, i: int)
    ensures
        answer.deep_view().content == answer.content@,
        answer.deep_view().tool_calls.len() == answer.tool_calls@.len(),
        0 <= i < answer.tool_calls@.len() ==> answer.deep_view().tool_calls[i]
            == answer.tool_calls@[i].deep_view(),
        answer.deep_view().input_tokens == answer.input_tokens,
{
}

/// The view of what a key asks for says the same.
pub proof fn law_requests_of_keys_are_viewed(action: KeyAction, decision: PlanReviewAction)
    ensures
        action matches KeyAction::Approval { call_id, approved } ==> action.deep_view() == (
        KeyActionView::Approval { call_id: call_id@, approved }),
        action.deep_view() is Approval ==> action is Approval,
        action matches KeyAction::Submit(s) ==> action.deep_view() == KeyActionView::Submit(s@),
        action matches KeyAction::Steer(s) ==> action.deep_view() == KeyActionView::Steer(s@),
        action matches KeyAction::EnterPlan(s) ==> action.deep_view() == KeyActionView::EnterPlan(
            s@,
        ),
        action matches KeyAction::Btw(s) ==> action.deep_view() == KeyActionView::Btw(s@),
        action matches KeyAction::PlanReview(d) ==> action.deep_view() == KeyActionView::PlanReview(
            d.deep_view(),
        ),
        action is Quit <==> action.deep_view() is Quit,
        action is Cancel <==> action.deep_view() is Cancel,
        action is Ignore <==> action.deep_view() is Ignore,
        action is EditPlan <==> action.deep_view() is EditPlan,
        action is EditTodos <==> action.deep_view() is EditTodos,
        decision is Approve <==> decision.deep_view() is Approve,
        decision is Cancel <==> decision.deep_view() is Cancel,
        decision matches PlanReviewAction::Refine(s) ==> decision.deep_view()
            == PlanReviewView::Refine(s@),
        decision matches PlanReviewAction::Edit(s) ==> decision.deep_view() == PlanReviewView::Edit(
            s@,
        ),
{
}

/// The view of an action says the same, and so does that of how it begins.
pub proof fn law_actions_are_viewed(
    action: RuntimeAction,
    start: ActionStart,
    request: ShellRequest,
)
    ensures
        action matches RuntimeAction::Approval { call_id, approved } ==> action.deep_view() == (
        ActionView::Approval { call_id: call_id@, approved }),
        action matches RuntimeAction::Submit(s) ==> action.deep_view() == ActionView::Submit(s@),
        action matches RuntimeAction::Steer(s) ==> action.deep_view() == ActionView::Steer(s@),
        action matches RuntimeAction::PlanReview(d) ==> action.deep_view()
            == ActionView::PlanReview(d.deep_view()),
        start matches ActionStart::Send(event) ==> start.deep_view() == ActionStartView::Send(
            event.deep_view(),
        ),
        start.deep_view() is Send ==> start is Send,
        request matches ShellRequest::Spawn(a) ==> request.deep_view() == ShellRequestView::Spawn(
            a.deep_view(),
        ),
        request matches ShellRequest::Steer(s) ==> request.deep_view() == ShellRequestView::Steer(
            s@,
        ),
        request is Nothing <==> request.deep_view() is Nothing,
        request is Quit <==> request.deep_view() is Quit,
        request is Cancel <==> request.deep_view() is Cancel,
{
}

/// The view of a step of the work says the same.
pub proof fn law_steps_are_viewed(request: DriveRequest, event: DriveEvent)
    ensures
        request matches DriveRequest::Send(e) ==> request.deep_view() == DriveRequestView::Send(
            e.deep_view(),
        ),
        request.deep_view() is Send ==> request is Send,
        request matches DriveRequest::RunTool(call) ==> request.deep_view()
            == DriveRequestView::RunTool(call.deep_view()),
        request.deep_view() is RunTool ==> request is RunTool,
        event matches DriveEvent::ModelDone(answer) ==> event.deep_view()
            == DriveEventView::ModelDone(answer.deep_view()),
        event matches DriveEvent::Replied(reply) ==> event.deep_view() == DriveEventView::Replied(
            reply.deep_view(),
        ),
        event matches DriveEvent::CancelChecked(b) ==> event.deep_view()
            == DriveEventView::CancelChecked(b),
        event is Cancelled <==> event.deep_view() is Cancelled,
{
}

/// The view of a screen holds its input, its state, and what it asks for.
pub proof fn law_screens_are_viewed(app: App, buffer: InputBuffer, i: int)
    ensures
        app.deep_view().input == app.input.deep_view(),
        app.deep_view().status == app.status@,
        app.deep_view().snapshot == app.snapshot.deep_view(),
        app.approval matches Some(call) ==> app.deep_view().approval == Some(call.deep_view()),
        app.approval is None ==> app.deep_view().approval is None,
        app.deep_view().plan_review == app.plan_review,
        app.deep_view().plan_feedback == app.plan_feedback,
        app.deep_view().busy == app.busy,
        app.deep_view().scroll_offset == app.scroll_offset,
        app.deep_view().max_scroll == app.max_scroll,
        app.deep_view().follow_tail == app.follow_tail,
        app.deep_view().transcript_details_expanded == app.transcript_details_expanded,
        app.deep_view().text_selection == app.text_selection,
        app.deep_view().selection_region == app.selection_region,
        app.deep_view().local_entries.len() == app.local_entries@.len(),
        0 <= i < app.local_entries@.len() ==> app.deep_view().local_entries[i]
            == app.local_entries@[i].deep_view(),
        buffer.wf() ==> buffer.deep_view().before + buffer.deep_view().after == buffer.text@,
        buffer.wf() ==> encode_utf8(buffer.deep_view().before).len() == buffer.cursor,
{
    if buffer.wf() {
        crate::text::lemma_parts_at(buffer.text@, buffer.cursor as int);
    }
}

/// The view of a line holds its spans, in order, with their text.
pub proof fn law_lines_are_viewed(line: Line, span: Span, i: int)
    ensures
        line.deep_view().spans.len() == line.spans@.len(),
        0 <= i < line.spans@.len() ==> line.deep_view().spans[i] == line.spans@[i].deep_view(),
        line.deep_view().style == line.style,
        span.deep_view().content == span.content@,
        span.deep_view().style == span.style,
{
}

/// The views of a tool, a task, a phase and a question hold what these hold.
pub proof fn law_records_are_viewed(
    tool: ToolSpec,
    task: CoreTodoItem,
    phase: CoreTodoPhase,
    entry: LocalTranscriptEntry,
    i: int,
)
    ensures
        tool.deep_view().name == tool.name@,
        tool.deep_view().description == tool.description@,
        tool.deep_view().input_schema == tool.input_schema.deep_view(),
        task.deep_view().content == task.content@,
        task.deep_view().status == task.status@,
        task.blocker matches Some(blocker) ==> task.deep_view().blocker == Some(blocker@),
        task.blocker is None ==> task.deep_view().blocker is None,
        phase.deep_view().name == phase.name@,
        phase.deep_view().tasks.len() == phase.tasks@.len(),
        0 <= i < phase.tasks@.len() ==> phase.deep_view().tasks[i] == phase.tasks@[i].deep_view(),
        entry.deep_view().question == entry.question@,
        entry.deep_view().answer == entry.answer@,
{
}

/// The view of a JSON value is the value, with its texts, items and members in order.
pub proof fn law_values_are_viewed(value: Json, i: int)
    ensures
        value is Null <==> value.deep_view() is Null,
        value matches Json::Bool(b) ==> value.deep_view() == JsonView::Bool(b),
        value matches Json::Text(s) ==> value.deep_view() == JsonView::Text(s@),
        value matches Json::Number(JsonNumber::Unsigned(n)) ==> value.deep_view()
            == JsonView::Number(JsonNumberView::Unsigned(n)),
        value matches Json::Array(items) ==> (value.deep_view() matches JsonView::Array(seen)
            && seen.len() == items@.len() && (0 <= i < items@.len() ==> seen[i]
            == items@[i].deep_view())),
        value matches Json::Object(members) ==> (value.deep_view() matches JsonView::Object(seen)
            && seen.len() == members@.len() && (0 <= i < members@.len() ==> seen[i].0
            == members@[i].0@ && seen[i].1 == members@[i].1.deep_view())),
{
}

} // verus!
