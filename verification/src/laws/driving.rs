//! What carrying out the effects of the core comes to.
use crate::runtime::{
    CompletionView, DriveErrorView, DriveEventView, DriveRequestView, DriveStepView, DriveView,
    SettingsView, UpdateView, WaitingView,
};
use crate::session::{CoreResponseView, EventView, MessageView, SnapshotView, ToolCallView};
use vstd::prelude::*;

verus! {

/// Whether an event carries nothing but its kind and what is named here.
pub open spec fn carries_only(
    event: EventView,
    text: bool,
    calls: bool,
    result: bool,
    content: bool,
) -> bool {
    &&& !text ==> event.text is None
    &&& !calls ==> event.tool_calls.len() == 0
    &&& !result ==> event.call_id is None && event.is_error is None
    &&& !content ==> event.content is None
    &&& event.approved is None
    &&& event.todos.len() == 0
}

/// Every answer of the model reaches the core whole: its text, its number of tokens, and its tool
/// calls, as many as there are, each with its id, name and arguments.
pub proof fn law_answers_reach_the_core(drive: DriveView, completion: CompletionView)
    requires
        drive.waiting == WaitingView::Model,
    ensures
        ({
            let (next, step) = drive.after(DriveEventView::ModelDone(completion));
            &&& next.waiting is Extend
            &&& next.snapshot == drive.snapshot && next.effects == drive.effects
            &&& step.request matches DriveRequestView::Send(event) && {
                &&& event.kind == "model_completed"@
                &&& event.content == Some(completion.content)
                &&& event.input_tokens == completion.input_tokens
                &&& event.tool_calls.len() == completion.tool_calls.len()
                &&& forall|i: int|
                    0 <= i < completion.tool_calls.len() ==> {
                        &&& (#[trigger] event.tool_calls[i]).call_id
                            == completion.tool_calls[i].call_id
                        &&& event.tool_calls[i].name == completion.tool_calls[i].name
                        &&& event.tool_calls[i].arguments == completion.tool_calls[i].arguments
                    }
                &&& carries_only(event, false, true, false, true)
            }
        }),
{
}

/// What a tool gave back reaches the core under the id of its call: an output as it is and as no
/// error, a failure as an error that ends with its message. The screen is told that the tool ended.
pub proof fn law_tool_results_reach_the_core(
    drive: DriveView,
    call: ToolCallView,
    result: Result<Seq<char>, Seq<char>>,
)
    requires
        drive.waiting == WaitingView::Tool(call),
    ensures
        ({
            let (next, step) = drive.after(DriveEventView::ToolDone(result));
            &&& next.waiting is Extend
            &&& next.snapshot == drive.snapshot && next.effects == drive.effects
            &&& step.updates == seq![UpdateView::ToolFinished { call_id: call.call_id }]
            &&& step.request matches DriveRequestView::Send(event) && {
                &&& event.kind == "tool_completed"@
                &&& event.call_id == Some(call.call_id)
                &&& event.is_error == Some(result is Err)
                &&& result matches Ok(output) ==> event.content == Some(output)
                &&& result matches Err(message) ==> event.content == Some(
                    "Plugin execution failed: "@ + message,
                )
                &&& carries_only(event, false, false, true, true)
            }
        }),
{
}

/// The next effect is the last one at hand, and is carried out as its kind says: the model is asked
/// with the tools of the mode, old context is summarised, the person is asked about the call or the
/// plan of the core, and the call of the core is run. Anything else is refused.
pub proof fn law_effects_are_carried_out(drive: DriveView)
    requires
        drive.waiting == WaitingView::CancelCheck,
        drive.effects.len() > 0,
    ensures
        ({
            let effect = drive.effects[drive.effects.len() - 1];
            let (next, step) = drive.after(DriveEventView::CancelChecked(false));
            &&& next.snapshot == drive.snapshot && next.settings == drive.settings
            &&& next.effects == drive.effects.take(drive.effects.len() - 1)
            &&& effect.kind == "request_model"@ ==> {
                ||| step.request == (DriveRequestView::AskModel {
                    plan_mode: drive.snapshot.plan.enabled,
                }) && next.waiting == WaitingView::Model
                ||| wants_compaction(drive.settings, drive.snapshot) && compacts(
                    step,
                    drive.snapshot,
                ) && next.waiting is Replace
            }
            &&& effect.kind == "request_model"@ && wants_compaction(drive.settings, drive.snapshot)
                ==> compacts(step, drive.snapshot)
            &&& effect.kind == "request_compaction"@ ==> step.request == DriveRequestView::Summarize
                && next.waiting == WaitingView::Summary
            &&& effect.kind == "request_approval"@ ==> step.request == DriveRequestView::PollSteer
                && next.waiting == WaitingView::ApprovalSteer(effect)
            &&& effect.kind == "request_plan_review"@ ==> (
            step.request matches DriveRequestView::Finish(end) && end.plan_review && end.approval
                is None && end.local_entry is None && end.snapshot == drive.snapshot && end.status
                == "Plan ready · y approve · r refine · e edit · n cancel"@)
            &&& effect.kind == "invoke_tool"@ ==> match effect.call {
                Some(call) => step.request == DriveRequestView::RunTool(call) && next.waiting
                    == WaitingView::Tool(call) && step.updates.len() == 2 && (
                step.updates[0] matches UpdateView::ToolStarted { call_id, label } && call_id
                    == call.call_id),
                None => step.request == DriveRequestView::Fail(
                    DriveErrorView::MissingCoreEffectCall { kind: "invoke_tool"@ },
                ),
            }
            &&& effect.kind != "request_model"@ && effect.kind != "request_compaction"@
                && effect.kind != "request_approval"@ && effect.kind != "request_plan_review"@
                && effect.kind != "invoke_tool"@ ==> step.request == DriveRequestView::Fail(
                DriveErrorView::UnknownCoreEffect { kind: effect.kind },
            )
        }),
{
    let kind = drive.effects.last().kind;
    lemma_kinds_differ();
    assert(drive.effects.take(drive.effects.len() - 1) =~= drive.effects.drop_last());
    lemma_wants_compaction(drive.settings, drive.snapshot);
}

/// The kinds of effects differ.
proof fn lemma_kinds_differ()
    ensures
        "request_model"@ != "request_compaction"@,
        "request_model"@ != "request_approval"@,
        "request_model"@ != "request_plan_review"@,
        "request_model"@ != "invoke_tool"@,
        "request_compaction"@ != "request_approval"@,
        "request_compaction"@ != "request_plan_review"@,
        "request_compaction"@ != "invoke_tool"@,
        "request_approval"@ != "request_plan_review"@,
        "request_approval"@ != "invoke_tool"@,
        "request_plan_review"@ != "invoke_tool"@,
{
    reveal_strlit("request_model");
    reveal_strlit("request_compaction");
    reveal_strlit("request_approval");
    reveal_strlit("request_plan_review");
    reveal_strlit("invoke_tool");
    assert("request_model"@.len() == 13 && "request_compaction"@.len() == 18);
    assert("request_approval"@.len() == 16 && "request_plan_review"@.len() == 19);
    assert("invoke_tool"@.len() == 11);
}

/// Whether two messages of a person stand in the conversation, the first of them behind what was
/// compacted before.
pub open spec fn two_turns(snapshot: SnapshotView) -> bool {
    exists|i: int, j: int|
        snapshot.compaction.first_kept_message < i < j < snapshot.messages.len() && (
        #[trigger] snapshot.messages[i]).role == "user"@ && (#[trigger] snapshot.messages[j]).role
            == "user"@
}

/// Whether context is to be compacted unasked: it is switched on, the model was given as many
/// tokens as are too many, and there is something to leave out.
pub open spec fn wants_compaction(settings: SettingsView, snapshot: SnapshotView) -> bool {
    settings.auto_compact_enabled && 0 < settings.auto_compact_threshold
        <= snapshot.compaction.last_input_tokens && two_turns(snapshot)
}

/// Whether a step asks the core to compact context unasked.
pub open spec fn compacts(step: DriveStepView, snapshot: SnapshotView) -> bool {
    step.request matches DriveRequestView::Send(event) && event.kind == "start_compaction"@
        && event.automatic && event.input_tokens == snapshot.compaction.last_input_tokens
        && carries_only(event, false, false, false, false)
}

proof fn lemma_last_user_is_last(messages: Seq<MessageView>, before: int, i: int)
    requires
        0 <= i < before <= messages.len(),
        messages[i].role == "user"@,
    ensures
        crate::runtime::last_user(messages, before) matches Some(at) && i <= at < before
            && messages[at].role == "user"@,
    decreases before,
{
    if messages[before - 1].role != "user"@ {
        lemma_last_user_is_last(messages, before - 1, i);
    }
}

proof fn lemma_user_found(messages: Seq<MessageView>, before: int)
    requires
        0 <= before <= messages.len(),
    ensures
        crate::runtime::last_user(messages, before) matches Some(at) ==> 0 <= at < before
            && messages[at].role == "user"@,
    decreases before,
{
    if before > 0 {
        lemma_user_found(messages, before - 1);
    }
}

/// There is a place to cut old context off exactly where two messages of a person stand behind what
/// was compacted before.
pub proof fn law_cut_exists(snapshot: SnapshotView)
    ensures
        crate::runtime::cut_of(snapshot) is Some <==> two_turns(snapshot),
{
    let all = snapshot.messages;
    let kept = snapshot.compaction.first_kept_message as int;
    lemma_user_found(all, all.len() as int);
    if let Some(latest) = crate::runtime::last_user(all, all.len() as int) {
        lemma_user_found(all, latest);
        if let Some(second) = crate::runtime::last_user(all, latest) {
            if second > kept {
                assert(all[second].role == "user"@ && all[latest].role == "user"@);
            }
        }
    }
    if two_turns(snapshot) {
        let (i, j) = choose|i: int, j: int|
            kept < i < j < all.len() && (#[trigger] all[i]).role == "user"@ && (
            #[trigger] all[j]).role == "user"@;
        lemma_last_user_is_last(all, all.len() as int, j);
        let latest = crate::runtime::last_user(all, all.len() as int)->0;
        lemma_last_user_is_last(all, latest, i);
    }
}

/// Context is compacted unasked exactly where that is wanted.
proof fn lemma_wants_compaction(settings: SettingsView, snapshot: SnapshotView)
    ensures
        crate::runtime::auto_compacts(settings, snapshot) == wants_compaction(settings, snapshot),
{
    law_cut_exists(snapshot);
}

/// Every reply is taken: the session is as the core says, and its effects are the next ones. Those
/// at hand before stay behind them, or are given up where the work takes another direction; a reply
/// that comes while a tool runs changes none.
pub proof fn law_replies_are_taken(drive: DriveView, reply: CoreResponseView)
    ensures
        ({
            let (next, step) = drive.after(DriveEventView::Replied(reply));
            &&& drive.waiting is Replace ==> next.snapshot == reply.snapshot && next.effects
                == reply.effects
            &&& drive.waiting is Extend ==> next.snapshot == reply.snapshot && next.effects
                == drive.effects + reply.effects
            &&& drive.waiting matches WaitingView::ToolSteer(call) ==> next.snapshot
                == reply.snapshot && next.effects == drive.effects && next.waiting
                == WaitingView::Tool(call) && step.request == DriveRequestView::ContinueTool
            &&& drive.waiting is Abort || drive.waiting is Permissions ==> next.snapshot
                == reply.snapshot
            &&& drive.waiting is Replace || drive.waiting is Extend ==> {
                &&& next.effects.len() > 0 ==> step.request == DriveRequestView::CheckCancel
                    && next.waiting == WaitingView::CancelCheck
                &&& next.effects.len() == 0 && !(reply.snapshot.phase == "idle"@
                    && wants_compaction(drive.settings, reply.snapshot)) ==> step.request
                    == DriveRequestView::PollSteer && next.waiting == WaitingView::IdleSteer
                &&& next.effects.len() == 0 && reply.snapshot.phase == "idle"@ && wants_compaction(
                    drive.settings,
                    reply.snapshot,
                ) ==> compacts(step, reply.snapshot) && next.waiting is Extend
            }
            &&& next.settings == drive.settings && next.final_status == drive.final_status
        }),
{
    lemma_wants_compaction(drive.settings, reply.snapshot);
}

/// The work on a reply begins with the session and the effects of the reply.
pub proof fn law_work_begins_with_the_reply(reply: CoreResponseView, settings: SettingsView)
    ensures
        ({
            let (first, step) = DriveView::begun(reply, settings);
            &&& first.snapshot == reply.snapshot && first.effects == reply.effects
            &&& first.settings == settings && first.final_status == "Ready"@
            &&& step.updates.len() == 1 && step.updates[0] == (UpdateView::Progress {
                snapshot: reply.snapshot,
                status: "Processing…"@,
            })
            &&& reply.effects.len() > 0 ==> step.request == DriveRequestView::CheckCancel
                && first.waiting == WaitingView::CancelCheck
        }),
{
}

/// What is typed while the model is asked or a tool runs reaches the core as it was typed: as a
/// change of direction where a task is at work, else as a prompt. It never ends the action.
pub proof fn law_steering_reaches_the_core(drive: DriveView, typed: Seq<char>)
    requires
        drive.waiting is Model || drive.waiting is Tool,
    ensures
        ({
            let (next, step) = drive.after(DriveEventView::Steered(typed));
            &&& next.snapshot == drive.snapshot && next.effects == drive.effects
            &&& drive.waiting is Model ==> next.waiting is Replace
            &&& drive.waiting matches WaitingView::Tool(call) ==> next.waiting
                == WaitingView::ToolSteer(call)
            &&& step.request matches DriveRequestView::Send(event) && event.text == Some(typed)
                && carries_only(event, true, false, false, false) && event.kind == (
            if drive.waiting is Tool || takes_direction(drive.snapshot.phase) {
                "steer"@
            } else {
                "submit"@
            })
        }),
{
}

/// Whether a task is at work that can be given another direction.
pub open spec fn takes_direction(phase: Seq<char>) -> bool {
    phase == "waiting_model"@ || phase == "waiting_approval"@ || phase == "waiting_tool"@
}

/// Before the person is asked about a call, what they typed goes first. Else the action ends and
/// shows them the call that the core asks about.
pub proof fn law_approval_is_asked(
    drive: DriveView,
    effect: crate::session::EffectView,
    typed: Option<Seq<char>>,
)
    requires
        drive.waiting == WaitingView::ApprovalSteer(effect),
    ensures
        ({
            let (next, step) = drive.after(DriveEventView::SteerPolled(typed));
            match (typed, effect.call) {
                (Some(s), _) => next.waiting is Replace && (
                step.request matches DriveRequestView::Send(event) && event.text == Some(s)
                    && event.kind == (if takes_direction(drive.snapshot.phase) {
                    "steer"@
                } else {
                    "submit"@
                })),
                (None, Some(call)) => step.request matches DriveRequestView::Finish(end)
                    && end.approval == Some(call) && end.snapshot == drive.snapshot
                    && !end.plan_review && end.local_entry is None,
                (None, None) => step.request == DriveRequestView::Fail(
                    DriveErrorView::MissingCoreEffectCall { kind: "request_approval"@ },
                ),
            }
        }),
{
}

/// With nothing left to do, what was typed goes to the core; else the permissions asked for are put
/// in place where the session is idle and has others, and the action ends with the session as it
/// is. A plan that waits for review is then reviewed.
pub proof fn law_work_ends_when_nothing_is_left(drive: DriveView, typed: Option<Seq<char>>)
    requires
        drive.waiting == WaitingView::IdleSteer,
    ensures
        ({
            let (next, step) = drive.after(DriveEventView::SteerPolled(typed));
            let mode = crate::session::PermissionMode::wire(drive.settings.permission_mode);
            match typed {
                Some(s) => next.waiting is Extend && (
                step.request matches DriveRequestView::Send(event) && event.text == Some(s)
                    && event.kind == (if takes_direction(drive.snapshot.phase) {
                    "steer"@
                } else {
                    "submit"@
                })),
                None => if drive.snapshot.phase == "idle"@ && drive.snapshot.permission_mode
                    != mode {
                    next.waiting is Permissions && (
                    step.request matches DriveRequestView::Send(event) && event.kind
                        == "configure_tools"@ && event.safe_tools == drive.settings.safe_tools
                        && event.permission_mode == mode)
                } else {
                    step.request matches DriveRequestView::Finish(end) && end.snapshot
                        == drive.snapshot && end.status == drive.final_status && end.approval
                        is None && end.local_entry is None && end.plan_review == (
                    drive.snapshot.phase == "waiting_plan_review"@)
                },
            }
        }),
{
}

/// Once the permissions are in place the action ends with the session that the core replied.
pub proof fn law_permissions_end_the_work(drive: DriveView, reply: CoreResponseView)
    requires
        drive.waiting is Permissions,
    ensures
        ({
            let (next, step) = drive.after(DriveEventView::Replied(reply));
            &&& next.waiting == WaitingView::Done
            &&& step.request matches DriveRequestView::Finish(end) && {
                &&& end.snapshot == reply.snapshot
                &&& end.approval is None && end.local_entry is None
                &&& drive.waiting->cancelled ==> end.status == "Cancelled"@ && !end.plan_review
                &&& !drive.waiting->cancelled ==> end.status == drive.final_status
                    && end.plan_review == (reply.snapshot.phase == "waiting_plan_review"@)
            }
        }),
{
}

/// A summary reaches the core as it is; where there is none the core is told so, and the action
/// ends with a status that says why.
pub proof fn law_summaries_reach_the_core(drive: DriveView, result: Result<Seq<char>, Seq<char>>)
    requires
        drive.waiting == WaitingView::Summary,
    ensures
        ({
            let (next, step) = drive.after(DriveEventView::Summarized(result));
            &&& next.waiting is Extend
            &&& next.snapshot == drive.snapshot && next.effects == drive.effects
            &&& step.request matches DriveRequestView::Send(event) && match result {
                Ok(summary) => event.kind == "compaction_completed"@ && event.content == Some(
                    summary,
                ) && next.final_status == drive.final_status,
                Err(message) => event.kind == "compaction_failed"@ && event.content is None
                    && next.final_status == "Compaction failed: "@ + message,
            }
        }),
{
}

/// A model that fails ends the action with its message, unless the conversation was too long and
/// can be compacted.
pub proof fn law_model_failures(drive: DriveView, overflow: bool, message: Seq<char>)
    requires
        drive.waiting == WaitingView::Model,
    ensures
        ({
            let (next, step) = drive.after(DriveEventView::ModelFailed { overflow, message });
            if overflow && two_turns(drive.snapshot) {
                compacts(step, drive.snapshot) && next.waiting is Replace
            } else {
                step.request == DriveRequestView::Fail(DriveErrorView::Provider(message))
            }
        }),
{
    law_cut_exists(drive.snapshot);
}

/// Anything that was not asked for is refused, and whatever ended stays ended.
pub proof fn law_ended_work_stays_ended(drive: DriveView, event: DriveEventView)
    requires
        drive.waiting == WaitingView::Done,
    ensures
        drive.after(event).1.request == DriveRequestView::Fail(DriveErrorView::OutOfTurn),
        drive.after(event).0.waiting == WaitingView::Done,
{
}

} // verus!
