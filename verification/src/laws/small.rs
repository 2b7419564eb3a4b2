//! What the small agent does.
use crate::anthropic::{self, TurnView};
use crate::classic::{
    self, AppView, FinalView, KeyActionView, LoopStep, ResponseView, RuntimeAction, SnapshotView,
    StartError, Startup, UpdateView,
};
use crate::classic_drive::{
    DriveErrorView, DriveEventView, DriveRequestView, DriveView, WaitingView,
};
use crate::json::{self, JsonView};
use crate::keys::{KeyCode, KeyEvent};
use crate::laws::asking::{blocks_tell, is_told, says};
use crate::laws::deciding::{says_no, says_yes};
use crate::session::{MessageView, ToolCallView};
use crate::text;
use crate::tools::ToolSpecView;
use vstd::prelude::*;

verus! {

/// Every answer of the model reaches the core whole: its text, and its calls, as many as there
/// are, each with its id, name and arguments.
pub proof fn law_answers_reach_the_core(
    drive: DriveView,
    content: Seq<char>,
    tool_calls: Seq<ToolCallView>,
)
    requires
        drive.waiting == WaitingView::Model,
    ensures
        ({
            let (next, step) = drive.after(DriveEventView::ModelDone { content, tool_calls });
            &&& step.request matches DriveRequestView::Send(event) && {
                &&& event.kind == "model_completed"@
                &&& event.content == Some(content)
                &&& event.tool_calls.len() == tool_calls.len()
                &&& forall|i: int|
                    0 <= i < tool_calls.len() ==> (#[trigger] event.tool_calls[i]).call_id
                        == tool_calls[i].call_id && event.tool_calls[i].name == tool_calls[i].name
                        && event.tool_calls[i].arguments == tool_calls[i].arguments
                &&& event.text is None && event.call_id is None && event.approved is None
                &&& event.is_error is None && event.safe_tools.len() == 0
            }
            &&& next.waiting == WaitingView::Reply && next.snapshot == drive.snapshot
                && next.effects == drive.effects
            &&& step.update is None
        }),
{
}

/// What a tool returned reaches the core as the result of the call that was run: its output as it
/// stands, a failure as an error.
pub proof fn law_results_reach_the_core(drive: DriveView, call: ToolCallView, said: Seq<char>)
    requires
        drive.waiting == WaitingView::Tool(call),
    ensures
        drive.after(DriveEventView::ToolDone(said)).1.request matches DriveRequestView::Send(event)
            && event.kind == "tool_completed"@ && event.call_id == Some(call.call_id)
            && event.content == Some(said) && event.is_error == Some(false),
        drive.after(DriveEventView::ToolFailed(said)).1.request matches DriveRequestView::Send(
            event,
        ) && event.kind == "tool_completed"@ && event.call_id == Some(call.call_id)
            && event.content == Some("Plugin execution failed: "@ + said) && event.is_error == Some(
            true,
        ),
        drive.after(DriveEventView::ToolDone(said)).0.waiting == WaitingView::Reply,
        drive.after(DriveEventView::ToolFailed(said)).0.waiting == WaitingView::Reply,
{
}

/// The last effect is carried out as its kind says, with its own call, and is then done with.
pub proof fn law_effects_are_carried_out(drive: DriveView)
    requires
        drive.waiting == WaitingView::CancelCheck,
        drive.effects.len() > 0,
    ensures
        ({
            let (next, step) = drive.after(DriveEventView::CancelChecked(false));
            let effect = drive.effects.last();
            &&& next.effects == drive.effects.drop_last() && next.snapshot == drive.snapshot
            &&& effect.kind == "request_model"@ ==> step.request == DriveRequestView::AskModel
                && next.waiting == WaitingView::Model
            &&& effect.kind == "request_approval"@ ==> (effect.call matches Some(call) ==> (
            step.request matches DriveRequestView::Finish(end) && end.approval == Some(call)
                && end.snapshot == drive.snapshot && end.status == "Approve "@ + call.name
                + "? [y]es / [n]o"@))
            &&& effect.kind == "invoke_tool"@ ==> (effect.call matches Some(call) ==> step.request
                == DriveRequestView::EnsurePlugin && next.waiting == WaitingView::Plugin(call))
            &&& (effect.kind == "request_approval"@ || effect.kind == "invoke_tool"@)
                && effect.call is None ==> step.request == DriveRequestView::Fail(
                DriveErrorView::MissingCoreEffectCall { kind: effect.kind },
            )
            &&& effect.kind != "request_model"@ && effect.kind != "request_approval"@
                && effect.kind != "invoke_tool"@ ==> step.request == DriveRequestView::Fail(
                DriveErrorView::UnknownCoreEffect { kind: effect.kind },
            )
            &&& drive.after(DriveEventView::CancelChecked(true)).1.request
                == DriveRequestView::RetirePlugin
        }),
{
    reveal_strlit("request_model");
    reveal_strlit("request_approval");
    reveal_strlit("invoke_tool");
    assert("request_model"@.len() == 13 && "request_approval"@.len() == 16 && "invoke_tool"@.len()
        == 11);
}

/// The call that was to be run is run once its plugin is ready.
pub proof fn law_tools_are_run(drive: DriveView, call: ToolCallView)
    requires
        drive.waiting == WaitingView::Plugin(call),
    ensures
        ({
            let (next, step) = drive.after(DriveEventView::PluginReady);
            &&& step.request == DriveRequestView::RunTool(call)
            &&& next.waiting == WaitingView::Tool(call)
            &&& next.effects == drive.effects && next.snapshot == drive.snapshot
            &&& step.update == Some(
                UpdateView::Progress {
                    snapshot: drive.snapshot,
                    status: "Running "@ + call.name + "…"@,
                },
            )
        }),
{
}

/// A reply gives the state that is shown next, and its effects are carried out before those left
/// over; work is at its end when none is left.
pub proof fn law_replies_are_taken(drive: DriveView, reply: ResponseView)
    requires
        drive.waiting == WaitingView::Reply,
    ensures
        ({
            let (next, step) = drive.after(DriveEventView::Replied(reply));
            &&& next.snapshot == reply.snapshot
            &&& next.effects == drive.effects + reply.effects
            &&& next.effects.len() > 0 ==> step.request == DriveRequestView::CheckCancel
                && next.waiting == WaitingView::CancelCheck
            &&& next.effects.len() == 0 ==> step.request == DriveRequestView::Finish(
                FinalView { snapshot: reply.snapshot, status: "Ready"@, approval: None },
            )
        }),
        ({
            let (next, step) = DriveView::begun(reply);
            &&& next.snapshot == reply.snapshot && next.effects == reply.effects
            &&& step.update == Some(
                UpdateView::Progress { snapshot: reply.snapshot, status: "Processing…"@ },
            )
            &&& reply.effects.len() > 0 ==> step.request == DriveRequestView::CheckCancel
            &&& reply.effects.len() == 0 ==> step.request == DriveRequestView::Finish(
                FinalView { snapshot: reply.snapshot, status: "Ready"@, approval: None },
            )
        }),
{
}

/// A failure of the model or of a plugin ends the work and is told as it stands.
pub proof fn law_failures_end_the_work(drive: DriveView, why: Seq<char>)
    ensures
        drive.waiting == WaitingView::Model ==> drive.after(
            DriveEventView::ModelFailed(why),
        ).1.request == DriveRequestView::Fail(DriveErrorView::Provider(why)),
        drive.waiting is Plugin ==> drive.after(DriveEventView::PluginFailed(why)).1.request
            == DriveRequestView::Fail(DriveErrorView::Plugin(why)),
{
}

/// A key decides for a call only if it is y or Y, and against it only if it is n, N or Esc; it
/// decides about the call shown.
pub proof fn law_only_yes_decides_for(app: AppView, key: KeyEvent)
    ensures
        app.after_key(key).1 matches KeyActionView::Approval { call_id, approved } ==> {
            &&& approved ==> says_yes(key)
            &&& !approved ==> says_no(key)
            &&& app.approval matches Some(call) && call.call_id == call_id
            &&& app.after_key(key).0 == (AppView { approval: None, ..app })
        },
        app.approval matches Some(call) ==> {
            &&& says_yes(key) ==> app.after_key(key).1 == (KeyActionView::Approval {
                call_id: call.call_id,
                approved: true,
            })
            &&& says_no(key) && !(app.busy && key.code == KeyCode::Esc) ==> app.after_key(key).1
                == (KeyActionView::Approval { call_id: call.call_id, approved: false })
            &&& !says_yes(key) && !says_no(key) ==> app.after_key(key).0 == app
        },
{
}

/// What is submitted is what was typed; typing, deleting and clearing do just that.
pub proof fn law_prompts_are_typed_and_submitted(app: AppView, key: KeyEvent)
    ensures
        ({
            let (next, action) = app.after_key(key);
            &&& action matches KeyActionView::Submit(s) ==> s == app.input && key.code
                == KeyCode::Enter && !app.busy && next.input.len() == 0
            &&& app.approval is None && !app.busy && key.code == KeyCode::Enter && text::trimmed(
                app.input,
            ).len() > 0 ==> action == KeyActionView::Submit(app.input) && next.input.len() == 0
            &&& app.approval is None && !key.control ==> (key.code matches KeyCode::Char(c)
                ==> next.input == app.input.push(c) && action == KeyActionView::Ignore)
            &&& app.approval is None && key.code == KeyCode::Backspace && app.input.len() > 0
                ==> next.input == app.input.drop_last()
            &&& app.approval is None && !app.busy && key.code == KeyCode::Esc ==> next.input.len()
                == 0 && action == KeyActionView::Ignore
            &&& key.control && key.code == KeyCode::Char('c') ==> action == KeyActionView::Quit
                && next == app
            &&& app.busy && key.code == KeyCode::Esc ==> action == KeyActionView::Cancel && next
                == app
            &&& action == KeyActionView::Quit ==> key.control && key.code == KeyCode::Char('c')
            &&& action == KeyActionView::Cancel ==> app.busy && key.code == KeyCode::Esc
            &&& next.snapshot == app.snapshot && next.status == app.status && next.busy == app.busy
        }),
{
}

/// What a key asks for is begun as it was asked for, and only where nothing is at work.
pub proof fn law_actions_begin(
    app: AppView,
    action: KeyActionView,
    active: bool,
    after: AppView,
    step: LoopStep,
)
    requires
        classic::key_action_done(app, action, active, after, step),
    ensures
        active ==> !(step is Begin),
        !active ==> (action matches KeyActionView::Submit(s) ==> (step matches LoopStep::Begin(
            RuntimeAction::Submit(t),
        ) && t@ == s && after.busy)),
        !active ==> (action matches KeyActionView::Approval { call_id, approved } ==> (
        step matches LoopStep::Begin(RuntimeAction::Approval { call_id: c, approved: a }) && c@
            == call_id && a == approved && after.approval is None && after.busy)),
        action == KeyActionView::Quit ==> step == LoopStep::End,
        active && action == KeyActionView::Cancel ==> step == LoopStep::Cancel,
        after.snapshot == app.snapshot && after.input == app.input,
        step is Begin ==> action is Submit || action is Approval,
        step is End ==> action == KeyActionView::Quit,
{
}

/// The news of the work are shown as they are told.
pub proof fn law_news_are_shown(
    app: AppView,
    snapshot: SnapshotView,
    status: Seq<char>,
    end: FinalView,
    why: Seq<char>,
)
    ensures
        app.after_update(UpdateView::Progress { snapshot, status }) == (AppView {
            snapshot,
            status,
            busy: true,
            ..app
        }),
        ({
            let next = app.after_update(UpdateView::Settled(end));
            next.snapshot == end.snapshot && next.status == end.status && next.approval
                == end.approval && !next.busy && next.input == app.input
        }),
        app.after_update(UpdateView::Failed(why)) == (AppView {
            status: "Error: "@ + why,
            busy: false,
            ..app
        }),
{
}

/// A message is shown by its role, its content line by line, and each of its calls.
pub proof fn law_messages_are_shown(message: MessageView, messages: Seq<MessageView>)
    ensures
        ({
            let shown = classic::message_lines(message);
            let spoken: int = if message.content.len() > 0 {
                1
            } else {
                0
            };
            let lines = text::lines_of(message.content);
            &&& shown.len() == 2 + spoken + message.tool_calls.len()
            &&& shown[0].spans.len() == 1
            &&& shown[0].spans[0].content == crate::unicode::uppercased(message.role) + ": "@
            &&& spoken == 1 ==> shown[1].spans.len() == lines.len() && forall|i: int|
                0 <= i < lines.len() ==> shown[1].spans[i].content == #[trigger] lines[i]
            &&& forall|i: int|
                #![trigger message.tool_calls[i]]
                0 <= i < message.tool_calls.len() ==> {
                    let call = message.tool_calls[i];
                    let line = shown[1 + spoken + i];
                    line.spans.len() == 1 && line.spans[0].content == "tool "@ + call.call_id
                        + " "@ + call.name + "("@ + json::json_text(
                        json::held_json(call.arguments),
                    ) + ")"@
                }
            &&& shown.last().spans.len() == 0
        }),
        classic::transcript_of(messages.push(message)) == classic::transcript_of(messages)
            + classic::message_lines(message),
        classic::transcript_of(Seq::empty()).len() == 0,
{
    assert(messages.push(message).drop_last() =~= messages);
}

/// A request to OpenAI names the model, tells the messages and declares the tools.
pub proof fn law_openai_requests(
    model: Seq<char>,
    snapshot: SnapshotView,
    offered: Seq<ToolSpecView>,
    prompt: Seq<char>,
)
    ensures
        ({
            let request = classic::openai_request_for(model, snapshot, offered, prompt);
            &&& says(request, "model"@, model)
            &&& request.member("messages"@) == Some(
                JsonView::Array(crate::provider::openai_messages(prompt, snapshot.messages)),
            )
            &&& request.member("tools"@) matches Some(JsonView::Array(declared)) && declared.len()
                == offered.len() && forall|i: int|
                0 <= i < offered.len() ==> declared[i] == crate::provider::openai_tool(
                    #[trigger] offered[i],
                )
            &&& says(request, "tool_choice"@, "auto"@)
            &&& request.member("stream"@) == Some(JsonView::Bool(false))
        }),
{
    reveal_strlit("model");
    reveal_strlit("messages");
    reveal_strlit("tools");
    reveal_strlit("tool_choice");
    reveal_strlit("stream");
    assert("model"@.len() == 5 && "messages"@.len() == 8 && "tools"@.len() == 5
        && "tool_choice"@.len() == 11 && "stream"@.len() == 6 && "model"@[0] == 'm' && "tools"@[0]
        == 't');
    let members = classic::openai_request_for(model, snapshot, offered, prompt)->Object_0;
    json::lemma_member_at(members, "model"@, 0, 0);
    json::lemma_member_at(members, "messages"@, 0, 1);
    json::lemma_member_at(members, "tools"@, 0, 2);
    json::lemma_member_at(members, "tool_choice"@, 0, 3);
    json::lemma_member_at(members, "stream"@, 0, 4);
}

/// A request to Anthropic names the model, holds the system prompt, the turns and the tools.
pub proof fn law_anthropic_requests(
    model: Seq<char>,
    snapshot: SnapshotView,
    offered: Seq<ToolSpecView>,
    prompt: Seq<char>,
)
    ensures
        ({
            let request = classic::anthropic_request_for(model, snapshot, offered, prompt);
            &&& says(request, "model"@, model)
            &&& says(request, "system"@, prompt)
            &&& request.member("messages"@) == Some(
                JsonView::Array(anthropic::turn_messages(classic::turns_of(snapshot.messages))),
            )
            &&& request.member("tools"@) matches Some(JsonView::Array(declared)) && declared.len()
                == offered.len() && forall|i: int|
                0 <= i < offered.len() ==> declared[i] == anthropic::anthropic_tool(
                    #[trigger] offered[i],
                )
        }),
{
    reveal_strlit("model");
    reveal_strlit("max_tokens");
    reveal_strlit("system");
    reveal_strlit("messages");
    reveal_strlit("tools");
    assert("model"@.len() == 5 && "messages"@.len() == 8 && "tools"@.len() == 5
        && "max_tokens"@.len() == 10 && "system"@.len() == 6 && "model"@[0] == 'm' && "tools"@[0]
        == 't');
    let members = classic::anthropic_request_for(model, snapshot, offered, prompt)->Object_0;
    json::lemma_member_at(members, "model"@, 0, 0);
    json::lemma_member_at(members, "system"@, 0, 2);
    json::lemma_member_at(members, "messages"@, 0, 3);
    json::lemma_member_at(members, "tools"@, 0, 4);
}

/// Every message of a user is told as its text, one of an assistant or a tool as its blocks; no
/// other message is told.
pub proof fn law_turns_tell_their_message(message: MessageView)
    ensures
        is_told(message) <==> classic::turn_of(message) is Some,
        message.role == "user"@ ==> classic::turn_of(message) == Some(
            TurnView { user: true, content: JsonView::Text(message.content) },
        ),
        message.role == "assistant"@ || message.role == "tool"@ ==> (classic::turn_of(message)
            matches Some(turn) && turn.user == (message.role == "tool"@) && (
        turn.content matches JsonView::Array(blocks) && blocks_tell(blocks, message))),
{
    crate::laws::asking::law_blocks_are_told_whole(message);
    reveal_strlit("user");
    reveal_strlit("assistant");
    reveal_strlit("tool");
    assert("user"@[0] == 'u' && "tool"@[0] == 't' && "assistant"@.len() == 9 && "user"@.len() == 4
        && "tool"@.len() == 4);
}

/// A message that follows a conversation leaves the turns before it as they were, but for the
/// results of tools, which stand together in one turn.
pub proof fn law_turns_grow_by_messages(messages: Seq<MessageView>, message: MessageView)
    ensures
        ({
            let before = classic::turns_of(messages);
            let after = classic::turns_of(messages.push(message));
            &&& !is_told(message) ==> after == before
            &&& message.role == "user"@ || message.role == "assistant"@ ==> after == before.push(
                classic::turn_of(message)->0,
            )
            &&& message.role == "tool"@ ==> after == before.push(classic::turn_of(message)->0) || (
            before.len() > 0 && after.len() == before.len() && after.drop_last()
                == before.drop_last() && after.last().user && before.last().user && (
            before.last().content matches JsonView::Array(earlier) && (
            after.last().content matches JsonView::Array(all) && all == earlier.push(
                anthropic::result_block(message),
            ))))
        }),
{
    assert(messages.push(message).drop_last() =~= messages);
    reveal_strlit("user");
    reveal_strlit("assistant");
    reveal_strlit("tool");
    assert("user"@[0] == 'u' && "tool"@[0] == 't' && "assistant"@.len() == 9 && "user"@.len() == 4
        && "tool"@.len() == 4);
    let before = classic::turns_of(messages);
    let after = classic::turns_of(messages.push(message));
    if message.role == "tool"@ && before.len() > 0 && before.last().user {
        if let JsonView::Array(earlier) = before.last().content {
            assert(earlier + seq![anthropic::result_block(message)] =~= earlier.push(
                anthropic::result_block(message),
            ));
            assert(after.drop_last() =~= before.drop_last());
        }
    }
}

/// The only tool that needs no approval is the one that reads.
pub proof fn law_safe_tools(offered: Seq<ToolSpecView>)
    ensures
        classic::safe_names(offered) == offered.filter(
            |tool: ToolSpecView| tool.name == "read"@,
        ).map_values(|tool: ToolSpecView| tool.name),
    decreases offered.len(),
{
    reveal(Seq::filter);
    let safe = |tool: ToolSpecView| tool.name == "read"@;
    let name = |tool: ToolSpecView| tool.name;
    if offered.len() > 0 {
        law_safe_tools(offered.drop_last());
        let before = offered.drop_last().filter(safe);
        if safe(offered.last()) {
            assert(before.push(offered.last()).map_values(name) =~= before.map_values(name).push(
                offered.last().name,
            ));
        }
    } else {
        assert(classic::safe_names(offered) =~= offered.filter(safe).map_values(name));
    }
}

/// A session that is idle is configured and given its prompt; one that waits goes on where it was
/// left.
pub proof fn law_sessions_are_opened(
    snapshot: SnapshotView,
    safe_tools: Seq<Seq<char>>,
    prompt: Option<Seq<char>>,
    r: Result<Startup, StartError>,
)
    requires
        classic::starts(snapshot, safe_tools, prompt, r),
    ensures
        ({
            let phase = snapshot.phase;
            let at = snapshot.current_call as int;
            let waits = at < snapshot.pending_calls.len() && prompt is None;
            &&& phase == "idle"@ ==> (r matches Ok(Startup::Configure { event, prompt: given })
                && given.deep_view() == prompt && event.deep_view().kind == "configure_tools"@
                && event.deep_view().safe_tools == safe_tools)
            &&& phase == "waiting_model"@ && prompt is None ==> (r matches Ok(
                Startup::Resume(reply),
            ) && reply.deep_view().snapshot == snapshot && reply.deep_view().ok
                && reply.deep_view().effects.len() == 1 && reply.deep_view().effects[0].kind
                == "request_model"@)
            &&& phase == "waiting_approval"@ && waits ==> (r matches Ok(
                Startup::Approve { call, status },
            ) && call.deep_view() == snapshot.pending_calls[at] && status@ == "Approve "@
                + snapshot.pending_calls[at].name + "? [y]es / [n]o"@)
            &&& phase == "waiting_tool"@ && waits ==> (r matches Ok(Startup::Interrupted(event))
                && event.deep_view().kind == "tool_completed"@ && event.deep_view().call_id
                == Some(snapshot.pending_calls[at].call_id) && event.deep_view().is_error == Some(
                true,
            ))
            &&& phase != "idle"@ && prompt is Some ==> r is Err
        }),
{
    reveal_strlit("idle");
    reveal_strlit("waiting_model");
    reveal_strlit("waiting_approval");
    reveal_strlit("waiting_tool");
    assert("idle"@.len() == 4 && "waiting_model"@.len() == 13 && "waiting_approval"@.len() == 16
        && "waiting_tool"@.len() == 12);
}

/// A reply of the core is taken only if it is of the version spoken, answers the request, and
/// says that the request was accepted.
pub proof fn law_core_replies(reply: ResponseView, request_id: Seq<char>)
    ensures
        classic::reply_problem(reply, request_id) is None <==> reply.version == 1
            && reply.request_id == request_id && reply.ok,
{
}

/// The head of the screen names the phase, the numbers of the session and the call to approve.
pub proof fn law_head(app: AppView)
    ensures
        ({
            let said = classic::header_of(app);
            let head = "Lean Coding Agent · phase: "@ + app.snapshot.phase + " · pending: "@
                + text::decimal(app.snapshot.pending_calls.len());
            &&& head.is_prefix_of(said)
            &&& app.approval matches Some(call) ==> (" approval: "@ + call.name).is_suffix_of(said)
        }),
        app.approval is Some ==> classic::title_of(app) == "Approval is pending"@,
        app.approval is None ==> classic::title_of(app) == "Prompt"@,
{
    let said = classic::header_of(app);
    let head = "Lean Coding Agent · phase: "@ + app.snapshot.phase + " · pending: "@
        + text::decimal(app.snapshot.pending_calls.len());
    assert(head =~= said.subrange(0, head.len() as int));
    if let Some(call) = app.approval {
        let tail = " approval: "@ + call.name;
        assert(tail =~= said.subrange(said.len() - tail.len(), said.len() as int));
    }
}

} // verus!
