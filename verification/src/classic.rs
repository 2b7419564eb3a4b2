//! The small agent: a session without plans, todo lists or compaction, with one plugin.
use crate::anthropic::{
    self, assistant_turn, result_turn, turn_messages, with_turn, Turn,
    TurnView,
};
use crate::frame::{has_room, in_order, laid_out, split_area, AreaSize};
use crate::json::{self, object, said_text, Json, JsonView, ObjectBuilder};
use crate::keys::{KeyCode, KeyEvent};
use crate::plugins::{
    call_step, callable_after, greeting, greets, CallEvent, CallStep, PluginClient,
    PluginClientError,
};
use crate::protocol::{PluginMessage, RequestEnvelope, ToolSpec};
use crate::provider::{self, openai_messages, openai_tool};
use crate::selection::Rect;
use crate::session::{
    CoreEffect, CoreMessage, CoreReplyError, CoreReplyErrorView, CoreToolCall, EffectView,
    MessageView, ToolCallView,
};
use crate::style::{
    blank_line, line_of, push_line, push_span, span_of, text_line, Color, Line, LineView, Span,
    Style,
};
use crate::tools::ToolSpecView;
use crate::{text, unicode};
use vstd::prelude::*;
use vstd::string::*;

verus! {

/// The version of the protocol between this agent and its core.
pub const CORE_PROTOCOL_VERSION: u64 = 1;

/// The state of a session.
#[derive(Debug, PartialEq, Eq)]
pub struct CoreSnapshot {
    pub phase: String,
    pub messages: Vec<CoreMessage>,
    pub pending_calls: Vec<CoreToolCall>,
    pub current_call: u64,
    pub safe_tools: Vec<String>,
}

/// What a snapshot says.
#[verifier::ext_equal]
pub struct SnapshotView {
    pub phase: Seq<char>,
    pub messages: Seq<MessageView>,
    pub pending_calls: Seq<ToolCallView>,
    pub current_call: u64,
    pub safe_tools: Seq<Seq<char>>,
}

impl DeepView for CoreSnapshot {
    type V = SnapshotView;

    open spec fn deep_view(&self) -> SnapshotView {
        SnapshotView {
            phase: self.phase@,
            messages: self.messages.deep_view(),
            pending_calls: self.pending_calls.deep_view(),
            current_call: self.current_call,
            safe_tools: self.safe_tools.deep_view(),
        }
    }
}

impl Clone for CoreSnapshot {
    fn clone(&self) -> (r: Self)
        ensures
            r.deep_view() == self.deep_view(),
    {
        let r = CoreSnapshot {
            phase: self.phase.clone(),
            messages: self.messages.clone(),
            pending_calls: self.pending_calls.clone(),
            current_call: self.current_call,
            safe_tools: self.safe_tools.clone(),
        };
        assert(r.messages.deep_view() =~= self.messages.deep_view());
        assert(r.pending_calls.deep_view() =~= self.pending_calls.deep_view());
        assert(r.safe_tools.deep_view() =~= self.safe_tools.deep_view());
        r
    }
}

/// What the core is told.
#[derive(Debug, PartialEq, Eq)]
pub struct CoreEvent {
    pub kind: String,
    pub text: Option<String>,
    pub tool_calls: Vec<CoreToolCall>,
    pub call_id: Option<String>,
    pub approved: Option<bool>,
    pub content: Option<String>,
    pub is_error: Option<bool>,
    pub safe_tools: Vec<String>,
}

/// What an event says.
#[verifier::ext_equal]
pub struct EventView {
    pub kind: Seq<char>,
    pub text: Option<Seq<char>>,
    pub tool_calls: Seq<ToolCallView>,
    pub call_id: Option<Seq<char>>,
    pub approved: Option<bool>,
    pub content: Option<Seq<char>>,
    pub is_error: Option<bool>,
    pub safe_tools: Seq<Seq<char>>,
}

impl DeepView for CoreEvent {
    type V = EventView;

    open spec fn deep_view(&self) -> EventView {
        EventView {
            kind: self.kind@,
            text: self.text.deep_view(),
            tool_calls: self.tool_calls.deep_view(),
            call_id: self.call_id.deep_view(),
            approved: self.approved.deep_view(),
            content: self.content.deep_view(),
            is_error: self.is_error.deep_view(),
            safe_tools: self.safe_tools.deep_view(),
        }
    }
}

/// A reply of the core.
#[derive(Debug, PartialEq, Eq)]
pub struct CoreResponse {
    pub version: u64,
    pub request_id: String,
    pub ok: bool,
    pub snapshot: CoreSnapshot,
    pub effects: Vec<CoreEffect>,
    pub error: Option<String>,
}

/// What a reply says.
#[verifier::ext_equal]
pub struct ResponseView {
    pub version: u64,
    pub request_id: Seq<char>,
    pub ok: bool,
    pub snapshot: SnapshotView,
    pub effects: Seq<EffectView>,
    pub error: Option<Seq<char>>,
}

impl DeepView for CoreResponse {
    type V = ResponseView;

    open spec fn deep_view(&self) -> ResponseView {
        ResponseView {
            version: self.version,
            request_id: self.request_id@,
            ok: self.ok,
            snapshot: self.snapshot.deep_view(),
            effects: self.effects.deep_view(),
            error: self.error.deep_view(),
        }
    }
}

/// What is on the screen.
#[derive(Debug)]
pub struct App {
    pub input: String,
    pub status: String,
    pub snapshot: CoreSnapshot,
    pub approval: Option<CoreToolCall>,
    pub busy: bool,
}

/// What is on the screen.
#[verifier::ext_equal]
pub struct AppView {
    pub input: Seq<char>,
    pub status: Seq<char>,
    pub snapshot: SnapshotView,
    pub approval: Option<ToolCallView>,
    pub busy: bool,
}

impl DeepView for App {
    type V = AppView;

    open spec fn deep_view(&self) -> AppView {
        AppView {
            input: self.input@,
            status: self.status@,
            snapshot: self.snapshot.deep_view(),
            approval: self.approval.deep_view(),
            busy: self.busy,
        }
    }
}

/// How an action ended.
#[derive(Debug, PartialEq, Eq)]
pub struct RuntimeFinal {
    pub snapshot: CoreSnapshot,
    pub status: String,
    pub approval: Option<CoreToolCall>,
}

/// What the end of an action says.
#[verifier::ext_equal]
pub struct FinalView {
    pub snapshot: SnapshotView,
    pub status: Seq<char>,
    pub approval: Option<ToolCallView>,
}

impl DeepView for RuntimeFinal {
    type V = FinalView;

    open spec fn deep_view(&self) -> FinalView {
        FinalView {
            snapshot: self.snapshot.deep_view(),
            status: self.status@,
            approval: self.approval.deep_view(),
        }
    }
}

/// An event of this kind that says nothing else.
pub open spec fn bare_event(kind: Seq<char>) -> EventView {
    EventView {
        kind,
        text: None,
        tool_calls: Seq::empty(),
        call_id: None,
        approved: None,
        content: None,
        is_error: None,
        safe_tools: Seq::empty(),
    }
}

impl CoreEvent {
    /// An event of this kind that says nothing else.
    fn bare(kind: &str) -> (r: Self)
        ensures
            r.deep_view() == bare_event(kind@),
    {
        let r = CoreEvent {
            kind: kind.to_owned(),
            text: None,
            tool_calls: Vec::new(),
            call_id: None,
            approved: None,
            content: None,
            is_error: None,
            safe_tools: Vec::new(),
        };
        assert(r.tool_calls.deep_view() =~= Seq::empty());
        assert(r.safe_tools.deep_view() =~= Seq::empty());
        r
    }

    /// The tools that need no approval.
    pub fn configure_tools(safe_tools: Vec<String>) -> (r: Self)
        ensures
            r.deep_view() == (EventView {
                safe_tools: safe_tools.deep_view(),
                ..bare_event("configure_tools"@)
            }),
    {
        let mut r = CoreEvent::bare("configure_tools");
        r.safe_tools = safe_tools;
        r
    }

    /// What the person says.
    pub fn submit(text: String) -> (r: Self)
        ensures
            r.deep_view() == (EventView { text: Some(text@), ..bare_event("submit"@) }),
    {
        let mut r = CoreEvent::bare("submit");
        r.text = Some(text);
        r
    }

    /// What the model answered.
    pub fn model_completed(content: String, tool_calls: Vec<CoreToolCall>) -> (r: Self)
        ensures
            r.deep_view() == (EventView {
                content: Some(content@),
                tool_calls: tool_calls.deep_view(),
                ..bare_event("model_completed"@)
            }),
    {
        let mut r = CoreEvent::bare("model_completed");
        r.content = Some(content);
        r.tool_calls = tool_calls;
        r
    }

    /// Whether a call may run.
    pub fn approval(call_id: String, approved: bool) -> (r: Self)
        ensures
            r.deep_view() == (EventView {
                call_id: Some(call_id@),
                approved: Some(approved),
                ..bare_event("approval_result"@)
            }),
    {
        let mut r = CoreEvent::bare("approval_result");
        r.call_id = Some(call_id);
        r.approved = Some(approved);
        r
    }

    /// What a call gave.
    pub fn tool_completed(call_id: String, content: String, is_error: bool) -> (r: Self)
        ensures
            r.deep_view() == (EventView {
                call_id: Some(call_id@),
                content: Some(content@),
                is_error: Some(is_error),
                ..bare_event("tool_completed"@)
            }),
    {
        let mut r = CoreEvent::bare("tool_completed");
        r.call_id = Some(call_id);
        r.content = Some(content);
        r.is_error = Some(is_error);
        r
    }

    /// That what runs is given up.
    pub fn abort() -> (r: Self)
        ensures
            r.deep_view() == bare_event("abort"@),
    {
        CoreEvent::bare("abort")
    }
}

/// What is wrong with a reply to the request with this id.
pub open spec fn reply_problem(reply: ResponseView, request_id: Seq<char>) -> Option<
    CoreReplyErrorView,
> {
    if reply.version != CORE_PROTOCOL_VERSION {
        Some(CoreReplyErrorView::VersionMismatch(reply.version))
    } else if reply.request_id != request_id {
        Some(CoreReplyErrorView::CorrelationMismatch)
    } else if !reply.ok {
        Some(
            CoreReplyErrorView::Rejected(
                match reply.error {
                    Some(error) => error,
                    None => "unknown core error"@,
                },
            ),
        )
    } else {
        None
    }
}

/// Takes a reply to the request with this id.
pub fn accept_core_response(response: CoreResponse, request_id: &str) -> (r: Result<
    CoreResponse,
    CoreReplyError,
>)
    ensures
        match reply_problem(response.deep_view(), request_id@) {
            Some(problem) => r matches Err(e) && e.deep_view() == problem,
            None => r == Ok::<CoreResponse, CoreReplyError>(response),
        },
{
    if response.version != CORE_PROTOCOL_VERSION {
        return Err(CoreReplyError::VersionMismatch(response.version));
    }
    if !text::str_eq(response.request_id.as_str(), request_id) {
        return Err(CoreReplyError::CorrelationMismatch);
    }
    if response.ok {
        return Ok(response);
    }
    match response.error {
        Some(error) => Err(CoreReplyError::Rejected(error)),
        None => Err(CoreReplyError::Rejected("unknown core error".to_owned())),
    }
}

/// The call that is at hand.
pub open spec fn pending_call(snapshot: SnapshotView) -> Option<ToolCallView> {
    if snapshot.current_call < snapshot.pending_calls.len() {
        Some(snapshot.pending_calls[snapshot.current_call as int])
    } else {
        None
    }
}

/// The call that is at hand.
pub fn active_pending_call(snapshot: &CoreSnapshot) -> (r: Option<CoreToolCall>)
    ensures
        r.deep_view() == pending_call(snapshot.deep_view()),
{
    if snapshot.current_call < snapshot.pending_calls.len() as u64 {
        let i = snapshot.current_call as usize;
        assert(snapshot.pending_calls.deep_view()[i as int]
            == snapshot.pending_calls@[i as int].deep_view());
        Some(snapshot.pending_calls[i].clone())
    } else {
        None
    }
}

/// The request to an OpenAI model for a session.
pub open spec fn openai_request_for(
    model: Seq<char>,
    snapshot: SnapshotView,
    tools: Seq<ToolSpecView>,
    system_prompt: Seq<char>,
) -> JsonView {
    object(
        seq![
            ("model"@, said_text(model)),
            ("messages"@, JsonView::Array(openai_messages(system_prompt, snapshot.messages))),
            (
                "tools"@,
                JsonView::Array(tools.map_values(|tool: ToolSpecView| openai_tool(tool))),
            ),
            ("tool_choice"@, said_text("auto"@)),
            ("stream"@, JsonView::Bool(false)),
        ],
    )
}

/// The request to an OpenAI model for a session.
pub fn openai_request(
    model: &str,
    snapshot: &CoreSnapshot,
    tools: &Vec<ToolSpec>,
    system_prompt: &str,
) -> (r: Json)
    ensures
        r.deep_view() == openai_request_for(
            model@,
            snapshot.deep_view(),
            tools.deep_view(),
            system_prompt@,
        ),
{
    let messages = provider::build_openai_messages(&snapshot.messages, system_prompt);
    let declared = provider::build_openai_tools(tools);
    let members = ObjectBuilder::new().text("model", model).with(
        "messages",
        Json::of_items(messages),
    ).with("tools", Json::of_items(declared)).text("tool_choice", "auto").with(
        "stream",
        Json::Bool(false),
    );
    assert(members.said() =~= seq![
        ("model"@, said_text(model@)),
        ("messages"@, JsonView::Array(messages.deep_view())),
        ("tools"@, JsonView::Array(declared.deep_view())),
        ("tool_choice"@, said_text("auto"@)),
        ("stream"@, JsonView::Bool(false)),
    ]);
    members.build()
}

/// The turn for a message; a message of another role has none. What the person says is a text, not
/// a list of blocks.
pub open spec fn turn_of(message: MessageView) -> Option<TurnView> {
    if message.role == "user"@ {
        Some(TurnView { user: true, content: said_text(message.content) })
    } else if message.role == "assistant"@ {
        Some(assistant_turn(message))
    } else if message.role == "tool"@ {
        Some(result_turn(message))
    } else {
        None
    }
}

/// The turns of a conversation: the results of tools that follow each other are one turn.
pub open spec fn turns_of(messages: Seq<MessageView>) -> Seq<TurnView>
    decreases messages.len(),
{
    if messages.len() == 0 {
        Seq::empty()
    } else {
        let before = turns_of(messages.drop_last());
        match turn_of(messages.last()) {
            Some(turn) => with_turn(before, turn),
            None => before,
        }
    }
}

/// The Anthropic form of messages.
pub fn anthropic_messages(messages: &Vec<CoreMessage>) -> (r: Vec<Json>)
    ensures
        r.deep_view() == turn_messages(turns_of(messages.deep_view())),
{
    let ghost all = messages.deep_view();
    let mut turns: Vec<Turn> = Vec::new();
    let mut i: usize = 0;
    assert(turns.deep_view() =~= Seq::empty());
    while i < messages.len()
        invariant
            all == messages.deep_view(),
            i <= messages@.len(),
            turns.deep_view() == turns_of(all.take(i as int)),
        decreases messages@.len() - i,
    {
        assert(all.take(i + 1).drop_last() =~= all.take(i as int));
        assert(all[i as int] == messages@[i as int].deep_view());
        let message = &messages[i];
        let role = message.role.as_str();
        if text::str_eq(role, "user") {
            let content = Json::of_text(message.content.as_str());
            anthropic::push_turn(&mut turns, Turn { user: true, content });
        } else if text::str_eq(role, "assistant") {
            anthropic::push_turn(&mut turns, anthropic::build_assistant_turn(message));
        } else if text::str_eq(role, "tool") {
            anthropic::push_turn(&mut turns, anthropic::build_result_turn(message));
        }
        i += 1;
    }
    assert(all.take(i as int) =~= all);
    anthropic::messages_of_turns(turns)
}

/// Results of tools that follow each other are told in one turn.
pub proof fn law_results_are_grouped(first: MessageView, second: MessageView)
    requires
        first.role == "tool"@,
        second.role == "tool"@,
    ensures
        turns_of(seq![first, second]) == seq![
            TurnView {
                user: true,
                content: JsonView::Array(
                    seq![anthropic::result_block(first), anthropic::result_block(second)],
                ),
            },
        ],
{
    reveal_strlit("user");
    reveal_strlit("assistant");
    reveal_strlit("tool");
    assert("user"@[0] == 'u' && "assistant"@[0] == 'a' && "tool"@[0] == 't');
    let one = seq![first];
    let two = seq![first, second];
    assert(one.drop_last() =~= Seq::empty());
    assert(two.drop_last() =~= one);
    assert(turns_of(Seq::<MessageView>::empty()) =~= Seq::empty());
    assert(turns_of(one) =~= seq![result_turn(first)]);
    assert(seq![anthropic::result_block(first)] + seq![anthropic::result_block(second)] =~= seq![
        anthropic::result_block(first),
        anthropic::result_block(second),
    ]);
    assert(turns_of(two) =~= seq![
        TurnView {
            user: true,
            content: JsonView::Array(
                seq![anthropic::result_block(first), anthropic::result_block(second)],
            ),
        },
    ]);
}

/// The request to an Anthropic model for a session.
pub open spec fn anthropic_request_for(
    model: Seq<char>,
    snapshot: SnapshotView,
    tools: Seq<ToolSpecView>,
    system_prompt: Seq<char>,
) -> JsonView {
    let told = tools.map_values(|tool: ToolSpecView| anthropic::anthropic_tool(tool));
    object(
        seq![
            ("model"@, said_text(model)),
            ("max_tokens"@, json::said_number(anthropic::ANTHROPIC_MAX_TOKENS)),
            ("system"@, said_text(system_prompt)),
            ("messages"@, JsonView::Array(turn_messages(turns_of(snapshot.messages)))),
            ("tools"@, JsonView::Array(told)),
        ],
    )
}

/// The request to an Anthropic model for a session.
pub fn anthropic_request(
    model: &str,
    snapshot: &CoreSnapshot,
    tools: &Vec<ToolSpec>,
    system_prompt: &str,
) -> (r: Json)
    ensures
        r.deep_view() == anthropic_request_for(
            model@,
            snapshot.deep_view(),
            tools.deep_view(),
            system_prompt@,
        ),
{
    let messages = anthropic_messages(&snapshot.messages);
    let declared = anthropic::build_anthropic_tools(tools);
    let limit = Json::Number(json::JsonNumber::Unsigned(anthropic::ANTHROPIC_MAX_TOKENS));
    let members = ObjectBuilder::new().text("model", model).with("max_tokens", limit).text(
        "system",
        system_prompt,
    ).with("messages", Json::of_items(messages)).with("tools", Json::of_items(declared));
    assert(members.said() =~= seq![
        ("model"@, said_text(model@)),
        ("max_tokens"@, json::said_number(anthropic::ANTHROPIC_MAX_TOKENS)),
        ("system"@, said_text(system_prompt@)),
        ("messages"@, JsonView::Array(messages.deep_view())),
        ("tools"@, JsonView::Array(declared.deep_view())),
    ]);
    members.build()
}

/// The names of the tools that need no approval: reading alone.
pub open spec fn safe_names(tools: Seq<ToolSpecView>) -> Seq<Seq<char>>
    decreases tools.len(),
{
    if tools.len() == 0 {
        Seq::empty()
    } else if tools.last().name == "read"@ {
        safe_names(tools.drop_last()).push(tools.last().name)
    } else {
        safe_names(tools.drop_last())
    }
}

/// The names of the tools that need no approval.
pub fn safe_tool_names(tools: &Vec<ToolSpec>) -> (r: Vec<String>)
    ensures
        r.deep_view() == safe_names(tools.deep_view()),
{
    let ghost all = tools.deep_view();
    let mut out: Vec<String> = Vec::new();
    let mut i: usize = 0;
    assert(out.deep_view() =~= Seq::empty());
    while i < tools.len()
        invariant
            all == tools.deep_view(),
            i <= tools@.len(),
            out.deep_view() == safe_names(all.take(i as int)),
        decreases tools@.len() - i,
    {
        assert(all.take(i + 1).drop_last() =~= all.take(i as int));
        assert(all[i as int] == tools@[i as int].deep_view());
        if text::str_eq(tools[i].name.as_str(), "read") {
            let ghost before = out.deep_view();
            let name = tools[i].name.clone();
            out.push(name);
            assert(out.deep_view() =~= before.push(name@));
        }
        i += 1;
    }
    assert(all.take(i as int) =~= all);
    out
}

/// The application of a session that was just opened.
pub open spec fn new_app(snapshot: SnapshotView) -> AppView {
    AppView { input: Seq::empty(), status: "Ready"@, snapshot, approval: None, busy: false }
}

/// The colour of a message.
pub open spec fn message_color(message: MessageView) -> Color {
    if message.role == "user"@ {
        Color::Cyan
    } else if message.role == "assistant"@ {
        Color::Green
    } else if message.role == "tool"@ {
        if message.is_error {
            Color::Red
        } else {
            Color::Yellow
        }
    } else {
        Color::Gray
    }
}

/// A line of plain text: its lines stand side by side.
pub open spec fn raw_line(content: Seq<char>) -> LineView {
    line_of(text::lines_of(content).map_values(|part: Seq<char>| span_of(part, Style::plain())))
}

/// The line of a call.
pub open spec fn call_line(call: ToolCallView) -> LineView {
    text_line(
        "tool "@ + call.call_id + " "@ + call.name + "("@ + json::json_text(
            json::held_json(call.arguments),
        ) + ")"@,
        Style::plain().fg(Color::Magenta),
    )
}

/// The lines of a message.
pub open spec fn message_lines(message: MessageView) -> Seq<LineView> {
    let label = seq![
        text_line(
            unicode::uppercased(message.role) + ": "@,
            Style::plain().fg(message_color(message)),
        ),
    ];
    let said = if message.content.len() > 0 {
        label.push(raw_line(message.content))
    } else {
        label
    };
    (said + message.tool_calls.map_values(|call: ToolCallView| call_line(call))).push(blank_line())
}

/// The transcript of messages.
pub open spec fn transcript_of(messages: Seq<MessageView>) -> Seq<LineView>
    decreases messages.len(),
{
    if messages.len() == 0 {
        Seq::empty()
    } else {
        transcript_of(messages.drop_last()) + message_lines(messages.last())
    }
}

fn build_raw_line(content: &str) -> (r: Line)
    ensures
        r.deep_view() == raw_line(content@),
{
    let parts = text::lines(content);
    let ghost wanted = raw_line(content@).spans;
    let mut spans: Vec<Span> = Vec::new();
    let mut i: usize = 0;
    assert(spans.deep_view() =~= wanted.take(0));
    while i < parts.len()
        invariant
            parts.deep_view() == text::lines_of(content@),
            wanted == raw_line(content@).spans,
            i <= parts@.len(),
            spans.deep_view() == wanted.take(i as int),
        decreases parts@.len() - i,
    {
        assert(parts.deep_view()[i as int] == parts@[i as int]@);
        push_span(&mut spans, parts[i].as_str(), Style::plain());
        assert(spans.deep_view() =~= wanted.take(i + 1));
        i += 1;
    }
    assert(wanted.take(i as int) =~= wanted);
    Line::of_spans(spans)
}

fn build_call_line(call: &CoreToolCall) -> (r: Line)
    ensures
        r.deep_view() == call_line(call.deep_view()),
{
    let mut content = text::cat("tool ", call.call_id.as_str());
    content.append(" ");
    content.append(call.name.as_str());
    content.append("(");
    content.append(json::json_to_text(&call.arguments).as_str());
    content.append(")");
    Line::of_text(content.as_str(), Style::plain().fg(Color::Magenta))
}

fn build_message_color(message: &CoreMessage) -> (r: Color)
    ensures
        r == message_color(message.deep_view()),
{
    let role = message.role.as_str();
    if text::str_eq(role, "user") {
        Color::Cyan
    } else if text::str_eq(role, "assistant") {
        Color::Green
    } else if text::str_eq(role, "tool") {
        if message.is_error {
            Color::Red
        } else {
            Color::Yellow
        }
    } else {
        Color::Gray
    }
}

/// Adds the lines of a message.
fn push_message_lines(lines: &mut Vec<Line>, message: &CoreMessage)
    ensures
        final(lines).deep_view() == old(lines).deep_view() + message_lines(message.deep_view()),
{
    let ghost before = lines.deep_view();
    let ghost calls = message.deep_view().tool_calls.map_values(
        |call: ToolCallView| call_line(call),
    );
    let color = build_message_color(message);
    let mut label = unicode::to_uppercase(message.role.as_str());
    label.append(": ");
    push_line(lines, Line::of_text(label.as_str(), Style::plain().fg(color)));
    if !message.content.as_str().is_empty() {
        push_line(lines, build_raw_line(message.content.as_str()));
    }
    let ghost start = lines.deep_view();
    let mut i: usize = 0;
    assert(start + calls.take(0) =~= start);
    while i < message.tool_calls.len()
        invariant
            calls == message.deep_view().tool_calls.map_values(
                |call: ToolCallView| call_line(call),
            ),
            i <= message.tool_calls@.len(),
            lines.deep_view() == start + calls.take(i as int),
        decreases message.tool_calls@.len() - i,
    {
        assert(message.deep_view().tool_calls[i as int]
            == message.tool_calls@[i as int].deep_view());
        push_line(lines, build_call_line(&message.tool_calls[i]));
        assert(lines.deep_view() =~= start + calls.take(i + 1));
        i += 1;
    }
    assert(calls.take(i as int) =~= calls);
    push_line(lines, Line::blank());
    assert(lines.deep_view() =~= before + message_lines(message.deep_view()));
}

impl App {
    /// The application of a session that was just opened.
    pub fn new(snapshot: CoreSnapshot) -> (r: Self)
        ensures
            r.deep_view() == new_app(snapshot.deep_view()),
    {
        App {
            input: String::new(),
            status: "Ready".to_owned(),
            snapshot,
            approval: None,
            busy: false,
        }
    }

    /// The transcript.
    pub fn transcript(&self) -> (r: Vec<Line>)
        ensures
            r.deep_view() == transcript_of(self.deep_view().snapshot.messages),
    {
        let ghost all = self.snapshot.messages.deep_view();
        let mut lines: Vec<Line> = Vec::new();
        let mut i: usize = 0;
        assert(lines.deep_view() =~= Seq::empty());
        while i < self.snapshot.messages.len()
            invariant
                all == self.snapshot.messages.deep_view(),
                i <= self.snapshot.messages@.len(),
                lines.deep_view() == transcript_of(all.take(i as int)),
            decreases self.snapshot.messages@.len() - i,
        {
            assert(all.take(i + 1).drop_last() =~= all.take(i as int));
            assert(all[i as int] == self.snapshot.messages@[i as int].deep_view());
            push_message_lines(&mut lines, &self.snapshot.messages[i]);
            i += 1;
        }
        assert(all.take(i as int) =~= all);
        lines
    }
}

/// What a key asks for.
#[derive(Debug, PartialEq, Eq)]
pub enum KeyAction {
    Ignore,
    Quit,
    Cancel,
    Submit(String),
    Approval { call_id: String, approved: bool },
}

/// What such an action says.
pub enum KeyActionView {
    Ignore,
    Quit,
    Cancel,
    Submit(Seq<char>),
    Approval { call_id: Seq<char>, approved: bool },
}

impl DeepView for KeyAction {
    type V = KeyActionView;

    open spec fn deep_view(&self) -> KeyActionView {
        match self {
            KeyAction::Ignore => KeyActionView::Ignore,
            KeyAction::Quit => KeyActionView::Quit,
            KeyAction::Cancel => KeyActionView::Cancel,
            KeyAction::Submit(text) => KeyActionView::Submit(text@),
            KeyAction::Approval { call_id, approved } => KeyActionView::Approval {
                call_id: call_id@,
                approved: *approved,
            },
        }
    }
}

impl AppView {
    /// What a key does while a call waits for approval.
    pub open spec fn after_approval_key(self, key: KeyEvent) -> (AppView, KeyActionView) {
        let call_id = match self.approval {
            Some(call) => call.call_id,
            None => Seq::empty(),
        };
        let decided = AppView { approval: None, ..self };
        match key.code {
            KeyCode::Char(c) => if c == 'y' || c == 'Y' {
                (decided, KeyActionView::Approval { call_id, approved: true })
            } else if c == 'n' || c == 'N' {
                (decided, KeyActionView::Approval { call_id, approved: false })
            } else {
                (self, KeyActionView::Ignore)
            },
            KeyCode::Esc => (decided, KeyActionView::Approval { call_id, approved: false }),
            _ => (self, KeyActionView::Ignore),
        }
    }

    /// What a key does.
    pub open spec fn after_key(self, key: KeyEvent) -> (AppView, KeyActionView) {
        if key.control && key.code == KeyCode::Char('c') {
            (self, KeyActionView::Quit)
        } else if self.busy && key.code == KeyCode::Esc {
            (self, KeyActionView::Cancel)
        } else if self.approval is Some {
            self.after_approval_key(key)
        } else {
            match key.code {
                KeyCode::Enter => if !self.busy && text::trimmed(self.input).len() > 0 {
                    (
                        AppView { input: Seq::empty(), ..self },
                        KeyActionView::Submit(self.input),
                    )
                } else {
                    (self, KeyActionView::Ignore)
                },
                KeyCode::Backspace => (
                    AppView {
                        input: if self.input.len() > 0 {
                            self.input.drop_last()
                        } else {
                            self.input
                        },
                        ..self
                    },
                    KeyActionView::Ignore,
                ),
                KeyCode::Esc => (AppView { input: Seq::empty(), ..self }, KeyActionView::Ignore),
                KeyCode::Char(c) => if key.control {
                    (self, KeyActionView::Ignore)
                } else {
                    (AppView { input: self.input.push(c), ..self }, KeyActionView::Ignore)
                },
                _ => (self, KeyActionView::Ignore),
            }
        }
    }
}

/// What a key does while a call waits for approval.
fn decide_approval(app: &mut App, approved: bool) -> (r: KeyAction)
    requires
        old(app).approval is Some,
    ensures
        final(app).deep_view() == (AppView { approval: None, ..old(app).deep_view() }),
        r.deep_view() == (KeyActionView::Approval {
            call_id: (old(app).deep_view().approval->0).call_id,
            approved,
        }),
{
    match app.approval.take() {
        Some(call) => KeyAction::Approval { call_id: call.call_id, approved },
        None => KeyAction::Ignore,
    }
}

/// What a key does.
pub fn handle_key(key: KeyEvent, app: &mut App) -> (r: KeyAction)
    ensures
        (final(app).deep_view(), r.deep_view()) == old(app).deep_view().after_key(key),
{
    let ghost before = app.deep_view();
    if key.control {
        if let KeyCode::Char(c) = key.code {
            if c == 'c' {
                return KeyAction::Quit;
            }
        }
    }
    if app.busy {
        if let KeyCode::Esc = key.code {
            return KeyAction::Cancel;
        }
    }
    if app.approval.is_some() {
        return match key.code {
            KeyCode::Char(c) => if c == 'y' || c == 'Y' {
                decide_approval(app, true)
            } else if c == 'n' || c == 'N' {
                decide_approval(app, false)
            } else {
                KeyAction::Ignore
            },
            KeyCode::Esc => decide_approval(app, false),
            _ => KeyAction::Ignore,
        };
    }
    match key.code {
        KeyCode::Enter => {
            if !app.busy && !text::trim(app.input.as_str()).as_str().is_empty() {
                let mut typed = String::new();
                std::mem::swap(&mut typed, &mut app.input);
                assert(app.deep_view() == (AppView { input: Seq::empty(), ..before }));
                KeyAction::Submit(typed)
            } else {
                KeyAction::Ignore
            }
        },
        KeyCode::Backspace => {
            let chars = text::chars_of(app.input.as_str());
            if chars.len() > 0 {
                let shorter = text::string_range(&chars, 0, chars.len() - 1);
                assert(shorter@ =~= before.input.drop_last());
                app.input = shorter;
            }
            KeyAction::Ignore
        },
        KeyCode::Esc => {
            app.input = String::new();
            assert(app.deep_view() == (AppView { input: Seq::empty(), ..before }));
            KeyAction::Ignore
        },
        KeyCode::Char(c) => {
            if !key.control {
                app.input.push(c);
            }
            KeyAction::Ignore
        },
        _ => KeyAction::Ignore,
    }
}

/// What is carried out next.
#[derive(Debug, PartialEq, Eq)]
pub enum RuntimeAction {
    Submit(String),
    Approval { call_id: String, approved: bool },
    Drive(CoreResponse),
}

/// What such an action says.
pub enum RuntimeActionView {
    Submit(Seq<char>),
    Approval { call_id: Seq<char>, approved: bool },
    Drive(ResponseView),
}

impl DeepView for RuntimeAction {
    type V = RuntimeActionView;

    open spec fn deep_view(&self) -> RuntimeActionView {
        match self {
            RuntimeAction::Submit(text) => RuntimeActionView::Submit(text@),
            RuntimeAction::Approval { call_id, approved } => RuntimeActionView::Approval {
                call_id: call_id@,
                approved: *approved,
            },
            RuntimeAction::Drive(response) => RuntimeActionView::Drive(response.deep_view()),
        }
    }
}

/// What the loop does after a key: nothing, begin an action, cancel the one at hand, or end.
#[derive(Debug, PartialEq, Eq)]
pub enum LoopStep {
    Wait,
    Begin(RuntimeAction),
    Cancel,
    End,
}

/// What the loop does after a key. An action begins only where none is at hand.
pub open spec fn key_action_done(
    app: AppView,
    action: KeyActionView,
    active: bool,
    after: AppView,
    step: LoopStep,
) -> bool {
    match action {
        KeyActionView::Ignore => after == app && step == LoopStep::Wait,
        KeyActionView::Quit => after == (if active {
            AppView { status: "Cancelling…"@, ..app }
        } else {
            app
        }) && step == LoopStep::End,
        KeyActionView::Cancel => if active {
            after == (AppView { status: "Cancelling…"@, busy: true, ..app }) && step
                == LoopStep::Cancel
        } else {
            after == app && step == LoopStep::Wait
        },
        KeyActionView::Submit(text) => if active {
            after == app && step == LoopStep::Wait
        } else {
            after == (AppView { status: "Submitting…"@, busy: true, ..app }) && (
            step matches LoopStep::Begin(RuntimeAction::Submit(t)) && t@ == text)
        },
        KeyActionView::Approval { call_id, approved } => if active {
            after == app && step == LoopStep::Wait
        } else {
            after == (AppView {
                status: "Applying approval…"@,
                approval: None,
                busy: true,
                ..app
            }) && (step matches LoopStep::Begin(RuntimeAction::Approval { call_id: c, approved: a })
                && c@ == call_id && a == approved)
        },
    }
}

/// What the loop does after a key; `active` tells whether an action is at hand.
pub fn on_key_action(app: &mut App, action: KeyAction, active: bool) -> (r: LoopStep)
    ensures
        key_action_done(
            old(app).deep_view(),
            action.deep_view(),
            active,
            final(app).deep_view(),
            r,
        ),
{
    match action {
        KeyAction::Ignore => LoopStep::Wait,
        KeyAction::Quit => {
            if active {
                app.status = "Cancelling…".to_owned();
            }
            LoopStep::End
        },
        KeyAction::Cancel => {
            if active {
                app.status = "Cancelling…".to_owned();
                app.busy = true;
                LoopStep::Cancel
            } else {
                LoopStep::Wait
            }
        },
        KeyAction::Submit(text) => {
            if active {
                LoopStep::Wait
            } else {
                app.busy = true;
                app.status = "Submitting…".to_owned();
                LoopStep::Begin(RuntimeAction::Submit(text))
            }
        },
        KeyAction::Approval { call_id, approved } => {
            if active {
                LoopStep::Wait
            } else {
                app.busy = true;
                app.approval = None;
                app.status = "Applying approval…".to_owned();
                LoopStep::Begin(RuntimeAction::Approval { call_id, approved })
            }
        },
    }
}

/// News of an action.
#[derive(Debug, PartialEq, Eq)]
pub enum RuntimeUpdate {
    Progress { snapshot: CoreSnapshot, status: String },
    Settled(RuntimeFinal),
    Failed(String),
}

/// What such news says.
pub enum UpdateView {
    Progress { snapshot: SnapshotView, status: Seq<char> },
    Settled(FinalView),
    Failed(Seq<char>),
}

impl DeepView for RuntimeUpdate {
    type V = UpdateView;

    open spec fn deep_view(&self) -> UpdateView {
        match self {
            RuntimeUpdate::Progress { snapshot, status } => UpdateView::Progress {
                snapshot: snapshot.deep_view(),
                status: status@,
            },
            RuntimeUpdate::Settled(end) => UpdateView::Settled(end.deep_view()),
            RuntimeUpdate::Failed(error) => UpdateView::Failed(error@),
        }
    }
}

impl AppView {
    /// The screen after news of an action.
    pub open spec fn after_update(self, update: UpdateView) -> AppView {
        match update {
            UpdateView::Progress { snapshot, status } => AppView {
                snapshot,
                status,
                busy: true,
                ..self
            },
            UpdateView::Settled(end) => AppView {
                snapshot: end.snapshot,
                status: end.status,
                approval: end.approval,
                busy: false,
                ..self
            },
            UpdateView::Failed(error) => AppView {
                status: "Error: "@ + error,
                busy: false,
                ..self
            },
        }
    }
}

/// Takes news of an action.
pub fn on_update(app: &mut App, update: RuntimeUpdate)
    ensures
        final(app).deep_view() == old(app).deep_view().after_update(update.deep_view()),
{
    match update {
        RuntimeUpdate::Progress { snapshot, status } => {
            app.snapshot = snapshot;
            app.status = status;
            app.busy = true;
        },
        RuntimeUpdate::Settled(end) => {
            app.snapshot = end.snapshot;
            app.status = end.status;
            app.approval = end.approval;
            app.busy = false;
        },
        RuntimeUpdate::Failed(error) => {
            app.status = text::cat("Error: ", error.as_str());
            app.busy = false;
        },
    }
}

/// The request with which the small agent greets its plugin.
pub fn initialize_request(host_version: String) -> (r: RequestEnvelope)
    ensures
        greets(r, "lean-coding-agent"@, host_version),
{
    greeting("lean-coding-agent", host_version)
}

/// What a call of the small agent does at an event. It knows responses alone: output of a tool that
/// still runs is no answer.
pub open spec fn plain_call_step(id: Seq<char>, event: CallEvent, step: CallStep) -> bool {
    match event {
        CallEvent::Received(PluginMessage::Progress(_)) => step == CallStep::Retire(
            PluginClientError::Transport,
        ),
        _ => call_step(id, event, step),
    }
}

/// What the call with this id does at an event. A plugin that cannot be reached, answers late or
/// answers anything but the response to the call is retired.
pub fn on_call_event(client: &mut PluginClient, id: &str, event: CallEvent) -> (r: CallStep)
    ensures
        plain_call_step(id@, event, r),
        final(client).tools == old(client).tools,
        final(client).available == callable_after(old(client).available, r),
{
    match event {
        CallEvent::Received(PluginMessage::Progress(_)) => {
            client.retire();
            CallStep::Retire(PluginClientError::Transport)
        },
        other => client.on_call_event(id, other),
    }
}

/// A call of the small agent ends with the first message that comes: in the response to it, or in
/// a failure that gives the plugin up.
pub proof fn law_first_message_ends_a_call(
    available: bool,
    id: Seq<char>,
    message: PluginMessage,
    step: CallStep,
)
    requires
        plain_call_step(id, CallEvent::Received(message), step),
    ensures
        step is Finish <==> (message matches PluginMessage::Response(response) && response.id@
            == id),
        step is Finish || step is Retire,
        step is Retire ==> !callable_after(available, step),
{
}

/// An action begins before any key was pressed.
pub fn on_start(app: &mut App)
    ensures
        final(app).deep_view() == (AppView {
            busy: true,
            status: "Starting…"@,
            ..old(app).deep_view()
        }),
{
    app.busy = true;
    app.status = "Starting…".to_owned();
}

/// Why a session cannot be opened.
#[derive(Debug, PartialEq, Eq)]
pub enum StartError {
    PromptWhileResuming { phase: String },
    MissingPendingTool { phase: String },
    UnsupportedSessionPhase { phase: String },
}

/// How a session is taken up: it is configured, the model is asked, the person is asked, or the
/// core is told that a tool was interrupted.
#[derive(Debug, PartialEq, Eq)]
pub enum Startup {
    Configure { event: CoreEvent, prompt: Option<String> },
    Resume(CoreResponse),
    Approve { call: CoreToolCall, status: String },
    Interrupted(CoreEvent),
}

/// What the person is asked about a call.
pub open spec fn approval_status(call: ToolCallView) -> Seq<char> {
    "Approve "@ + call.name + "? [y]es / [n]o"@
}

/// What the core would reply to be asked for the model.
pub open spec fn resumed(snapshot: SnapshotView) -> ResponseView {
    ResponseView {
        version: CORE_PROTOCOL_VERSION,
        request_id: "resume_model"@,
        ok: true,
        snapshot,
        effects: seq![EffectView { kind: "request_model"@, call: None }],
        error: None,
    }
}

/// What a tool that was interrupted gave.
pub open spec fn interrupted_event(call: ToolCallView) -> EventView {
    EventView {
        call_id: Some(call.call_id),
        content: Some(
            "Tool execution was interrupted by a process restart and was not replayed."@,
        ),
        is_error: Some(true),
        ..bare_event("tool_completed"@)
    }
}

/// How a session is taken up.
pub open spec fn starts(
    snapshot: SnapshotView,
    safe_tools: Seq<Seq<char>>,
    prompt: Option<Seq<char>>,
    r: Result<Startup, StartError>,
) -> bool {
    let phase = snapshot.phase;
    if phase == "idle"@ {
        r matches Ok(Startup::Configure { event, prompt: p }) && event.deep_view() == (EventView {
            safe_tools,
            ..bare_event("configure_tools"@)
        }) && p.deep_view() == prompt
    } else if phase != "waiting_model"@ && phase != "waiting_approval"@ && phase
        != "waiting_tool"@ {
        r matches Err(StartError::UnsupportedSessionPhase { phase: p }) && p@ == phase
    } else if prompt is Some {
        r matches Err(StartError::PromptWhileResuming { phase: p }) && p@ == phase
    } else if phase == "waiting_model"@ {
        r matches Ok(Startup::Resume(response)) && response.deep_view() == resumed(snapshot)
    } else {
        match pending_call(snapshot) {
            Some(pending) => if phase == "waiting_approval"@ {
                r matches Ok(Startup::Approve { call, status }) && call.deep_view() == pending
                    && status@ == approval_status(pending)
            } else {
                r matches Ok(Startup::Interrupted(event)) && event.deep_view()
                    == interrupted_event(pending)
            },
            None => r matches Err(StartError::MissingPendingTool { phase: p }) && p@ == phase,
        }
    }
}

/// What the person is asked about a call.
pub fn approval_prompt(call: &CoreToolCall) -> (r: String)
    ensures
        r@ == approval_status(call.deep_view()),
{
    let mut status = text::cat("Approve ", call.name.as_str());
    status.append("? [y]es / [n]o");
    status
}

/// What the core would reply to be asked for the model.
fn resume_response(snapshot: &CoreSnapshot) -> (r: CoreResponse)
    ensures
        r.deep_view() == resumed(snapshot.deep_view()),
{
    let mut effects: Vec<CoreEffect> = Vec::new();
    effects.push(CoreEffect { kind: "request_model".to_owned(), call: None });
    assert(effects.deep_view() =~= seq![EffectView { kind: "request_model"@, call: None }]);
    CoreResponse {
        version: CORE_PROTOCOL_VERSION,
        request_id: "resume_model".to_owned(),
        ok: true,
        snapshot: snapshot.clone(),
        effects,
        error: None,
    }
}

/// How a session is taken up. A session at work takes no prompt, and a tool that was running is
/// not run again.
pub fn start_session(
    snapshot: &CoreSnapshot,
    safe_tools: Vec<String>,
    prompt: Option<String>,
) -> (r: Result<Startup, StartError>)
    ensures
        starts(snapshot.deep_view(), safe_tools.deep_view(), prompt.deep_view(), r),
{
    let phase = snapshot.phase.as_str();
    proof {
        reveal_strlit("idle");
        reveal_strlit("waiting_model");
        reveal_strlit("waiting_approval");
        reveal_strlit("waiting_tool");
        assert("idle"@.len() == 4 && "waiting_model"@.len() == 13 && "waiting_approval"@.len()
            == 16 && "waiting_tool"@.len() == 12);
    }
    if text::str_eq(phase, "idle") {
        return Ok(Startup::Configure { event: CoreEvent::configure_tools(safe_tools), prompt });
    }
    let model = text::str_eq(phase, "waiting_model");
    let approval = text::str_eq(phase, "waiting_approval");
    if !model && !approval && !text::str_eq(phase, "waiting_tool") {
        return Err(StartError::UnsupportedSessionPhase { phase: phase.to_owned() });
    }
    if prompt.is_some() {
        return Err(StartError::PromptWhileResuming { phase: phase.to_owned() });
    }
    if model {
        return Ok(Startup::Resume(resume_response(snapshot)));
    }
    match active_pending_call(snapshot) {
        Some(call) => {
            if approval {
                let status = approval_prompt(&call);
                Ok(Startup::Approve { call, status })
            } else {
                Ok(
                    Startup::Interrupted(
                        CoreEvent::tool_completed(
                            call.call_id,
                            "Tool execution was interrupted by a process restart and was not replayed.".to_owned(),
                            true,
                        ),
                    ),
                )
            }
        },
        None => Err(StartError::MissingPendingTool { phase: phase.to_owned() }),
    }
}

/// A tool that was running when a session ended is never run again: the core is told that it was
/// interrupted, and nothing else is done.
pub proof fn law_interrupted_tools_are_not_replayed(
    snapshot: SnapshotView,
    safe_tools: Seq<Seq<char>>,
    prompt: Option<Seq<char>>,
    r: Result<Startup, StartError>,
)
    requires
        starts(snapshot, safe_tools, prompt, r),
        snapshot.phase == "waiting_tool"@,
    ensures
        r matches Ok(startup) ==> (startup matches Startup::Interrupted(event)
            && event.deep_view().kind == "tool_completed"@ && event.deep_view().is_error == Some(
            true,
        )),
{
    reveal_strlit("idle");
    reveal_strlit("waiting_model");
    reveal_strlit("waiting_approval");
    reveal_strlit("waiting_tool");
    assert("idle"@.len() == 4 && "waiting_model"@.len() == 13 && "waiting_approval"@.len() == 16
        && "waiting_tool"@.len() == 12);
}

/// What a frame shows, and where.
#[derive(Debug)]
pub struct FrameContent {
    pub header_area: Rect,
    pub transcript_area: Rect,
    pub input_area: Rect,
    pub status_area: Rect,
    pub header: String,
    pub transcript: Vec<Line>,
    pub input_title: String,
}

/// The header.
pub open spec fn header_of(app: AppView) -> Seq<char> {
    "Lean Coding Agent · phase: "@ + app.snapshot.phase + " · pending: "@ + text::decimal(
        app.snapshot.pending_calls.len(),
    ) + " · active: "@ + text::decimal(app.snapshot.current_call as nat) + " · safe tools: "@
        + text::decimal(app.snapshot.safe_tools.len()) + match app.approval {
        Some(call) => " approval: "@ + call.name,
        None => Seq::empty(),
    }
}

/// The header.
pub fn header_text(app: &App) -> (r: String)
    ensures
        r@ == header_of(app.deep_view()),
{
    let mut header = text::cat("Lean Coding Agent · phase: ", app.snapshot.phase.as_str());
    header.append(" · pending: ");
    header.append(text::number(app.snapshot.pending_calls.len() as u64).as_str());
    header.append(" · active: ");
    header.append(text::number(app.snapshot.current_call).as_str());
    header.append(" · safe tools: ");
    header.append(text::number(app.snapshot.safe_tools.len() as u64).as_str());
    let ghost told = header@;
    if let Some(call) = &app.approval {
        header.append(" approval: ");
        header.append(call.name.as_str());
    }
    assert(header@ =~= told + match app.deep_view().approval {
        Some(call) => " approval: "@ + call.name,
        None => Seq::empty(),
    });
    header
}

/// The title of the input.
pub open spec fn title_of(app: AppView) -> Seq<char> {
    if app.approval is Some {
        "Approval is pending"@
    } else {
        "Prompt"@
    }
}

/// How the rows of a frame are divided: the header, the transcript, the input and the status.
pub open spec fn frame_rows() -> Seq<AreaSize> {
    seq![
        AreaSize::Exactly(1),
        AreaSize::AtLeast(4),
        AreaSize::Exactly(3),
        AreaSize::Exactly(1),
    ]
}

/// Draws a frame: the screen is divided, and what is known stands in its parts.
pub fn draw(app: &App, area: Rect) -> (r: FrameContent)
    ensures
        r.header@ == header_of(app.deep_view()),
        r.transcript.deep_view() == transcript_of(app.deep_view().snapshot.messages),
        r.input_title@ == title_of(app.deep_view()),
        r.header_area.x == area.x && r.header_area.width == area.width,
        r.transcript_area.x == area.x && r.transcript_area.width == area.width,
        r.input_area.x == area.x && r.input_area.width == area.width,
        r.status_area.x == area.x && r.status_area.width == area.width,
        in_order(
            seq![r.header_area, r.transcript_area, r.input_area, r.status_area],
            area,
            true,
        ),
        has_room(area, true, frame_rows()) ==> laid_out(
            seq![r.header_area, r.transcript_area, r.input_area, r.status_area],
            area,
            true,
            frame_rows(),
        ),
{
    let mut sizes: Vec<AreaSize> = Vec::new();
    sizes.push(AreaSize::Exactly(1));
    sizes.push(AreaSize::AtLeast(4));
    sizes.push(AreaSize::Exactly(3));
    sizes.push(AreaSize::Exactly(1));
    assert(sizes@ =~= frame_rows());
    let rows = split_area(area, true, &sizes);
    assert(rows@ =~= seq![rows[0], rows[1], rows[2], rows[3]]);
    let input_title = if app.approval.is_some() {
        "Approval is pending".to_owned()
    } else {
        "Prompt".to_owned()
    };
    FrameContent {
        header_area: rows[0],
        transcript_area: rows[1],
        input_area: rows[2],
        status_area: rows[3],
        header: header_text(app),
        transcript: app.transcript(),
        input_title,
    }
}

} // verus!
