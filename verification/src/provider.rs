//! Talking to a model: the requests of the two kinds of provider and their answers.
use crate::json::{self, object, said_text, Json, JsonView, ObjectBuilder};
use crate::protocol::ToolSpec;
use crate::runtime::{CompletionView, ModelCompletion};
use crate::session::{
    self, CoreMessage, CoreSnapshot, CoreToolCall, MessageView, SnapshotView, ToolCallView,
};
use crate::text;
use crate::todo::{TodoItemView, TodoPhaseView};
use crate::tools::ToolSpecView;
use vstd::prelude::*;
use vstd::string::*;

verus! {

/// The most bytes of a provider's answer.
pub const MAX_PROVIDER_RESPONSE_BYTES: usize = 4 * 1024 * 1024;

/// A provider of models.
#[derive(Clone, Copy, Debug, PartialEq, Eq, Structural)]
pub enum Provider {
    Openai,
    Anthropic,
    Linewise,
}

/// Why there is no answer.
#[derive(Debug)]
pub enum ProviderError {
    Status { status: u16, body: String },
    Json(serde_json::Error),
    ResponseTooLarge { limit: usize },
    MissingCompletion,
    InvalidToolArguments,
    UnknownTool,
    OmpTokenRejected { message: String },
    OmpTokenEncoding,
    EmptyOmpToken,
}

/// What such an error says; what is wrong with a JSON text is left to `serde_json`.
pub enum ProviderErrorView {
    Status { status: u16, body: Seq<char> },
    Json,
    ResponseTooLarge { limit: usize },
    MissingCompletion,
    InvalidToolArguments,
    UnknownTool,
    OmpTokenRejected { message: Seq<char> },
    OmpTokenEncoding,
    EmptyOmpToken,
}

impl DeepView for ProviderError {
    type V = ProviderErrorView;

    open spec fn deep_view(&self) -> ProviderErrorView {
        match self {
            ProviderError::Status { status, body } => ProviderErrorView::Status {
                status: *status,
                body: body@,
            },
            ProviderError::Json(_) => ProviderErrorView::Json,
            ProviderError::ResponseTooLarge { limit } => ProviderErrorView::ResponseTooLarge {
                limit: *limit,
            },
            ProviderError::MissingCompletion => ProviderErrorView::MissingCompletion,
            ProviderError::InvalidToolArguments => ProviderErrorView::InvalidToolArguments,
            ProviderError::UnknownTool => ProviderErrorView::UnknownTool,
            ProviderError::OmpTokenRejected { message } => ProviderErrorView::OmpTokenRejected {
                message: message@,
            },
            ProviderError::OmpTokenEncoding => ProviderErrorView::OmpTokenEncoding,
            ProviderError::EmptyOmpToken => ProviderErrorView::EmptyOmpToken,
        }
    }
}

/// Whether a body tells that the conversation is too long for the model.
pub open spec fn tells_overflow(body: Seq<char>) -> bool {
    let message = text::ascii_lowered(body);
    text::contains_text(message, "context length"@) || text::contains_text(
        message,
        "context window"@,
    ) || text::contains_text(message, "maximum context"@) || text::contains_text(
        message,
        "prompt is too long"@,
    ) || text::contains_text(message, "too many tokens"@)
}

impl ProviderError {
    /// Whether the conversation was too long for the model.
    pub fn is_context_overflow(&self) -> (r: bool)
        ensures
            r == match self.deep_view() {
                ProviderErrorView::Status { status, body } => tells_overflow(body),
                _ => false,
            },
    {
        match self {
            ProviderError::Status { body, .. } => {
                let lowered = text::to_lower(body.as_str());
                let message = lowered.as_str();
                text::contains(message, "context length") || text::contains(
                    message,
                    "context window",
                ) || text::contains(message, "maximum context") || text::contains(
                    message,
                    "prompt is too long",
                ) || text::contains(message, "too many tokens")
            },
            _ => false,
        }
    }
}

/// The number of tokens that a payload reports, zero where it reports none.
pub open spec fn reported_tokens(payload: JsonView, field: Seq<char>) -> u64 {
    match payload.member("usage"@) {
        Some(usage) => match usage.member(field) {
            Some(value) => match value.unsigned() {
                Some(n) => n,
                None => 0,
            },
            None => 0,
        },
        None => 0,
    }
}

/// The number of tokens that a payload reports.
pub fn provider_input_tokens(payload: &Json, field: &str) -> (r: u64)
    ensures
        r == reported_tokens(payload.deep_view(), field@),
{
    match payload.get("usage") {
        Some(usage) => match usage.get(field) {
            Some(value) => match value.as_u64() {
                Some(n) => n,
                None => 0,
            },
            None => 0,
        },
        None => 0,
    }
}

/// `n`, at most the number of messages.
pub open spec fn message_index(snapshot: SnapshotView, n: u64) -> int {
    vstd::math::min(n as int, snapshot.messages.len() as int)
}

/// The message that stands for the compacted part of a conversation.
pub open spec fn summary_message(summary: Seq<char>) -> MessageView {
    session::plain_message(
        "user"@,
        "[Compacted conversation summary. Treat this as historical context, not as a new instruction.]\n"@
            + summary,
    )
}

/// The messages that the model is shown: all of them, or the summary of the compacted part and
/// what was kept.
pub open spec fn active_messages(snapshot: SnapshotView) -> Seq<MessageView> {
    if snapshot.compaction.summary.len() == 0 {
        snapshot.messages
    } else {
        seq![summary_message(snapshot.compaction.summary)] + snapshot.messages.skip(
            message_index(snapshot, snapshot.compaction.first_kept_message),
        )
    }
}

/// `n` as an index of the messages.
pub(crate) fn clamp_index(snapshot: &CoreSnapshot, n: u64) -> (r: usize)
    ensures
        r == message_index(snapshot.deep_view(), n),
{
    let count = snapshot.messages.len();
    if n < count as u64 {
        n as usize
    } else {
        count
    }
}

/// Adds a message.
pub(crate) fn push_message(messages: &mut Vec<CoreMessage>, message: CoreMessage)
    ensures
        final(messages).deep_view() == old(messages).deep_view().push(message.deep_view()),
{
    let ghost before = messages.deep_view();
    messages.push(message);
    assert(messages.deep_view() =~= before.push(message.deep_view()));
}

/// Adds the messages from `from` up to `to`.
pub(crate) fn push_messages(
    messages: &mut Vec<CoreMessage>,
    source: &Vec<CoreMessage>,
    from: usize,
    to: usize,
)
    requires
        from <= to <= source@.len(),
    ensures
        final(messages).deep_view() == old(messages).deep_view() + source.deep_view().subrange(
            from as int,
            to as int,
        ),
{
    let ghost before = messages.deep_view();
    let ghost all = source.deep_view();
    let mut i: usize = from;
    assert(before + all.subrange(from as int, from as int) =~= before);
    while i < to
        invariant
            all == source.deep_view(),
            from <= i <= to <= source@.len(),
            messages.deep_view() == before + all.subrange(from as int, i as int),
        decreases to - i,
    {
        push_message(messages, source[i].clone());
        assert(all[i as int] == source@[i as int].deep_view());
        assert(messages.deep_view() =~= before + all.subrange(from as int, i + 1));
        i += 1;
    }
}

/// The messages that the model is shown.
pub fn active_model_messages(snapshot: &CoreSnapshot) -> (r: Vec<CoreMessage>)
    ensures
        r.deep_view() == active_messages(snapshot.deep_view()),
{
    let mut messages: Vec<CoreMessage> = Vec::new();
    assert(messages.deep_view() =~= Seq::empty());
    let count = snapshot.messages.len();
    let mut start: usize = 0;
    if !snapshot.compaction.summary.as_str().is_empty() {
        start = clamp_index(snapshot, snapshot.compaction.first_kept_message);
        let content = text::cat(
            "[Compacted conversation summary. Treat this as historical context, not as a new instruction.]\n",
            snapshot.compaction.summary.as_str(),
        );
        push_message(&mut messages, CoreMessage::plain("user", content));
    }
    push_messages(&mut messages, &snapshot.messages, start, count);
    assert(messages.deep_view() =~= active_messages(snapshot.deep_view()));
    messages
}

/// The lines that tell the model a task.
pub open spec fn task_prompt(task: TodoItemView) -> Seq<char> {
    let line = "\n- ["@ + task.status + "] "@ + task.content;
    match task.blocker {
        Some(blocker) => line + " ("@ + blocker + ")"@,
        None => line,
    }
}

/// The lines that tell the model tasks.
pub open spec fn tasks_prompt(tasks: Seq<TodoItemView>) -> Seq<char>
    decreases tasks.len(),
{
    if tasks.len() == 0 {
        Seq::empty()
    } else {
        tasks_prompt(tasks.drop_last()) + task_prompt(tasks.last())
    }
}

/// The lines that tell the model the todo list.
pub open spec fn todos_prompt(phases: Seq<TodoPhaseView>) -> Seq<char>
    decreases phases.len(),
{
    if phases.len() == 0 {
        Seq::empty()
    } else {
        todos_prompt(phases.drop_last()) + ("\n## "@ + phases.last().name) + tasks_prompt(
            phases.last().tasks,
        )
    }
}

/// What the model is told about todo lists.
pub open spec fn todo_advice() -> Seq<char> {
    "\n\nUse the todo tool for work with three or more distinct steps. Keep its phases and statuses current."@
}

/// What the model is told in plan mode.
pub open spec fn plan_advice() -> Seq<char> {
    "\n\nPLAN MODE IS ACTIVE. Research without changing workspace state. Read and search freely, but do not call write, edit, or mutating shell commands. Update the structured todo list as you learn. Use the plan tool with op=update while drafting and op=propose only when the full Markdown plan is ready for human review."@
}

/// The system prompt for a session: the configured one, advice, the plan and the todo list.
pub open spec fn system_prompt_for(prompt: Seq<char>, snapshot: SnapshotView) -> Seq<char> {
    let advised = prompt + todo_advice();
    let planning = if snapshot.plan.enabled {
        advised + plan_advice()
    } else {
        advised
    };
    let planned = if snapshot.plan.content.len() > 0 {
        planning + "\n\nCurrent plan revision "@ + text::decimal(snapshot.plan.revision as nat)
            + " ("@ + snapshot.plan.status + ")\n"@ + snapshot.plan.content
    } else {
        planning
    };
    if snapshot.todos.len() > 0 {
        planned + "\n\nCurrent todo state:"@ + todos_prompt(snapshot.todos)
    } else {
        planned
    }
}

/// Adds the lines that tell the model the tasks of a phase.
fn push_tasks_prompt(prompt: &mut String, tasks: &Vec<crate::todo::CoreTodoItem>)
    ensures
        final(prompt)@ == old(prompt)@ + tasks_prompt(tasks.deep_view()),
{
    let ghost start = prompt@;
    let ghost all = tasks.deep_view();
    let mut i: usize = 0;
    assert(start + tasks_prompt(all.take(0)) =~= start);
    while i < tasks.len()
        invariant
            all == tasks.deep_view(),
            i <= tasks@.len(),
            prompt@ == start + tasks_prompt(all.take(i as int)),
        decreases tasks@.len() - i,
    {
        let task = &tasks[i];
        assert(all.take(i + 1).drop_last() =~= all.take(i as int));
        assert(all[i as int] == task.deep_view());
        let ghost before = prompt@;
        prompt.append("\n- [");
        prompt.append(task.status.as_str());
        prompt.append("] ");
        prompt.append(task.content.as_str());
        if let Some(blocker) = &task.blocker {
            prompt.append(" (");
            prompt.append(blocker.as_str());
            prompt.append(")");
        }
        assert(prompt@ =~= before + task_prompt(task.deep_view()));
        assert(prompt@ =~= start + tasks_prompt(all.take(i + 1)));
        i += 1;
    }
    assert(all.take(i as int) =~= all);
}

/// The system prompt for a session.
pub fn rendered_system_prompt(system_prompt: &str, snapshot: &CoreSnapshot) -> (r: String)
    ensures
        r@ == system_prompt_for(system_prompt@, snapshot.deep_view()),
{
    let mut prompt = text::cat(
        system_prompt,
        "\n\nUse the todo tool for work with three or more distinct steps. Keep its phases and statuses current.",
    );
    if snapshot.plan.enabled {
        prompt.append(
            "\n\nPLAN MODE IS ACTIVE. Research without changing workspace state. Read and search freely, but do not call write, edit, or mutating shell commands. Update the structured todo list as you learn. Use the plan tool with op=update while drafting and op=propose only when the full Markdown plan is ready for human review.",
        );
    }
    if !snapshot.plan.content.as_str().is_empty() {
        prompt.append("\n\nCurrent plan revision ");
        prompt.append(text::number(snapshot.plan.revision).as_str());
        prompt.append(" (");
        prompt.append(snapshot.plan.status.as_str());
        prompt.append(")\n");
        prompt.append(snapshot.plan.content.as_str());
    }
    if snapshot.todos.len() > 0 {
        prompt.append("\n\nCurrent todo state:");
        let ghost start = prompt@;
        let ghost all = snapshot.todos.deep_view();
        let mut i: usize = 0;
        assert(start + todos_prompt(all.take(0)) =~= start);
        while i < snapshot.todos.len()
            invariant
                all == snapshot.todos.deep_view(),
                i <= snapshot.todos@.len(),
                prompt@ == start + todos_prompt(all.take(i as int)),
            decreases snapshot.todos@.len() - i,
        {
            let phase = &snapshot.todos[i];
            assert(all.take(i + 1).drop_last() =~= all.take(i as int));
            assert(all[i as int] == phase.deep_view());
            prompt.append("\n## ");
            prompt.append(phase.name.as_str());
            push_tasks_prompt(&mut prompt, &phase.tasks);
            assert(prompt@ =~= start + todos_prompt(all.take(i + 1)));
            i += 1;
        }
        assert(all.take(i as int) =~= all);
    }
    prompt
}

/// Whether the calls name declared tools alone.
pub open spec fn all_declared(calls: Seq<ToolCallView>, tools: Seq<ToolSpecView>) -> bool {
    forall|i: int|
        0 <= i < calls.len() ==> crate::tools::declares(tools, (#[trigger] calls[i]).name)
}

/// Takes an answer whose calls name declared tools alone.
pub fn accept_completion(completion: ModelCompletion, declared_tools: &Vec<ToolSpec>) -> (r: Result<
    ModelCompletion,
    ProviderError,
>)
    ensures
        if all_declared(completion.deep_view().tool_calls, declared_tools.deep_view()) {
            r == Ok::<ModelCompletion, ProviderError>(completion)
        } else {
            r matches Err(e) && e.deep_view() == ProviderErrorView::UnknownTool
        },
{
    let ghost calls = completion.tool_calls.deep_view();
    let mut i: usize = 0;
    while i < completion.tool_calls.len()
        invariant
            calls == completion.tool_calls.deep_view(),
            i <= completion.tool_calls@.len(),
            forall|j: int|
                0 <= j < i ==> crate::tools::declares(
                    declared_tools.deep_view(),
                    (#[trigger] calls[j]).name,
                ),
        decreases completion.tool_calls@.len() - i,
    {
        assert(calls[i as int].name == completion.tool_calls@[i as int].name@);
        if !crate::tools::is_declared(declared_tools, completion.tool_calls[i].name.as_str()) {
            return Err(ProviderError::UnknownTool);
        }
        i += 1;
    }
    Ok(completion)
}

/// A text, or null where there is none.
pub open spec fn text_or_null(s: Option<Seq<char>>) -> JsonView {
    match s {
        Some(s) => said_text(s),
        None => JsonView::Null,
    }
}

/// A text, or null where there is none.
pub(crate) fn optional_text(s: &Option<String>) -> (r: Json)
    ensures
        r.deep_view() == text_or_null(s.deep_view()),
{
    match s {
        Some(s) => Json::of_text(s.as_str()),
        None => Json::Null,
    }
}

/// A message with a role and a content.
pub open spec fn role_message(role: Seq<char>, content: JsonView) -> JsonView {
    object(seq![("role"@, said_text(role)), ("content"@, content)])
}

/// A call as an OpenAI message holds it.
pub open spec fn openai_call(call: ToolCallView) -> JsonView {
    object(
        seq![
            ("id"@, said_text(call.call_id)),
            ("type"@, said_text("function"@)),
            (
                "function"@,
                object(
                    seq![
                        ("name"@, said_text(call.name)),
                        (
                            "arguments"@,
                            said_text(json::json_text(json::held_json(call.arguments))),
                        ),
                    ],
                ),
            ),
        ],
    )
}

/// The OpenAI form of a message; a message of another role has none.
pub open spec fn openai_message(message: MessageView) -> Option<JsonView> {
    if message.role == "user"@ {
        Some(role_message("user"@, said_text(message.content)))
    } else if message.role == "assistant"@ {
        if message.tool_calls.len() == 0 {
            Some(role_message("assistant"@, said_text(message.content)))
        } else {
            Some(
                object(
                    seq![
                        ("role"@, said_text("assistant"@)),
                        ("content"@, said_text(message.content)),
                        (
                            "tool_calls"@,
                            JsonView::Array(
                                message.tool_calls.map_values(
                                    |call: ToolCallView| openai_call(call),
                                ),
                            ),
                        ),
                    ],
                ),
            )
        }
    } else if message.role == "tool"@ {
        Some(
            object(
                seq![
                    ("role"@, said_text("tool"@)),
                    ("tool_call_id"@, text_or_null(message.tool_call_id)),
                    ("content"@, said_text(message.content)),
                ],
            ),
        )
    } else {
        None
    }
}

/// The OpenAI forms of messages behind the system prompt.
pub open spec fn openai_messages(system_prompt: Seq<char>, messages: Seq<MessageView>) -> Seq<
    JsonView,
>
    decreases messages.len(),
{
    if messages.len() == 0 {
        seq![role_message("system"@, said_text(system_prompt))]
    } else {
        let before = openai_messages(system_prompt, messages.drop_last());
        match openai_message(messages.last()) {
            Some(message) => before.push(message),
            None => before,
        }
    }
}

/// A tool as an OpenAI request declares it.
pub open spec fn openai_tool(tool: ToolSpecView) -> JsonView {
    object(
        seq![
            ("type"@, said_text("function"@)),
            (
                "function"@,
                object(
                    seq![
                        ("name"@, said_text(tool.name)),
                        ("description"@, said_text(tool.description)),
                        ("parameters"@, tool.input_schema),
                    ],
                ),
            ),
        ],
    )
}

/// The request to an OpenAI model; tools are declared where there are any.
pub open spec fn openai_request_for(
    model: Seq<char>,
    snapshot: SnapshotView,
    tools: Seq<ToolSpecView>,
    system_prompt: Seq<char>,
) -> JsonView {
    let bare = seq![
        ("model"@, said_text(model)),
        (
            "messages"@,
            JsonView::Array(openai_messages(system_prompt, active_messages(snapshot))),
        ),
        ("stream"@, JsonView::Bool(false)),
    ];
    object(
        if tools.len() == 0 {
            bare
        } else {
            bare.push(
                (
                    "tools"@,
                    JsonView::Array(tools.map_values(|tool: ToolSpecView| openai_tool(tool))),
                ),
            ).push(("tool_choice"@, said_text("auto"@)))
        },
    )
}

/// Adds a JSON value.
pub(crate) fn push_json(items: &mut Vec<Json>, item: Json)
    ensures
        final(items).deep_view() == old(items).deep_view().push(item.deep_view()),
{
    let ghost before = items.deep_view();
    items.push(item);
    assert(items.deep_view() =~= before.push(item.deep_view()));
}

fn build_openai_call(call: &CoreToolCall) -> (r: Json)
    ensures
        r.deep_view() == openai_call(call.deep_view()),
{
    let function = ObjectBuilder::new().text("name", call.name.as_str()).text(
        "arguments",
        json::json_to_text(&call.arguments).as_str(),
    );
    let members = ObjectBuilder::new().text("id", call.call_id.as_str()).text(
        "type",
        "function",
    ).with("function", function.build());
    assert(members.said() =~= seq![
        ("id"@, said_text(call.call_id@)),
        ("type"@, said_text("function"@)),
        ("function"@, object(function.said())),
    ]);
    assert(function.said() =~= seq![
        ("name"@, said_text(call.name@)),
        (
            "arguments"@,
            said_text(json::json_text(json::held_json(call.arguments.deep_view()))),
        ),
    ]);
    members.build()
}

fn build_openai_calls(calls: &Vec<CoreToolCall>) -> (r: Vec<Json>)
    ensures
        r.deep_view() == calls.deep_view().map_values(|call: ToolCallView| openai_call(call)),
{
    let ghost wanted = calls.deep_view().map_values(|call: ToolCallView| openai_call(call));
    let mut out: Vec<Json> = Vec::new();
    let mut i: usize = 0;
    assert(out.deep_view() =~= wanted.take(0));
    while i < calls.len()
        invariant
            wanted == calls.deep_view().map_values(|call: ToolCallView| openai_call(call)),
            i <= calls@.len(),
            out.deep_view() == wanted.take(i as int),
        decreases calls@.len() - i,
    {
        assert(calls.deep_view()[i as int] == calls@[i as int].deep_view());
        push_json(&mut out, build_openai_call(&calls[i]));
        assert(out.deep_view() =~= wanted.take(i + 1));
        i += 1;
    }
    assert(wanted.take(i as int) =~= wanted);
    out
}

pub(crate) fn build_role_message(role: &str, content: Json) -> (r: Json)
    ensures
        r.deep_view() == role_message(role@, content.deep_view()),
{
    let members = ObjectBuilder::new().text("role", role).with("content", content);
    assert(members.said() =~= seq![
        ("role"@, said_text(role@)),
        ("content"@, content.deep_view()),
    ]);
    members.build()
}

fn build_openai_message(message: &CoreMessage) -> (r: Option<Json>)
    ensures
        r.deep_view() == openai_message(message.deep_view()),
{
    let role = message.role.as_str();
    let content = message.content.as_str();
    if text::str_eq(role, "user") {
        Some(build_role_message("user", Json::of_text(content)))
    } else if text::str_eq(role, "assistant") {
        if message.tool_calls.len() == 0 {
            Some(build_role_message("assistant", Json::of_text(content)))
        } else {
            let calls = build_openai_calls(&message.tool_calls);
            let members = ObjectBuilder::new().text("role", "assistant").text(
                "content",
                content,
            ).with("tool_calls", Json::of_items(calls));
            assert(members.said() =~= seq![
                ("role"@, said_text("assistant"@)),
                ("content"@, said_text(content@)),
                ("tool_calls"@, JsonView::Array(calls.deep_view())),
            ]);
            Some(members.build())
        }
    } else if text::str_eq(role, "tool") {
        let members = ObjectBuilder::new().text("role", "tool").with(
            "tool_call_id",
            optional_text(&message.tool_call_id),
        ).text("content", content);
        assert(members.said() =~= seq![
            ("role"@, said_text("tool"@)),
            ("tool_call_id"@, text_or_null(message.tool_call_id.deep_view())),
            ("content"@, said_text(content@)),
        ]);
        Some(members.build())
    } else {
        None
    }
}

fn build_openai_tool(tool: &ToolSpec) -> (r: Json)
    ensures
        r.deep_view() == openai_tool(tool.deep_view()),
{
    let function = ObjectBuilder::new().text("name", tool.name.as_str()).text(
        "description",
        tool.description.as_str(),
    ).with("parameters", tool.input_schema.clone());
    assert(function.said() =~= seq![
        ("name"@, said_text(tool.name@)),
        ("description"@, said_text(tool.description@)),
        ("parameters"@, tool.input_schema.deep_view()),
    ]);
    let members = ObjectBuilder::new().text("type", "function").with("function", function.build());
    assert(members.said() =~= seq![
        ("type"@, said_text("function"@)),
        ("function"@, object(function.said())),
    ]);
    members.build()
}

/// The OpenAI forms of messages behind the system prompt.
pub(crate) fn build_openai_messages(messages: &Vec<CoreMessage>, system_prompt: &str) -> (r: Vec<
    Json,
>)
    ensures
        r.deep_view() == openai_messages(system_prompt@, messages.deep_view()),
{
    let ghost all = messages.deep_view();
    let mut out: Vec<Json> = Vec::new();
    assert(out.deep_view() =~= Seq::empty());
    push_json(&mut out, build_role_message("system", Json::of_text(system_prompt)));
    assert(out.deep_view() =~= openai_messages(system_prompt@, all.take(0)));
    let mut i: usize = 0;
    while i < messages.len()
        invariant
            all == messages.deep_view(),
            i <= messages@.len(),
            out.deep_view() == openai_messages(system_prompt@, all.take(i as int)),
        decreases messages@.len() - i,
    {
        assert(all.take(i + 1).drop_last() =~= all.take(i as int));
        assert(all[i as int] == messages@[i as int].deep_view());
        if let Some(message) = build_openai_message(&messages[i]) {
            push_json(&mut out, message);
        }
        i += 1;
    }
    assert(all.take(i as int) =~= all);
    out
}

/// Tools as an OpenAI request declares them.
pub(crate) fn build_openai_tools(tools: &Vec<ToolSpec>) -> (r: Vec<Json>)
    ensures
        r.deep_view() == tools.deep_view().map_values(|tool: ToolSpecView| openai_tool(tool)),
{
    let ghost wanted = tools.deep_view().map_values(|tool: ToolSpecView| openai_tool(tool));
    let mut out: Vec<Json> = Vec::new();
    let mut i: usize = 0;
    assert(out.deep_view() =~= wanted.take(0));
    while i < tools.len()
        invariant
            wanted == tools.deep_view().map_values(|tool: ToolSpecView| openai_tool(tool)),
            i <= tools@.len(),
            out.deep_view() == wanted.take(i as int),
        decreases tools@.len() - i,
    {
        assert(tools.deep_view()[i as int] == tools@[i as int].deep_view());
        push_json(&mut out, build_openai_tool(&tools[i]));
        assert(out.deep_view() =~= wanted.take(i + 1));
        i += 1;
    }
    assert(wanted.take(i as int) =~= wanted);
    out
}

/// The request to an OpenAI model.
pub fn openai_request(
    model: &str,
    snapshot: &CoreSnapshot,
    tools: &Vec<ToolSpec>,
    system_prompt: &str,
) -> (r: Json)
    ensures
        r.deep_view() == openai_request_for(
            model@,
            snapshot.deep_view(),
            tools.deep_view(),
            system_prompt@,
        ),
{
    let messages = build_openai_messages(&active_model_messages(snapshot), system_prompt);
    let bare = ObjectBuilder::new().text("model", model).with(
        "messages",
        Json::of_items(messages),
    ).with("stream", Json::Bool(false));
    assert(bare.said() =~= seq![
        ("model"@, said_text(model@)),
        ("messages"@, JsonView::Array(messages.deep_view())),
        ("stream"@, JsonView::Bool(false)),
    ]);
    if tools.len() == 0 {
        bare.build()
    } else {
        let declared = build_openai_tools(tools);
        bare.with("tools", Json::of_items(declared)).text("tool_choice", "auto").build()
    }
}

/// A call that an OpenAI model asks for. Its arguments are the text of a JSON object.
pub open spec fn openai_called(call: JsonView) -> Result<ToolCallView, ProviderErrorView> {
    match (call.member_text("id"@), call.member("function"@)) {
        (Some(call_id), Some(function)) => match function.member_text("name"@) {
            Some(name) => match function.member_text("arguments"@) {
                Some(arguments) => match json::parsed_json(arguments) {
                    Some(value) => if value is Object {
                        Ok(ToolCallView { call_id, name, arguments: value })
                    } else {
                        Err(ProviderErrorView::InvalidToolArguments)
                    },
                    None => Err(ProviderErrorView::Json),
                },
                None => Err(ProviderErrorView::InvalidToolArguments),
            },
            None => Err(ProviderErrorView::MissingCompletion),
        },
        _ => Err(ProviderErrorView::MissingCompletion),
    }
}

/// The calls that an OpenAI model asks for, or what is wrong with the first bad one.
pub open spec fn openai_calls(calls: Seq<JsonView>) -> Result<Seq<ToolCallView>, ProviderErrorView>
    decreases calls.len(),
{
    if calls.len() == 0 {
        Ok(Seq::empty())
    } else {
        match openai_calls(calls.drop_last()) {
            Ok(before) => match openai_called(calls.last()) {
                Ok(call) => Ok(before.push(call)),
                Err(error) => Err(error),
            },
            Err(error) => Err(error),
        }
    }
}

proof fn lemma_calls_error(calls: Seq<JsonView>, upto: int)
    requires
        0 <= upto <= calls.len(),
        openai_calls(calls.take(upto)) is Err,
    ensures
        openai_calls(calls) == openai_calls(calls.take(upto)),
    decreases calls.len(),
{
    if upto < calls.len() {
        assert(calls.drop_last().take(upto) =~= calls.take(upto));
        lemma_calls_error(calls.drop_last(), upto);
    } else {
        assert(calls.take(upto) =~= calls);
    }
}

/// A call that an OpenAI model asks for.
fn parse_openai_call(call: &Json) -> (r: Result<CoreToolCall, ProviderError>)
    ensures
        match openai_called(call.deep_view()) {
            Ok(wanted) => r matches Ok(c) && c.deep_view() == wanted,
            Err(error) => r matches Err(e) && e.deep_view() == error,
        },
{
    let (call_id, function) = match (call.get_str("id"), call.get("function")) {
        (Some(call_id), Some(function)) => (call_id, function),
        _ => {
            return Err(ProviderError::MissingCompletion);
        },
    };
    let name = match function.get_str("name") {
        Some(name) => name,
        None => {
            return Err(ProviderError::MissingCompletion);
        },
    };
    let arguments = match function.get_str("arguments") {
        Some(arguments) => arguments,
        None => {
            return Err(ProviderError::InvalidToolArguments);
        },
    };
    openai_call_with(call_id, name, json::parse_json(arguments))
}

/// The call with these arguments, once they have been read.
pub fn openai_call_with(
    call_id: &str,
    name: &str,
    arguments: Result<Json, serde_json::Error>,
) -> (r: Result<CoreToolCall, ProviderError>)
    ensures
        match arguments {
            Ok(value) => if value.deep_view() is Object {
                r matches Ok(c) && c.deep_view() == (ToolCallView {
                    call_id: call_id@,
                    name: name@,
                    arguments: value.deep_view(),
                })
            } else {
                r matches Err(e) && e.deep_view() == ProviderErrorView::InvalidToolArguments
            },
            Err(given) => r matches Err(ProviderError::Json(e)) && e == given,
        },
{
    match arguments {
        Ok(value) => {
            if let Json::Object(_) = &value {
                Ok(
                    CoreToolCall {
                        call_id: call_id.to_owned(),
                        name: name.to_owned(),
                        arguments: value,
                    },
                )
            } else {
                Err(ProviderError::InvalidToolArguments)
            }
        },
        Err(error) => Err(ProviderError::Json(error)),
    }
}

/// The calls that an OpenAI model asks for.
pub fn parse_openai_tool_calls(calls: &Vec<Json>) -> (r: Result<Vec<CoreToolCall>, ProviderError>)
    ensures
        match openai_calls(calls.deep_view()) {
            Ok(wanted) => r matches Ok(v) && v.deep_view() == wanted,
            Err(error) => r matches Err(e) && e.deep_view() == error,
        },
{
    let ghost all = calls.deep_view();
    let mut out: Vec<CoreToolCall> = Vec::new();
    let mut i: usize = 0;
    assert(out.deep_view() =~= Seq::empty());
    while i < calls.len()
        invariant
            all == calls.deep_view(),
            i <= calls@.len(),
            openai_calls(all.take(i as int)) == Ok::<Seq<ToolCallView>, ProviderErrorView>(
                out.deep_view(),
            ),
        decreases calls@.len() - i,
    {
        assert(all.take(i + 1).drop_last() =~= all.take(i as int));
        assert(all[i as int] == calls@[i as int].deep_view());
        match parse_openai_call(&calls[i]) {
            Ok(call) => {
                let ghost before = out.deep_view();
                out.push(call);
                assert(out.deep_view() =~= before.push(call.deep_view()));
            },
            Err(error) => {
                proof {
                    lemma_calls_error(all, i + 1);
                }
                return Err(error);
            },
        }
        i += 1;
    }
    assert(all.take(i as int) =~= all);
    Ok(out)
}

/// The message of an OpenAI answer.
pub open spec fn openai_answer(payload: JsonView) -> Option<JsonView> {
    match payload.member("choices"@) {
        Some(choices) => match choices.items() {
            Some(items) => if items.len() > 0 {
                items[0].member("message"@)
            } else {
                None
            },
            None => None,
        },
        None => None,
    }
}

/// What an OpenAI model answered.
pub open spec fn openai_completed(payload: JsonView) -> Result<CompletionView, ProviderErrorView> {
    match openai_answer(payload) {
        Some(message) => {
            let content = match message.member_text("content"@) {
                Some(content) => content,
                None => Seq::empty(),
            };
            let calls = match message.member("tool_calls"@) {
                Some(calls) => match calls.items() {
                    Some(items) => openai_calls(items),
                    None => Ok(Seq::empty()),
                },
                None => Ok(Seq::empty()),
            };
            match calls {
                Ok(tool_calls) => Ok(
                    CompletionView {
                        content,
                        tool_calls,
                        input_tokens: reported_tokens(payload, "prompt_tokens"@),
                    },
                ),
                Err(error) => Err(error),
            }
        },
        None => Err(ProviderErrorView::MissingCompletion),
    }
}

/// The message of an OpenAI answer.
fn find_openai_answer(payload: &Json) -> (r: Option<&Json>)
    ensures
        r is Some <==> openai_answer(payload.deep_view()) is Some,
        r matches Some(message) ==> openai_answer(payload.deep_view()) == Some(
            message.deep_view(),
        ),
{
    match payload.get("choices") {
        Some(choices) => match choices.as_array() {
            Some(items) => {
                if items.len() > 0 {
                    assert(items.deep_view()[0] == items@[0].deep_view());
                    items[0].get("message")
                } else {
                    None
                }
            },
            None => None,
        },
        None => None,
    }
}

/// What an OpenAI model answered.
pub fn openai_completion(payload: &Json) -> (r: Result<ModelCompletion, ProviderError>)
    ensures
        match openai_completed(payload.deep_view()) {
            Ok(wanted) => r matches Ok(c) && c.deep_view() == wanted,
            Err(error) => r matches Err(e) && e.deep_view() == error,
        },
{
    let message = match find_openai_answer(payload) {
        Some(message) => message,
        None => {
            return Err(ProviderError::MissingCompletion);
        },
    };
    let content = match message.get_str("content") {
        Some(content) => content.to_owned(),
        None => String::new(),
    };
    let mut tool_calls: Vec<CoreToolCall> = Vec::new();
    assert(tool_calls.deep_view() =~= Seq::empty());
    if let Some(calls) = message.get("tool_calls") {
        if let Some(items) = calls.as_array() {
            match parse_openai_tool_calls(items) {
                Ok(parsed) => {
                    tool_calls = parsed;
                },
                Err(error) => {
                    return Err(error);
                },
            }
        }
    }
    let input_tokens = provider_input_tokens(payload, "prompt_tokens");
    Ok(ModelCompletion { content, tool_calls, input_tokens })
}

} // verus!
