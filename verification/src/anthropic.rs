//! The messages of an Anthropic model: requests, and what it answers.
use crate::json::{object, said_number, said_text, Json, JsonNumber, JsonView, ObjectBuilder};
use crate::protocol::ToolSpec;
use crate::provider::{
    active_messages, active_model_messages, build_role_message, optional_text,
    provider_input_tokens, push_json, reported_tokens, role_message, text_or_null, ProviderError,
    ProviderErrorView,
};
use crate::runtime::{CompletionView, ModelCompletion};
use crate::session::{CoreMessage, CoreSnapshot, CoreToolCall, MessageView, SnapshotView, ToolCallView};
use crate::text;
use crate::tools::ToolSpecView;
use vstd::prelude::*;
use vstd::string::*;

verus! {

/// The most tokens asked of an Anthropic model.
pub const ANTHROPIC_MAX_TOKENS: u64 = 4096;

/// One turn of a conversation: who speaks, and the content.
#[derive(Debug)]
pub struct Turn {
    pub user: bool,
    pub content: Json,
}

/// What a turn holds.
#[verifier::ext_equal]
pub struct TurnView {
    pub user: bool,
    pub content: JsonView,
}

impl DeepView for Turn {
    type V = TurnView;

    open spec fn deep_view(&self) -> TurnView {
        TurnView { user: self.user, content: self.content.deep_view() }
    }
}

impl TurnView {
    /// The turn as a message.
    pub open spec fn message(self) -> JsonView {
        role_message(
            if self.user {
                "user"@
            } else {
                "assistant"@
            },
            self.content,
        )
    }
}

/// Turns with one more. Blocks of the user that follow blocks of the user join their turn.
pub open spec fn with_turn(turns: Seq<TurnView>, next: TurnView) -> Seq<TurnView> {
    if next.user && turns.len() > 0 && turns.last().user {
        match (turns.last().content, next.content) {
            (JsonView::Array(before), JsonView::Array(more)) => turns.drop_last().push(
                TurnView { user: true, content: JsonView::Array(before + more) },
            ),
            _ => turns.push(next),
        }
    } else {
        turns.push(next)
    }
}

/// A block of text.
pub open spec fn text_block(content: Seq<char>) -> JsonView {
    object(seq![("type"@, said_text("text"@)), ("text"@, said_text(content))])
}

/// A block that calls a tool.
pub open spec fn call_block(call: ToolCallView) -> JsonView {
    object(
        seq![
            ("type"@, said_text("tool_use"@)),
            ("id"@, said_text(call.call_id)),
            ("name"@, said_text(call.name)),
            ("input"@, call.arguments),
        ],
    )
}

/// A block that gives the result of a tool.
pub open spec fn result_block(message: MessageView) -> JsonView {
    object(
        seq![
            ("type"@, said_text("tool_result"@)),
            ("tool_use_id"@, text_or_null(message.tool_call_id)),
            ("content"@, said_text(message.content)),
            ("is_error"@, JsonView::Bool(message.is_error)),
        ],
    )
}

/// The turn of the assistant: its text, where there is any, and its calls.
pub open spec fn assistant_turn(message: MessageView) -> TurnView {
    let calls = message.tool_calls.map_values(|call: ToolCallView| call_block(call));
    TurnView {
        user: false,
        content: JsonView::Array(
            if message.content.len() > 0 {
                seq![text_block(message.content)] + calls
            } else {
                calls
            },
        ),
    }
}

/// The turn of the user that gives the result of a tool.
pub open spec fn result_turn(message: MessageView) -> TurnView {
    TurnView { user: true, content: JsonView::Array(seq![result_block(message)]) }
}

/// The turn for a message; a message of another role has none.
pub open spec fn turn_of(message: MessageView) -> Option<TurnView> {
    if message.role == "user"@ {
        Some(
            TurnView { user: true, content: JsonView::Array(seq![text_block(message.content)]) },
        )
    } else if message.role == "assistant"@ {
        Some(assistant_turn(message))
    } else if message.role == "tool"@ {
        Some(result_turn(message))
    } else {
        None
    }
}

/// The turns of a conversation.
pub open spec fn turns_of(messages: Seq<MessageView>) -> Seq<TurnView>
    decreases messages.len(),
{
    if messages.len() == 0 {
        Seq::empty()
    } else {
        let before = turns_of(messages.drop_last());
        match turn_of(messages.last()) {
            Some(turn) => with_turn(before, turn),
            None => before,
        }
    }
}

/// The messages of turns.
pub open spec fn turn_messages(turns: Seq<TurnView>) -> Seq<JsonView> {
    turns.map_values(|turn: TurnView| turn.message())
}

/// Every turn holds blocks, and the user never has two turns in a row.
pub proof fn law_turns_alternate(messages: Seq<MessageView>)
    ensures
        forall|i: int|
            0 <= i < turns_of(messages).len() ==> (#[trigger] turns_of(messages)[i]).content is Array,
        forall|i: int|
            0 < i < turns_of(messages).len() && (#[trigger] turns_of(messages)[i]).user
                ==> !turns_of(messages)[i - 1].user,
    decreases messages.len(),
{
    if messages.len() > 0 {
        law_turns_alternate(messages.drop_last());
        let before = turns_of(messages.drop_last());
        if let Some(turn) = turn_of(messages.last()) {
            if turn.user && before.len() > 0 {
                assert(before[before.len() - 1].content is Array);
            }
        }
    }
}

/// The blocks of turns, one after the other.
pub open spec fn turn_blocks(turns: Seq<TurnView>) -> Seq<JsonView>
    decreases turns.len(),
{
    if turns.len() == 0 {
        Seq::empty()
    } else {
        turn_blocks(turns.drop_last()) + match turns.last().content {
            JsonView::Array(blocks) => blocks,
            _ => Seq::empty(),
        }
    }
}

/// The blocks of messages, one after the other.
pub open spec fn message_blocks(messages: Seq<MessageView>) -> Seq<JsonView>
    decreases messages.len(),
{
    if messages.len() == 0 {
        Seq::empty()
    } else {
        message_blocks(messages.drop_last()) + match turn_of(messages.last()) {
            Some(TurnView { user: _, content: JsonView::Array(blocks) }) => blocks,
            _ => Seq::empty(),
        }
    }
}

/// Joining turns keeps every block of every message, in order.
pub proof fn law_turns_keep_blocks(messages: Seq<MessageView>)
    ensures
        turn_blocks(turns_of(messages)) == message_blocks(messages),
    decreases messages.len(),
{
    if messages.len() > 0 {
        law_turns_keep_blocks(messages.drop_last());
        law_turns_alternate(messages.drop_last());
        let before = turns_of(messages.drop_last());
        if let Some(turn) = turn_of(messages.last()) {
            let after = with_turn(before, turn);
            if turn.user && before.len() > 0 && before.last().user {
                assert(after.drop_last() =~= before.drop_last());
                assert(turn_blocks(after) =~= message_blocks(messages));
            } else {
                assert(after.drop_last() =~= before);
            }
        }
    }
}

/// Adds a turn; blocks of the user that follow blocks of the user join their turn.
pub fn push_turn(turns: &mut Vec<Turn>, next: Turn)
    ensures
        final(turns).deep_view() == with_turn(old(turns).deep_view(), next.deep_view()),
{
    let ghost before = turns.deep_view();
    if next.user {
        if let Some(last) = turns.pop() {
            assert(before.drop_last() =~= turns.deep_view());
            assert(before.last() == last.deep_view());
            if last.user {
                let Turn { user: _, content } = last;
                match (content, next.content) {
                    (Json::Array(mut blocks), Json::Array(mut more)) => {
                        let ghost joined = blocks.deep_view() + more.deep_view();
                        assert(before.last().content.items()->0 =~= blocks.deep_view());
                        assert(next.deep_view().content.items()->0 =~= more.deep_view());
                        blocks.append(&mut more);
                        assert(blocks.deep_view() =~= joined);
                        turns.push(Turn { user: true, content: Json::of_items(blocks) });
                        assert(turns.deep_view() =~= before.drop_last().push(
                            TurnView { user: true, content: JsonView::Array(joined) },
                        ));
                    },
                    (content, more) => {
                        turns.push(Turn { user: true, content });
                        assert(turns.deep_view() =~= before);
                        turns.push(Turn { user: true, content: more });
                        assert(turns.deep_view() =~= before.push(next.deep_view()));
                    },
                }
            } else {
                turns.push(last);
                assert(turns.deep_view() =~= before);
                turns.push(next);
                assert(turns.deep_view() =~= before.push(next.deep_view()));
            }
            return ;
        }
    }
    turns.push(next);
    assert(turns.deep_view() =~= before.push(next.deep_view()));
}

fn build_text_block(content: &str) -> (r: Json)
    ensures
        r.deep_view() == text_block(content@),
{
    let members = ObjectBuilder::new().text("type", "text").text("text", content);
    assert(members.said() =~= seq![("type"@, said_text("text"@)), ("text"@, said_text(content@))]);
    members.build()
}

fn build_call_block(call: &CoreToolCall) -> (r: Json)
    ensures
        r.deep_view() == call_block(call.deep_view()),
{
    let members = ObjectBuilder::new().text("type", "tool_use").text(
        "id",
        call.call_id.as_str(),
    ).text("name", call.name.as_str()).with("input", call.arguments.clone());
    assert(members.said() =~= seq![
        ("type"@, said_text("tool_use"@)),
        ("id"@, said_text(call.call_id@)),
        ("name"@, said_text(call.name@)),
        ("input"@, call.arguments.deep_view()),
    ]);
    members.build()
}

fn build_result_block(message: &CoreMessage) -> (r: Json)
    ensures
        r.deep_view() == result_block(message.deep_view()),
{
    let members = ObjectBuilder::new().text("type", "tool_result").with(
        "tool_use_id",
        optional_text(&message.tool_call_id),
    ).text("content", message.content.as_str()).with("is_error", Json::Bool(message.is_error));
    assert(members.said() =~= seq![
        ("type"@, said_text("tool_result"@)),
        ("tool_use_id"@, text_or_null(message.tool_call_id.deep_view())),
        ("content"@, said_text(message.content@)),
        ("is_error"@, JsonView::Bool(message.is_error)),
    ]);
    members.build()
}

/// The turn of the user that holds one block.
fn block_turn(block: Json) -> (r: Turn)
    ensures
        r.deep_view() == (TurnView {
            user: true,
            content: JsonView::Array(seq![block.deep_view()]),
        }),
{
    let mut blocks: Vec<Json> = Vec::new();
    assert(blocks.deep_view() =~= Seq::empty());
    push_json(&mut blocks, block);
    assert(blocks.deep_view() =~= seq![block.deep_view()]);
    Turn { user: true, content: Json::of_items(blocks) }
}

/// The turn of the assistant.
pub fn build_assistant_turn(message: &CoreMessage) -> (r: Turn)
    ensures
        r.deep_view() == assistant_turn(message.deep_view()),
{
    let ghost calls = message.deep_view().tool_calls.map_values(
        |call: ToolCallView| call_block(call),
    );
    let mut content: Vec<Json> = Vec::new();
    assert(content.deep_view() =~= Seq::empty());
    if !message.content.as_str().is_empty() {
        push_json(&mut content, build_text_block(message.content.as_str()));
    }
    let ghost start = content.deep_view();
    let mut i: usize = 0;
    assert(start + calls.take(0) =~= start);
    while i < message.tool_calls.len()
        invariant
            calls == message.deep_view().tool_calls.map_values(
                |call: ToolCallView| call_block(call),
            ),
            i <= message.tool_calls@.len(),
            content.deep_view() == start + calls.take(i as int),
        decreases message.tool_calls@.len() - i,
    {
        assert(message.deep_view().tool_calls[i as int]
            == message.tool_calls@[i as int].deep_view());
        push_json(&mut content, build_call_block(&message.tool_calls[i]));
        assert(content.deep_view() =~= start + calls.take(i + 1));
        i += 1;
    }
    assert(calls.take(i as int) =~= calls);
    let r = Turn { user: false, content: Json::of_items(content) };
    assert(content.deep_view() =~= assistant_turn(message.deep_view()).content.items()->0);
    r
}

/// The turn of the user that gives the result of a tool.
pub fn build_result_turn(message: &CoreMessage) -> (r: Turn)
    ensures
        r.deep_view() == result_turn(message.deep_view()),
{
    block_turn(build_result_block(message))
}

/// The messages of turns.
pub fn messages_of_turns(turns: Vec<Turn>) -> (r: Vec<Json>)
    ensures
        r.deep_view() == turn_messages(turns.deep_view()),
{
    let ghost wanted = turn_messages(turns.deep_view());
    let mut out: Vec<Json> = Vec::new();
    let mut i: usize = 0;
    assert(out.deep_view() =~= wanted.take(0));
    while i < turns.len()
        invariant
            wanted == turn_messages(turns.deep_view()),
            i <= turns@.len(),
            out.deep_view() == wanted.take(i as int),
        decreases turns@.len() - i,
    {
        assert(turns.deep_view()[i as int] == turns@[i as int].deep_view());
        let role = if turns[i].user {
            "user"
        } else {
            "assistant"
        };
        push_json(&mut out, build_role_message(role, turns[i].content.clone()));
        assert(out.deep_view() =~= wanted.take(i + 1));
        i += 1;
    }
    assert(wanted.take(i as int) =~= wanted);
    out
}

/// The Anthropic form of messages: the blocks of consecutive messages of the user are one turn.
pub fn anthropic_messages(messages: &Vec<CoreMessage>) -> (r: Vec<Json>)
    ensures
        r.deep_view() == turn_messages(turns_of(messages.deep_view())),
{
    let ghost all = messages.deep_view();
    let mut turns: Vec<Turn> = Vec::new();
    let mut i: usize = 0;
    assert(turns.deep_view() =~= Seq::empty());
    while i < messages.len()
        invariant
            all == messages.deep_view(),
            i <= messages@.len(),
            turns.deep_view() == turns_of(all.take(i as int)),
        decreases messages@.len() - i,
    {
        assert(all.take(i + 1).drop_last() =~= all.take(i as int));
        assert(all[i as int] == messages@[i as int].deep_view());
        let message = &messages[i];
        let role = message.role.as_str();
        if text::str_eq(role, "user") {
            push_turn(&mut turns, block_turn(build_text_block(message.content.as_str())));
        } else if text::str_eq(role, "assistant") {
            push_turn(&mut turns, build_assistant_turn(message));
        } else if text::str_eq(role, "tool") {
            push_turn(&mut turns, build_result_turn(message));
        }
        i += 1;
    }
    assert(all.take(i as int) =~= all);
    messages_of_turns(turns)
}

/// A tool as an Anthropic request declares it.
pub open spec fn anthropic_tool(tool: ToolSpecView) -> JsonView {
    object(
        seq![
            ("name"@, said_text(tool.name)),
            ("description"@, said_text(tool.description)),
            ("input_schema"@, tool.input_schema),
        ],
    )
}

/// The request to an Anthropic model for a session; tools are declared where there are any.
pub open spec fn anthropic_request_for(
    model: Seq<char>,
    snapshot: SnapshotView,
    tools: Seq<ToolSpecView>,
    system_prompt: Seq<char>,
) -> JsonView {
    let bare = seq![
        ("model"@, said_text(model)),
        ("max_tokens"@, said_number(ANTHROPIC_MAX_TOKENS)),
        ("system"@, said_text(system_prompt)),
        ("messages"@, JsonView::Array(turn_messages(turns_of(active_messages(snapshot))))),
    ];
    object(
        if tools.len() == 0 {
            bare
        } else {
            bare.push(
                (
                    "tools"@,
                    JsonView::Array(tools.map_values(|tool: ToolSpecView| anthropic_tool(tool))),
                ),
            )
        },
    )
}

fn build_anthropic_tool(tool: &ToolSpec) -> (r: Json)
    ensures
        r.deep_view() == anthropic_tool(tool.deep_view()),
{
    let members = ObjectBuilder::new().text("name", tool.name.as_str()).text(
        "description",
        tool.description.as_str(),
    ).with("input_schema", tool.input_schema.clone());
    assert(members.said() =~= seq![
        ("name"@, said_text(tool.name@)),
        ("description"@, said_text(tool.description@)),
        ("input_schema"@, tool.input_schema.deep_view()),
    ]);
    members.build()
}

/// Tools as an Anthropic request declares them.
pub(crate) fn build_anthropic_tools(tools: &Vec<ToolSpec>) -> (r: Vec<Json>)
    ensures
        r.deep_view() == tools.deep_view().map_values(|tool: ToolSpecView| anthropic_tool(tool)),
{
    let ghost wanted = tools.deep_view().map_values(|tool: ToolSpecView| anthropic_tool(tool));
    let mut out: Vec<Json> = Vec::new();
    let mut i: usize = 0;
    assert(out.deep_view() =~= wanted.take(0));
    while i < tools.len()
        invariant
            wanted == tools.deep_view().map_values(|tool: ToolSpecView| anthropic_tool(tool)),
            i <= tools@.len(),
            out.deep_view() == wanted.take(i as int),
        decreases tools@.len() - i,
    {
        assert(tools.deep_view()[i as int] == tools@[i as int].deep_view());
        push_json(&mut out, build_anthropic_tool(&tools[i]));
        assert(out.deep_view() =~= wanted.take(i + 1));
        i += 1;
    }
    assert(wanted.take(i as int) =~= wanted);
    out
}

/// The request to an Anthropic model for a session.
pub fn anthropic_request(
    model: &str,
    snapshot: &CoreSnapshot,
    tools: &Vec<ToolSpec>,
    system_prompt: &str,
) -> (r: Json)
    ensures
        r.deep_view() == anthropic_request_for(
            model@,
            snapshot.deep_view(),
            tools.deep_view(),
            system_prompt@,
        ),
{
    let messages = anthropic_messages(&active_model_messages(snapshot));
    let limit = Json::Number(JsonNumber::Unsigned(ANTHROPIC_MAX_TOKENS));
    let bare = ObjectBuilder::new().text("model", model).with("max_tokens", limit).text(
        "system",
        system_prompt,
    ).with("messages", Json::of_items(messages));
    assert(bare.said() =~= seq![
        ("model"@, said_text(model@)),
        ("max_tokens"@, said_number(ANTHROPIC_MAX_TOKENS)),
        ("system"@, said_text(system_prompt@)),
        ("messages"@, JsonView::Array(messages.deep_view())),
    ]);
    if tools.len() == 0 {
        bare.build()
    } else {
        bare.with("tools", Json::of_items(build_anthropic_tools(tools))).build()
    }
}

/// What a model has answered so far: its text and its calls.
#[verifier::ext_equal]
pub struct AnswerView {
    pub content: Seq<char>,
    pub tool_calls: Seq<ToolCallView>,
}

/// An answer with one more block. Blocks of other types say nothing.
pub open spec fn with_block(answer: AnswerView, block: JsonView) -> Result<
    AnswerView,
    ProviderErrorView,
> {
    if block.member_text("type"@) == Some("text"@) {
        match block.member_text("text"@) {
            Some(fragment) => Ok(AnswerView { content: answer.content + fragment, ..answer }),
            None => Ok(answer),
        }
    } else if block.member_text("type"@) == Some("tool_use"@) {
        match (block.member_text("id"@), block.member_text("name"@)) {
            (Some(call_id), Some(name)) => match block.member("input"@) {
                Some(arguments) => if arguments is Object {
                    Ok(
                        AnswerView {
                            tool_calls: answer.tool_calls.push(
                                ToolCallView { call_id, name, arguments },
                            ),
                            ..answer
                        },
                    )
                } else {
                    Err(ProviderErrorView::InvalidToolArguments)
                },
                None => Err(ProviderErrorView::InvalidToolArguments),
            },
            _ => Err(ProviderErrorView::MissingCompletion),
        }
    } else {
        Ok(answer)
    }
}

/// The answer of blocks, or what is wrong with the first bad one.
pub open spec fn answer_of(blocks: Seq<JsonView>) -> Result<AnswerView, ProviderErrorView>
    decreases blocks.len(),
{
    if blocks.len() == 0 {
        Ok(AnswerView { content: Seq::empty(), tool_calls: Seq::empty() })
    } else {
        match answer_of(blocks.drop_last()) {
            Ok(answer) => with_block(answer, blocks.last()),
            Err(error) => Err(error),
        }
    }
}

/// What an Anthropic model answered.
pub open spec fn anthropic_completed(payload: JsonView) -> Result<
    CompletionView,
    ProviderErrorView,
> {
    match payload.member("content"@) {
        Some(content) => match content.items() {
            Some(blocks) => match answer_of(blocks) {
                Ok(answer) => Ok(
                    CompletionView {
                        content: answer.content,
                        tool_calls: answer.tool_calls,
                        input_tokens: reported_tokens(payload, "input_tokens"@),
                    },
                ),
                Err(error) => Err(error),
            },
            None => Err(ProviderErrorView::MissingCompletion),
        },
        None => Err(ProviderErrorView::MissingCompletion),
    }
}

proof fn lemma_answer_error(blocks: Seq<JsonView>, upto: int)
    requires
        0 <= upto <= blocks.len(),
        answer_of(blocks.take(upto)) is Err,
    ensures
        answer_of(blocks) == answer_of(blocks.take(upto)),
    decreases blocks.len(),
{
    if upto < blocks.len() {
        assert(blocks.drop_last().take(upto) =~= blocks.take(upto));
        lemma_answer_error(blocks.drop_last(), upto);
    } else {
        assert(blocks.take(upto) =~= blocks);
    }
}

/// Takes one more block of an answer.
fn take_block(
    content: &mut String,
    tool_calls: &mut Vec<CoreToolCall>,
    block: &Json,
) -> (r: Result<(), ProviderError>)
    ensures
        match with_block(
            AnswerView { content: old(content)@, tool_calls: old(tool_calls).deep_view() },
            block.deep_view(),
        ) {
            Ok(answer) => r is Ok && final(content)@ == answer.content
                && final(tool_calls).deep_view() == answer.tool_calls,
            Err(error) => r matches Err(e) && e.deep_view() == error,
        },
{
    let kind = match block.get_str("type") {
        Some(kind) => kind,
        None => {
            return Ok(());
        },
    };
    proof {
        reveal_strlit("text");
        reveal_strlit("tool_use");
        assert("text"@.len() == 4 && "tool_use"@.len() == 8);
    }
    if text::str_eq(kind, "text") {
        if let Some(fragment) = block.get_str("text") {
            content.append(fragment);
        }
        return Ok(());
    }
    if !text::str_eq(kind, "tool_use") {
        return Ok(());
    }
    match (block.get_str("id"), block.get_str("name")) {
        (Some(call_id), Some(name)) => match block.get("input") {
            Some(arguments) => {
                if let Json::Object(_) = arguments {
                    let ghost before = tool_calls.deep_view();
                    let call = CoreToolCall {
                        call_id: call_id.to_owned(),
                        name: name.to_owned(),
                        arguments: arguments.clone(),
                    };
                    tool_calls.push(call);
                    assert(tool_calls.deep_view() =~= before.push(call.deep_view()));
                    Ok(())
                } else {
                    Err(ProviderError::InvalidToolArguments)
                }
            },
            None => Err(ProviderError::InvalidToolArguments),
        },
        _ => Err(ProviderError::MissingCompletion),
    }
}

/// What an Anthropic model answered.
pub fn anthropic_completion(payload: &Json) -> (r: Result<ModelCompletion, ProviderError>)
    ensures
        match anthropic_completed(payload.deep_view()) {
            Ok(wanted) => r matches Ok(c) && c.deep_view() == wanted,
            Err(error) => r matches Err(e) && e.deep_view() == error,
        },
{
    let blocks = match payload.get("content") {
        Some(content) => match content.as_array() {
            Some(blocks) => blocks,
            None => {
                return Err(ProviderError::MissingCompletion);
            },
        },
        None => {
            return Err(ProviderError::MissingCompletion);
        },
    };
    let ghost all = blocks.deep_view();
    let mut content = String::new();
    let mut tool_calls: Vec<CoreToolCall> = Vec::new();
    assert(tool_calls.deep_view() =~= Seq::empty());
    let mut i: usize = 0;
    while i < blocks.len()
        invariant
            all == blocks.deep_view(),
            payload.deep_view().member("content"@) is Some,
            (payload.deep_view().member("content"@)->0).items() == Some(all),
            i <= blocks@.len(),
            answer_of(all.take(i as int)) == Ok::<AnswerView, ProviderErrorView>(
                AnswerView { content: content@, tool_calls: tool_calls.deep_view() },
            ),
        decreases blocks@.len() - i,
    {
        assert(all.take(i + 1).drop_last() =~= all.take(i as int));
        assert(all[i as int] == blocks@[i as int].deep_view());
        match take_block(&mut content, &mut tool_calls, &blocks[i]) {
            Ok(_) => {},
            Err(error) => {
                proof {
                    lemma_answer_error(all, i + 1);
                }
                return Err(error);
            },
        }
        i += 1;
    }
    assert(all.take(i as int) =~= all);
    let input_tokens = provider_input_tokens(payload, "input_tokens");
    Ok(ModelCompletion { content, tool_calls, input_tokens })
}

} // verus!
