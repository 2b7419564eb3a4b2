//! What the model is asked, and what its answers are taken for.
use crate::anthropic::{self, TurnView};
use crate::json::{self, JsonNumberView, JsonView};
use crate::provider;
use crate::session::{MessageView, SnapshotView, ToolCallView};
use crate::tools::ToolSpecView;
use vstd::prelude::*;

verus! {

/// Whether the member of this name is this text.
pub open spec fn says(value: JsonView, name: Seq<char>, s: Seq<char>) -> bool {
    value.member(name) == Some(JsonView::Text(s))
}

/// Whether a message of the conversation is one that the model is told of.
pub open spec fn is_told(message: MessageView) -> bool {
    message.role == "user"@ || message.role == "assistant"@ || message.role == "tool"@
}

/// Whether a value of the request tells a call in the manner of OpenAI.
pub open spec fn tells_call(value: JsonView, call: ToolCallView) -> bool {
    &&& says(value, "id"@, call.call_id)
    &&& says(value, "type"@, "function"@)
    &&& value.member("function"@) matches Some(function) && says(function, "name"@, call.name)
        && says(function, "arguments"@, json::json_text(json::held_json(call.arguments)))
}

/// Whether a value of the request tells a message in the manner of OpenAI: its role, its content
/// as it stands, its calls one by one, and the call that it answers.
pub open spec fn tells_message(value: JsonView, message: MessageView) -> bool {
    &&& says(value, "role"@, message.role)
    &&& says(value, "content"@, message.content)
    &&& message.role == "assistant"@ && message.tool_calls.len() > 0 ==> (value.member(
        "tool_calls"@,
    ) matches Some(JsonView::Array(calls)) && calls.len() == message.tool_calls.len() && forall|
        i: int,
    |
        0 <= i < calls.len() ==> tells_call(#[trigger] calls[i], message.tool_calls[i]))
    &&& message.role == "assistant"@ && message.tool_calls.len() == 0 ==> value.member(
        "tool_calls"@,
    ) is None
    &&& message.role == "tool"@ ==> value.member("tool_call_id"@) == Some(
        match message.tool_call_id {
            Some(id) => JsonView::Text(id),
            None => JsonView::Null,
        },
    )
}

proof fn lemma_here(members: Seq<(Seq<char>, JsonView)>, name: Seq<char>, at: int)
    requires
        0 <= at < members.len(),
        members[at].0 == name,
        forall|j: int| 0 <= j < at ==> (#[trigger] members[j]).0 != name,
    ensures
        JsonView::Object(members).member(name) == Some(members[at].1),
{
    json::lemma_member_at(members, name, 0, at);
}

proof fn lemma_absent(members: Seq<(Seq<char>, JsonView)>, name: Seq<char>, from: int)
    requires
        0 <= from,
        forall|j: int| from <= j < members.len() ==> (#[trigger] members[j]).0 != name,
    ensures
        json::member_from(members, name, from) is None,
    decreases members.len() - from,
{
    if from < members.len() {
        lemma_absent(members, name, from + 1);
    }
}

proof fn lemma_names()
    ensures
        "role"@.len() == 4 && "role"@[0] == 'r',
        "content"@.len() == 7,
        "tool_calls"@.len() == 10,
        "tool_call_id"@.len() == 12,
        "id"@.len() == 2,
        "type"@.len() == 4 && "type"@[0] == 't' && "type"@[1] == 'y',
        "text"@.len() == 4 && "text"@[0] == 't' && "text"@[1] == 'e',
        "name"@.len() == 4 && "name"@[0] == 'n',
        "function"@.len() == 8,
        "arguments"@.len() == 9,
        "input"@.len() == 5,
        "tool_use_id"@.len() == 11,
        "is_error"@.len() == 8,
        "user"@.len() == 4 && "user"@[0] == 'u',
        "tool"@.len() == 4 && "tool"@[0] == 't',
        "assistant"@.len() == 9,
{
    reveal_strlit("role");
    reveal_strlit("content");
    reveal_strlit("tool_calls");
    reveal_strlit("tool_call_id");
    reveal_strlit("id");
    reveal_strlit("type");
    reveal_strlit("text");
    reveal_strlit("name");
    reveal_strlit("function");
    reveal_strlit("arguments");
    reveal_strlit("input");
    reveal_strlit("tool_use_id");
    reveal_strlit("is_error");
    reveal_strlit("user");
    reveal_strlit("tool");
    reveal_strlit("assistant");
}

proof fn lemma_openai_call(call: ToolCallView)
    ensures
        tells_call(provider::openai_call(call), call),
{
    lemma_names();
    let members = provider::openai_call(call)->Object_0;
    lemma_here(members, "id"@, 0);
    lemma_here(members, "type"@, 1);
    lemma_here(members, "function"@, 2);
    let inner = members[2].1->Object_0;
    lemma_here(inner, "name"@, 0);
    lemma_here(inner, "arguments"@, 1);
}

/// Every message of a user, an assistant or a tool is told with its own role and content, its own
/// calls and the call that it answers; no other message is told.
pub proof fn law_messages_are_told_whole(message: MessageView)
    ensures
        is_told(message) ==> (provider::openai_message(message) matches Some(value)
            && tells_message(value, message)),
        !is_told(message) ==> provider::openai_message(message) is None,
{
    lemma_names();
    if is_told(message) {
        let members = (provider::openai_message(message)->0)->Object_0;
        lemma_here(members, "role"@, 0);
        if message.role == "tool"@ {
            lemma_here(members, "tool_call_id"@, 1);
            lemma_here(members, "content"@, 2);
        } else {
            lemma_here(members, "content"@, 1);
            if message.role == "assistant"@ && message.tool_calls.len() > 0 {
                lemma_here(members, "tool_calls"@, 2);
                let calls = members[2].1->Array_0;
                assert forall|i: int| 0 <= i < calls.len() implies tells_call(
                    #[trigger] calls[i],
                    message.tool_calls[i],
                ) by {
                    lemma_openai_call(message.tool_calls[i]);
                }
            } else {
                lemma_absent(members, "tool_calls"@, 0);
            }
        }
    }
}

/// The messages of a request are the system prompt and then, one for one and in order, the
/// messages of the conversation by a user, an assistant or a tool, each with its own content.
pub proof fn law_conversation_is_told_in_order(system_prompt: Seq<char>, messages: Seq<MessageView>)
    ensures
        ({
            let sent = provider::openai_messages(system_prompt, messages);
            let told = messages.filter(|m: MessageView| is_told(m));
            &&& sent.len() == told.len() + 1
            &&& says(sent[0], "role"@, "system"@)
            &&& says(sent[0], "content"@, system_prompt)
            &&& forall|i: int|
                0 <= i < told.len() ==> tells_message(sent[i + 1], #[trigger] told[i])
        }),
    decreases messages.len(),
{
    reveal(Seq::filter);
    let keep = |m: MessageView| is_told(m);
    let sent = provider::openai_messages(system_prompt, messages);
    let told = messages.filter(keep);
    if messages.len() == 0 {
        lemma_names();
        let members = sent[0]->Object_0;
        lemma_here(members, "role"@, 0);
        lemma_here(members, "content"@, 1);
    } else {
        law_conversation_is_told_in_order(system_prompt, messages.drop_last());
        law_messages_are_told_whole(messages.last());
        let before = provider::openai_messages(system_prompt, messages.drop_last());
        let earlier = messages.drop_last().filter(keep);
        assert forall|i: int| 0 <= i < told.len() implies tells_message(
            sent[i + 1],
            #[trigger] told[i],
        ) by {
            if i < earlier.len() {
                assert(told[i] == earlier[i]);
                assert(sent[i + 1] == before[i + 1]);
            }
        }
    }
}

/// Whether blocks tell a message in the manner of Anthropic.
pub open spec fn blocks_tell(blocks: Seq<JsonView>, message: MessageView) -> bool {
    if message.role == "assistant"@ {
        let spoken: int = if message.content.len() > 0 {
            1
        } else {
            0
        };
        &&& blocks.len() == spoken + message.tool_calls.len()
        &&& spoken == 1 ==> says(blocks[0], "type"@, "text"@) && says(
            blocks[0],
            "text"@,
            message.content,
        )
        &&& forall|i: int|
            #![trigger message.tool_calls[i]]
            0 <= i < message.tool_calls.len() ==> {
                let block = blocks[spoken + i];
                &&& says(block, "type"@, "tool_use"@)
                &&& says(block, "id"@, message.tool_calls[i].call_id)
                &&& says(block, "name"@, message.tool_calls[i].name)
                &&& block.member("input"@) == Some(message.tool_calls[i].arguments)
            }
    } else if message.role == "user"@ {
        &&& blocks.len() == 1
        &&& says(blocks[0], "type"@, "text"@)
        &&& says(blocks[0], "text"@, message.content)
    } else {
        &&& blocks.len() == 1
        &&& says(blocks[0], "type"@, "tool_result"@)
        &&& says(blocks[0], "content"@, message.content)
        &&& message.tool_call_id matches Some(id) ==> says(blocks[0], "tool_use_id"@, id)
        &&& blocks[0].member("is_error"@) == Some(JsonView::Bool(message.is_error))
    }
}

proof fn lemma_call_block(call: ToolCallView)
    ensures
        says(anthropic::call_block(call), "type"@, "tool_use"@),
        says(anthropic::call_block(call), "id"@, call.call_id),
        says(anthropic::call_block(call), "name"@, call.name),
        anthropic::call_block(call).member("input"@) == Some(call.arguments),
{
    lemma_names();
    let members = anthropic::call_block(call)->Object_0;
    lemma_here(members, "type"@, 0);
    lemma_here(members, "id"@, 1);
    lemma_here(members, "name"@, 2);
    lemma_here(members, "input"@, 3);
}

proof fn lemma_text_block(content: Seq<char>)
    ensures
        says(anthropic::text_block(content), "type"@, "text"@),
        says(anthropic::text_block(content), "text"@, content),
{
    lemma_names();
    let members = anthropic::text_block(content)->Object_0;
    lemma_here(members, "type"@, 0);
    lemma_here(members, "text"@, 1);
}

/// Every message of a user, an assistant or a tool becomes blocks that tell its own content,
/// calls and outcome; the blocks of an assistant stand in a turn of the assistant, all others in
/// a turn of the user.
pub proof fn law_blocks_are_told_whole(message: MessageView)
    ensures
        is_told(message) ==> (anthropic::turn_of(message) matches Some(turn) && turn.user == (
        message.role != "assistant"@) && (turn.content matches JsonView::Array(blocks)
            && blocks_tell(blocks, message))),
        !is_told(message) ==> anthropic::turn_of(message) is None,
{
    lemma_names();
    if is_told(message) {
        let turn = anthropic::turn_of(message)->0;
        let blocks = turn.content->Array_0;
        lemma_text_block(message.content);
        if message.role == "tool"@ {
            let members = blocks[0]->Object_0;
            lemma_here(members, "type"@, 0);
            lemma_here(members, "tool_use_id"@, 1);
            lemma_here(members, "content"@, 2);
            lemma_here(members, "is_error"@, 3);
        } else if message.role == "assistant"@ {
            assert forall|i: int|
                #![trigger message.tool_calls[i]]
                0 <= i < message.tool_calls.len() implies {
                let block = blocks[(if message.content.len() > 0 {
                    1
                } else {
                    0int
                }) + i];
                &&& says(block, "type"@, "tool_use"@)
                &&& says(block, "id"@, message.tool_calls[i].call_id)
                &&& says(block, "name"@, message.tool_calls[i].name)
                &&& block.member("input"@) == Some(message.tool_calls[i].arguments)
            } by {
                lemma_call_block(message.tool_calls[i]);
            }
        }
    }
}

/// A message that follows a conversation leaves its earlier turns as they were. Its blocks stand
/// behind those of the last turn where that and its own are both the user's, and otherwise make
/// a turn of their own.
pub proof fn law_turns_grow_by_messages(messages: Seq<MessageView>, message: MessageView)
    ensures
        ({
            let before = anthropic::turns_of(messages);
            let after = anthropic::turns_of(messages.push(message));
            if !is_told(message) {
                after == before
            } else if message.role != "assistant"@ && before.len() > 0 && before.last().user {
                &&& after.len() == before.len()
                &&& after.drop_last() == before.drop_last()
                &&& after.last().user
                &&& before.last().content matches JsonView::Array(earlier) && (
                after.last().content matches JsonView::Array(all) && earlier.is_prefix_of(all)
                    && blocks_tell(all.skip(earlier.len() as int), message))
            } else {
                &&& after.len() == before.len() + 1
                &&& after.drop_last() == before
                &&& after.last().user == (message.role != "assistant"@)
                &&& after.last().content matches JsonView::Array(blocks) && blocks_tell(
                    blocks,
                    message,
                )
            }
        }),
{
    law_blocks_are_told_whole(message);
    anthropic::law_turns_alternate(messages);
    assert(messages.push(message).drop_last() =~= messages);
    if is_told(message) {
        let before = anthropic::turns_of(messages);
        let after = anthropic::turns_of(messages.push(message));
        let turn = anthropic::turn_of(message)->0;
        if turn.user && before.len() > 0 && before.last().user {
            let earlier = before.last().content->Array_0;
            let more = turn.content->Array_0;
            assert((earlier + more).skip(earlier.len() as int) =~= more);
            assert(earlier =~= (earlier + more).subrange(0, earlier.len() as int));
        }
    }
}

/// A turn is sent with the role of the one whose it is and with its own content.
pub proof fn law_turns_are_sent(turns: Seq<TurnView>, i: int)
    requires
        0 <= i < turns.len(),
    ensures
        ({
            let sent = anthropic::turn_messages(turns);
            &&& sent.len() == turns.len()
            &&& turns[i].user ==> says(sent[i], "role"@, "user"@)
            &&& !turns[i].user ==> says(sent[i], "role"@, "assistant"@)
            &&& sent[i].member("content"@) == Some(turns[i].content)
        }),
{
    lemma_names();
    let members = anthropic::turn_messages(turns)[i]->Object_0;
    lemma_here(members, "role"@, 0);
    lemma_here(members, "content"@, 1);
}

/// The messages told are those of the conversation, all of them where nothing was summarised;
/// otherwise a summary and then every message from the first one kept.
pub proof fn law_active_messages(snapshot: SnapshotView)
    ensures
        ({
            let told = provider::active_messages(snapshot);
            let summary = snapshot.compaction.summary;
            let kept: int = if snapshot.compaction.first_kept_message < snapshot.messages.len() {
                snapshot.compaction.first_kept_message as int
            } else {
                snapshot.messages.len() as int
            };
            &&& summary.len() == 0 ==> told == snapshot.messages
            &&& summary.len() > 0 ==> {
                &&& told.len() == 1 + snapshot.messages.len() - kept
                &&& told[0].role == "user"@
                &&& summary.is_suffix_of(told[0].content)
                &&& told[0].tool_calls.len() == 0 && !told[0].is_error
                &&& told.skip(1) == snapshot.messages.skip(kept)
            }
        }),
{
    let told = provider::active_messages(snapshot);
    let summary = snapshot.compaction.summary;
    if summary.len() > 0 {
        let content = told[0].content;
        assert(summary =~= content.subrange(content.len() - summary.len(), content.len() as int));
        assert(told.skip(1) =~= snapshot.messages.skip(
            provider::message_index(snapshot, snapshot.compaction.first_kept_message),
        ));
    }
}

/// Whether the member of this name is this value.
pub open spec fn holds(value: JsonView, name: Seq<char>, held: JsonView) -> bool {
    value.member(name) == Some(held)
}

/// Whether a value of the request declares a tool in the manner of OpenAI.
pub open spec fn declares_function(value: JsonView, tool: ToolSpecView) -> bool {
    &&& says(value, "type"@, "function"@)
    &&& value.member("function"@) matches Some(function) && {
        &&& says(function, "name"@, tool.name)
        &&& says(function, "description"@, tool.description)
        &&& holds(function, "parameters"@, tool.input_schema)
    }
}

proof fn lemma_openai_tool(tool: ToolSpecView)
    ensures
        declares_function(provider::openai_tool(tool), tool),
{
    lemma_names();
    reveal_strlit("description");
    reveal_strlit("parameters");
    assert("description"@.len() == 11 && "parameters"@.len() == 10);
    let members = provider::openai_tool(tool)->Object_0;
    lemma_here(members, "type"@, 0);
    lemma_here(members, "function"@, 1);
    let inner = members[1].1->Object_0;
    lemma_here(inner, "name"@, 0);
    lemma_here(inner, "description"@, 1);
    lemma_here(inner, "parameters"@, 2);
}

/// A request to OpenAI names the model, holds the messages told, asks for no stream, and declares
/// every tool that is offered, one for one; where none is offered it declares none.
pub proof fn law_openai_requests(
    model: Seq<char>,
    snapshot: SnapshotView,
    tools: Seq<ToolSpecView>,
    system_prompt: Seq<char>,
)
    ensures
        ({
            let request = provider::openai_request_for(model, snapshot, tools, system_prompt);
            &&& says(request, "model"@, model)
            &&& holds(
                request,
                "messages"@,
                JsonView::Array(
                    provider::openai_messages(system_prompt, provider::active_messages(snapshot)),
                ),
            )
            &&& holds(request, "stream"@, JsonView::Bool(false))
            &&& tools.len() == 0 ==> request.member("tools"@) is None && request.member(
                "tool_choice"@,
            ) is None
            &&& tools.len() > 0 ==> says(request, "tool_choice"@, "auto"@) && (request.member(
                "tools"@,
            ) matches Some(JsonView::Array(declared)) && declared.len() == tools.len() && forall|
                i: int,
            |
                0 <= i < tools.len() ==> declares_function(declared[i], #[trigger] tools[i]))
        }),
{
    reveal_strlit("model");
    reveal_strlit("messages");
    reveal_strlit("stream");
    reveal_strlit("tools");
    reveal_strlit("tool_choice");
    assert("model"@.len() == 5 && "messages"@.len() == 8 && "stream"@.len() == 6 && "tools"@.len()
        == 5 && "tool_choice"@.len() == 11 && "model"@[0] == 'm' && "tools"@[0] == 't');
    let request = provider::openai_request_for(model, snapshot, tools, system_prompt);
    let members = request->Object_0;
    lemma_here(members, "model"@, 0);
    lemma_here(members, "messages"@, 1);
    lemma_here(members, "stream"@, 2);
    if tools.len() == 0 {
        lemma_absent(members, "tools"@, 0);
        lemma_absent(members, "tool_choice"@, 0);
    } else {
        lemma_here(members, "tools"@, 3);
        lemma_here(members, "tool_choice"@, 4);
        let declared = members[3].1->Array_0;
        assert forall|i: int| 0 <= i < tools.len() implies declares_function(
            declared[i],
            #[trigger] tools[i],
        ) by {
            lemma_openai_tool(tools[i]);
        }
    }
}

/// Whether a value of the request declares a tool in the manner of Anthropic.
pub open spec fn declares_input(value: JsonView, tool: ToolSpecView) -> bool {
    &&& says(value, "name"@, tool.name)
    &&& says(value, "description"@, tool.description)
    &&& holds(value, "input_schema"@, tool.input_schema)
}

/// A request to Anthropic names the model, bounds the answer, holds the system prompt and the
/// turns told, and declares every tool that is offered, one for one.
pub proof fn law_anthropic_requests(
    model: Seq<char>,
    snapshot: SnapshotView,
    tools: Seq<ToolSpecView>,
    system_prompt: Seq<char>,
)
    ensures
        ({
            let request = anthropic::anthropic_request_for(model, snapshot, tools, system_prompt);
            &&& says(request, "model"@, model)
            &&& holds(
                request,
                "max_tokens"@,
                JsonView::Number(JsonNumberView::Unsigned(4096)),
            )
            &&& says(request, "system"@, system_prompt)
            &&& holds(
                request,
                "messages"@,
                JsonView::Array(
                    anthropic::turn_messages(
                        anthropic::turns_of(provider::active_messages(snapshot)),
                    ),
                ),
            )
            &&& tools.len() == 0 ==> request.member("tools"@) is None
            &&& tools.len() > 0 ==> (request.member("tools"@) matches Some(
                JsonView::Array(declared),
            ) && declared.len() == tools.len() && forall|i: int|
                0 <= i < tools.len() ==> declares_input(declared[i], #[trigger] tools[i]))
        }),
{
    lemma_names();
    reveal_strlit("model");
    reveal_strlit("max_tokens");
    reveal_strlit("system");
    reveal_strlit("messages");
    reveal_strlit("tools");
    reveal_strlit("description");
    reveal_strlit("input_schema");
    assert("model"@.len() == 5 && "max_tokens"@.len() == 10 && "system"@.len() == 6
        && "messages"@.len() == 8 && "tools"@.len() == 5 && "model"@[0] == 'm' && "tools"@[0]
        == 't');
    assert("description"@.len() == 11 && "input_schema"@.len() == 12);
    let request = anthropic::anthropic_request_for(model, snapshot, tools, system_prompt);
    let members = request->Object_0;
    lemma_here(members, "model"@, 0);
    lemma_here(members, "max_tokens"@, 1);
    lemma_here(members, "system"@, 2);
    lemma_here(members, "messages"@, 3);
    if tools.len() == 0 {
        lemma_absent(members, "tools"@, 0);
    } else {
        lemma_here(members, "tools"@, 4);
        let declared = members[4].1->Array_0;
        assert forall|i: int| 0 <= i < tools.len() implies declares_input(
            declared[i],
            #[trigger] tools[i],
        ) by {
            let inner = declared[i]->Object_0;
            lemma_here(inner, "name"@, 0);
            lemma_here(inner, "description"@, 1);
            lemma_here(inner, "input_schema"@, 2);
        }
    }
}

} // verus!
