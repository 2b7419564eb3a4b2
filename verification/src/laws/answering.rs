//! What the answers of the model are taken for, and what it is told around the conversation.
use crate::anthropic;
use crate::exchange;
use crate::json::{self, JsonNumberView, JsonView};
use crate::laws::asking::says;
use crate::provider::{self, Provider, ProviderErrorView};
use crate::runtime::CompletionView;
use crate::session::{self, MessageView, SnapshotView, ToolCallView};
use crate::text;
use crate::todo::{TodoItemView, TodoPhaseView};
use crate::tools::{self, ToolSpecView};
use crate::transcript::LocalEntryView;
use vstd::prelude::*;

verus! {

/// Whether a call is the one that a value tells in the manner of OpenAI.
pub open spec fn is_call_told(call: ToolCallView, value: JsonView) -> bool {
    &&& says(value, "id"@, call.call_id)
    &&& value.member("function"@) matches Some(function) && says(function, "name"@, call.name) && (
    function.member("arguments"@) matches Some(JsonView::Text(told)) && json::parsed_json(told)
        == Some(call.arguments))
    &&& call.arguments is Object
}

proof fn lemma_openai_calls(values: Seq<JsonView>)
    ensures
        provider::openai_calls(values) matches Ok(calls) ==> calls.len() == values.len() && forall|
            i: int,
        |
            0 <= i < calls.len() ==> is_call_told(#[trigger] calls[i], values[i]),
    decreases values.len(),
{
    if values.len() > 0 {
        lemma_openai_calls(values.drop_last());
        if let Ok(calls) = provider::openai_calls(values) {
            let before = provider::openai_calls(values.drop_last())->Ok_0;
            assert forall|i: int| 0 <= i < calls.len() implies is_call_told(
                #[trigger] calls[i],
                values[i],
            ) by {
                if i < before.len() {
                    assert(calls[i] == before[i]);
                    assert(values.drop_last()[i] == values[i]);
                }
            }
        }
    }
}

/// An answer of OpenAI is taken whole: its text, every call in order with its id, name and
/// arguments, and the number of tokens told.
pub proof fn law_openai_answers_are_taken_whole(payload: JsonView)
    ensures
        provider::openai_completed(payload) matches Ok(completion) ==> {
            &&& payload.member("choices"@) matches Some(JsonView::Array(choices)) && choices.len()
                > 0 && (choices[0].member("message"@) matches Some(message) && {
                &&& message.member("content"@) matches Some(JsonView::Text(content))
                    ==> completion.content == content
                &&& !(message.member("content"@) matches Some(JsonView::Text(_)))
                    ==> completion.content.len() == 0
                &&& message.member("tool_calls"@) matches Some(JsonView::Array(values))
                    ==> completion.tool_calls.len() == values.len() && forall|i: int|
                    0 <= i < values.len() ==> is_call_told(
                        #[trigger] completion.tool_calls[i],
                        values[i],
                    )
                &&& !(message.member("tool_calls"@) matches Some(JsonView::Array(_)))
                    ==> completion.tool_calls.len() == 0
            })
            &&& payload.member("usage"@) matches Some(usage) ==> (usage.member("prompt_tokens"@)
                matches Some(JsonView::Number(JsonNumberView::Unsigned(n)))
                ==> completion.input_tokens == n)
            &&& payload.member("usage"@) is None ==> completion.input_tokens == 0
        },
{
    if let Ok(completion) = provider::openai_completed(payload) {
        let choices = payload.member("choices"@)->0->Array_0;
        let message = choices[0].member("message"@)->0;
        if let Some(JsonView::Array(values)) = message.member("tool_calls"@) {
            lemma_openai_calls(values);
        }
    }
}

/// A call of an answer that has an id, a name and the text of an object of arguments is taken as
/// that call.
pub proof fn law_openai_calls_are_taken(
    value: JsonView,
    call_id: Seq<char>,
    function: JsonView,
    name: Seq<char>,
    told: Seq<char>,
    arguments: JsonView,
)
    requires
        says(value, "id"@, call_id),
        value.member("function"@) == Some(function),
        says(function, "name"@, name),
        says(function, "arguments"@, told),
        json::parsed_json(told) == Some(arguments),
        arguments is Object,
    ensures
        provider::openai_called(value) == Ok::<ToolCallView, ProviderErrorView>(
            ToolCallView { call_id, name, arguments },
        ),
{
}

/// An answer without text and calls that can be read is refused, not taken for an empty one.
pub proof fn law_unreadable_answers_are_refused(payload: JsonView)
    ensures
        !(payload.member("choices"@) matches Some(JsonView::Array(_)))
            ==> provider::openai_completed(payload) == Err::<CompletionView, ProviderErrorView>(
            ProviderErrorView::MissingCompletion,
        ),
        !(payload.member("content"@) matches Some(JsonView::Array(_)))
            ==> anthropic::anthropic_completed(payload) == Err::<CompletionView, ProviderErrorView>(
            ProviderErrorView::MissingCompletion,
        ),
{
}

/// The text blocks of an answer of Anthropic are put one behind the other, its calls are taken in
/// order, each with its id, name and arguments, and other blocks say nothing.
pub proof fn law_anthropic_blocks_are_taken(blocks: Seq<JsonView>, block: JsonView)
    ensures
        ({
            let before = anthropic::answer_of(blocks);
            let after = anthropic::answer_of(blocks.push(block));
            &&& before matches Err(error) ==> after == before
            &&& before matches Ok(answer) ==> {
                &&& says(block, "type"@, "text"@) ==> (block.member("text"@) matches Some(
                    JsonView::Text(s),
                ) ==> (after matches Ok(next) && next.content == answer.content + s
                    && next.tool_calls == answer.tool_calls))
                &&& says(block, "type"@, "tool_use"@) ==> (after matches Ok(next) ==> {
                    &&& next.content == answer.content
                    &&& next.tool_calls.len() == answer.tool_calls.len() + 1
                    &&& next.tool_calls.drop_last() == answer.tool_calls
                    &&& says(block, "id"@, next.tool_calls.last().call_id)
                    &&& says(block, "name"@, next.tool_calls.last().name)
                    &&& block.member("input"@) == Some(next.tool_calls.last().arguments)
                })
                &&& says(block, "type"@, "tool_use"@) && (block.member("id"@) matches Some(
                    JsonView::Text(_),
                )) && (block.member("name"@) matches Some(JsonView::Text(_))) && (block.member(
                    "input"@,
                ) matches Some(JsonView::Object(_))) ==> after is Ok
                &&& !says(block, "type"@, "text"@) && !says(block, "type"@, "tool_use"@) ==> after
                    == before
            }
        }),
        anthropic::answer_of(Seq::empty()) matches Ok(none) && none.content.len() == 0
            && none.tool_calls.len() == 0,
{
    assert(blocks.push(block).drop_last() =~= blocks);
    reveal_strlit("text");
    reveal_strlit("tool_use");
    assert("text"@.len() != "tool_use"@.len());
    if let Ok(next) = anthropic::answer_of(blocks.push(block)) {
        if let Ok(answer) = anthropic::answer_of(blocks) {
            if next.tool_calls.len() > answer.tool_calls.len() {
                assert(next.tool_calls.drop_last() =~= answer.tool_calls);
            }
        }
    }
}

/// An answer of Anthropic is what its blocks say, with the number of tokens told.
pub proof fn law_anthropic_answers_are_taken_whole(payload: JsonView)
    ensures
        payload.member("content"@) matches Some(JsonView::Array(blocks)) ==> match anthropic::answer_of(
            blocks,
        ) {
            Ok(answer) => anthropic::anthropic_completed(payload) matches Ok(completion)
                && completion.content == answer.content && completion.tool_calls
                == answer.tool_calls && (payload.member("usage"@) matches Some(usage) ==> (
            usage.member("input_tokens"@) matches Some(
                JsonView::Number(JsonNumberView::Unsigned(n)),
            ) ==> completion.input_tokens == n)),
            Err(error) => anthropic::anthropic_completed(payload) == Err::<
                CompletionView,
                ProviderErrorView,
            >(error),
        },
{
}

/// The system prompt begins with the prompt that was configured; the plan mode, the plan and the
/// task list stand in it where there is one.
pub proof fn law_system_prompt(prompt: Seq<char>, snapshot: SnapshotView)
    ensures
        ({
            let told = provider::system_prompt_for(prompt, snapshot);
            let head = prompt + provider::todo_advice() + (if snapshot.plan.enabled {
                provider::plan_advice()
            } else {
                Seq::empty()
            });
            let plan = if snapshot.plan.content.len() > 0 {
                "\n\nCurrent plan revision "@ + text::decimal(snapshot.plan.revision as nat) + " ("@
                    + snapshot.plan.status + ")\n"@ + snapshot.plan.content
            } else {
                Seq::empty()
            };
            let todos = if snapshot.todos.len() > 0 {
                "\n\nCurrent todo state:"@ + provider::todos_prompt(snapshot.todos)
            } else {
                Seq::empty()
            };
            &&& prompt.is_prefix_of(told)
            &&& told == head + plan + todos
        }),
{
    let told = provider::system_prompt_for(prompt, snapshot);
    let head = prompt + provider::todo_advice() + (if snapshot.plan.enabled {
        provider::plan_advice()
    } else {
        Seq::empty()
    });
    let plan = if snapshot.plan.content.len() > 0 {
        "\n\nCurrent plan revision "@ + text::decimal(snapshot.plan.revision as nat) + " ("@
            + snapshot.plan.status + ")\n"@ + snapshot.plan.content
    } else {
        Seq::empty()
    };
    let todos = if snapshot.todos.len() > 0 {
        "\n\nCurrent todo state:"@ + provider::todos_prompt(snapshot.todos)
    } else {
        Seq::empty()
    };
    assert(told =~= head + plan + todos);
    assert(prompt =~= told.subrange(0, prompt.len() as int));
}

/// The task list in the system prompt tells every phase and every task in order, with its status
/// and what blocks it.
pub proof fn law_task_list_is_told(
    phases: Seq<TodoPhaseView>,
    phase: TodoPhaseView,
    tasks: Seq<TodoItemView>,
    task: TodoItemView,
)
    ensures
        provider::todos_prompt(phases.push(phase)) == provider::todos_prompt(phases) + "\n## "@
            + phase.name + provider::tasks_prompt(phase.tasks),
        provider::tasks_prompt(tasks.push(task)) == provider::tasks_prompt(tasks) + "\n- ["@
            + task.status + "] "@ + task.content + (match task.blocker {
            Some(blocker) => " ("@ + blocker + ")"@,
            None => Seq::empty(),
        }),
        provider::todos_prompt(Seq::empty()).len() == 0,
        provider::tasks_prompt(Seq::empty()).len() == 0,
{
    assert(phases.push(phase).drop_last() =~= phases);
    assert(tasks.push(task).drop_last() =~= tasks);
    assert(provider::todos_prompt(phases.push(phase)) =~= provider::todos_prompt(phases)
        + "\n## "@ + phase.name + provider::tasks_prompt(phase.tasks));
    assert(provider::tasks_prompt(tasks.push(task)) =~= provider::tasks_prompt(tasks) + "\n- ["@
        + task.status + "] "@ + task.content + (match task.blocker {
        Some(blocker) => " ("@ + blocker + ")"@,
        None => Seq::empty(),
    }));
}

/// The address of a request is the base without slashes at its end, and then the path of the
/// provider.
pub proof fn law_addresses(provider: Provider, base_url: Seq<char>)
    ensures
        ({
            let bare = exchange::without_slashes(base_url);
            let address = exchange::endpoint_of(provider, base_url);
            &&& bare.is_prefix_of(base_url)
            &&& bare.len() > 0 ==> bare.last() != '/'
            &&& forall|i: int| bare.len() <= i < base_url.len() ==> base_url[i] == '/'
            &&& provider == Provider::Anthropic ==> address == bare + "/messages"@
            &&& provider != Provider::Anthropic ==> address == bare
                + "/chat/completions"@
        }),
    decreases base_url.len(),
{
    if base_url.len() > 0 && base_url.last() == '/' {
        law_addresses(provider, base_url.drop_last());
        let bare = exchange::without_slashes(base_url);
        assert(bare =~= base_url.subrange(0, bare.len() as int)) by {
            assert(bare == base_url.drop_last().subrange(0, bare.len() as int));
        }
        assert forall|i: int| bare.len() <= i < base_url.len() implies base_url[i] == '/' by {
            if i < base_url.len() - 1 {
                assert(base_url.drop_last()[i] == base_url[i]);
            }
        }
    } else {
        assert(base_url =~= base_url.subrange(0, base_url.len() as int));
    }
}

/// Only Anthropic is asked and answers in the manner of Anthropic.
pub proof fn law_manners(
    provider: Provider,
    model: Seq<char>,
    snapshot: SnapshotView,
    offered: Seq<ToolSpecView>,
    prompt: Seq<char>,
    payload: JsonView,
)
    ensures
        provider == Provider::Anthropic ==> exchange::request_of(
            provider,
            model,
            snapshot,
            offered,
            prompt,
        ) == anthropic::anthropic_request_for(model, snapshot, offered, prompt)
            && exchange::completed(provider, payload) == anthropic::anthropic_completed(payload),
        provider != Provider::Anthropic ==> exchange::request_of(
            provider,
            model,
            snapshot,
            offered,
            prompt,
        ) == provider::openai_request_for(model, snapshot, offered, prompt) && exchange::completed(
            provider,
            payload,
        ) == provider::openai_completed(payload),
        exchange::default_base_url_of(Provider::Openai) == "https://api.openai.com/v1"@,
        exchange::default_base_url_of(Provider::Anthropic)
            == "https://api.anthropic.com/v1"@,
        exchange::default_base_url_of(Provider::Linewise) == "https://llm.dev.linewise.io/v1"@,
{
}

/// An answer is taken as it is where every tool it calls was offered, and refused otherwise.
pub proof fn law_answers_to_offered_tools(
    provider: Provider,
    payload: JsonView,
    offered: Seq<ToolSpecView>,
    completion: CompletionView,
    i: int,
)
    requires
        exchange::completed(provider, payload) == Ok::<CompletionView, ProviderErrorView>(
            completion,
        ),
    ensures
        (forall|j: int|
            0 <= j < completion.tool_calls.len() ==> exists|k: int|
                0 <= k < offered.len() && #[trigger] offered[k].name == (
                #[trigger] completion.tool_calls[j]).name) ==> exchange::completed_with(
            provider,
            payload,
            offered,
        ) == Ok::<CompletionView, ProviderErrorView>(completion),
        0 <= i < completion.tool_calls.len() && (forall|k: int|
            0 <= k < offered.len() ==> (#[trigger] offered[k]).name != completion.tool_calls[i].name)
            ==> exchange::completed_with(provider, payload, offered) == Err::<
            CompletionView,
            ProviderErrorView,
        >(ProviderErrorView::UnknownTool),
{
    if 0 <= i < completion.tool_calls.len() && (forall|k: int|
        0 <= k < offered.len() ==> (#[trigger] offered[k]).name != completion.tool_calls[i].name) {
        assert(!tools::declares(offered, completion.tool_calls[i].name));
    }
}

/// Whether a message only says something.
pub open spec fn only_says(message: MessageView, role: Seq<char>, content: Seq<char>) -> bool {
    &&& message.role == role
    &&& message.content == content
    &&& message.tool_calls.len() == 0
    &&& message.tool_call_id is None
    &&& !message.is_error
}

proof fn lemma_side_messages(entries: Seq<LocalEntryView>, i: int)
    ensures
        exchange::side_messages(entries).len() == 2 * entries.len(),
        0 <= i < entries.len() ==> only_says(
            exchange::side_messages(entries)[2 * i],
            "user"@,
            entries[i].question,
        ) && only_says(
            exchange::side_messages(entries)[2 * i + 1],
            "assistant"@,
            entries[i].answer,
        ),
    decreases entries.len(),
{
    if entries.len() > 0 {
        lemma_side_messages(entries.drop_last(), i);
    }
}

/// A question beside the conversation is asked behind it, behind a notice and behind every
/// earlier question and answer in order, word for word.
pub proof fn law_side_questions_follow(
    snapshot: SnapshotView,
    entries: Seq<LocalEntryView>,
    question: Seq<char>,
    i: int,
)
    requires
        0 <= i < entries.len(),
    ensures
        ({
            let told = exchange::side_session(snapshot, entries, question).messages;
            let at = snapshot.messages.len() + 1 + 2 * i;
            &&& snapshot.messages.is_prefix_of(told)
            &&& told.len() == snapshot.messages.len() + 2 + 2 * entries.len()
            &&& only_says(told[at], "user"@, entries[i].question)
            &&& only_says(told[at + 1], "assistant"@, entries[i].answer)
            &&& only_says(told.last(), "user"@, question)
            &&& told[snapshot.messages.len() as int].role == "user"@
        }),
{
    lemma_side_messages(entries, i);
    let told = exchange::side_session(snapshot, entries, question).messages;
    assert(snapshot.messages =~= told.subrange(0, snapshot.messages.len() as int));
}

/// A summary is asked for of the messages from the first one kept to the first one to be kept,
/// all of them and in order, behind the earlier summary; the instructions of the person stand in
/// the question.
pub proof fn law_summaries_are_asked_for(snapshot: SnapshotView, first: u64, next: u64)
    requires
        snapshot.compaction.first_kept_message == first,
        snapshot.compaction.pending matches Some(pending) && pending.first_kept_message == next,
        first < next <= snapshot.messages.len(),
    ensures
        ({
            let earlier = snapshot.compaction.summary;
            let head: int = if earlier.len() == 0 {
                0
            } else {
                1
            };
            let instructions = (snapshot.compaction.pending->0).instructions;
            &&& exchange::compaction_session(snapshot) matches Some(asked) && {
                let told = asked.messages;
                &&& told.len() == head + (next - first) + 1
                &&& told.subrange(head, head + (next - first)) == snapshot.messages.subrange(
                    first as int,
                    next as int,
                )
                &&& earlier.len() > 0 ==> only_says(
                    told[0],
                    "user"@,
                    "Previous compaction summary:\n"@ + earlier,
                )
                &&& told.last().role == "user"@
                &&& instructions matches Some(words) ==> words.is_suffix_of(told.last().content)
                &&& asked.compaction.summary.len() == 0 && asked.compaction.pending is None
            }
        }),
{
    let asked = exchange::compaction_session(snapshot)->0;
    let told = asked.messages;
    let head: int = if snapshot.compaction.summary.len() == 0 {
        0
    } else {
        1
    };
    assert(told.subrange(head, head + (next - first)) =~= snapshot.messages.subrange(
        first as int,
        next as int,
    ));
    if let Some(words) = (snapshot.compaction.pending->0).instructions {
        let content = told.last().content;
        assert(words =~= content.subrange(content.len() - words.len(), content.len() as int));
    }
}

/// A summary is an answer that says something and calls no tool.
pub proof fn law_what_is_a_summary(completion: CompletionView)
    ensures
        completion.tool_calls.len() > 0 ==> !exchange::is_summary(completion),
        text::trimmed(completion.content).len() == 0 ==> !exchange::is_summary(completion),
        completion.tool_calls.len() == 0 && text::trimmed(completion.content).len() > 0
            ==> exchange::is_summary(completion),
{
}

/// An error of the provider tells that the conversation is too long exactly if it holds one of
/// these phrases, in whatever case.
pub proof fn law_overflows_are_told(body: Seq<char>)
    ensures
        provider::tells_overflow(body) <==> {
            let lowered = text::ascii_lowered(body);
            ||| text::contains_text(lowered, "context length"@)
            ||| text::contains_text(lowered, "context window"@)
            ||| text::contains_text(lowered, "maximum context"@)
            ||| text::contains_text(lowered, "prompt is too long"@)
            ||| text::contains_text(lowered, "too many tokens"@)
        },
{
}

/// The tools that need no approval are those that read, all of them and in order; in plan mode
/// those are offered that do not write.
pub proof fn law_offered_tools(offered: Seq<ToolSpecView>)
    ensures
        tools::safe_names(offered) == offered.filter(
            |tool: ToolSpecView| tool.name == "read"@ || tool.name == "grep"@,
        ).map_values(|tool: ToolSpecView| tool.name),
        tools::plan_mode_tools(offered) == offered.filter(
            |tool: ToolSpecView|
                tool.name == "read"@ || tool.name == "grep"@ || tool.name == "bash"@,
        ),
    decreases offered.len(),
{
    reveal(Seq::filter);
    let safe = |tool: ToolSpecView| tool.name == "read"@ || tool.name == "grep"@;
    let name = |tool: ToolSpecView| tool.name;
    if offered.len() > 0 {
        law_offered_tools(offered.drop_last());
        let before = offered.drop_last().filter(safe);
        if safe(offered.last()) {
            assert(before.push(offered.last()).map_values(name) =~= before.map_values(name).push(
                offered.last().name,
            ));
        }
    } else {
        assert(tools::safe_names(offered) =~= offered.filter(safe).map_values(name));
        assert(tools::plan_mode_tools(offered) =~= offered.filter(
            |tool: ToolSpecView|
                tool.name == "read"@ || tool.name == "grep"@ || tool.name == "bash"@,
        ));
    }
}

/// What a call is labelled by: its name, and a Git command by the command.
pub proof fn law_labels(call: ToolCallView)
    ensures
        call.name != "git_read"@ && call.name != "git_write"@ ==> session::label_of(call)
            == call.name,
        call.name == "git_read"@ || call.name == "git_write"@ ==> (match call.arguments.member(
            "command"@,
        ) {
            Some(JsonView::Text(command)) => session::label_of(call) == command,
            _ => session::label_of(call) == call.name,
        }),
{
}

/// What a call is summarised by: its name and the file, the pattern or the command it is about,
/// word for word.
pub proof fn law_summaries(call: ToolCallView)
    ensures
        ({
            let said = session::summary_of(call);
            let path = call.arguments.member("path"@);
            let command = call.arguments.member("command"@);
            let pattern = call.arguments.member("pattern"@);
            let other = call.name != "grep"@ && call.name != "read"@ && call.name != "write"@
                && call.name != "edit"@;
            &&& call.name.is_prefix_of(said)
            &&& path matches Some(JsonView::Text(file)) ==> {
                &&& call.name == "read"@ ==> said == "read  📄 "@ + file
                &&& call.name == "write"@ ==> said == "write  📝 "@ + file
                &&& call.name == "edit"@ ==> said == "edit  ✎ "@ + file
            }
            &&& other ==> (command matches Some(JsonView::Text(words)) ==> said == call.name
                + "  "@ + words)
            &&& call.name == "grep"@ ==> (pattern matches Some(JsonView::Text(sought)) ==> (
            "grep  🔎 /"@ + sought + "/  "@).is_prefix_of(said))
            &&& call.name == "grep"@ && call.arguments.member("caseSensitive"@) != Some(
                JsonView::Bool(false),
            ) ==> (path matches Some(JsonView::Text(place)) ==> place.is_suffix_of(said))
            &&& call.name == "todo"@ && !(command matches Some(JsonView::Text(_))) ==> said
                == "todo  update task list"@
        }),
{
    let said = session::summary_of(call);
    reveal_strlit("grep");
    reveal_strlit("grep  🔎 /");
    reveal_strlit("read");
    reveal_strlit("read  📄 ");
    reveal_strlit("write");
    reveal_strlit("write  📝 ");
    reveal_strlit("edit");
    reveal_strlit("edit  ✎ ");
    reveal_strlit("todo");
    reveal_strlit("  ");
    reveal_strlit("update task list");
    reveal_strlit("todo  update task list");
    assert("grep"@[0] == 'g' && "read"@[0] == 'r' && "edit"@[0] == 'e' && "todo"@[0] == 't'
        && "write"@.len() == 5 && "grep"@.len() == 4);
    assert(call.name =~= said.subrange(0, call.name.len() as int));
    if let Some(JsonView::Text(file)) = call.arguments.member("path"@) {
        if call.name == "grep"@ && call.arguments.member("caseSensitive"@) != Some(
            JsonView::Bool(false),
        ) {
            assert(file =~= said.subrange(said.len() - file.len(), said.len() as int));
        }
    }
    if call.name == "grep"@ {
        if let Some(JsonView::Text(sought)) = call.arguments.member("pattern"@) {
            let head = "grep  🔎 /"@ + sought + "/  "@;
            assert(head =~= said.subrange(0, head.len() as int));
        }
    }
    if call.name == "todo"@ && !(call.arguments.member("command"@) matches Some(JsonView::Text(_))) {
        assert(said =~= "todo  update task list"@);
    }
}

/// The modes of permission and their words belong together; a word that is none of them asks.
pub proof fn law_permission_words(word: Seq<char>)
    ensures
        session::PermissionMode::Ask.wire() == "ask"@,
        session::PermissionMode::Auto.wire() == "auto"@,
        session::PermissionMode::Yolo.wire() == "yolo"@,
        session::PermissionMode::of_wire(word) == session::PermissionMode::Yolo <==> word
            == "yolo"@,
        session::PermissionMode::of_wire(word) == session::PermissionMode::Auto <==> word
            == "auto"@,
{
    reveal_strlit("yolo");
    reveal_strlit("auto");
    assert("yolo"@[0] != "auto"@[0]);
}

/// A reply of the core is taken only if it is of the version spoken, answers the request, and
/// says that the request was accepted; what it says of a refusal is told as it stands.
pub proof fn law_core_replies(reply: session::CoreResponseView, request_id: Seq<char>)
    ensures
        session::reply_problem(reply, request_id) is None <==> reply.version == 4
            && reply.request_id == request_id && reply.ok,
        reply.version == 4 && reply.request_id == request_id && !reply.ok ==> (reply.error
            matches Some(error) ==> session::reply_problem(reply, request_id) == Some(
            session::CoreReplyErrorView::Rejected(error),
        )),
        reply.version == 4 && reply.request_id != request_id ==> session::reply_problem(
            reply,
            request_id,
        ) == Some(session::CoreReplyErrorView::CorrelationMismatch),
        reply.version != 4 ==> session::reply_problem(reply, request_id) == Some(
            session::CoreReplyErrorView::VersionMismatch(reply.version),
        ),
{
}

/// The tool of the task list takes these nine operations, and its tasks have these five states;
/// the tool of the plan takes these two.
pub proof fn law_own_tools()
    ensures
        tools::todo_tool().name == "todo"@,
        tools::plan_tool().name == "plan"@,
        tools::todo_operations() == seq![
            "init"@,
            "append"@,
            "start"@,
            "done"@,
            "drop"@,
            "block"@,
            "unblock"@,
            "rm"@,
            "view"@,
        ],
        tools::todo_tool().input_schema.member("properties"@) matches Some(properties)
            && properties.member("op"@) == Some(tools::choice_schema(tools::todo_operations())),
        tools::plan_tool().input_schema.member("properties"@) matches Some(properties)
            && properties.member("op"@) == Some(
            tools::choice_schema(seq!["update"@, "propose"@]),
        ) && properties.member("content"@) is Some,
        tools::task_schema().member("properties"@) matches Some(properties) && properties.member(
            "status"@,
        ) == Some(
            tools::choice_schema(
                seq!["pending"@, "in_progress"@, "completed"@, "abandoned"@, "blocked"@],
            ),
        ),
{
    reveal_strlit("type");
    reveal_strlit("properties");
    reveal_strlit("op");
    reveal_strlit("content");
    reveal_strlit("status");
    assert("type"@.len() == 4 && "properties"@.len() == 10 && "op"@.len() == 2 && "content"@.len()
        == 7 && "status"@.len() == 6);
    let todo = tools::todo_tool().input_schema->Object_0;
    json::lemma_member_at(todo, "properties"@, 0, 1);
    json::lemma_member_at(todo[1].1->Object_0, "op"@, 0, 0);
    let plan = tools::plan_tool().input_schema->Object_0;
    json::lemma_member_at(plan, "properties"@, 0, 1);
    json::lemma_member_at(plan[1].1->Object_0, "op"@, 0, 0);
    json::lemma_member_at(plan[1].1->Object_0, "content"@, 0, 1);
    let task = tools::task_schema()->Object_0;
    json::lemma_member_at(task, "properties"@, 0, 1);
    json::lemma_member_at(task[1].1->Object_0, "status"@, 0, 1);
}

/// A choice of words allows exactly these words; a record allows its properties and asks for those
/// that are required.
pub proof fn law_schemas(
    words: Seq<Seq<char>>,
    properties: Seq<(Seq<char>, JsonView)>,
    required: Seq<Seq<char>>,
)
    ensures
        says(tools::choice_schema(words), "type"@, "string"@),
        tools::choice_schema(words).member("enum"@) == Some(
            JsonView::Array(words.map_values(|word: Seq<char>| JsonView::Text(word))),
        ),
        says(tools::record_schema(properties, required), "type"@, "object"@),
        tools::record_schema(properties, required).member("properties"@) == Some(
            JsonView::Object(properties),
        ),
        tools::record_schema(properties, required).member("required"@) == Some(
            JsonView::Array(required.map_values(|word: Seq<char>| JsonView::Text(word))),
        ),
        tools::record_schema(properties, required).member("additionalProperties"@) == Some(
            JsonView::Bool(false),
        ),
{
    reveal_strlit("type");
    reveal_strlit("enum");
    reveal_strlit("properties");
    reveal_strlit("required");
    reveal_strlit("additionalProperties");
    assert("type"@.len() == 4 && "enum"@.len() == 4 && "type"@[0] == 't' && "enum"@[0] == 'e'
        && "properties"@.len() == 10 && "required"@.len() == 8 && "additionalProperties"@.len()
        == 20);
    let choice = tools::choice_schema(words)->Object_0;
    json::lemma_member_at(choice, "type"@, 0, 0);
    json::lemma_member_at(choice, "enum"@, 0, 1);
    assert(words.map_values(|word: Seq<char>| json::said_text(word)) =~= words.map_values(
        |word: Seq<char>| JsonView::Text(word),
    ));
    let record = tools::record_schema(properties, required)->Object_0;
    json::lemma_member_at(record, "type"@, 0, 0);
    json::lemma_member_at(record, "properties"@, 0, 1);
    json::lemma_member_at(record, "required"@, 0, 2);
    json::lemma_member_at(record, "additionalProperties"@, 0, 3);
    assert(required.map_values(|word: Seq<char>| json::said_text(word)) =~= required.map_values(
        |word: Seq<char>| JsonView::Text(word),
    ));
}

} // verus!
