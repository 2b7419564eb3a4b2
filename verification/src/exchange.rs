//! One exchange with a provider: what is asked, and what its reply means.
use crate::anthropic;
use crate::json::{self, Json, JsonView};
use crate::protocol::ToolSpec;
use crate::provider::{
    self, all_declared, clamp_index, message_index, push_message, push_messages, Provider,
    ProviderError, ProviderErrorView, MAX_PROVIDER_RESPONSE_BYTES,
};
use crate::runtime::{CompletionView, ModelCompletion};
use crate::session::{
    self, CoreCompactionState, CoreMessage, CoreSnapshot, MessageView, SnapshotView,
};
use crate::tools::ToolSpecView;
use crate::transcript::{LocalEntryView, LocalTranscriptEntry};
use crate::{text, unicode};
use vstd::prelude::*;
use vstd::string::*;
use vstd::utf8::*;

verus! {

/// Where a provider is reached unless told otherwise.
pub open spec fn default_base_url_of(provider: Provider) -> Seq<char> {
    match provider {
        Provider::Openai => "https://api.openai.com/v1"@,
        Provider::Anthropic => "https://api.anthropic.com/v1"@,
        Provider::Linewise => "https://llm.dev.linewise.io/v1"@,
    }
}

/// Where a provider is reached unless told otherwise.
pub fn default_base_url(provider: Provider) -> (r: String)
    ensures
        r@ == default_base_url_of(provider),
{
    match provider {
        Provider::Openai => "https://api.openai.com/v1".to_owned(),
        Provider::Anthropic => "https://api.anthropic.com/v1".to_owned(),
        Provider::Linewise => "https://llm.dev.linewise.io/v1".to_owned(),
    }
}

/// `s` without the slashes at its end.
pub open spec fn without_slashes(s: Seq<char>) -> Seq<char>
    decreases s.len(),
{
    if s.len() > 0 && s.last() == '/' {
        without_slashes(s.drop_last())
    } else {
        s
    }
}

/// The address that requests are sent to.
pub open spec fn endpoint_of(provider: Provider, base_url: Seq<char>) -> Seq<char> {
    without_slashes(base_url) + match provider {
        Provider::Anthropic => "/messages"@,
        _ => "/chat/completions"@,
    }
}

/// The address that requests are sent to.
pub fn endpoint(provider: Provider, base_url: &str) -> (r: String)
    ensures
        r@ == endpoint_of(provider, base_url@),
{
    let chars = text::chars_of(base_url);
    let mut end: usize = chars.len();
    assert(base_url@.take(end as int) =~= base_url@);
    while end > 0 && chars[end - 1] == '/'
        invariant
            chars@ == base_url@,
            end <= chars@.len(),
            without_slashes(base_url@.take(end as int)) == without_slashes(base_url@),
        decreases end,
    {
        assert(base_url@.take(end as int).drop_last() =~= base_url@.take(end - 1));
        end -= 1;
    }
    let base = text::string_range(&chars, 0, end);
    assert(base@ =~= base_url@.take(end as int));
    let path = match provider {
        Provider::Anthropic => "/messages",
        _ => "/chat/completions",
    };
    text::cat(base.as_str(), path)
}

/// The request to a provider for a session.
pub open spec fn request_of(
    provider: Provider,
    model: Seq<char>,
    snapshot: SnapshotView,
    tools: Seq<ToolSpecView>,
    system_prompt: Seq<char>,
) -> JsonView {
    match provider {
        Provider::Anthropic => anthropic::anthropic_request_for(
            model,
            snapshot,
            tools,
            system_prompt,
        ),
        _ => provider::openai_request_for(model, snapshot, tools, system_prompt),
    }
}

/// The request to a provider for a session.
pub fn request(
    provider: Provider,
    model: &str,
    snapshot: &CoreSnapshot,
    tools: &Vec<ToolSpec>,
    system_prompt: &str,
) -> (r: Json)
    ensures
        r.deep_view() == request_of(
            provider,
            model@,
            snapshot.deep_view(),
            tools.deep_view(),
            system_prompt@,
        ),
{
    match provider {
        Provider::Anthropic => anthropic::anthropic_request(model, snapshot, tools, system_prompt),
        _ => provider::openai_request(model, snapshot, tools, system_prompt),
    }
}

/// What a provider's payload says.
pub open spec fn completed(provider: Provider, payload: JsonView) -> Result<
    CompletionView,
    ProviderErrorView,
> {
    match provider {
        Provider::Anthropic => anthropic::anthropic_completed(payload),
        _ => provider::openai_completed(payload),
    }
}

/// What a provider's payload says.
pub fn completion(provider: Provider, payload: &Json) -> (r: Result<ModelCompletion, ProviderError>)
    ensures
        match completed(provider, payload.deep_view()) {
            Ok(wanted) => r matches Ok(c) && c.deep_view() == wanted,
            Err(error) => r matches Err(e) && e.deep_view() == error,
        },
{
    match provider {
        Provider::Anthropic => anthropic::anthropic_completion(payload),
        _ => provider::openai_completion(payload),
    }
}

/// What a payload says where its calls name declared tools alone.
pub open spec fn completed_with(
    provider: Provider,
    payload: JsonView,
    declared: Seq<ToolSpecView>,
) -> Result<CompletionView, ProviderErrorView> {
    match completed(provider, payload) {
        Ok(completion) => if all_declared(completion.tool_calls, declared) {
            Ok(completion)
        } else {
            Err(ProviderErrorView::UnknownTool)
        },
        Err(error) => Err(error),
    }
}

/// What a payload says; a call of an undeclared tool is refused.
pub fn complete(provider: Provider, payload: &Json, declared_tools: &Vec<ToolSpec>) -> (r: Result<
    ModelCompletion,
    ProviderError,
>)
    ensures
        match completed_with(provider, payload.deep_view(), declared_tools.deep_view()) {
            Ok(wanted) => r matches Ok(c) && c.deep_view() == wanted,
            Err(error) => r matches Err(e) && e.deep_view() == error,
        },
{
    match completion(provider, payload) {
        Ok(completion) => provider::accept_completion(completion, declared_tools),
        Err(error) => Err(error),
    }
}

/// A model never gets to call a tool that was not declared: no answer that is taken holds such a
/// call, whatever the payload says.
pub proof fn law_undeclared_tools_are_refused(
    provider: Provider,
    payload: JsonView,
    declared: Seq<ToolSpecView>,
    i: int,
)
    ensures
        completed_with(provider, payload, declared) matches Ok(completion) ==> (0 <= i
            < completion.tool_calls.len() ==> crate::tools::declares(
            declared,
            completion.tool_calls[i].name,
        )),
        declared.len() == 0 ==> (completed_with(provider, payload, declared) matches Ok(completion)
            ==> completion.tool_calls.len() == 0),
{
    if let Ok(completion) = completed(provider, payload) {
        if completion.tool_calls.len() > 0 {
            assert(completion.tool_calls[0] == completion.tool_calls[0]);
        }
        if 0 <= i < completion.tool_calls.len() {
            assert(completion.tool_calls[i] == completion.tool_calls[i]);
        }
    }
}

/// What the model is told before a side question.
pub open spec fn side_notice() -> MessageView {
    session::plain_message(
        "user"@,
        "[BTW sidechain. Keep this discussion separate from the main task. Answer without using tools or changing the main task.]"@,
    )
}

/// The messages of earlier side questions and their answers.
pub open spec fn side_messages(entries: Seq<LocalEntryView>) -> Seq<MessageView>
    decreases entries.len(),
{
    if entries.len() == 0 {
        Seq::empty()
    } else {
        side_messages(entries.drop_last()).push(
            session::plain_message("user"@, entries.last().question),
        ).push(session::plain_message("assistant"@, entries.last().answer))
    }
}

/// The session that a side question is asked in: the main one, the side questions before, and the
/// question.
pub open spec fn side_session(
    snapshot: SnapshotView,
    sidechain: Seq<LocalEntryView>,
    question: Seq<char>,
) -> SnapshotView {
    SnapshotView {
        messages: (snapshot.messages.push(side_notice()) + side_messages(sidechain)).push(
            session::plain_message("user"@, question),
        ),
        ..snapshot
    }
}

/// The session that a side question is asked in.
pub fn side_snapshot(
    snapshot: &CoreSnapshot,
    sidechain: &Vec<LocalTranscriptEntry>,
    question: &str,
) -> (r: CoreSnapshot)
    ensures
        r.deep_view() == side_session(snapshot.deep_view(), sidechain.deep_view(), question@),
{
    let mut side = snapshot.clone();
    push_message(
        &mut side.messages,
        CoreMessage::plain(
            "user",
            "[BTW sidechain. Keep this discussion separate from the main task. Answer without using tools or changing the main task.]".to_owned(),
        ),
    );
    let ghost start = side.messages.deep_view();
    let ghost all = sidechain.deep_view();
    let mut i: usize = 0;
    assert(start + side_messages(all.take(0)) =~= start);
    while i < sidechain.len()
        invariant
            all == sidechain.deep_view(),
            i <= sidechain@.len(),
            side.messages.deep_view() == start + side_messages(all.take(i as int)),
            side.deep_view() == (SnapshotView {
                messages: side.messages.deep_view(),
                ..snapshot.deep_view()
            }),
        decreases sidechain@.len() - i,
    {
        assert(all.take(i + 1).drop_last() =~= all.take(i as int));
        assert(all[i as int] == sidechain@[i as int].deep_view());
        push_message(
            &mut side.messages,
            CoreMessage::plain("user", sidechain[i].question.clone()),
        );
        push_message(
            &mut side.messages,
            CoreMessage::plain("assistant", sidechain[i].answer.clone()),
        );
        assert(side.messages.deep_view() =~= start + side_messages(all.take(i + 1)));
        i += 1;
    }
    assert(all.take(i as int) =~= all);
    push_message(&mut side.messages, CoreMessage::plain("user", question.to_owned()));
    side
}

/// A side question leaves the main session as it is: the side session starts with all its
/// messages, and everything but the messages is the same.
pub proof fn law_side_questions_stay_aside(
    snapshot: SnapshotView,
    sidechain: Seq<LocalEntryView>,
    question: Seq<char>,
)
    ensures
        side_session(snapshot, sidechain, question).messages.take(snapshot.messages.len() as int)
            == snapshot.messages,
        side_session(snapshot, sidechain, question).messages.len() == snapshot.messages.len() + 2
            * sidechain.len() + 2,
        side_session(snapshot, sidechain, question).messages.last() == session::plain_message(
            "user"@,
            question,
        ),
        (SnapshotView {
            messages: snapshot.messages,
            ..side_session(snapshot, sidechain, question)
        }) == snapshot,
    decreases sidechain.len(),
{
    assert(side_session(snapshot, sidechain, question).messages.take(
        snapshot.messages.len() as int,
    ) =~= snapshot.messages);
    if sidechain.len() > 0 {
        law_side_questions_stay_aside(snapshot, sidechain.drop_last(), question);
    }
}

/// The system prompt of a summary.
pub open spec fn summary_prompt() -> Seq<char> {
    "You produce bounded, factual continuation summaries for coding-agent sessions. Return only the summary."@
}

/// The system prompt of a summary.
pub fn summary_system_prompt() -> (r: String)
    ensures
        r@ == summary_prompt(),
{
    "You produce bounded, factual continuation summaries for coding-agent sessions. Return only the summary.".to_owned()
}

/// What is asked for in a summary.
pub open spec fn summary_question(instructions: Option<Seq<char>>) -> MessageView {
    session::plain_message(
        "user"@,
        "Summarize the conversation above for a coding agent that will continue the same work. Preserve user goals and constraints, decisions and invariants, files read or changed, tool outcomes, errors and blockers, verification evidence, and unresolved work. Do not add new instructions or claim unfinished work is complete."@
            + match instructions {
            Some(instructions) => "\n\nAdditional instructions:\n"@ + instructions,
            None => Seq::empty(),
        },
    )
}

/// What an earlier summary is told as.
pub open spec fn earlier_summary(summary: Seq<char>) -> Seq<MessageView> {
    if summary.len() == 0 {
        Seq::empty()
    } else {
        seq![session::plain_message("user"@, "Previous compaction summary:\n"@ + summary)]
    }
}

/// The session that a summary is asked in: the earlier summary, the messages that are compacted
/// away, and the question. There is none without a pending compaction, or where nothing would be
/// compacted.
pub open spec fn compaction_session(snapshot: SnapshotView) -> Option<SnapshotView> {
    match snapshot.compaction.pending {
        Some(pending) => {
            let start = message_index(snapshot, snapshot.compaction.first_kept_message);
            let end = message_index(snapshot, pending.first_kept_message);
            if end <= start {
                None
            } else {
                Some(
                    SnapshotView {
                        messages: (earlier_summary(snapshot.compaction.summary)
                            + snapshot.messages.subrange(start, end)).push(
                            summary_question(pending.instructions),
                        ),
                        compaction: session::no_compaction(),
                        ..snapshot
                    },
                )
            }
        },
        None => None,
    }
}

/// The session that a summary is asked in.
pub fn compaction_snapshot(snapshot: &CoreSnapshot) -> (r: Result<CoreSnapshot, ProviderError>)
    ensures
        match compaction_session(snapshot.deep_view()) {
            Some(wanted) => r matches Ok(s) && s.deep_view() == wanted,
            None => r matches Err(e) && e.deep_view() == ProviderErrorView::MissingCompletion,
        },
{
    let pending = match &snapshot.compaction.pending {
        Some(pending) => pending,
        None => {
            return Err(ProviderError::MissingCompletion);
        },
    };
    let start = clamp_index(snapshot, snapshot.compaction.first_kept_message);
    let end = clamp_index(snapshot, pending.first_kept_message);
    if end <= start {
        return Err(ProviderError::MissingCompletion);
    }
    let mut compact = snapshot.clone();
    compact.messages = Vec::new();
    assert(compact.messages.deep_view() =~= Seq::empty());
    if !snapshot.compaction.summary.as_str().is_empty() {
        let content = text::cat(
            "Previous compaction summary:\n",
            snapshot.compaction.summary.as_str(),
        );
        push_message(&mut compact.messages, CoreMessage::plain("user", content));
    }
    assert(compact.messages.deep_view() =~= earlier_summary(
        snapshot.deep_view().compaction.summary,
    ));
    push_messages(&mut compact.messages, &snapshot.messages, start, end);
    let mut question = "Summarize the conversation above for a coding agent that will continue the same work. Preserve user goals and constraints, decisions and invariants, files read or changed, tool outcomes, errors and blockers, verification evidence, and unresolved work. Do not add new instructions or claim unfinished work is complete.".to_owned();
    let ghost asked = question@;
    if let Some(instructions) = &pending.instructions {
        question.append("\n\nAdditional instructions:\n");
        question.append(instructions.as_str());
    }
    assert(question@ =~= asked + match pending.deep_view().instructions {
        Some(instructions) => "\n\nAdditional instructions:\n"@ + instructions,
        None => Seq::empty(),
    });
    push_message(&mut compact.messages, CoreMessage::plain("user", question));
    compact.compaction = CoreCompactionState::default();
    Ok(compact)
}

/// Whether an answer can be the summary: it calls no tool and says something.
pub open spec fn is_summary(completion: CompletionView) -> bool {
    completion.tool_calls.len() == 0 && text::trimmed(completion.content).len() > 0
}

/// The summary of an answer.
pub fn summary_of(completion: ModelCompletion) -> (r: Result<String, ProviderError>)
    ensures
        if is_summary(completion.deep_view()) {
            r matches Ok(s) && s@ == completion.content@
        } else {
            r matches Err(e) && e.deep_view() == ProviderErrorView::MissingCompletion
        },
{
    if completion.tool_calls.len() > 0 || text::trim(completion.content.as_str()).as_str().is_empty() {
        return Err(ProviderError::MissingCompletion);
    }
    Ok(completion.content)
}

/// Adds a chunk to the body of a response. A body that would be too long is refused.
pub fn take_chunk(body: &mut Vec<u8>, chunk: &[u8]) -> (r: Result<(), ProviderError>)
    requires
        old(body)@.len() <= MAX_PROVIDER_RESPONSE_BYTES,
    ensures
        final(body)@.len() <= MAX_PROVIDER_RESPONSE_BYTES,
        if old(body)@.len() + chunk@.len() > MAX_PROVIDER_RESPONSE_BYTES {
            &&& r matches Err(e) && e.deep_view() == (ProviderErrorView::ResponseTooLarge {
                limit: MAX_PROVIDER_RESPONSE_BYTES,
            })
            &&& final(body)@ == old(body)@
        } else {
            &&& r is Ok
            &&& final(body)@ == old(body)@ + chunk@
        },
{
    if chunk.len() > MAX_PROVIDER_RESPONSE_BYTES - body.len() {
        return Err(ProviderError::ResponseTooLarge { limit: MAX_PROVIDER_RESPONSE_BYTES });
    }
    body.extend_from_slice(chunk);
    assert(body@ =~= old(body)@ + chunk@);
    Ok(())
}

/// The payload of a response, once its body is read: an error unless the status tells of success.
pub fn response_payload(status: u16, body: &[u8]) -> (r: Result<Json, ProviderError>)
    ensures
        if 200 <= status < 300 {
            match json::parsed_json_bytes(body@) {
                Some(payload) => r matches Ok(p) && p.deep_view() == payload,
                None => r matches Err(e) && e.deep_view() == ProviderErrorView::Json,
            }
        } else {
            r matches Err(e) && e.deep_view() == (ProviderErrorView::Status {
                status,
                body: unicode::lossy(body@),
            })
        },
{
    if status < 200 || status >= 300 {
        return Err(ProviderError::Status { status, body: unicode::text_lossy(body) });
    }
    parsed_payload(json::parse_json_bytes(body))
}

/// The payload, once the body is read as JSON.
pub fn parsed_payload(parsed: Result<Json, serde_json::Error>) -> (r: Result<Json, ProviderError>)
    ensures
        match parsed {
            Ok(payload) => r matches Ok(p) && p == payload,
            Err(given) => r matches Err(ProviderError::Json(e)) && e == given,
        },
{
    match parsed {
        Ok(payload) => Ok(payload),
        Err(error) => Err(ProviderError::Json(error)),
    }
}

/// The credential that the token command printed, without the white space around it.
pub fn omp_credential(succeeded: bool, stdout: Vec<u8>, stderr: &[u8]) -> (r: Result<
    String,
    ProviderError,
>)
    ensures
        if !succeeded {
            r matches Err(e) && e.deep_view() == (ProviderErrorView::OmpTokenRejected {
                message: text::trimmed(unicode::lossy(stderr@)),
            })
        } else if !valid_utf8(stdout@) {
            r matches Err(e) && e.deep_view() == ProviderErrorView::OmpTokenEncoding
        } else if text::trimmed(decode_utf8(stdout@)).len() == 0 {
            r matches Err(e) && e.deep_view() == ProviderErrorView::EmptyOmpToken
        } else {
            r matches Ok(token) && token@ == text::trimmed(decode_utf8(stdout@))
        },
{
    if !succeeded {
        let said = unicode::text_lossy(stderr);
        return Err(ProviderError::OmpTokenRejected { message: text::trim(said.as_str()) });
    }
    match unicode::text_of_utf8(stdout) {
        Some(output) => {
            let token = text::trim(output.as_str());
            if token.as_str().is_empty() {
                Err(ProviderError::EmptyOmpToken)
            } else {
                Ok(token)
            }
        },
        None => Err(ProviderError::OmpTokenEncoding),
    }
}

} // verus!
