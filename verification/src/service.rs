//! The plugin's side of the protocol: the order of requests, and the replies.
use crate::json::{object, said_number, said_text, Json, JsonNumber, JsonView, ObjectBuilder};
use crate::protocol::{
    self, CallToolParams, PluginErrorCode, RequestEnvelope, RequestOperation, ResponseEnvelope,
    ToolResult, ToolSpec, PROTOCOL_VERSION,
};
use crate::provider::push_json;
use crate::tools::ToolSpecView;
use vstd::prelude::*;
use vstd::string::*;

verus! {

/// What a plugin tells of itself.
pub open spec fn identity_json(name: Seq<char>, version: Seq<char>) -> JsonView {
    object(
        seq![
            ("plugin"@, object(seq![("name"@, said_text(name)), ("version"@, said_text(version))])),
            (
                "protocol"@,
                object(
                    seq![
                        ("minVersion"@, said_number(PROTOCOL_VERSION as u64)),
                        ("maxVersion"@, said_number(PROTOCOL_VERSION as u64)),
                    ],
                ),
            ),
        ],
    )
}

/// A tool as it is told.
pub open spec fn tool_json(tool: ToolSpecView) -> JsonView {
    object(
        seq![
            ("name"@, said_text(tool.name)),
            ("description"@, said_text(tool.description)),
            ("inputSchema"@, tool.input_schema),
        ],
    )
}

/// Tools as they are told.
pub open spec fn tools_json(tools: Seq<ToolSpecView>) -> JsonView {
    object(
        seq![("tools"@, JsonView::Array(tools.map_values(|tool: ToolSpecView| tool_json(tool))))],
    )
}

/// The result of a tool as it is told.
pub open spec fn result_json(output: Seq<char>, truncated: bool) -> JsonView {
    object(seq![("output"@, said_text(output)), ("truncated"@, JsonView::Bool(truncated))])
}

fn build_identity(name: &str, version: &str) -> (r: Json)
    ensures
        r.deep_view() == identity_json(name@, version@),
{
    let plugin = ObjectBuilder::new().text("name", name).text("version", version);
    assert(plugin.said() =~= seq![("name"@, said_text(name@)), ("version"@, said_text(version@))]);
    let range = ObjectBuilder::new().with(
        "minVersion",
        Json::Number(JsonNumber::Unsigned(PROTOCOL_VERSION as u64)),
    ).with("maxVersion", Json::Number(JsonNumber::Unsigned(PROTOCOL_VERSION as u64)));
    assert(range.said() =~= seq![
        ("minVersion"@, said_number(PROTOCOL_VERSION as u64)),
        ("maxVersion"@, said_number(PROTOCOL_VERSION as u64)),
    ]);
    let members = ObjectBuilder::new().with("plugin", plugin.build()).with(
        "protocol",
        range.build(),
    );
    assert(members.said() =~= seq![
        ("plugin"@, object(plugin.said())),
        ("protocol"@, object(range.said())),
    ]);
    members.build()
}

fn build_tools(tools: &Vec<ToolSpec>) -> (r: Json)
    ensures
        r.deep_view() == tools_json(tools.deep_view()),
{
    let ghost wanted = tools.deep_view().map_values(|tool: ToolSpecView| tool_json(tool));
    let mut items: Vec<Json> = Vec::new();
    let mut i: usize = 0;
    assert(items.deep_view() =~= wanted.take(0));
    while i < tools.len()
        invariant
            wanted == tools.deep_view().map_values(|tool: ToolSpecView| tool_json(tool)),
            i <= tools@.len(),
            items.deep_view() == wanted.take(i as int),
        decreases tools@.len() - i,
    {
        let tool = &tools[i];
        assert(tools.deep_view()[i as int] == tool.deep_view());
        let members = ObjectBuilder::new().text("name", tool.name.as_str()).text(
            "description",
            tool.description.as_str(),
        ).with("inputSchema", tool.input_schema.clone());
        assert(members.said() =~= seq![
            ("name"@, said_text(tool.name@)),
            ("description"@, said_text(tool.description@)),
            ("inputSchema"@, tool.input_schema.deep_view()),
        ]);
        push_json(&mut items, members.build());
        assert(items.deep_view() =~= wanted.take(i + 1));
        i += 1;
    }
    assert(wanted.take(i as int) =~= wanted);
    let members = ObjectBuilder::new().with("tools", Json::of_items(items));
    assert(members.said() =~= seq![("tools"@, JsonView::Array(items.deep_view()))]);
    members.build()
}

/// Whether a response is a success with this result.
pub open spec fn succeeds(response: ResponseEnvelope, id: Seq<char>, result: JsonView) -> bool {
    response.v == PROTOCOL_VERSION && response.id@ == id && response.ok && (
    response.result matches Some(told) && told.deep_view() == result) && response.error is None
}

/// Whether a response is a failure with this message, cut to the limit of messages.
pub open spec fn fails(
    response: ResponseEnvelope,
    id: Seq<char>,
    code: PluginErrorCode,
    message: Seq<char>,
) -> bool {
    response.v == PROTOCOL_VERSION && response.id@ == id && !response.ok && response.result is None
        && (response.error matches Some(failure) && failure.code == code && !failure.retryable
        && failure.message@ == protocol::cut_to_bytes(
        message,
        protocol::DEFAULT_MAX_ERROR_MESSAGE_BYTES as nat,
    ))
}

/// A response that is a failure.
pub fn failure(id: String, code: PluginErrorCode, message: String) -> (r: ResponseEnvelope)
    ensures
        fails(r, id@, code, message@),
{
    ResponseEnvelope::failure(id, protocol::tool_failure(code, message, false))
}

/// What a plugin does with a request: it replies, and may end then, or runs a tool first.
#[derive(Debug)]
pub enum Answer {
    Reply { response: ResponseEnvelope, shutdown: bool },
    Call { id: String, call: CallToolParams },
}

/// The request that comes too early, and what it is told.
pub open spec fn early_message(operation: RequestOperation) -> Seq<char> {
    match operation {
        RequestOperation::Initialize(_) => Seq::empty(),
        RequestOperation::ListTools(_) => "initialize must complete before tool discovery"@,
        RequestOperation::CallTool(_) => "initialize must complete before tool execution"@,
        RequestOperation::Shutdown(_) => "initialize must complete before shutdown"@,
    }
}

/// What a plugin does with a request: first it is greeted, once; then it tells its tools, runs
/// them, and ends.
pub open spec fn answers(
    initialized: bool,
    request: RequestEnvelope,
    name: Seq<char>,
    version: Seq<char>,
    tools: Seq<ToolSpecView>,
    answer: Answer,
) -> bool {
    let id = request.id@;
    match request.operation {
        RequestOperation::Initialize(_) => answer matches Answer::Reply { response, shutdown }
            && !shutdown && if initialized {
            fails(response, id, PluginErrorCode::InvalidRequest, "plugin is already initialized"@)
        } else {
            succeeds(response, id, identity_json(name, version))
        },
        RequestOperation::ListTools(_) if initialized => answer matches Answer::Reply {
            response,
            shutdown,
        } && !shutdown && succeeds(response, id, tools_json(tools)),
        RequestOperation::CallTool(params) if initialized => answer matches Answer::Call {
            id: i,
            call,
        } && i@ == id && call == params,
        RequestOperation::Shutdown(_) if initialized => answer matches Answer::Reply {
            response,
            shutdown,
        } && shutdown && succeeds(response, id, object(Seq::empty())),
        operation => answer matches Answer::Reply { response, shutdown } && !shutdown && fails(
            response,
            id,
            PluginErrorCode::InvalidRequest,
            early_message(operation),
        ),
    }
}

/// A plugin that serves a host.
#[derive(Clone, Copy, Debug, PartialEq, Eq, Structural)]
pub struct PluginServer {
    pub initialized: bool,
}

impl PluginServer {
    /// A plugin that was not greeted yet.
    pub fn new() -> (r: Self)
        ensures
            !r.initialized,
    {
        PluginServer { initialized: false }
    }

    /// What the plugin does with a request.
    pub fn answer(
        &mut self,
        request: RequestEnvelope,
        name: &str,
        version: &str,
        tools: &Vec<ToolSpec>,
    ) -> (r: Answer)
        ensures
            answers(old(self).initialized, request, name@, version@, tools.deep_view(), r),
            final(self).initialized == (old(self).initialized || request.operation is Initialize),
    {
        let id = request.id;
        let was = self.initialized;
        match request.operation {
            RequestOperation::Initialize(_) => {
                if was {
                    refused(id, "plugin is already initialized")
                } else {
                    self.initialized = true;
                    let response = ResponseEnvelope::success(id, build_identity(name, version));
                    Answer::Reply { response, shutdown: false }
                }
            },
            RequestOperation::ListTools(_) => {
                if was {
                    let response = ResponseEnvelope::success(id, build_tools(tools));
                    Answer::Reply { response, shutdown: false }
                } else {
                    refused(id, "initialize must complete before tool discovery")
                }
            },
            RequestOperation::CallTool(call) => {
                if was {
                    Answer::Call { id, call }
                } else {
                    refused(id, "initialize must complete before tool execution")
                }
            },
            RequestOperation::Shutdown(_) => {
                if was {
                    let members = ObjectBuilder::new();
                    assert(members.said() =~= Seq::empty());
                    let response = ResponseEnvelope::success(id, members.build());
                    Answer::Reply { response, shutdown: true }
                } else {
                    refused(id, "initialize must complete before shutdown")
                }
            },
        }
    }
}

/// The reply to a request that comes out of order.
fn refused(id: String, message: &str) -> (r: Answer)
    ensures
        r matches Answer::Reply { response, shutdown } && !shutdown && fails(
            response,
            id@,
            PluginErrorCode::InvalidRequest,
            message@,
        ),
{
    Answer::Reply {
        response: failure(id, PluginErrorCode::InvalidRequest, message.to_owned()),
        shutdown: false,
    }
}

/// The reply to a call, once the tool has run.
pub fn call_reply(id: String, outcome: Result<ToolResult, String>) -> (r: ResponseEnvelope)
    ensures
        match outcome {
            Ok(result) => succeeds(r, id@, result_json(result.output@, result.truncated)),
            Err(message) => fails(r, id@, PluginErrorCode::ToolFailed, message@),
        },
{
    match outcome {
        Ok(result) => {
            let members = ObjectBuilder::new().text("output", result.output.as_str()).with(
                "truncated",
                Json::Bool(result.truncated),
            );
            assert(members.said() =~= seq![
                ("output"@, said_text(result.output@)),
                ("truncated"@, JsonView::Bool(result.truncated)),
            ]);
            ResponseEnvelope::success(id, members.build())
        },
        Err(message) => failure(id, PluginErrorCode::ToolFailed, message),
    }
}

/// Before a plugin is greeted it runs no tool, tells none and does not end; and it is greeted once.
pub proof fn law_greeting_comes_first(
    initialized: bool,
    request: RequestEnvelope,
    name: Seq<char>,
    version: Seq<char>,
    tools: Seq<ToolSpecView>,
    answer: Answer,
)
    requires
        answers(initialized, request, name, version, tools, answer),
    ensures
        answer is Call ==> initialized,
        answer matches Answer::Reply { response, shutdown } ==> {
            &&& shutdown ==> initialized
            &&& response.ok <==> (request.operation is Initialize) != initialized
        },
        answer matches Answer::Reply { response, shutdown } ==> response.id@ == request.id@,
{
}

} // verus!
