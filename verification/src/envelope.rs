//! The JSON form of a request to a plugin.
use crate::json::{
    lemma_member_at, lemma_reordered_member, object, reordered, said_number, said_text, Json,
    JsonView, ObjectBuilder,
};
use crate::protocol::{
    CallToolParams, EmptyParams, HostIdentity, InitializeParams, Limits, RequestEnvelope,
    RequestOperation,
};
use crate::text;
use vstd::prelude::*;
use vstd::string::*;

verus! {

/// What an operation asks for.
pub enum OperationView {
    Initialize { name: Seq<char>, version: Seq<char>, limits: Limits },
    ListTools,
    CallTool { name: Seq<char>, arguments: JsonView },
    Shutdown,
}

/// What a request says.
pub struct RequestView {
    pub v: u16,
    pub id: Seq<char>,
    pub operation: OperationView,
}

impl DeepView for RequestOperation {
    type V = OperationView;

    open spec fn deep_view(&self) -> OperationView {
        match self {
            RequestOperation::Initialize(params) => OperationView::Initialize {
                name: params.host.name@,
                version: params.host.version@,
                limits: params.limits,
            },
            RequestOperation::ListTools(_) => OperationView::ListTools,
            RequestOperation::CallTool(call) => OperationView::CallTool {
                name: call.name@,
                arguments: call.arguments.deep_view(),
            },
            RequestOperation::Shutdown(_) => OperationView::Shutdown,
        }
    }
}

impl DeepView for RequestEnvelope {
    type V = RequestView;

    open spec fn deep_view(&self) -> RequestView {
        RequestView { v: self.v, id: self.id@, operation: self.operation.deep_view() }
    }
}

/// The name of an operation.
pub open spec fn operation_name(operation: OperationView) -> Seq<char> {
    match operation {
        OperationView::Initialize { .. } => "initialize"@,
        OperationView::ListTools => "list_tools"@,
        OperationView::CallTool { .. } => "call_tool"@,
        OperationView::Shutdown => "shutdown"@,
    }
}

/// The JSON form of limits.
pub open spec fn limits_form(limits: Limits) -> JsonView {
    object(
        seq![
            ("maxFrameBytes"@, said_number(limits.max_frame_bytes as u64)),
            ("maxToolOutputBytes"@, said_number(limits.max_tool_output_bytes as u64)),
            ("maxErrorMessageBytes"@, said_number(limits.max_error_message_bytes as u64)),
        ],
    )
}

/// The JSON form of a host.
pub open spec fn host_form(name: Seq<char>, version: Seq<char>) -> JsonView {
    object(seq![("name"@, said_text(name)), ("version"@, said_text(version))])
}

/// The JSON form of the parameters of an operation.
pub open spec fn params_form(operation: OperationView) -> JsonView {
    match operation {
        OperationView::Initialize { name, version, limits } => object(
            seq![("host"@, host_form(name, version)), ("limits"@, limits_form(limits))],
        ),
        OperationView::CallTool { name, arguments } => object(
            seq![("name"@, said_text(name)), ("arguments"@, arguments)],
        ),
        OperationView::ListTools => object(Seq::empty()),
        OperationView::Shutdown => object(Seq::empty()),
    }
}

/// The JSON form of a request.
pub open spec fn request_form(request: RequestView) -> JsonView {
    object(
        seq![
            ("v"@, said_number(request.v as u64)),
            ("id"@, said_text(request.id)),
            ("op"@, said_text(operation_name(request.operation))),
            ("params"@, params_form(request.operation)),
        ],
    )
}

/// The limits that a JSON value gives, its members in any order.
pub open spec fn limits_said(json: JsonView) -> Option<Limits> {
    match (
        json.member_number("maxFrameBytes"@),
        json.member_number("maxToolOutputBytes"@),
        json.member_number("maxErrorMessageBytes"@),
    ) {
        (Some(frame), Some(output), Some(message)) => if json.size() == Some(3nat) && frame
            <= usize::MAX && output <= usize::MAX && message <= usize::MAX {
            Some(
                Limits {
                    max_frame_bytes: frame as usize,
                    max_tool_output_bytes: output as usize,
                    max_error_message_bytes: message as usize,
                },
            )
        } else {
            None
        },
        _ => None,
    }
}

/// The host that a JSON value gives, its members in any order.
pub open spec fn host_said(json: JsonView) -> Option<(Seq<char>, Seq<char>)> {
    match (json.member_text("name"@), json.member_text("version"@)) {
        (Some(name), Some(version)) => if json.size() == Some(2nat) {
            Some((name, version))
        } else {
            None
        },
        _ => None,
    }
}

/// The greeting that JSON parameters give, their members in any order.
pub open spec fn greeting_said(params: JsonView) -> Option<OperationView> {
    match (params.member("host"@), params.member("limits"@)) {
        (Some(host), Some(limits)) => match (host_said(host), limits_said(limits)) {
            (Some((name, version)), Some(limits)) => if params.size() == Some(2nat) {
                Some(OperationView::Initialize { name, version, limits })
            } else {
                None
            },
            _ => None,
        },
        _ => None,
    }
}

/// The call that JSON parameters give, their members in any order.
pub open spec fn call_said(params: JsonView) -> Option<OperationView> {
    match (params.member_text("name"@), params.member("arguments"@)) {
        (Some(name), Some(arguments)) => if params.size() == Some(2nat) {
            Some(OperationView::CallTool { name, arguments })
        } else {
            None
        },
        _ => None,
    }
}

/// The operation of this name with these JSON parameters.
pub open spec fn operation_said(name: Seq<char>, params: JsonView) -> Option<OperationView> {
    if name == "initialize"@ {
        greeting_said(params)
    } else if name == "call_tool"@ {
        call_said(params)
    } else if name == "list_tools"@ && params.size() == Some(0nat) {
        Some(OperationView::ListTools)
    } else if name == "shutdown"@ && params.size() == Some(0nat) {
        Some(OperationView::Shutdown)
    } else {
        None
    }
}

/// The request whose JSON form a value is, with its members in any order, if it is one.
pub open spec fn request_said(json: JsonView) -> Option<RequestView> {
    match (
        json.member_number("v"@),
        json.member_text("id"@),
        json.member_text("op"@),
        json.member("params"@),
    ) {
        (Some(v), Some(id), Some(op), Some(params)) => match operation_said(op, params) {
            Some(operation) => if json.size() == Some(4nat) && v <= u16::MAX {
                Some(RequestView { v: v as u16, id, operation })
            } else {
                None
            },
            None => None,
        },
        _ => None,
    }
}

/// The JSON form of limits.
fn limits_json(limits: &Limits) -> (r: Json)
    ensures
        r.deep_view() == limits_form(*limits),
{
    let built = ObjectBuilder::new().number("maxFrameBytes", limits.max_frame_bytes as u64).number(
        "maxToolOutputBytes",
        limits.max_tool_output_bytes as u64,
    ).number("maxErrorMessageBytes", limits.max_error_message_bytes as u64);
    assert(object(built.said()) == limits_form(*limits)) by {
        assert(built.said() =~= seq![
            ("maxFrameBytes"@, said_number(limits.max_frame_bytes as u64)),
            ("maxToolOutputBytes"@, said_number(limits.max_tool_output_bytes as u64)),
            ("maxErrorMessageBytes"@, said_number(limits.max_error_message_bytes as u64)),
        ]);
    }
    built.build()
}

/// The JSON form of the parameters of an operation.
fn params_json(operation: &RequestOperation) -> (r: Json)
    ensures
        r.deep_view() == params_form(operation.deep_view()),
{
    match operation {
        RequestOperation::Initialize(params) => {
            let host = ObjectBuilder::new().text("name", params.host.name.as_str()).text(
                "version",
                params.host.version.as_str(),
            );
            assert(host.said() =~= seq![
                ("name"@, said_text(params.host.name@)),
                ("version"@, said_text(params.host.version@)),
            ]);
            let built = ObjectBuilder::new().with("host", host.build()).with(
                "limits",
                limits_json(&params.limits),
            );
            assert(built.said() =~= seq![
                ("host"@, host_form(params.host.name@, params.host.version@)),
                ("limits"@, limits_form(params.limits)),
            ]);
            built.build()
        },
        RequestOperation::CallTool(call) => {
            let built = ObjectBuilder::new().text("name", call.name.as_str()).with(
                "arguments",
                call.arguments.clone(),
            );
            assert(built.said() =~= seq![
                ("name"@, said_text(call.name@)),
                ("arguments"@, call.arguments.deep_view()),
            ]);
            built.build()
        },
        RequestOperation::ListTools(_) => ObjectBuilder::new().build(),
        RequestOperation::Shutdown(_) => ObjectBuilder::new().build(),
    }
}

/// The JSON form of a request, in which it is written.
pub fn request_json(request: &RequestEnvelope) -> (r: Json)
    ensures
        r.deep_view() == request_form(request.deep_view()),
{
    let name = match &request.operation {
        RequestOperation::Initialize(_) => "initialize",
        RequestOperation::ListTools(_) => "list_tools",
        RequestOperation::CallTool(_) => "call_tool",
        RequestOperation::Shutdown(_) => "shutdown",
    };
    let built = ObjectBuilder::new().number("v", request.v as u64).text(
        "id",
        request.id.as_str(),
    ).text("op", name).with("params", params_json(&request.operation));
    assert(built.said() =~= seq![
        ("v"@, said_number(request.v as u64)),
        ("id"@, said_text(request.id@)),
        ("op"@, said_text(operation_name(request.operation.deep_view()))),
        ("params"@, params_form(request.operation.deep_view())),
    ]);
    built.build()
}

/// The limits that a JSON value gives.
fn limits_of(json: &Json) -> (r: Option<Limits>)
    ensures
        r == limits_said(json.deep_view()),
{
    match (
        json.get_u64("maxFrameBytes"),
        json.get_u64("maxToolOutputBytes"),
        json.get_u64("maxErrorMessageBytes"),
    ) {
        (Some(frame), Some(output), Some(message)) => {
            let most: u64 = usize::MAX as u64;
            if json.has_size(3) && frame <= most && output <= most && message <= most {
                Some(
                    Limits {
                        max_frame_bytes: frame as usize,
                        max_tool_output_bytes: output as usize,
                        max_error_message_bytes: message as usize,
                    },
                )
            } else {
                None
            }
        },
        _ => None,
    }
}

/// Whether an operation was taken exactly where one is given.
spec fn takes(taken: Option<RequestOperation>, given: Option<OperationView>) -> bool {
    match taken {
        Some(operation) => given == Some(operation.deep_view()),
        None => given is None,
    }
}

/// The greeting that JSON parameters give.
fn greeting_of(params: &Json) -> (r: Option<RequestOperation>)
    ensures
        takes(r, greeting_said(params.deep_view())),
{
    match (params.get("host"), params.get("limits")) {
        (Some(host), Some(limits)) => match (
            host.get_str("name"),
            host.get_str("version"),
            limits_of(limits),
        ) {
            (Some(name), Some(version), Some(limits)) => if host.has_size(2) && params.has_size(2) {
                Some(
                    RequestOperation::Initialize(
                        InitializeParams {
                            host: HostIdentity {
                                name: name.to_owned(),
                                version: version.to_owned(),
                            },
                            limits,
                        },
                    ),
                )
            } else {
                None
            },
            _ => None,
        },
        _ => None,
    }
}

/// The call that JSON parameters give.
fn call_of(params: &Json) -> (r: Option<RequestOperation>)
    ensures
        takes(r, call_said(params.deep_view())),
{
    match (params.get_str("name"), params.get("arguments")) {
        (Some(name), Some(arguments)) => if params.has_size(2) {
            Some(
                RequestOperation::CallTool(
                    CallToolParams { name: name.to_owned(), arguments: arguments.clone() },
                ),
            )
        } else {
            None
        },
        _ => None,
    }
}

/// Takes a request from its JSON form.
pub fn request_of_json(json: &Json) -> (r: Option<RequestEnvelope>)
    ensures
        match r {
            Some(request) => request_said(json.deep_view()) == Some(request.deep_view()),
            None => request_said(json.deep_view()) is None,
        },
{
    match (json.get_u64("v"), json.get_str("id"), json.get_str("op"), json.get("params")) {
        (Some(v), Some(id), Some(op), Some(params)) => {
            let operation = if text::str_eq(op, "initialize") {
                greeting_of(params)
            } else if text::str_eq(op, "call_tool") {
                call_of(params)
            } else if text::str_eq(op, "list_tools") && params.has_size(0) {
                Some(RequestOperation::ListTools(EmptyParams {  }))
            } else if text::str_eq(op, "shutdown") && params.has_size(0) {
                Some(RequestOperation::Shutdown(EmptyParams {  }))
            } else {
                None
            };
            assert(takes(operation, operation_said(op@, params.deep_view())));
            match operation {
                Some(operation) => if json.has_size(4) && v <= 65535 {
                    Some(RequestEnvelope { v: v as u16, id: id.to_owned(), operation })
                } else {
                    None
                },
                None => None,
            }
        },
        _ => None,
    }
}

/// Whether two requests are equal but for the order of the members in the arguments of a call.
pub open spec fn requests_match(a: RequestView, b: RequestView) -> bool {
    &&& a.v == b.v
    &&& a.id == b.id
    &&& match (a.operation, b.operation) {
        (
            OperationView::CallTool { name, arguments },
            OperationView::CallTool { name: other_name, arguments: other_arguments },
        ) => name == other_name && reordered(arguments, other_arguments),
        _ => a.operation == b.operation,
    }
}

/// A request that was written is read back as it was, whatever its operation and arguments are.
/// The order in which the members of an object come back does not matter.
pub proof fn law_request_round_trip(request: RequestView, json: JsonView)
    ensures
        request_said(request_form(request)) == Some(request),
        reordered(request_form(request), json) ==> (request_said(json) matches Some(read)
            && requests_match(request, read)),
{
    lemma_members(request);
    lemma_operation_round_trip(request.operation);
    if reordered(request_form(request), json) {
        let form = request_form(request);
        lemma_reordered_member(form, json, "v"@);
        lemma_reordered_member(form, json, "id"@);
        lemma_reordered_member(form, json, "op"@);
        lemma_reordered_member(form, json, "params"@);
        lemma_reordered_params(request.operation, json.member("params"@)->0);
    }
}

proof fn lemma_members(request: RequestView)
    ensures
        request_form(request).member("v"@) == Some(said_number(request.v as u64)),
        request_form(request).member("id"@) == Some(said_text(request.id)),
        request_form(request).member("op"@) == Some(said_text(operation_name(request.operation))),
        request_form(request).member("params"@) == Some(params_form(request.operation)),
{
    reveal_strlit("v");
    reveal_strlit("id");
    reveal_strlit("op");
    reveal_strlit("params");
    assert("v"@.len() == 1 && "params"@.len() == 6);
    assert("id"@.len() == 2 && "op"@.len() == 2 && "id"@[0] != "op"@[0]);
    if let JsonView::Object(members) = request_form(request) {
        lemma_member_at(members, "v"@, 0, 0);
        lemma_member_at(members, "id"@, 0, 1);
        lemma_member_at(members, "op"@, 0, 2);
        lemma_member_at(members, "params"@, 0, 3);
    }
}

proof fn lemma_limits_round_trip(limits: Limits, json: JsonView)
    ensures
        limits_said(limits_form(limits)) == Some(limits),
        reordered(limits_form(limits), json) ==> limits_said(json) == Some(limits),
{
    reveal_strlit("maxFrameBytes");
    reveal_strlit("maxToolOutputBytes");
    reveal_strlit("maxErrorMessageBytes");
    assert("maxFrameBytes"@.len() == 13 && "maxToolOutputBytes"@.len() == 18);
    assert("maxErrorMessageBytes"@.len() == 20);
    if let JsonView::Object(members) = limits_form(limits) {
        lemma_member_at(members, "maxFrameBytes"@, 0, 0);
        lemma_member_at(members, "maxToolOutputBytes"@, 0, 1);
        lemma_member_at(members, "maxErrorMessageBytes"@, 0, 2);
    }
    if reordered(limits_form(limits), json) {
        lemma_reordered_member(limits_form(limits), json, "maxFrameBytes"@);
        lemma_reordered_member(limits_form(limits), json, "maxToolOutputBytes"@);
        lemma_reordered_member(limits_form(limits), json, "maxErrorMessageBytes"@);
    }
}

proof fn lemma_host_round_trip(name: Seq<char>, version: Seq<char>, json: JsonView)
    ensures
        host_said(host_form(name, version)) == Some((name, version)),
        reordered(host_form(name, version), json) ==> host_said(json) == Some((name, version)),
{
    reveal_strlit("name");
    reveal_strlit("version");
    assert("name"@.len() == 4 && "version"@.len() == 7);
    if let JsonView::Object(members) = host_form(name, version) {
        lemma_member_at(members, "name"@, 0, 0);
        lemma_member_at(members, "version"@, 0, 1);
    }
    if reordered(host_form(name, version), json) {
        lemma_reordered_member(host_form(name, version), json, "name"@);
        lemma_reordered_member(host_form(name, version), json, "version"@);
    }
}

/// The names of the operations differ.
proof fn lemma_operation_names()
    ensures
        "initialize"@ != "list_tools"@,
        "initialize"@ != "call_tool"@,
        "initialize"@ != "shutdown"@,
        "call_tool"@ != "list_tools"@,
        "call_tool"@ != "shutdown"@,
        "list_tools"@ != "shutdown"@,
{
    reveal_strlit("initialize");
    reveal_strlit("list_tools");
    reveal_strlit("call_tool");
    reveal_strlit("shutdown");
    assert("initialize"@.len() == 10 && "list_tools"@.len() == 10);
    assert("call_tool"@.len() == 9 && "shutdown"@.len() == 8);
    assert("initialize"@[0] != "list_tools"@[0]);
}

proof fn lemma_greeting_members(name: Seq<char>, version: Seq<char>, limits: Limits)
    ensures
        ({
            let params = params_form(OperationView::Initialize { name, version, limits });
            params.member("host"@) == Some(host_form(name, version)) && params.member("limits"@)
                == Some(limits_form(limits))
        }),
{
    reveal_strlit("host");
    reveal_strlit("limits");
    assert("host"@.len() == 4 && "limits"@.len() == 6);
    let params = params_form(OperationView::Initialize { name, version, limits });
    if let JsonView::Object(members) = params {
        lemma_member_at(members, "host"@, 0, 0);
        lemma_member_at(members, "limits"@, 0, 1);
    }
}

proof fn lemma_call_members(name: Seq<char>, arguments: JsonView)
    ensures
        ({
            let params = params_form(OperationView::CallTool { name, arguments });
            params.member("name"@) == Some(said_text(name)) && params.member("arguments"@) == Some(
                arguments,
            )
        }),
{
    reveal_strlit("name");
    reveal_strlit("arguments");
    assert("name"@.len() == 4 && "arguments"@.len() == 9);
    if let JsonView::Object(members) = params_form(OperationView::CallTool { name, arguments }) {
        lemma_member_at(members, "name"@, 0, 0);
        lemma_member_at(members, "arguments"@, 0, 1);
    }
}

proof fn lemma_operation_round_trip(operation: OperationView)
    ensures
        operation_said(operation_name(operation), params_form(operation)) == Some(operation),
{
    lemma_operation_names();
    match operation {
        OperationView::Initialize { name, version, limits } => {
            lemma_host_round_trip(name, version, host_form(name, version));
            lemma_limits_round_trip(limits, limits_form(limits));
            lemma_greeting_members(name, version, limits);
        },
        OperationView::CallTool { name, arguments } => lemma_call_members(name, arguments),
        _ => {},
    }
}

proof fn lemma_reordered_params(operation: OperationView, params: JsonView)
    requires
        reordered(params_form(operation), params),
    ensures
        match operation {
            OperationView::CallTool { name, arguments } => operation_said(
                operation_name(operation),
                params,
            ) matches Some(OperationView::CallTool { name: other_name, arguments: other_arguments })
                && name == other_name && reordered(arguments, other_arguments),
            _ => operation_said(operation_name(operation), params) == Some(operation),
        },
{
    lemma_operation_names();
    let form = params_form(operation);
    match operation {
        OperationView::Initialize { name, version, limits } => {
            lemma_greeting_members(name, version, limits);
            lemma_reordered_member(form, params, "host"@);
            lemma_reordered_member(form, params, "limits"@);
            lemma_host_round_trip(name, version, params.member("host"@)->0);
            lemma_limits_round_trip(limits, params.member("limits"@)->0);
        },
        OperationView::CallTool { name, arguments } => {
            lemma_call_members(name, arguments);
            lemma_reordered_member(form, params, "name"@);
            lemma_reordered_member(form, params, "arguments"@);
        },
        _ => {},
    }
}

} // verus!
