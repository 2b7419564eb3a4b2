//! Plugins: how one is taken on, how its calls go, and which plugin a tool belongs to.
use crate::json::Json;
use crate::protocol::{
    self, CallToolParams, EmptyParams, HostIdentity, InitializeParams, Limits, PluginMessage,
    ProtocolError, ProtocolRange, RequestEnvelope, RequestOperation, ResponseEnvelope,
    ToolProgress, ToolSpec, PROTOCOL_VERSION,
};
use crate::session::CoreToolCall;
use crate::text;
use crate::tools::{automatically_safe_tool_names, safe_names, ToolSpecView};
use vstd::prelude::*;
use vstd::string::*;

verus! {

/// Why a plugin was not taken on or a call has no result.
#[derive(Debug, PartialEq, Eq)]
pub enum PluginClientError {
    Protocol(ProtocolError),
    Transport,
    CorrelationMismatch,
    UnsupportedVersion,
    DuplicateTool,
    DeadlineExceeded,
    Retired,
    CatalogueChanged,
    UnknownTool(String),
    DuplicateToolAcrossPlugins(String),
}

/// The result that a reply carries: its id must be the request's, and it must be a sound success.
pub open spec fn reply_result(
    id: Seq<char>,
    response: ResponseEnvelope,
    r: Result<Json, PluginClientError>,
) -> bool {
    if response.id@ != id {
        r == Err::<Json, PluginClientError>(PluginClientError::CorrelationMismatch)
    } else {
        match protocol::response_problem(response) {
            Some(violation) => r == Err::<Json, PluginClientError>(
                PluginClientError::Protocol(ProtocolError::Violation(violation)),
            ),
            None => if response.ok {
                r == Ok::<Json, PluginClientError>(response.result->0)
            } else {
                r == Err::<Json, PluginClientError>(
                    PluginClientError::Protocol(ProtocolError::PluginFailure(response.error->0)),
                )
            },
        }
    }
}

/// The result that a reply carries.
pub fn take_reply(id: &str, response: ResponseEnvelope) -> (r: Result<Json, PluginClientError>)
    ensures
        reply_result(id@, response, r),
{
    if !text::str_eq(response.id.as_str(), id) {
        return Err(PluginClientError::CorrelationMismatch);
    }
    match response.into_result() {
        Ok(result) => Ok(result),
        Err(error) => Err(PluginClientError::Protocol(error)),
    }
}

/// Whether this is the request with which the host of this name and version greets a plugin.
pub open spec fn greets(r: RequestEnvelope, name: Seq<char>, version: String) -> bool {
    &&& r.v == PROTOCOL_VERSION
    &&& r.id@ == "init_1"@
    &&& r.operation matches RequestOperation::Initialize(params) && params.host.name@ == name
        && params.host.version == version && params.limits.max_frame_bytes
        == protocol::DEFAULT_MAX_FRAME_BYTES && params.limits.max_tool_output_bytes
        == protocol::DEFAULT_MAX_TOOL_OUTPUT_BYTES && params.limits.max_error_message_bytes
        == protocol::DEFAULT_MAX_ERROR_MESSAGE_BYTES
}

/// The request with which the host of this name greets a plugin.
pub(crate) fn greeting(name: &str, host_version: String) -> (r: RequestEnvelope)
    ensures
        greets(r, name@, host_version),
{
    RequestEnvelope {
        v: PROTOCOL_VERSION,
        id: "init_1".to_owned(),
        operation: RequestOperation::Initialize(
            InitializeParams {
                host: HostIdentity { name: name.to_owned(), version: host_version },
                limits: Limits::default(),
            },
        ),
    }
}

/// The request with which the agent greets a plugin.
pub fn initialize_request(host_version: String) -> (r: RequestEnvelope)
    ensures
        greets(r, "mycode"@, host_version),
{
    greeting("mycode", host_version)
}

/// The request for the tools of a plugin.
pub fn list_tools_request() -> (r: RequestEnvelope)
    ensures
        r.v == PROTOCOL_VERSION,
        r.id@ == "tools_1"@,
        r.operation is ListTools,
{
    RequestEnvelope {
        v: PROTOCOL_VERSION,
        id: "tools_1".to_owned(),
        operation: RequestOperation::ListTools(EmptyParams {  }),
    }
}

/// The request that a plugin ends.
pub fn shutdown_request() -> (r: RequestEnvelope)
    ensures
        r.v == PROTOCOL_VERSION,
        r.id@ == "shutdown_1"@,
        r.operation is Shutdown,
{
    RequestEnvelope {
        v: PROTOCOL_VERSION,
        id: "shutdown_1".to_owned(),
        operation: RequestOperation::Shutdown(EmptyParams {  }),
    }
}

/// Takes the versions that a plugin speaks: one of them must be this library's.
pub fn accept_versions(range: ProtocolRange) -> (r: Result<(), PluginClientError>)
    ensures
        if range.min_version <= PROTOCOL_VERSION <= range.max_version {
            r is Ok
        } else {
            r == Err::<(), PluginClientError>(PluginClientError::UnsupportedVersion)
        },
{
    if range.min_version <= PROTOCOL_VERSION && PROTOCOL_VERSION <= range.max_version {
        Ok(())
    } else {
        Err(PluginClientError::UnsupportedVersion)
    }
}

/// The names of tools.
pub open spec fn tool_names(tools: Seq<ToolSpecView>) -> Seq<Seq<char>> {
    tools.map_values(|tool: ToolSpecView| tool.name)
}

/// The names of tools.
fn names_of(tools: &Vec<ToolSpec>) -> (r: Vec<String>)
    ensures
        r.deep_view() == tool_names(tools.deep_view()),
{
    let ghost wanted = tool_names(tools.deep_view());
    let mut out: Vec<String> = Vec::new();
    let mut i: usize = 0;
    assert(out.deep_view() =~= wanted.take(0));
    while i < tools.len()
        invariant
            wanted == tool_names(tools.deep_view()),
            i <= tools@.len(),
            out.deep_view() == wanted.take(i as int),
        decreases tools@.len() - i,
    {
        assert(tools.deep_view()[i as int] == tools@[i as int].deep_view());
        let ghost before = out.deep_view();
        let name = tools[i].name.clone();
        out.push(name);
        assert(out.deep_view() =~= before.push(name@));
        assert(out.deep_view() =~= wanted.take(i + 1));
        i += 1;
    }
    assert(wanted.take(i as int) =~= wanted);
    out
}

/// Whether `name` is among `names`.
fn is_among(names: &Vec<String>, upto: usize, name: &str) -> (r: bool)
    requires
        upto <= names@.len(),
    ensures
        r == names.deep_view().take(upto as int).contains(name@),
{
    let ghost all = names.deep_view().take(upto as int);
    let mut i: usize = 0;
    while i < upto
        invariant
            all == names.deep_view().take(upto as int),
            i <= upto <= names@.len(),
            forall|j: int| 0 <= j < i ==> #[trigger] all[j] != name@,
        decreases upto - i,
    {
        assert(all[i as int] == names@[i as int]@);
        if text::str_eq(names[i].as_str(), name) {
            assert(all.contains(name@));
            return true;
        }
        i += 1;
    }
    false
}

/// A plugin that was taken on: its tools, and whether it can still be called.
#[derive(Debug)]
pub struct PluginClient {
    pub tools: Vec<ToolSpec>,
    pub available: bool,
}

/// What happens while a call runs.
#[derive(Debug)]
pub enum CallEvent {
    Sent,
    SendFailed,
    Received(PluginMessage),
    ReadFailed,
    DeadlinePassed,
}

/// What a call does next: read on, show a piece of output, end, or end the plugin too.
#[derive(Debug)]
pub enum CallStep {
    Read,
    Show(ToolProgress),
    Finish(Result<Json, PluginClientError>),
    Retire(PluginClientError),
}

/// What a call does at an event.
pub open spec fn call_step(id: Seq<char>, event: CallEvent, step: CallStep) -> bool {
    match event {
        CallEvent::Sent => step == CallStep::Read,
        CallEvent::SendFailed => step == CallStep::Retire(PluginClientError::Transport),
        CallEvent::ReadFailed => step == CallStep::Retire(PluginClientError::Transport),
        CallEvent::DeadlinePassed => step == CallStep::Retire(PluginClientError::DeadlineExceeded),
        CallEvent::Received(PluginMessage::Progress(envelope)) => if envelope.id@ == id {
            step == CallStep::Show(envelope.progress)
        } else {
            step == CallStep::Retire(PluginClientError::CorrelationMismatch)
        },
        CallEvent::Received(PluginMessage::Response(response)) => if response.id@ == id {
            step matches CallStep::Finish(result) && reply_result(id, response, result)
        } else {
            step == CallStep::Retire(PluginClientError::CorrelationMismatch)
        },
    }
}

/// Whether a plugin can be called after a step of a call.
pub open spec fn callable_after(available: bool, step: CallStep) -> bool {
    available && !(step is Retire)
}

impl PluginClient {
    /// Takes on a plugin with these tools, whose names must differ.
    pub fn accept_tools(tools: Vec<ToolSpec>) -> (r: Result<PluginClient, PluginClientError>)
        ensures
            if tool_names(tools.deep_view()).no_duplicates() {
                r == Ok::<PluginClient, PluginClientError>(PluginClient { tools, available: true })
            } else {
                r == Err::<PluginClient, PluginClientError>(PluginClientError::DuplicateTool)
            },
    {
        let names = names_of(&tools);
        let ghost all = names.deep_view();
        let mut i: usize = 0;
        while i < names.len()
            invariant
                all == names.deep_view(),
                all == tool_names(tools.deep_view()),
                i <= names@.len(),
                forall|j: int, k: int| 0 <= j < k < i ==> #[trigger] all[j] != #[trigger] all[k],
            decreases names@.len() - i,
        {
            assert(all[i as int] == names@[i as int]@);
            if is_among(&names, i, names[i].as_str()) {
                let ghost j = choose|j: int|
                    0 <= j < all.take(i as int).len() && all.take(i as int)[j] == all[i as int];
                assert(all[j] == all[i as int]);
                return Err(PluginClientError::DuplicateTool);
            }
            assert forall|j: int, k: int| 0 <= j < k < i + 1 implies #[trigger] all[j]
                != #[trigger] all[k] by {
                if k == i {
                    assert(all.take(i as int)[j] == all[j]);
                }
            }
            i += 1;
        }
        Ok(PluginClient { tools, available: true })
    }

    /// The request of a call, under a fresh id. A retired plugin is not called.
    pub fn call_request(&self, call: &CoreToolCall) -> (r: Result<
        RequestEnvelope,
        PluginClientError,
    >)
        ensures
            !self.available ==> r == Err::<RequestEnvelope, PluginClientError>(
                PluginClientError::Retired,
            ),
            self.available ==> (r matches Ok(request) && request.v == PROTOCOL_VERSION
                && protocol::is_call_id(request.id@) && protocol::id_problem(request.id@) is None
                && (request.operation matches
                RequestOperation::CallTool(params) && params.name@ == call.name@
                && params.arguments.deep_view() == call.arguments.deep_view())),
    {
        if !self.available {
            return Err(PluginClientError::Retired);
        }
        Ok(
            RequestEnvelope {
                v: PROTOCOL_VERSION,
                id: protocol::call_request_id(),
                operation: RequestOperation::CallTool(
                    CallToolParams {
                        name: call.name.clone(),
                        arguments: call.arguments.clone(),
                    },
                ),
            },
        )
    }

    /// What the call with this id does at an event. A plugin that cannot be reached, answers late
    /// or answers something else is retired.
    pub fn on_call_event(&mut self, id: &str, event: CallEvent) -> (r: CallStep)
        ensures
            call_step(id@, event, r),
            final(self).tools == old(self).tools,
            final(self).available == callable_after(old(self).available, r),
    {
        let step = match event {
            CallEvent::Sent => CallStep::Read,
            CallEvent::SendFailed => CallStep::Retire(PluginClientError::Transport),
            CallEvent::ReadFailed => CallStep::Retire(PluginClientError::Transport),
            CallEvent::DeadlinePassed => CallStep::Retire(PluginClientError::DeadlineExceeded),
            CallEvent::Received(message) => match message {
                PluginMessage::Progress(envelope) => {
                    if text::str_eq(envelope.id.as_str(), id) {
                        CallStep::Show(envelope.progress)
                    } else {
                        CallStep::Retire(PluginClientError::CorrelationMismatch)
                    }
                },
                PluginMessage::Response(response) => {
                    if text::str_eq(response.id.as_str(), id) {
                        CallStep::Finish(take_reply(id, response))
                    } else {
                        CallStep::Retire(PluginClientError::CorrelationMismatch)
                    }
                },
            },
        };
        if let CallStep::Retire(_) = &step {
            self.retire();
        }
        step
    }

    /// Gives the plugin up.
    pub fn retire(&mut self)
        ensures
            final(self).tools == old(self).tools,
            !final(self).available,
    {
        self.available = false;
    }

    /// Takes the reply to the request that the plugin ends; none came where there is none. It
    /// tells whether the plugin ends by itself. Either way it is not called again.
    pub fn on_shutdown_reply(&mut self, reply: Option<ResponseEnvelope>) -> (r: bool)
        ensures
            final(self).tools == old(self).tools,
            !final(self).available,
            r == match reply {
                Some(response) => response.id@ == "shutdown_1"@ && response.ok
                    && protocol::response_problem(response) is None,
                None => false,
            },
    {
        self.available = false;
        match reply {
            Some(response) => take_reply("shutdown_1", response).is_ok(),
            None => false,
        }
    }
}

/// Every call ends in a reply with its own id, or in a failure that gives the plugin up: one that
/// could not be reached, was late or answered something else is not called again, so that nothing
/// is done twice.
pub proof fn law_failed_plugins_are_retired(
    available: bool,
    id: Seq<char>,
    event: CallEvent,
    step: CallStep,
)
    requires
        call_step(id, event, step),
    ensures
        step is Finish <==> (event matches CallEvent::Received(PluginMessage::Response(response))
            && response.id@ == id),
        step is Retire <==> (event is SendFailed || event is ReadFailed || event is DeadlinePassed
            || (event matches CallEvent::Received(PluginMessage::Progress(envelope))
            && envelope.id@ != id) || (event matches CallEvent::Received(
            PluginMessage::Response(response),
        ) && response.id@ != id)),
        step is Retire ==> !callable_after(available, step),
        !(step is Retire) ==> callable_after(available, step) == available,
{
}

/// Whether a plugin has a tool of this name.
pub open spec fn known(catalogues: Seq<Seq<Seq<char>>>, name: Seq<char>) -> bool {
    exists|i: int| 0 <= i < catalogues.len() && (#[trigger] catalogues[i]).contains(name)
}

/// The first of `names` from `k` on that is known already or stands before.
pub open spec fn repeated_from(
    catalogues: Seq<Seq<Seq<char>>>,
    names: Seq<Seq<char>>,
    k: int,
) -> Option<Seq<char>>
    decreases names.len() - k,
{
    if k < 0 || k >= names.len() {
        None
    } else if known(catalogues, names[k]) || names.take(k).contains(names[k]) {
        Some(names[k])
    } else {
        repeated_from(catalogues, names, k + 1)
    }
}

/// Whether no tool belongs to two plugins, or twice to one.
pub open spec fn all_distinct(catalogues: Seq<Seq<Seq<char>>>) -> bool {
    &&& forall|i: int| 0 <= i < catalogues.len() ==> (#[trigger] catalogues[i]).no_duplicates()
    &&& forall|i: int, j: int, name: Seq<char>|
        0 <= i < j < catalogues.len() && #[trigger] catalogues[i].contains(name)
            ==> !#[trigger] catalogues[j].contains(name)
}

/// The plugins of a host: the names of the tools of each, and the tools the model is told of.
#[derive(Debug)]
pub struct PluginManager {
    pub catalogues: Vec<Vec<String>>,
    pub model_tools: Vec<ToolSpec>,
}

/// What the plugins of a host are.
#[verifier::ext_equal]
pub struct ManagerView {
    pub catalogues: Seq<Seq<Seq<char>>>,
    pub model_tools: Seq<ToolSpecView>,
}

impl DeepView for PluginManager {
    type V = ManagerView;

    open spec fn deep_view(&self) -> ManagerView {
        ManagerView {
            catalogues: self.catalogues.deep_view(),
            model_tools: self.model_tools.deep_view(),
        }
    }
}

impl ManagerView {
    /// No tool belongs to two plugins.
    pub open spec fn wf(self) -> bool {
        all_distinct(self.catalogues)
    }

    /// The plugins with one more.
    pub open spec fn with_plugin(self, tools: Seq<ToolSpecView>, expose: bool) -> ManagerView {
        ManagerView {
            catalogues: self.catalogues.push(tool_names(tools)),
            model_tools: if expose {
                self.model_tools + tools
            } else {
                self.model_tools
            },
        }
    }
}

proof fn lemma_no_repeats(catalogues: Seq<Seq<Seq<char>>>, names: Seq<Seq<char>>, k: int)
    requires
        repeated_from(catalogues, names, k) is None,
        0 <= k,
    ensures
        forall|j: int|
            k <= j < names.len() ==> !known(catalogues, #[trigger] names[j]) && !names.take(
                j,
            ).contains(names[j]),
    decreases names.len() - k,
{
    if k < names.len() {
        lemma_no_repeats(catalogues, names, k + 1);
    }
}

impl PluginManager {
    /// A host without plugins.
    pub fn new() -> (r: Self)
        ensures
            r.deep_view() == (ManagerView { catalogues: Seq::empty(), model_tools: Seq::empty() }),
            r.deep_view().wf(),
    {
        let r = PluginManager { catalogues: Vec::new(), model_tools: Vec::new() };
        assert(r.catalogues.deep_view() =~= Seq::empty());
        assert(r.model_tools.deep_view() =~= Seq::empty());
        r
    }

    /// The plugin that a tool belongs to.
    fn find(&self, name: &str) -> (r: Option<usize>)
        ensures
            r is Some <==> known(self.deep_view().catalogues, name@),
            r matches Some(i) ==> i < self.catalogues@.len() && self.deep_view().catalogues[i as int].contains(
                name@,
            ),
    {
        let ghost all = self.catalogues.deep_view();
        let mut i: usize = 0;
        while i < self.catalogues.len()
            invariant
                all == self.catalogues.deep_view(),
                i <= self.catalogues@.len(),
                forall|j: int| 0 <= j < i ==> !(#[trigger] all[j]).contains(name@),
            decreases self.catalogues@.len() - i,
        {
            assert(all[i as int] == self.catalogues@[i as int].deep_view());
            let names = &self.catalogues[i];
            let found = is_among(names, names.len(), name);
            assert(names.deep_view().take(names@.len() as int) =~= names.deep_view());
            if found {
                return Some(i);
            }
            i += 1;
        }
        None
    }

    /// Adds a plugin with these tools; the model is told of them where `expose` says so. A tool
    /// that is known already is refused, and the host stays as it was.
    pub fn add_plugin(&mut self, tools: &Vec<ToolSpec>, expose: bool) -> (r: Result<
        (),
        PluginClientError,
    >)
        requires
            old(self).deep_view().wf(),
        ensures
            final(self).deep_view().wf(),
            match repeated_from(
                old(self).deep_view().catalogues,
                tool_names(tools.deep_view()),
                0,
            ) {
                Some(name) => {
                    &&& r matches Err(PluginClientError::DuplicateToolAcrossPlugins(n)) && n@
                        == name
                    &&& *final(self) == *old(self)
                },
                None => {
                    &&& r is Ok
                    &&& final(self).deep_view() == old(self).deep_view().with_plugin(
                        tools.deep_view(),
                        expose,
                    )
                },
            },
    {
        let names = names_of(tools);
        let ghost all = names.deep_view();
        let ghost before = self.deep_view();
        let mut i: usize = 0;
        while i < names.len()
            invariant
                all == names.deep_view(),
                all == tool_names(tools.deep_view()),
                i <= names@.len(),
                *self == *old(self),
                before == self.deep_view(),
                before.wf(),
                repeated_from(before.catalogues, all, i as int) == repeated_from(
                    before.catalogues,
                    all,
                    0,
                ),
            decreases names@.len() - i,
        {
            assert(all[i as int] == names@[i as int]@);
            if self.find(names[i].as_str()).is_some() || is_among(&names, i, names[i].as_str()) {
                return Err(PluginClientError::DuplicateToolAcrossPlugins(names[i].clone()));
            }
            i += 1;
        }
        proof {
            lemma_no_repeats(before.catalogues, all, 0);
            let after = before.catalogues.push(all);
            assert(all.no_duplicates()) by {
                assert forall|j: int, k: int| 0 <= j < k < all.len() implies all[j] != all[k] by {
                    assert(all.take(k)[j] == all[j]);
                }
            }
            assert forall|j: int, k: int, name: Seq<char>|
                0 <= j < k < after.len() && #[trigger] after[j].contains(name)
                    implies !#[trigger] after[k].contains(name) by {
                if k == before.catalogues.len() {
                    assert(before.catalogues[j].contains(name));
                    if all.contains(name) {
                        let m = choose|m: int| 0 <= m < all.len() && all[m] == name;
                        assert(!known(before.catalogues, all[m]));
                    }
                } else {
                    assert(before.catalogues[j].contains(name));
                }
            }
            assert(all_distinct(after));
        }
        self.catalogues.push(names);
        assert(self.catalogues.deep_view() =~= before.catalogues.push(all));
        if expose {
            self.tell_model(tools);
        }
        assert(self.deep_view() =~= before.with_plugin(tools.deep_view(), expose));
        Ok(())
    }

    /// Tells the model of tools.
    fn tell_model(&mut self, tools: &Vec<ToolSpec>)
        ensures
            final(self).catalogues == old(self).catalogues,
            final(self).model_tools.deep_view() == old(self).model_tools.deep_view()
                + tools.deep_view(),
    {
        let ghost before = self.model_tools.deep_view();
        let ghost all = tools.deep_view();
        let mut i: usize = 0;
        assert(before + all.take(0) =~= before);
        while i < tools.len()
            invariant
                all == tools.deep_view(),
                i <= tools@.len(),
                self.catalogues == old(self).catalogues,
                self.model_tools.deep_view() == before + all.take(i as int),
            decreases tools@.len() - i,
        {
            assert(all[i as int] == tools@[i as int].deep_view());
            let ghost had = self.model_tools.deep_view();
            let tool = tools[i].clone();
            self.model_tools.push(tool);
            assert(self.model_tools.deep_view() =~= had.push(tool.deep_view()));
            assert(self.model_tools.deep_view() =~= before + all.take(i + 1));
            i += 1;
        }
        assert(all.take(i as int) =~= all);
    }

    /// The tools that the model is told of.
    pub fn model_tools(&self) -> (r: &Vec<ToolSpec>)
        ensures
            r.deep_view() == self.deep_view().model_tools,
    {
        &self.model_tools
    }

    /// Whether a plugin has a tool of this name.
    pub fn has_tool(&self, name: &str) -> (r: bool)
        ensures
            r == known(self.deep_view().catalogues, name@),
    {
        self.find(name).is_some()
    }

    /// The names of the tools that need no approval: those that only read, and the reading of Git
    /// where a plugin has it.
    pub fn safe_tools(&self) -> (r: Vec<String>)
        ensures
            r.deep_view() == if known(self.deep_view().catalogues, "git_read"@) {
                safe_names(self.deep_view().model_tools).push("git_read"@)
            } else {
                safe_names(self.deep_view().model_tools)
            },
    {
        let mut names = automatically_safe_tool_names(&self.model_tools);
        if self.has_tool("git_read") {
            let ghost before = names.deep_view();
            names.push("git_read".to_owned());
            assert(names.deep_view() =~= before.push("git_read"@));
        }
        names
    }

    /// The plugin that a call goes to.
    pub fn route(&self, name: &str) -> (r: Result<usize, PluginClientError>)
        ensures
            if known(self.deep_view().catalogues, name@) {
                r matches Ok(i) && i < self.catalogues@.len()
                    && self.deep_view().catalogues[i as int].contains(name@)
            } else {
                r matches Err(PluginClientError::UnknownTool(n)) && n@ == name@
            },
    {
        match self.find(name) {
            Some(i) => Ok(i),
            None => Err(PluginClientError::UnknownTool(name.to_owned())),
        }
    }

    /// Takes on a plugin again after it was retired: its tools must be the same.
    pub fn accept_replacement(&self, index: usize, tools: &Vec<ToolSpec>) -> (r: Result<
        (),
        PluginClientError,
    >)
        requires
            index < self.catalogues@.len(),
        ensures
            if tool_names(tools.deep_view()) == self.deep_view().catalogues[index as int] {
                r is Ok
            } else {
                r == Err::<(), PluginClientError>(PluginClientError::CatalogueChanged)
            },
    {
        let names = names_of(tools);
        let expected = &self.catalogues[index];
        assert(self.deep_view().catalogues[index as int] == expected.deep_view());
        let ghost ours = names.deep_view();
        let ghost theirs = expected.deep_view();
        if names.len() != expected.len() {
            assert(ours.len() != theirs.len());
            return Err(PluginClientError::CatalogueChanged);
        }
        let mut i: usize = 0;
        while i < names.len()
            invariant
                ours == names.deep_view(),
                ours == tool_names(tools.deep_view()),
                theirs == expected.deep_view(),
                theirs == self.deep_view().catalogues[index as int],
                names@.len() == expected@.len(),
                i <= names@.len(),
                forall|j: int| 0 <= j < i ==> #[trigger] ours[j] == theirs[j],
            decreases names@.len() - i,
        {
            assert(ours[i as int] == names@[i as int]@);
            assert(theirs[i as int] == expected@[i as int]@);
            if !text::str_eq(names[i].as_str(), expected[i].as_str()) {
                return Err(PluginClientError::CatalogueChanged);
            }
            i += 1;
        }
        assert(ours =~= theirs);
        Ok(())
    }
}

/// A tool belongs to one plugin: whichever plugin a call of it could go to is the same.
pub proof fn law_a_tool_has_one_plugin(manager: ManagerView, name: Seq<char>, i: int, j: int)
    requires
        manager.wf(),
        0 <= i < manager.catalogues.len(),
        0 <= j < manager.catalogues.len(),
        manager.catalogues[i].contains(name),
        manager.catalogues[j].contains(name),
    ensures
        i == j,
{
}

} // verus!
