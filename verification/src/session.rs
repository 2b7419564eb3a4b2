//! What the session core holds and says: messages, tool calls, snapshots, events and effects.
use crate::json::{self, Json, JsonView};
use crate::text;
use crate::todo::{CoreTodoPhase, TodoPhaseView};
use vstd::prelude::*;
use vstd::string::*;

verus! {

/// The version of the session core's protocol.
pub const CORE_PROTOCOL_VERSION: u64 = 4;

/// How much a person is asked before tools run.
#[derive(Clone, Copy, Debug, PartialEq, Eq, Structural)]
pub enum PermissionMode {
    Ask,
    Auto,
    Yolo,
}

/// A call of a tool that the model asked for.
#[derive(Debug, PartialEq, Eq)]
pub struct CoreToolCall {
    pub call_id: String,
    pub name: String,
    pub arguments: Json,
}

/// What a tool call says.
#[verifier::ext_equal]
pub struct ToolCallView {
    pub call_id: Seq<char>,
    pub name: Seq<char>,
    pub arguments: JsonView,
}

impl DeepView for CoreToolCall {
    type V = ToolCallView;

    open spec fn deep_view(&self) -> ToolCallView {
        ToolCallView {
            call_id: self.call_id@,
            name: self.name@,
            arguments: self.arguments.deep_view(),
        }
    }
}

impl Clone for CoreToolCall {
    fn clone(&self) -> (r: Self)
        ensures
            r.deep_view() == self.deep_view(),
    {
        let r = CoreToolCall {
            call_id: self.call_id.clone(),
            name: self.name.clone(),
            arguments: self.arguments.clone(),
        };
        r
    }
}

/// One message of the conversation.
#[derive(Debug, PartialEq, Eq)]
pub struct CoreMessage {
    pub role: String,
    pub content: String,
    pub tool_calls: Vec<CoreToolCall>,
    pub tool_call_id: Option<String>,
    pub is_error: bool,
}

/// What a message says.
#[verifier::ext_equal]
pub struct MessageView {
    pub role: Seq<char>,
    pub content: Seq<char>,
    pub tool_calls: Seq<ToolCallView>,
    pub tool_call_id: Option<Seq<char>>,
    pub is_error: bool,
}

impl DeepView for CoreMessage {
    type V = MessageView;

    open spec fn deep_view(&self) -> MessageView {
        MessageView {
            role: self.role@,
            content: self.content@,
            tool_calls: self.tool_calls.deep_view(),
            tool_call_id: self.tool_call_id.deep_view(),
            is_error: self.is_error,
        }
    }
}

impl Clone for CoreMessage {
    fn clone(&self) -> (r: Self)
        ensures
            r.deep_view() == self.deep_view(),
    {
        let r = CoreMessage {
            role: self.role.clone(),
            content: self.content.clone(),
            tool_calls: self.tool_calls.clone(),
            tool_call_id: self.tool_call_id.clone(),
            is_error: self.is_error,
        };
        assert(r.tool_calls.deep_view() =~= self.tool_calls.deep_view());
        r
    }
}

/// The plan of the session.
#[derive(Debug, PartialEq, Eq)]
pub struct CorePlanState {
    pub enabled: bool,
    pub revision: u64,
    pub status: String,
    pub content: String,
}

/// What a plan says.
#[verifier::ext_equal]
pub struct PlanView {
    pub enabled: bool,
    pub revision: u64,
    pub status: Seq<char>,
    pub content: Seq<char>,
}

impl DeepView for CorePlanState {
    type V = PlanView;

    open spec fn deep_view(&self) -> PlanView {
        PlanView {
            enabled: self.enabled,
            revision: self.revision,
            status: self.status@,
            content: self.content@,
        }
    }
}

impl Clone for CorePlanState {
    fn clone(&self) -> (r: Self)
        ensures
            r.deep_view() == self.deep_view(),
    {
        let r = CorePlanState {
            enabled: self.enabled,
            revision: self.revision,
            status: self.status.clone(),
            content: self.content.clone(),
        };
        r
    }
}

/// A compaction that has begun.
#[derive(Debug, PartialEq, Eq)]
pub struct CorePendingCompaction {
    pub first_kept_message: u64,
    pub tokens_before: u64,
    pub instructions: Option<String>,
    pub automatic: bool,
    pub continue_after: bool,
}

/// What a compaction at work says.
#[verifier::ext_equal]
pub struct PendingCompactionView {
    pub first_kept_message: u64,
    pub tokens_before: u64,
    pub instructions: Option<Seq<char>>,
    pub automatic: bool,
    pub continue_after: bool,
}

impl DeepView for CorePendingCompaction {
    type V = PendingCompactionView;

    open spec fn deep_view(&self) -> PendingCompactionView {
        PendingCompactionView {
            first_kept_message: self.first_kept_message,
            tokens_before: self.tokens_before,
            instructions: self.instructions.deep_view(),
            automatic: self.automatic,
            continue_after: self.continue_after,
        }
    }
}

impl Clone for CorePendingCompaction {
    fn clone(&self) -> (r: Self)
        ensures
            r.deep_view() == self.deep_view(),
    {
        let r = CorePendingCompaction {
            first_kept_message: self.first_kept_message,
            tokens_before: self.tokens_before,
            instructions: self.instructions.clone(),
            automatic: self.automatic,
            continue_after: self.continue_after,
        };
        r
    }
}

/// What has been compacted, and what is being.
#[derive(Debug, PartialEq, Eq)]
pub struct CoreCompactionState {
    pub revision: u64,
    pub summary: String,
    pub first_kept_message: u64,
    pub tokens_before: u64,
    pub last_input_tokens: u64,
    pub pending: Option<CorePendingCompaction>,
}

/// What the state of compaction says.
#[verifier::ext_equal]
pub struct CompactionView {
    pub revision: u64,
    pub summary: Seq<char>,
    pub first_kept_message: u64,
    pub tokens_before: u64,
    pub last_input_tokens: u64,
    pub pending: Option<PendingCompactionView>,
}

impl DeepView for CoreCompactionState {
    type V = CompactionView;

    open spec fn deep_view(&self) -> CompactionView {
        CompactionView {
            revision: self.revision,
            summary: self.summary@,
            first_kept_message: self.first_kept_message,
            tokens_before: self.tokens_before,
            last_input_tokens: self.last_input_tokens,
            pending: self.pending.deep_view(),
        }
    }
}

impl Clone for CoreCompactionState {
    fn clone(&self) -> (r: Self)
        ensures
            r.deep_view() == self.deep_view(),
    {
        let r = CoreCompactionState {
            revision: self.revision,
            summary: self.summary.clone(),
            first_kept_message: self.first_kept_message,
            tokens_before: self.tokens_before,
            last_input_tokens: self.last_input_tokens,
            pending: self.pending.clone(),
        };
        r
    }
}

/// Something that the core asks to be done.
#[derive(Debug, PartialEq, Eq)]
pub struct CoreEffect {
    pub kind: String,
    pub call: Option<CoreToolCall>,
}

/// What an effect says.
#[verifier::ext_equal]
pub struct EffectView {
    pub kind: Seq<char>,
    pub call: Option<ToolCallView>,
}

impl DeepView for CoreEffect {
    type V = EffectView;

    open spec fn deep_view(&self) -> EffectView {
        EffectView {
            kind: self.kind@,
            call: self.call.deep_view(),
        }
    }
}

impl Clone for CoreEffect {
    fn clone(&self) -> (r: Self)
        ensures
            r.deep_view() == self.deep_view(),
    {
        let r = CoreEffect {
            kind: self.kind.clone(),
            call: self.call.clone(),
        };
        r
    }
}

/// The state of the session.
#[derive(Debug, PartialEq, Eq)]
pub struct CoreSnapshot {
    pub phase: String,
    pub messages: Vec<CoreMessage>,
    pub pending_calls: Vec<CoreToolCall>,
    pub current_call: u64,
    pub safe_tools: Vec<String>,
    pub permission_mode: String,
    pub pending_steers: Vec<String>,
    pub plan: CorePlanState,
    pub todos: Vec<CoreTodoPhase>,
    pub compaction: CoreCompactionState,
}

/// What a snapshot says.
#[verifier::ext_equal]
pub struct SnapshotView {
    pub phase: Seq<char>,
    pub messages: Seq<MessageView>,
    pub pending_calls: Seq<ToolCallView>,
    pub current_call: u64,
    pub safe_tools: Seq<Seq<char>>,
    pub permission_mode: Seq<char>,
    pub pending_steers: Seq<Seq<char>>,
    pub plan: PlanView,
    pub todos: Seq<TodoPhaseView>,
    pub compaction: CompactionView,
}

impl DeepView for CoreSnapshot {
    type V = SnapshotView;

    open spec fn deep_view(&self) -> SnapshotView {
        SnapshotView {
            phase: self.phase@,
            messages: self.messages.deep_view(),
            pending_calls: self.pending_calls.deep_view(),
            current_call: self.current_call,
            safe_tools: self.safe_tools.deep_view(),
            permission_mode: self.permission_mode@,
            pending_steers: self.pending_steers.deep_view(),
            plan: self.plan.deep_view(),
            todos: self.todos.deep_view(),
            compaction: self.compaction.deep_view(),
        }
    }
}

impl Clone for CoreSnapshot {
    fn clone(&self) -> (r: Self)
        ensures
            r.deep_view() == self.deep_view(),
    {
        let r = CoreSnapshot {
            phase: self.phase.clone(),
            messages: self.messages.clone(),
            pending_calls: self.pending_calls.clone(),
            current_call: self.current_call,
            safe_tools: self.safe_tools.clone(),
            permission_mode: self.permission_mode.clone(),
            pending_steers: self.pending_steers.clone(),
            plan: self.plan.clone(),
            todos: self.todos.clone(),
            compaction: self.compaction.clone(),
        };
        assert(r.messages.deep_view() =~= self.messages.deep_view());
        assert(r.pending_calls.deep_view() =~= self.pending_calls.deep_view());
        assert(r.safe_tools.deep_view() =~= self.safe_tools.deep_view());
        assert(r.pending_steers.deep_view() =~= self.pending_steers.deep_view());
        assert(r.todos.deep_view() =~= self.todos.deep_view());
        r
    }
}

/// Something that happened, told to the core.
#[derive(Debug, PartialEq, Eq)]
pub struct CoreEvent {
    pub kind: String,
    pub text: Option<String>,
    pub tool_calls: Vec<CoreToolCall>,
    pub call_id: Option<String>,
    pub approved: Option<bool>,
    pub content: Option<String>,
    pub is_error: Option<bool>,
    pub safe_tools: Vec<String>,
    pub permission_mode: String,
    pub todos: Vec<CoreTodoPhase>,
    pub input_tokens: u64,
    pub automatic: bool,
}

/// What an event says.
#[verifier::ext_equal]
pub struct EventView {
    pub kind: Seq<char>,
    pub text: Option<Seq<char>>,
    pub tool_calls: Seq<ToolCallView>,
    pub call_id: Option<Seq<char>>,
    pub approved: Option<bool>,
    pub content: Option<Seq<char>>,
    pub is_error: Option<bool>,
    pub safe_tools: Seq<Seq<char>>,
    pub permission_mode: Seq<char>,
    pub todos: Seq<TodoPhaseView>,
    pub input_tokens: u64,
    pub automatic: bool,
}

impl DeepView for CoreEvent {
    type V = EventView;

    open spec fn deep_view(&self) -> EventView {
        EventView {
            kind: self.kind@,
            text: self.text.deep_view(),
            tool_calls: self.tool_calls.deep_view(),
            call_id: self.call_id.deep_view(),
            approved: self.approved.deep_view(),
            content: self.content.deep_view(),
            is_error: self.is_error.deep_view(),
            safe_tools: self.safe_tools.deep_view(),
            permission_mode: self.permission_mode@,
            todos: self.todos.deep_view(),
            input_tokens: self.input_tokens,
            automatic: self.automatic,
        }
    }
}

/// The core's reply to a request.
#[derive(Debug, PartialEq, Eq)]
pub struct CoreResponse {
    pub version: u64,
    pub request_id: String,
    pub ok: bool,
    pub snapshot: CoreSnapshot,
    pub effects: Vec<CoreEffect>,
    pub error: Option<String>,
}

/// What a reply says.
#[verifier::ext_equal]
pub struct CoreResponseView {
    pub version: u64,
    pub request_id: Seq<char>,
    pub ok: bool,
    pub snapshot: SnapshotView,
    pub effects: Seq<EffectView>,
    pub error: Option<Seq<char>>,
}

impl DeepView for CoreResponse {
    type V = CoreResponseView;

    open spec fn deep_view(&self) -> CoreResponseView {
        CoreResponseView {
            version: self.version,
            request_id: self.request_id@,
            ok: self.ok,
            snapshot: self.snapshot.deep_view(),
            effects: self.effects.deep_view(),
            error: self.error.deep_view(),
        }
    }
}

impl PermissionMode {
    /// The mode that a text stands for; an unknown text stands for asking.
    pub open spec fn of_wire(value: Seq<char>) -> PermissionMode {
        if value == "auto"@ {
            PermissionMode::Auto
        } else if value == "yolo"@ {
            PermissionMode::Yolo
        } else {
            PermissionMode::Ask
        }
    }

    /// The text that stands for the mode.
    pub open spec fn wire(self) -> Seq<char> {
        match self {
            PermissionMode::Ask => "ask"@,
            PermissionMode::Auto => "auto"@,
            PermissionMode::Yolo => "yolo"@,
        }
    }

    /// The mode that a text stands for.
    pub fn from_wire(value: &str) -> (r: Self)
        ensures
            r == PermissionMode::of_wire(value@),
    {
        if text::str_eq(value, "auto") {
            PermissionMode::Auto
        } else if text::str_eq(value, "yolo") {
            PermissionMode::Yolo
        } else {
            PermissionMode::Ask
        }
    }

    /// The text that stands for the mode.
    pub fn wire_value(self) -> (r: &'static str)
        ensures
            r@ == self.wire(),
    {
        match self {
            PermissionMode::Ask => "ask",
            PermissionMode::Auto => "auto",
            PermissionMode::Yolo => "yolo",
        }
    }
}

/// A mode is read back from the text that stands for it.
pub proof fn law_permission_wire_round_trip(mode: PermissionMode)
    ensures
        PermissionMode::of_wire(mode.wire()) == mode,
{
    reveal_strlit("ask");
    reveal_strlit("auto");
    reveal_strlit("yolo");
    assert("ask"@.len() == 3 && "auto"@.len() == 4 && "yolo"@.len() == 4);
    assert("auto"@[0] != "yolo"@[0]);
}

/// The permission mode of a session that names none.
pub fn default_permission_mode() -> (r: String)
    ensures
        r@ == "auto"@,
{
    "auto".to_owned()
}

/// The plan of a new session.
pub open spec fn no_plan() -> PlanView {
    PlanView { enabled: false, revision: 0, status: "none"@, content: Seq::empty() }
}

/// Nothing compacted.
pub open spec fn no_compaction() -> CompactionView {
    CompactionView {
        revision: 0,
        summary: Seq::empty(),
        first_kept_message: 0,
        tokens_before: 0,
        last_input_tokens: 0,
        pending: None,
    }
}

/// An empty session.
pub open spec fn empty_snapshot() -> SnapshotView {
    SnapshotView {
        phase: Seq::empty(),
        messages: Seq::empty(),
        pending_calls: Seq::empty(),
        current_call: 0,
        safe_tools: Seq::empty(),
        permission_mode: "auto"@,
        pending_steers: Seq::empty(),
        plan: no_plan(),
        todos: Seq::empty(),
        compaction: no_compaction(),
    }
}

impl Default for CorePlanState {
    fn default() -> (r: Self)
        ensures
            r.deep_view() == no_plan(),
    {
        CorePlanState {
            enabled: false,
            revision: 0,
            status: "none".to_owned(),
            content: String::new(),
        }
    }
}

impl Default for CoreCompactionState {
    fn default() -> (r: Self)
        ensures
            r.deep_view() == no_compaction(),
    {
        CoreCompactionState {
            revision: 0,
            summary: String::new(),
            first_kept_message: 0,
            tokens_before: 0,
            last_input_tokens: 0,
            pending: None,
        }
    }
}

impl Default for CoreSnapshot {
    fn default() -> (r: Self)
        ensures
            r.deep_view() == empty_snapshot(),
    {
        let r = CoreSnapshot {
            phase: String::new(),
            messages: Vec::new(),
            pending_calls: Vec::new(),
            current_call: 0,
            safe_tools: Vec::new(),
            permission_mode: default_permission_mode(),
            pending_steers: Vec::new(),
            plan: CorePlanState::default(),
            todos: Vec::new(),
            compaction: CoreCompactionState::default(),
        };
        assert(r.deep_view() =~= empty_snapshot());
        r
    }
}

/// The message with this role and content, without tool calls.
pub open spec fn plain_message(role: Seq<char>, content: Seq<char>) -> MessageView {
    MessageView { role, content, tool_calls: Seq::empty(), tool_call_id: None, is_error: false }
}

impl Default for CoreMessage {
    fn default() -> (r: Self)
        ensures
            r.deep_view() == plain_message(Seq::empty(), Seq::empty()),
    {
        proof {
            reveal_strlit("");
            assert(""@ =~= Seq::empty());
        }
        CoreMessage::plain("", String::new())
    }
}

impl CoreMessage {
    /// The message with this role and content, without tool calls.
    pub fn plain(role: &str, content: String) -> (r: Self)
        ensures
            r.deep_view() == plain_message(role@, content@),
    {
        let r = CoreMessage {
            role: role.to_owned(),
            content,
            tool_calls: Vec::new(),
            tool_call_id: None,
            is_error: false,
        };
        assert(r.tool_calls.deep_view() =~= Seq::empty());
        r
    }
}

impl CoreToolCall {
    /// How the call is named to a person: a Git call by its command.
    pub fn display_label(&self) -> (r: &str)
        ensures
            r@ == label_of(self.deep_view()),
    {
        if text::str_eq(self.name.as_str(), "git_read") || text::str_eq(
            self.name.as_str(),
            "git_write",
        ) {
            match self.arguments.get_str("command") {
                Some(command) => command,
                None => self.name.as_str(),
            }
        } else {
            self.name.as_str()
        }
    }

    /// One line that tells a person what the call does.
    pub fn transcript_summary(&self) -> (r: String)
        ensures
            r@ == summary_of(self.deep_view()),
    {
        let name = self.name.as_str();
        let value = &self.arguments;
        if text::str_eq(name, "grep") {
            let pattern = match value.get_str("pattern") {
                Some(pattern) => pattern,
                None => "",
            };
            let path = match value.get_str("path") {
                Some(path) => path,
                None => ".",
            };
            let ignores_case = match value.get("caseSensitive") {
                Some(flag) => match flag.as_bool() {
                    Some(case_sensitive) => !case_sensitive,
                    None => false,
                },
                None => false,
            };
            let mut summary = text::cat("grep  🔎 /", pattern);
            summary.append("/  ");
            summary.append(path);
            if ignores_case {
                summary.append(" · ignore case");
            }
            proof {
                reveal_strlit("");
                assert(""@ =~= Seq::<char>::empty());
            }
            return summary;
        }
        if let Some(path) = value.get_str("path") {
            if text::str_eq(name, "read") {
                return text::cat("read  📄 ", path);
            }
            if text::str_eq(name, "write") {
                return text::cat("write  📝 ", path);
            }
            if text::str_eq(name, "edit") {
                return text::cat("edit  ✎ ", path);
            }
        }
        let mut summary = text::cat(name, "  ");
        match value.get_str("command") {
            Some(command) => {
                summary.append(command);
            },
            None => {
                if text::str_eq(name, "todo") {
                    summary.append("update task list");
                } else {
                    summary.append(json::json_to_text(&self.arguments).as_str());
                }
            },
        }
        summary
    }
}

/// How a call is named to a person.
pub open spec fn label_of(call: ToolCallView) -> Seq<char> {
    if call.name == "git_read"@ || call.name == "git_write"@ {
        match call.arguments.member_text("command"@) {
            Some(command) => command,
            None => call.name,
        }
    } else {
        call.name
    }
}

/// One line that tells a person what a call does: the pattern and place of a search, the path of
/// a file tool, the command of a command tool, that a todo call updates the list, and otherwise
/// the arguments as they are.
pub open spec fn summary_of(call: ToolCallView) -> Seq<char> {
    let value = call.arguments;
    if call.name == "grep"@ {
        let pattern = match value.member_text("pattern"@) {
            Some(pattern) => pattern,
            None => Seq::empty(),
        };
        let path = match value.member_text("path"@) {
            Some(path) => path,
            None => "."@,
        };
        let ignores_case = match value.member("caseSensitive"@) {
            Some(flag) => flag.truth() == Some(false),
            None => false,
        };
        let found = "grep  🔎 /"@ + pattern + "/  "@ + path;
        if ignores_case {
            found + " · ignore case"@
        } else {
            found
        }
    } else if value.member_text("path"@) is Some && call.name == "read"@ {
        "read  📄 "@ + value.member_text("path"@)->0
    } else if value.member_text("path"@) is Some && call.name == "write"@ {
        "write  📝 "@ + value.member_text("path"@)->0
    } else if value.member_text("path"@) is Some && call.name == "edit"@ {
        "edit  ✎ "@ + value.member_text("path"@)->0
    } else {
        call.name + "  "@ + match value.member_text("command"@) {
            Some(command) => command,
            None => if call.name == "todo"@ {
                "update task list"@
            } else {
                json::json_text(json::held_json(call.arguments))
            },
        }
    }
}

/// An event of this kind that says nothing more.
pub open spec fn bare_event(kind: Seq<char>) -> EventView {
    EventView {
        kind,
        text: None,
        tool_calls: Seq::empty(),
        call_id: None,
        approved: None,
        content: None,
        is_error: None,
        safe_tools: Seq::empty(),
        permission_mode: "auto"@,
        todos: Seq::empty(),
        input_tokens: 0,
        automatic: false,
    }
}

impl CoreEvent {
    /// An event of this kind that says nothing more.
    pub fn new(kind: &str) -> (r: Self)
        ensures
            r.deep_view() == bare_event(kind@),
    {
        let r = CoreEvent {
            kind: kind.to_owned(),
            text: None,
            tool_calls: Vec::new(),
            call_id: None,
            approved: None,
            content: None,
            is_error: None,
            safe_tools: Vec::new(),
            permission_mode: default_permission_mode(),
            todos: Vec::new(),
            input_tokens: 0,
            automatic: false,
        };
        assert(r.deep_view() =~= bare_event(kind@));
        r
    }

    /// Which tools are safe, and how much is asked.
    pub fn configure_tools(safe_tools: Vec<String>, permission_mode: PermissionMode) -> (r: Self)
        ensures
            r.deep_view() == (EventView {
                safe_tools: safe_tools.deep_view(),
                permission_mode: permission_mode.wire(),
                ..bare_event("configure_tools"@)
            }),
    {
        let mut r = CoreEvent::new("configure_tools");
        r.safe_tools = safe_tools;
        r.permission_mode = permission_mode.wire_value().to_owned();
        r
    }

    /// A prompt.
    pub fn submit(text: String) -> (r: Self)
        ensures
            r.deep_view() == (EventView {
                text: Some(text@),
                ..bare_event("submit"@)
            }),
    {
        let mut r = CoreEvent::new("submit");
        r.text = Some(text);
        r
    }

    /// A goal to plan for.
    pub fn enter_plan(text: String) -> (r: Self)
        ensures
            r.deep_view() == (EventView {
                text: Some(text@),
                ..bare_event("enter_plan"@)
            }),
    {
        let mut r = CoreEvent::new("enter_plan");
        r.text = Some(text);
        r
    }

    /// A change of direction for the task at work.
    pub fn steer(text: String) -> (r: Self)
        ensures
            r.deep_view() == (EventView {
                text: Some(text@),
                ..bare_event("steer"@)
            }),
    {
        let mut r = CoreEvent::new("steer");
        r.text = Some(text);
        r
    }

    /// What the model answered.
    pub fn model_completed(content: String, tool_calls: Vec<CoreToolCall>, input_tokens: u64) -> (r: Self)
        ensures
            r.deep_view() == (EventView {
                tool_calls: tool_calls.deep_view(),
                content: Some(content@),
                input_tokens: input_tokens,
                ..bare_event("model_completed"@)
            }),
    {
        let mut r = CoreEvent::new("model_completed");
        r.tool_calls = tool_calls;
        r.content = Some(content);
        r.input_tokens = input_tokens;
        r
    }

    /// What a person decided about a call.
    pub fn approval(call_id: String, approved: bool) -> (r: Self)
        ensures
            r.deep_view() == (EventView {
                call_id: Some(call_id@),
                approved: Some(approved),
                ..bare_event("approval_result"@)
            }),
    {
        let mut r = CoreEvent::new("approval_result");
        r.call_id = Some(call_id);
        r.approved = Some(approved);
        r
    }

    /// What a tool gave back.
    pub fn tool_completed(call_id: String, content: String, is_error: bool) -> (r: Self)
        ensures
            r.deep_view() == (EventView {
                call_id: Some(call_id@),
                content: Some(content@),
                is_error: Some(is_error),
                ..bare_event("tool_completed"@)
            }),
    {
        let mut r = CoreEvent::new("tool_completed");
        r.call_id = Some(call_id);
        r.content = Some(content);
        r.is_error = Some(is_error);
        r
    }

    /// A new todo list.
    pub fn replace_todos(todos: Vec<CoreTodoPhase>) -> (r: Self)
        ensures
            r.deep_view() == (EventView {
                todos: todos.deep_view(),
                ..bare_event("replace_todos"@)
            }),
    {
        let mut r = CoreEvent::new("replace_todos");
        r.todos = todos;
        r
    }

    /// The plan is approved.
    pub fn approve_plan() -> (r: Self)
        ensures
            r.deep_view() == (EventView {
                approved: Some(true),
                ..bare_event("plan_review_result"@)
            }),
    {
        let mut r = CoreEvent::new("plan_review_result");
        r.approved = Some(true);
        r
    }

    /// The plan is sent back with feedback.
    pub fn refine_plan(feedback: String) -> (r: Self)
        ensures
            r.deep_view() == (EventView {
                text: Some(feedback@),
                ..bare_event("plan_review_result"@)
            }),
    {
        let mut r = CoreEvent::new("plan_review_result");
        r.text = Some(feedback);
        r
    }

    /// The plan was edited.
    pub fn edit_plan(content: String) -> (r: Self)
        ensures
            r.deep_view() == (EventView {
                content: Some(content@),
                ..bare_event("plan_review_result"@)
            }),
    {
        let mut r = CoreEvent::new("plan_review_result");
        r.content = Some(content);
        r
    }

    /// The plan is given up.
    pub fn cancel_plan_review() -> (r: Self)
        ensures
            r.deep_view() == (EventView {
                approved: Some(false),
                ..bare_event("plan_review_result"@)
            }),
    {
        let mut r = CoreEvent::new("plan_review_result");
        r.approved = Some(false);
        r
    }

    /// A compaction is asked for.
    pub fn start_compaction(instructions: Option<String>, input_tokens: u64, automatic: bool) -> (r: Self)
        ensures
            r.deep_view() == (EventView {
                text: instructions.deep_view(),
                input_tokens: input_tokens,
                automatic: automatic,
                ..bare_event("start_compaction"@)
            }),
    {
        let mut r = CoreEvent::new("start_compaction");
        r.text = instructions;
        r.input_tokens = input_tokens;
        r.automatic = automatic;
        r
    }

    /// The summary of a compaction.
    pub fn compaction_completed(summary: String) -> (r: Self)
        ensures
            r.deep_view() == (EventView {
                content: Some(summary@),
                ..bare_event("compaction_completed"@)
            }),
    {
        let mut r = CoreEvent::new("compaction_completed");
        r.content = Some(summary);
        r
    }

    /// A compaction came to nothing.
    pub fn compaction_failed() -> (r: Self)
        ensures
            r.deep_view() == bare_event("compaction_failed"@),
    {
        CoreEvent::new("compaction_failed")
    }

    /// The work is broken off.
    pub fn abort() -> (r: Self)
        ensures
            r.deep_view() == bare_event("abort"@),
    {
        CoreEvent::new("abort")
    }
}

/// Whether a session in this phase takes a change of direction.
pub open spec fn accepts_steer(phase: Seq<char>) -> bool {
    phase == "waiting_model"@ || phase == "waiting_approval"@ || phase == "waiting_tool"@
}

/// Whether a session takes a change of direction: while its task is at work.
pub fn snapshot_accepts_steer(snapshot: &CoreSnapshot) -> (r: bool)
    ensures
        r == accepts_steer(snapshot.phase@),
{
    let phase = snapshot.phase.as_str();
    text::str_eq(phase, "waiting_model") || text::str_eq(phase, "waiting_approval")
        || text::str_eq(phase, "waiting_tool")
}

/// The permission mode at startup: the one asked for, else that of a restored session, else
/// `Auto`.
pub fn startup_permission_mode(
    restored_session: bool,
    requested: Option<PermissionMode>,
    snapshot: &CoreSnapshot,
) -> (r: PermissionMode)
    ensures
        r == match requested {
            Some(mode) => mode,
            None => if restored_session {
                PermissionMode::of_wire(snapshot.permission_mode@)
            } else {
                PermissionMode::Auto
            },
        },
{
    match requested {
        Some(mode) => mode,
        None => if restored_session {
            PermissionMode::from_wire(snapshot.permission_mode.as_str())
        } else {
            PermissionMode::Auto
        },
    }
}

/// Why a reply of the core is not taken.
#[derive(Debug, PartialEq, Eq)]
pub enum CoreReplyError {
    CorrelationMismatch,
    VersionMismatch(u64),
    Rejected(String),
}

/// What a refusal of a reply says.
pub enum CoreReplyErrorView {
    CorrelationMismatch,
    VersionMismatch(u64),
    Rejected(Seq<char>),
}

impl DeepView for CoreReplyError {
    type V = CoreReplyErrorView;

    open spec fn deep_view(&self) -> CoreReplyErrorView {
        match self {
            CoreReplyError::CorrelationMismatch => CoreReplyErrorView::CorrelationMismatch,
            CoreReplyError::VersionMismatch(version) => CoreReplyErrorView::VersionMismatch(
                *version,
            ),
            CoreReplyError::Rejected(reason) => CoreReplyErrorView::Rejected(reason@),
        }
    }
}

/// Why a reply to the request with this id is not taken: it speaks another version, answers
/// another request, or refuses.
pub open spec fn reply_problem(reply: CoreResponseView, request_id: Seq<char>) -> Option<
    CoreReplyErrorView,
> {
    if reply.version != CORE_PROTOCOL_VERSION {
        Some(CoreReplyErrorView::VersionMismatch(reply.version))
    } else if reply.request_id != request_id {
        Some(CoreReplyErrorView::CorrelationMismatch)
    } else if !reply.ok {
        Some(
            CoreReplyErrorView::Rejected(
                match reply.error {
                    Some(error) => error,
                    None => "unknown core error"@,
                },
            ),
        )
    } else {
        None
    }
}

/// Takes the core's reply to the request with this id.
pub fn accept_core_response(response: CoreResponse, request_id: &str) -> (r: Result<
    CoreResponse,
    CoreReplyError,
>)
    ensures
        match reply_problem(response.deep_view(), request_id@) {
            Some(problem) => r matches Err(e) && e.deep_view() == problem,
            None => r == Ok::<CoreResponse, CoreReplyError>(response),
        },
{
    if response.version != CORE_PROTOCOL_VERSION {
        return Err(CoreReplyError::VersionMismatch(response.version));
    }
    if !text::str_eq(response.request_id.as_str(), request_id) {
        return Err(CoreReplyError::CorrelationMismatch);
    }
    if response.ok {
        Ok(response)
    } else {
        Err(
            CoreReplyError::Rejected(
                match response.error {
                    Some(error) => error,
                    None => "unknown core error".to_owned(),
                },
            ),
        )
    }
}

/// The pending call that is the current one.
pub fn active_pending_call(snapshot: &CoreSnapshot) -> (r: Option<CoreToolCall>)
    ensures
        r is Some <==> snapshot.current_call < snapshot.pending_calls@.len(),
        r matches Some(call) ==> call.deep_view()
            == snapshot.pending_calls@[snapshot.current_call as int].deep_view(),
{
    if snapshot.current_call < snapshot.pending_calls.len() as u64 {
        Some(snapshot.pending_calls[snapshot.current_call as usize].clone())
    } else {
        None
    }
}

/// Whether two calls are equal.
pub open spec fn calls_agree(a: ToolCallView, b: ToolCallView) -> bool {
    a.call_id == b.call_id && a.name == b.name && json::values_agree(a.arguments, b.arguments)
}

/// Whether two messages are equal.
pub open spec fn messages_agree(a: MessageView, b: MessageView) -> bool {
    &&& a.role == b.role
    &&& a.content == b.content
    &&& a.tool_calls.len() == b.tool_calls.len()
    &&& forall|i: int|
        0 <= i < a.tool_calls.len() ==> calls_agree(#[trigger] a.tool_calls[i], b.tool_calls[i])
    &&& a.tool_call_id == b.tool_call_id
    &&& a.is_error == b.is_error
}

impl CoreToolCall {
    /// Whether two calls are equal.
    pub fn same(&self, other: &CoreToolCall) -> (r: bool)
        ensures
            r == calls_agree(self.deep_view(), other.deep_view()),
    {
        text::str_eq(self.call_id.as_str(), other.call_id.as_str()) && text::str_eq(
            self.name.as_str(),
            other.name.as_str(),
        ) && self.arguments.same(&other.arguments)
    }
}

/// Whether two optional texts are the same.
fn same_option(a: &Option<String>, b: &Option<String>) -> (r: bool)
    ensures
        r == (a.deep_view() == b.deep_view()),
{
    match (a, b) {
        (Some(x), Some(y)) => text::str_eq(x.as_str(), y.as_str()),
        (None, None) => true,
        _ => false,
    }
}

/// Whether two lists of calls are equal.
fn same_calls(a: &Vec<CoreToolCall>, b: &Vec<CoreToolCall>) -> (r: bool)
    ensures
        r == (a.deep_view().len() == b.deep_view().len() && forall|i: int|
            0 <= i < a.deep_view().len() ==> calls_agree(
                #[trigger] a.deep_view()[i],
                b.deep_view()[i],
            )),
{
    if a.len() != b.len() {
        assert(a.deep_view().len() != b.deep_view().len());
        return false;
    }
    let mut i: usize = 0;
    while i < a.len()
        invariant
            i <= a@.len() == b@.len(),
            forall|j: int|
                0 <= j < i ==> calls_agree(#[trigger] a.deep_view()[j], b.deep_view()[j]),
        decreases a@.len() - i,
    {
        if !a[i].same(&b[i]) {
            assert(!calls_agree(a.deep_view()[i as int], b.deep_view()[i as int]));
            return false;
        }
        i += 1;
    }
    true
}

impl CoreMessage {
    /// Whether two messages are equal.
    pub fn same(&self, other: &CoreMessage) -> (r: bool)
        ensures
            r == messages_agree(self.deep_view(), other.deep_view()),
    {
        text::str_eq(self.role.as_str(), other.role.as_str()) && text::str_eq(
            self.content.as_str(),
            other.content.as_str(),
        ) && same_calls(&self.tool_calls, &other.tool_calls) && same_option(
            &self.tool_call_id,
            &other.tool_call_id,
        ) && self.is_error == other.is_error
    }
}

} // verus!
