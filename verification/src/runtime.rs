//! Carrying out what the session core asks for: the decisions between one effect and the next.
use crate::protocol::ToolProgress;
use crate::session::{
    CoreEffect, CoreEvent, CoreResponse, CoreResponseView, CoreSnapshot, CoreToolCall, EffectView,
    EventView, MessageView, PermissionMode, SnapshotView, ToolCallView,
};
use crate::transcript::{LocalEntryView, LocalTranscriptEntry};
use crate::{session, text};
use vstd::prelude::*;
use vstd::string::*;

verus! {

/// What the model answered.
#[derive(Debug, PartialEq, Eq)]
pub struct ModelCompletion {
    pub content: String,
    pub tool_calls: Vec<CoreToolCall>,
    pub input_tokens: u64,
}

/// What an answer of the model says.
#[verifier::ext_equal]
pub struct CompletionView {
    pub content: Seq<char>,
    pub tool_calls: Seq<ToolCallView>,
    pub input_tokens: u64,
}

impl DeepView for ModelCompletion {
    type V = CompletionView;

    open spec fn deep_view(&self) -> CompletionView {
        CompletionView {
            content: self.content@,
            tool_calls: self.tool_calls.deep_view(),
            input_tokens: self.input_tokens,
        }
    }
}

/// How an action ended.
#[derive(Debug, PartialEq, Eq)]
pub struct RuntimeFinal {
    pub snapshot: CoreSnapshot,
    pub status: String,
    pub approval: Option<CoreToolCall>,
    pub plan_review: bool,
    pub local_entry: Option<LocalTranscriptEntry>,
}

/// What the end of an action says.
#[verifier::ext_equal]
pub struct FinalView {
    pub snapshot: SnapshotView,
    pub status: Seq<char>,
    pub approval: Option<ToolCallView>,
    pub plan_review: bool,
    pub local_entry: Option<LocalEntryView>,
}

impl DeepView for RuntimeFinal {
    type V = FinalView;

    open spec fn deep_view(&self) -> FinalView {
        FinalView {
            snapshot: self.snapshot.deep_view(),
            status: self.status@,
            approval: self.approval.deep_view(),
            plan_review: self.plan_review,
            local_entry: self.local_entry.deep_view(),
        }
    }
}

/// What a session is driven with.
#[derive(Debug, PartialEq, Eq)]
pub struct DriveSettings {
    pub auto_compact_enabled: bool,
    pub auto_compact_threshold: u64,
    pub safe_tools: Vec<String>,
    pub permission_mode: PermissionMode,
}

/// What such settings say.
#[verifier::ext_equal]
pub struct SettingsView {
    pub auto_compact_enabled: bool,
    pub auto_compact_threshold: u64,
    pub safe_tools: Seq<Seq<char>>,
    pub permission_mode: PermissionMode,
}

impl DeepView for DriveSettings {
    type V = SettingsView;

    open spec fn deep_view(&self) -> SettingsView {
        SettingsView {
            auto_compact_enabled: self.auto_compact_enabled,
            auto_compact_threshold: self.auto_compact_threshold,
            safe_tools: self.safe_tools.deep_view(),
            permission_mode: self.permission_mode,
        }
    }
}

impl Clone for DriveSettings {
    fn clone(&self) -> (r: Self)
        ensures
            r.deep_view() == self.deep_view(),
    {
        let r = DriveSettings {
            auto_compact_enabled: self.auto_compact_enabled,
            auto_compact_threshold: self.auto_compact_threshold,
            safe_tools: self.safe_tools.clone(),
            permission_mode: self.permission_mode,
        };
        assert(r.safe_tools.deep_view() =~= self.safe_tools.deep_view());
        r
    }
}

/// News of an action for the screen.
#[derive(Debug, PartialEq, Eq)]
pub enum RuntimeUpdate {
    Progress { snapshot: CoreSnapshot, status: String },
    ToolStarted { call_id: String, label: String },
    ToolProgress { call_id: String, progress: ToolProgress },
    ToolFinished { call_id: String },
    Settled(RuntimeFinal),
    Failed(String),
}

/// What such news says.
pub enum UpdateView {
    Progress { snapshot: SnapshotView, status: Seq<char> },
    ToolStarted { call_id: Seq<char>, label: Seq<char> },
    ToolProgress { call_id: Seq<char>, progress: ToolProgress },
    ToolFinished { call_id: Seq<char> },
    Settled(FinalView),
    Failed(Seq<char>),
}

impl DeepView for RuntimeUpdate {
    type V = UpdateView;

    open spec fn deep_view(&self) -> UpdateView {
        match self {
            RuntimeUpdate::Progress { snapshot, status } => UpdateView::Progress {
                snapshot: snapshot.deep_view(),
                status: status@,
            },
            RuntimeUpdate::ToolStarted { call_id, label } => UpdateView::ToolStarted {
                call_id: call_id@,
                label: label@,
            },
            RuntimeUpdate::ToolProgress { call_id, progress } => UpdateView::ToolProgress {
                call_id: call_id@,
                progress: *progress,
            },
            RuntimeUpdate::ToolFinished { call_id } => UpdateView::ToolFinished {
                call_id: call_id@,
            },
            RuntimeUpdate::Settled(end) => UpdateView::Settled(end.deep_view()),
            RuntimeUpdate::Failed(message) => UpdateView::Failed(message@),
        }
    }
}

/// Why an action cannot go on.
#[derive(Debug, PartialEq, Eq)]
pub enum DriveError {
    MissingCoreEffectCall { kind: String },
    UnknownCoreEffect { kind: String },
    Provider(String),
    OutOfTurn,
}

/// What such an error says.
pub enum DriveErrorView {
    MissingCoreEffectCall { kind: Seq<char> },
    UnknownCoreEffect { kind: Seq<char> },
    Provider(Seq<char>),
    OutOfTurn,
}

impl DeepView for DriveError {
    type V = DriveErrorView;

    open spec fn deep_view(&self) -> DriveErrorView {
        match self {
            DriveError::MissingCoreEffectCall { kind } => DriveErrorView::MissingCoreEffectCall {
                kind: kind@,
            },
            DriveError::UnknownCoreEffect { kind } => DriveErrorView::UnknownCoreEffect {
                kind: kind@,
            },
            DriveError::Provider(message) => DriveErrorView::Provider(message@),
            DriveError::OutOfTurn => DriveErrorView::OutOfTurn,
        }
    }
}

/// What is to be done next.
#[derive(Debug, PartialEq, Eq)]
pub enum DriveRequest {
    /// Say whether the action was cancelled.
    CheckCancel,
    /// Tell the core an event and hand back its reply.
    Send(CoreEvent),
    /// Ask the model, with the tools of plan mode or the normal ones. A cancellation comes before
    /// a change of direction, and that before an answer.
    AskModel { plan_mode: bool },
    /// Ask for a summary of the old context. A cancellation comes first.
    Summarize,
    /// Say whether a change of direction has come.
    PollSteer,
    /// Run a tool. A cancellation comes before a change of direction, and that before the result.
    RunTool(CoreToolCall),
    /// Go on waiting for the tool that runs.
    ContinueTool,
    /// Retire the plugins.
    RetirePlugins,
    /// The action has ended.
    Finish(RuntimeFinal),
    /// The action cannot go on.
    Fail(DriveError),
}

/// What such a request says.
pub enum DriveRequestView {
    CheckCancel,
    Send(EventView),
    AskModel { plan_mode: bool },
    Summarize,
    PollSteer,
    RunTool(ToolCallView),
    ContinueTool,
    RetirePlugins,
    Finish(FinalView),
    Fail(DriveErrorView),
}

impl DeepView for DriveRequest {
    type V = DriveRequestView;

    open spec fn deep_view(&self) -> DriveRequestView {
        match self {
            DriveRequest::CheckCancel => DriveRequestView::CheckCancel,
            DriveRequest::Send(event) => DriveRequestView::Send(event.deep_view()),
            DriveRequest::AskModel { plan_mode } => DriveRequestView::AskModel {
                plan_mode: *plan_mode,
            },
            DriveRequest::Summarize => DriveRequestView::Summarize,
            DriveRequest::PollSteer => DriveRequestView::PollSteer,
            DriveRequest::RunTool(call) => DriveRequestView::RunTool(call.deep_view()),
            DriveRequest::ContinueTool => DriveRequestView::ContinueTool,
            DriveRequest::RetirePlugins => DriveRequestView::RetirePlugins,
            DriveRequest::Finish(end) => DriveRequestView::Finish(end.deep_view()),
            DriveRequest::Fail(error) => DriveRequestView::Fail(error.deep_view()),
        }
    }
}

/// What came of a request.
#[derive(Debug, PartialEq, Eq)]
pub enum DriveEvent {
    CancelChecked(bool),
    Replied(CoreResponse),
    SteerPolled(Option<String>),
    Cancelled,
    Steered(String),
    ModelDone(ModelCompletion),
    ModelFailed { overflow: bool, message: String },
    Summarized(Result<String, String>),
    ToolDone(Result<String, String>),
    Retired,
}

/// What such an outcome says.
pub enum DriveEventView {
    CancelChecked(bool),
    Replied(CoreResponseView),
    SteerPolled(Option<Seq<char>>),
    Cancelled,
    Steered(Seq<char>),
    ModelDone(CompletionView),
    ModelFailed { overflow: bool, message: Seq<char> },
    Summarized(Result<Seq<char>, Seq<char>>),
    ToolDone(Result<Seq<char>, Seq<char>>),
    Retired,
}

/// What a text or a message says.
pub open spec fn result_view(r: Result<String, String>) -> Result<Seq<char>, Seq<char>> {
    match r {
        Ok(s) => Ok(s@),
        Err(s) => Err(s@),
    }
}

impl DeepView for DriveEvent {
    type V = DriveEventView;

    open spec fn deep_view(&self) -> DriveEventView {
        match self {
            DriveEvent::CancelChecked(cancelled) => DriveEventView::CancelChecked(*cancelled),
            DriveEvent::Replied(reply) => DriveEventView::Replied(reply.deep_view()),
            DriveEvent::SteerPolled(text) => DriveEventView::SteerPolled(text.deep_view()),
            DriveEvent::Cancelled => DriveEventView::Cancelled,
            DriveEvent::Steered(text) => DriveEventView::Steered(text@),
            DriveEvent::ModelDone(completion) => DriveEventView::ModelDone(
                completion.deep_view(),
            ),
            DriveEvent::ModelFailed { overflow, message } => DriveEventView::ModelFailed {
                overflow: *overflow,
                message: message@,
            },
            DriveEvent::Summarized(result) => DriveEventView::Summarized(result_view(*result)),
            DriveEvent::ToolDone(result) => DriveEventView::ToolDone(result_view(*result)),
            DriveEvent::Retired => DriveEventView::Retired,
        }
    }
}

/// What the screen is told when a reply has come.
#[derive(Clone, Copy, Debug, PartialEq, Eq, Structural)]
pub enum ReplyNote {
    Silent,
    AutoCompacting,
    Recovering,
    Steering,
}

/// What a drive waits for.
#[derive(Debug, PartialEq, Eq)]
pub enum Waiting {
    CancelCheck,
    Model,
    Summary,
    ApprovalSteer(CoreEffect),
    IdleSteer,
    Tool(CoreToolCall),
    ToolSteer(CoreToolCall),
    /// A reply whose effects replace those at hand.
    Replace(ReplyNote),
    /// A reply whose effects come before those at hand.
    Extend(ReplyNote),
    Retire,
    Abort,
    Permissions { cancelled: bool },
    Done,
}

/// What a drive waits for.
pub enum WaitingView {
    CancelCheck,
    Model,
    Summary,
    ApprovalSteer(EffectView),
    IdleSteer,
    Tool(ToolCallView),
    ToolSteer(ToolCallView),
    Replace(ReplyNote),
    Extend(ReplyNote),
    Retire,
    Abort,
    Permissions { cancelled: bool },
    Done,
}

impl DeepView for Waiting {
    type V = WaitingView;

    open spec fn deep_view(&self) -> WaitingView {
        match self {
            Waiting::CancelCheck => WaitingView::CancelCheck,
            Waiting::Model => WaitingView::Model,
            Waiting::Summary => WaitingView::Summary,
            Waiting::ApprovalSteer(effect) => WaitingView::ApprovalSteer(effect.deep_view()),
            Waiting::IdleSteer => WaitingView::IdleSteer,
            Waiting::Tool(call) => WaitingView::Tool(call.deep_view()),
            Waiting::ToolSteer(call) => WaitingView::ToolSteer(call.deep_view()),
            Waiting::Replace(note) => WaitingView::Replace(*note),
            Waiting::Extend(note) => WaitingView::Extend(*note),
            Waiting::Retire => WaitingView::Retire,
            Waiting::Abort => WaitingView::Abort,
            Waiting::Permissions { cancelled } => WaitingView::Permissions {
                cancelled: *cancelled,
            },
            Waiting::Done => WaitingView::Done,
        }
    }
}

/// The work on the effects of the core. The last effect is the next one.
#[derive(Debug, PartialEq, Eq)]
pub struct Drive {
    pub snapshot: CoreSnapshot,
    pub effects: Vec<CoreEffect>,
    pub final_status: String,
    pub waiting: Waiting,
    pub settings: DriveSettings,
}

/// Where the work on the effects of the core stands.
#[verifier::ext_equal]
pub struct DriveView {
    pub snapshot: SnapshotView,
    pub effects: Seq<EffectView>,
    pub final_status: Seq<char>,
    pub waiting: WaitingView,
    pub settings: SettingsView,
}

impl DeepView for Drive {
    type V = DriveView;

    open spec fn deep_view(&self) -> DriveView {
        DriveView {
            snapshot: self.snapshot.deep_view(),
            effects: self.effects.deep_view(),
            final_status: self.final_status@,
            waiting: self.waiting.deep_view(),
            settings: self.settings.deep_view(),
        }
    }
}

/// News for the screen and what is to be done next.
#[derive(Debug, PartialEq, Eq)]
pub struct DriveStep {
    pub updates: Vec<RuntimeUpdate>,
    pub request: DriveRequest,
}

/// What a step says.
#[verifier::ext_equal]
pub struct DriveStepView {
    pub updates: Seq<UpdateView>,
    pub request: DriveRequestView,
}

impl DeepView for DriveStep {
    type V = DriveStepView;

    open spec fn deep_view(&self) -> DriveStepView {
        DriveStepView { updates: self.updates.deep_view(), request: self.request.deep_view() }
    }
}

/// The last message before `before` that a person wrote.
pub open spec fn last_user(messages: Seq<MessageView>, before: int) -> Option<int>
    decreases before,
{
    if before <= 0 || before > messages.len() {
        None
    } else if messages[before - 1].role == "user"@ {
        Some(before - 1)
    } else {
        last_user(messages, before - 1)
    }
}

/// Where old context ends: at the last but one message that a person wrote, if that lies behind
/// what was compacted before.
pub open spec fn cut_of(snapshot: SnapshotView) -> Option<int> {
    match last_user(snapshot.messages, snapshot.messages.len() as int) {
        Some(latest) => match last_user(snapshot.messages, latest) {
            Some(second) => if second > snapshot.compaction.first_kept_message {
                Some(second)
            } else {
                None
            },
            None => None,
        },
        None => None,
    }
}

/// Whether context is to be compacted unasked.
pub open spec fn auto_compacts(settings: SettingsView, snapshot: SnapshotView) -> bool {
    settings.auto_compact_enabled && settings.auto_compact_threshold > 0
        && snapshot.compaction.last_input_tokens >= settings.auto_compact_threshold && cut_of(
        snapshot,
    ) is Some
}

/// News of progress.
pub open spec fn progress(snapshot: SnapshotView, status: Seq<char>) -> UpdateView {
    UpdateView::Progress { snapshot, status }
}

/// The event of a change of direction: a prompt where no task is at work.
pub open spec fn steer_event(snapshot: SnapshotView, s: Seq<char>) -> EventView {
    EventView {
        text: Some(s),
        ..session::bare_event(
            if session::accepts_steer(snapshot.phase) {
                "steer"@
            } else {
                "submit"@
            },
        )
    }
}

/// The event of a compaction unasked.
pub open spec fn auto_compaction(snapshot: SnapshotView) -> EventView {
    EventView {
        input_tokens: snapshot.compaction.last_input_tokens,
        automatic: true,
        ..session::bare_event("start_compaction"@)
    }
}

/// The end of an action with nothing to approve.
pub open spec fn plain_end(snapshot: SnapshotView, status: Seq<char>, plan_review: bool) -> FinalView {
    FinalView { snapshot, status, approval: None, plan_review, local_entry: None }
}

/// The status that asks for the review of a plan.
pub open spec fn review_status() -> Seq<char> {
    "Plan ready · y approve · r refine · e edit · n cancel"@
}

/// The status that asks for the approval of a call.
pub open spec fn approval_status(call: ToolCallView) -> Seq<char> {
    "Approve "@ + session::label_of(call) + "? [y]es / [n]o"@
}

/// What the screen is told when a reply has come.
pub open spec fn note_updates(snapshot: SnapshotView, note: ReplyNote) -> Seq<UpdateView> {
    match note {
        ReplyNote::Silent => Seq::empty(),
        ReplyNote::AutoCompacting => seq![progress(snapshot, "Auto-compacting context…"@)],
        ReplyNote::Recovering => seq![progress(snapshot, "Recovering context overflow…"@)],
        ReplyNote::Steering => seq![progress(snapshot, "Steering…"@)],
    }
}

impl DriveView {
    /// The next state and step, without news.
    pub open spec fn quietly(self, waiting: WaitingView, request: DriveRequestView) -> (
        DriveView,
        DriveStepView,
    ) {
        (
            DriveView { waiting, ..self },
            DriveStepView { updates: Seq::empty(), request },
        )
    }

    /// The next state and step, with news.
    pub open spec fn telling(
        self,
        updates: Seq<UpdateView>,
        waiting: WaitingView,
        request: DriveRequestView,
    ) -> (DriveView, DriveStepView) {
        (DriveView { waiting, ..self }, DriveStepView { updates, request })
    }

    /// The action ends.
    pub open spec fn finish(self, end: FinalView) -> (DriveView, DriveStepView) {
        self.quietly(WaitingView::Done, DriveRequestView::Finish(end))
    }

    /// The action cannot go on.
    pub open spec fn fail(self, error: DriveErrorView) -> (DriveView, DriveStepView) {
        self.quietly(WaitingView::Done, DriveRequestView::Fail(error))
    }

    /// The core is told something.
    pub open spec fn send(self, waiting: WaitingView, event: EventView) -> (
        DriveView,
        DriveStepView,
    ) {
        self.quietly(waiting, DriveRequestView::Send(event))
    }

    /// Everything is broken off.
    pub open spec fn cancelled(self) -> (DriveView, DriveStepView) {
        self.quietly(WaitingView::Retire, DriveRequestView::RetirePlugins)
    }

    /// What comes next between effects: the next effect unless the action was cancelled, else a
    /// compaction unasked where the session is idle, else a change of direction that has come.
    pub open spec fn proceed(self, updates: Seq<UpdateView>) -> (DriveView, DriveStepView) {
        if self.effects.len() > 0 {
            self.telling(updates, WaitingView::CancelCheck, DriveRequestView::CheckCancel)
        } else if self.snapshot.phase == "idle"@ && auto_compacts(self.settings, self.snapshot) {
            self.telling(
                updates,
                WaitingView::Extend(ReplyNote::AutoCompacting),
                DriveRequestView::Send(auto_compaction(self.snapshot)),
            )
        } else {
            self.telling(updates, WaitingView::IdleSteer, DriveRequestView::PollSteer)
        }
    }

    /// The permissions asked for are put in place where the session is idle; then the action ends.
    pub open spec fn settle(self, cancelled: bool) -> (DriveView, DriveStepView) {
        let wanted = self.settings.permission_mode.wire();
        if self.snapshot.phase == "idle"@ && self.snapshot.permission_mode != wanted {
            self.send(
                WaitingView::Permissions { cancelled },
                EventView {
                    safe_tools: self.settings.safe_tools,
                    permission_mode: wanted,
                    ..session::bare_event("configure_tools"@)
                },
            )
        } else {
            self.settled(cancelled)
        }
    }

    /// The action ends, cancelled or not.
    pub open spec fn settled(self, cancelled: bool) -> (DriveView, DriveStepView) {
        if cancelled {
            self.finish(plain_end(self.snapshot, "Cancelled"@, false))
        } else {
            self.finish(
                plain_end(
                    self.snapshot,
                    self.final_status,
                    self.snapshot.phase == "waiting_plan_review"@,
                ),
            )
        }
    }

    /// The next effect is carried out.
    pub open spec fn dispatch(self) -> (DriveView, DriveStepView) {
        let effect = self.effects.last();
        let rest = DriveView { effects: self.effects.drop_last(), ..self };
        if effect.kind == "request_model"@ {
            if auto_compacts(self.settings, self.snapshot) {
                rest.send(
                    WaitingView::Replace(ReplyNote::AutoCompacting),
                    auto_compaction(self.snapshot),
                )
            } else {
                rest.telling(
                    seq![progress(self.snapshot, "Waiting for model…"@)],
                    WaitingView::Model,
                    DriveRequestView::AskModel { plan_mode: self.snapshot.plan.enabled },
                )
            }
        } else if effect.kind == "request_compaction"@ {
            rest.telling(
                seq![progress(self.snapshot, "Summarizing old context…"@)],
                WaitingView::Summary,
                DriveRequestView::Summarize,
            )
        } else if effect.kind == "request_approval"@ {
            rest.quietly(WaitingView::ApprovalSteer(effect), DriveRequestView::PollSteer)
        } else if effect.kind == "request_plan_review"@ {
            rest.finish(plain_end(self.snapshot, review_status(), true))
        } else if effect.kind == "invoke_tool"@ {
            match effect.call {
                Some(call) => rest.telling(
                    seq![
                        UpdateView::ToolStarted {
                            call_id: call.call_id,
                            label: session::label_of(call),
                        },
                        progress(
                            self.snapshot,
                            "Running "@ + session::label_of(call) + "…"@,
                        ),
                    ],
                    WaitingView::Tool(call),
                    DriveRequestView::RunTool(call),
                ),
                None => rest.fail(
                    DriveErrorView::MissingCoreEffectCall { kind: "invoke_tool"@ },
                ),
            }
        } else {
            rest.fail(DriveErrorView::UnknownCoreEffect { kind: effect.kind })
        }
    }

    /// With the state of the session that a reply tells, and its effects in place of those at hand
    /// or before them.
    pub open spec fn taking(self, reply: CoreResponseView, replace: bool) -> DriveView {
        DriveView {
            snapshot: reply.snapshot,
            effects: if replace {
                reply.effects
            } else {
                self.effects + reply.effects
            },
            ..self
        }
    }

    /// What comes of an outcome.
    pub open spec fn after(self, event: DriveEventView) -> (DriveView, DriveStepView) {
        match (self.waiting, event) {
            (WaitingView::CancelCheck, DriveEventView::CancelChecked(cancelled)) => if cancelled {
                self.cancelled()
            } else if self.effects.len() > 0 {
                self.dispatch()
            } else {
                self.proceed(Seq::empty())
            },
            (WaitingView::Model, DriveEventView::Cancelled) => self.cancelled(),
            (WaitingView::Model, DriveEventView::Steered(s)) => self.send(
                WaitingView::Replace(ReplyNote::Steering),
                steer_event(self.snapshot, s),
            ),
            (WaitingView::Model, DriveEventView::ModelDone(completion)) => self.send(
                WaitingView::Extend(ReplyNote::Silent),
                EventView {
                    tool_calls: completion.tool_calls,
                    content: Some(completion.content),
                    input_tokens: completion.input_tokens,
                    ..session::bare_event("model_completed"@)
                },
            ),
            (WaitingView::Model, DriveEventView::ModelFailed { overflow, message }) => if overflow
                && cut_of(self.snapshot) is Some {
                self.send(
                    WaitingView::Replace(ReplyNote::Recovering),
                    auto_compaction(self.snapshot),
                )
            } else {
                self.fail(DriveErrorView::Provider(message))
            },
            (WaitingView::Summary, DriveEventView::Cancelled) => self.cancelled(),
            (WaitingView::Summary, DriveEventView::Summarized(result)) => match result {
                Ok(summary) => self.send(
                    WaitingView::Extend(ReplyNote::Silent),
                    EventView {
                        content: Some(summary),
                        ..session::bare_event("compaction_completed"@)
                    },
                ),
                Err(message) => DriveView {
                    final_status: "Compaction failed: "@ + message,
                    ..self
                }.send(
                    WaitingView::Extend(ReplyNote::Silent),
                    session::bare_event("compaction_failed"@),
                ),
            },
            (
                WaitingView::ApprovalSteer(effect),
                DriveEventView::SteerPolled(steer),
            ) => match steer {
                Some(s) => self.send(
                    WaitingView::Replace(ReplyNote::Steering),
                    steer_event(self.snapshot, s),
                ),
                None => match effect.call {
                    Some(call) => self.finish(
                        FinalView {
                            snapshot: self.snapshot,
                            status: approval_status(call),
                            approval: Some(call),
                            plan_review: false,
                            local_entry: None,
                        },
                    ),
                    None => self.fail(
                        DriveErrorView::MissingCoreEffectCall { kind: "request_approval"@ },
                    ),
                },
            },
            (WaitingView::IdleSteer, DriveEventView::SteerPolled(steer)) => match steer {
                Some(s) => self.send(
                    WaitingView::Extend(ReplyNote::Steering),
                    steer_event(self.snapshot, s),
                ),
                None => self.settle(false),
            },
            (WaitingView::Tool(_), DriveEventView::Cancelled) => self.cancelled(),
            (WaitingView::Tool(call), DriveEventView::Steered(s)) => self.send(
                WaitingView::ToolSteer(call),
                EventView { text: Some(s), ..session::bare_event("steer"@) },
            ),
            (WaitingView::Tool(call), DriveEventView::ToolDone(result)) => self.telling(
                seq![UpdateView::ToolFinished { call_id: call.call_id }],
                WaitingView::Extend(ReplyNote::Silent),
                DriveRequestView::Send(
                    EventView {
                        call_id: Some(call.call_id),
                        content: Some(
                            match result {
                                Ok(output) => output,
                                Err(message) => "Plugin execution failed: "@ + message,
                            },
                        ),
                        is_error: Some(result is Err),
                        ..session::bare_event("tool_completed"@)
                    },
                ),
            ),
            (WaitingView::ToolSteer(call), DriveEventView::Replied(reply)) => DriveView {
                snapshot: reply.snapshot,
                ..self
            }.telling(
                seq![progress(reply.snapshot, "Steer queued · finishing current tool…"@)],
                WaitingView::Tool(call),
                DriveRequestView::ContinueTool,
            ),
            (WaitingView::Replace(note), DriveEventView::Replied(reply)) => self.taking(
                reply,
                true,
            ).proceed(note_updates(reply.snapshot, note)),
            (WaitingView::Extend(note), DriveEventView::Replied(reply)) => self.taking(
                reply,
                false,
            ).proceed(note_updates(reply.snapshot, note)),
            (WaitingView::Retire, DriveEventView::Retired) => self.send(
                WaitingView::Abort,
                session::bare_event("abort"@),
            ),
            (WaitingView::Abort, DriveEventView::Replied(reply)) => DriveView {
                snapshot: reply.snapshot,
                ..self
            }.settle(true),
            (
                WaitingView::Permissions { cancelled },
                DriveEventView::Replied(reply),
            ) => DriveView { snapshot: reply.snapshot, ..self }.settled(cancelled),
            _ => self.fail(DriveErrorView::OutOfTurn),
        }
    }

    /// The work on a reply begins.
    pub open spec fn begun(reply: CoreResponseView, settings: SettingsView) -> (
        DriveView,
        DriveStepView,
    ) {
        DriveView {
            snapshot: reply.snapshot,
            effects: reply.effects,
            final_status: "Ready"@,
            waiting: WaitingView::Done,
            settings,
        }.proceed(seq![progress(reply.snapshot, "Processing…"@)])
    }
}

/// Where old context ends.
pub fn compaction_cut(snapshot: &CoreSnapshot) -> (r: Option<usize>)
    ensures
        r is Some <==> cut_of(snapshot.deep_view()) is Some,
        r matches Some(cut) ==> cut_of(snapshot.deep_view()) == Some(cut as int),
{
    let latest = match find_last_user(snapshot, snapshot.messages.len()) {
        Some(latest) => latest,
        None => {
            return None;
        },
    };
    match find_last_user(snapshot, latest) {
        Some(second) => if second as u64 > snapshot.compaction.first_kept_message {
            Some(second)
        } else {
            None
        },
        None => None,
    }
}

/// The last message before `before` that a person wrote.
fn find_last_user(snapshot: &CoreSnapshot, before: usize) -> (r: Option<usize>)
    requires
        before <= snapshot.messages@.len(),
    ensures
        r is Some <==> last_user(snapshot.messages.deep_view(), before as int) is Some,
        r matches Some(at) ==> last_user(snapshot.messages.deep_view(), before as int) == Some(
            at as int,
        ) && at < before,
{
    let ghost all = snapshot.messages.deep_view();
    let mut i: usize = before;
    while i > 0
        invariant
            all == snapshot.messages.deep_view(),
            i <= before <= snapshot.messages@.len(),
            last_user(all, before as int) == last_user(all, i as int),
        decreases i,
    {
        assert(all[i - 1].role == snapshot.messages@[i - 1].role@);
        if text::str_eq(snapshot.messages[i - 1].role.as_str(), "user") {
            return Some(i - 1);
        }
        i -= 1;
    }
    None
}

proof fn lemma_last_user(messages: Seq<MessageView>, before: int)
    requires
        0 <= before <= messages.len(),
    ensures
        match last_user(messages, before) {
            Some(at) => 0 <= at < before && messages[at].role == "user"@ && forall|i: int|
                at < i < before ==> (#[trigger] messages[i]).role != "user"@,
            None => forall|i: int| 0 <= i < before ==> (#[trigger] messages[i]).role != "user"@,
        },
    decreases before,
{
    if before > 0 {
        lemma_last_user(messages, before - 1);
    }
}

/// What is kept of a compacted conversation begins with a message that a person wrote, holds
/// exactly one more of them, and begins behind what was compacted before.
pub proof fn law_cut_keeps_two_turns(snapshot: SnapshotView)
    ensures
        cut_of(snapshot) matches Some(cut) ==> {
            &&& snapshot.compaction.first_kept_message < cut < snapshot.messages.len()
            &&& snapshot.messages[cut].role == "user"@
            &&& exists|other: int|
                cut < other < snapshot.messages.len() && #[trigger] snapshot.messages[other].role
                    == "user"@ && forall|i: int|
                    cut < i < snapshot.messages.len() && i != other
                        ==> (#[trigger] snapshot.messages[i]).role != "user"@
        },
{
    let all = snapshot.messages;
    lemma_last_user(all, all.len() as int);
    if let Some(latest) = last_user(all, all.len() as int) {
        lemma_last_user(all, latest);
        if let Some(cut) = cut_of(snapshot) {
            assert(all[latest].role == "user"@);
        }
    }
}

/// Whether context is to be compacted unasked.
pub fn should_auto_compact(settings: &DriveSettings, snapshot: &CoreSnapshot) -> (r: bool)
    ensures
        r == auto_compacts(settings.deep_view(), snapshot.deep_view()),
{
    settings.auto_compact_enabled && settings.auto_compact_threshold > 0
        && snapshot.compaction.last_input_tokens >= settings.auto_compact_threshold
        && compaction_cut(snapshot).is_some()
}

/// The number of tokens from which on context is compacted unasked: a share of the window.
pub fn auto_compact_threshold(context_window: u64, percent: u8) -> (r: u64)
    ensures
        r == vstd::math::min(context_window * percent, u64::MAX as int) / 100,
{
    assert(context_window * percent <= u64::MAX * 255) by (nonlinear_arith)
        requires
            context_window <= u64::MAX,
            percent <= 255,
    ;
    let product: u128 = context_window as u128 * percent as u128;
    let most: u128 = u64::MAX as u128;
    let bounded: u128 = if product < most {
        product
    } else {
        most
    };
    (bounded / 100) as u64
}

/// The event of a change of direction.
pub fn steer_or_submit(snapshot: &CoreSnapshot, text: String) -> (r: CoreEvent)
    ensures
        r.deep_view() == steer_event(snapshot.deep_view(), text@),
{
    if session::snapshot_accepts_steer(snapshot) {
        CoreEvent::steer(text)
    } else {
        CoreEvent::submit(text)
    }
}

/// The event of a compaction unasked.
fn auto_compaction_event(snapshot: &CoreSnapshot) -> (r: CoreEvent)
    ensures
        r.deep_view() == auto_compaction(snapshot.deep_view()),
{
    CoreEvent::start_compaction(None, snapshot.compaction.last_input_tokens, true)
}

/// No news.
fn no_updates() -> (r: Vec<RuntimeUpdate>)
    ensures
        r.deep_view() == Seq::<UpdateView>::empty(),
{
    let r: Vec<RuntimeUpdate> = Vec::new();
    assert(r.deep_view() =~= Seq::empty());
    r
}

/// One piece of news.
fn one_update(update: RuntimeUpdate) -> (r: Vec<RuntimeUpdate>)
    ensures
        r.deep_view() == seq![update.deep_view()],
{
    let mut r: Vec<RuntimeUpdate> = Vec::new();
    r.push(update);
    assert(r.deep_view() =~= seq![update.deep_view()]);
    r
}

/// News of progress.
fn progress_update(snapshot: &CoreSnapshot, status: &str) -> (r: RuntimeUpdate)
    ensures
        r.deep_view() == progress(snapshot.deep_view(), status@),
{
    RuntimeUpdate::Progress { snapshot: snapshot.clone(), status: status.to_owned() }
}

/// What the screen is told when a reply has come.
fn updates_of_note(snapshot: &CoreSnapshot, note: ReplyNote) -> (r: Vec<RuntimeUpdate>)
    ensures
        r.deep_view() == note_updates(snapshot.deep_view(), note),
{
    match note {
        ReplyNote::Silent => no_updates(),
        ReplyNote::AutoCompacting => one_update(
            progress_update(snapshot, "Auto-compacting context…"),
        ),
        ReplyNote::Recovering => one_update(
            progress_update(snapshot, "Recovering context overflow…"),
        ),
        ReplyNote::Steering => one_update(progress_update(snapshot, "Steering…")),
    }
}

/// The status that asks for the approval of a call.
pub fn approval_prompt(call: &CoreToolCall) -> (r: String)
    ensures
        r@ == approval_status(call.deep_view()),
{
    let mut status = text::cat("Approve ", call.display_label());
    status.append("? [y]es / [n]o");
    status
}

/// The end of an action with nothing to approve.
fn end_plainly(snapshot: CoreSnapshot, status: String, plan_review: bool) -> (r: RuntimeFinal)
    ensures
        r.deep_view() == plain_end(snapshot.deep_view(), status@, plan_review),
{
    RuntimeFinal { snapshot, status, approval: None, plan_review, local_entry: None }
}

/// Adds the effects of a reply behind those at hand.
fn append_effects(effects: &mut Vec<CoreEffect>, more: Vec<CoreEffect>)
    ensures
        final(effects).deep_view() == old(effects).deep_view() + more.deep_view(),
{
    let ghost before = effects.deep_view();
    let mut rest = more;
    effects.append(&mut rest);
    assert(effects.deep_view() =~= before + more.deep_view());
}

impl Drive {
    fn quietly(self, waiting: Waiting, request: DriveRequest) -> (r: (Drive, DriveStep))
        ensures
            (r.0.deep_view(), r.1.deep_view()) == self.deep_view().quietly(
                waiting.deep_view(),
                request.deep_view(),
            ),
    {
        let mut next = self;
        next.waiting = waiting;
        (next, DriveStep { updates: no_updates(), request })
    }

    fn telling(self, updates: Vec<RuntimeUpdate>, waiting: Waiting, request: DriveRequest) -> (r: (
        Drive,
        DriveStep,
    ))
        ensures
            (r.0.deep_view(), r.1.deep_view()) == self.deep_view().telling(
                updates.deep_view(),
                waiting.deep_view(),
                request.deep_view(),
            ),
    {
        let mut next = self;
        next.waiting = waiting;
        (next, DriveStep { updates, request })
    }

    fn proceed(self, updates: Vec<RuntimeUpdate>) -> (r: (Drive, DriveStep))
        ensures
            (r.0.deep_view(), r.1.deep_view()) == self.deep_view().proceed(updates.deep_view()),
    {
        if self.effects.len() > 0 {
            self.telling(updates, Waiting::CancelCheck, DriveRequest::CheckCancel)
        } else if text::str_eq(self.snapshot.phase.as_str(), "idle") && should_auto_compact(
            &self.settings,
            &self.snapshot,
        ) {
            let event = auto_compaction_event(&self.snapshot);
            self.telling(
                updates,
                Waiting::Extend(ReplyNote::AutoCompacting),
                DriveRequest::Send(event),
            )
        } else {
            self.telling(updates, Waiting::IdleSteer, DriveRequest::PollSteer)
        }
    }

    fn settled(self, cancelled: bool) -> (r: (Drive, DriveStep))
        ensures
            (r.0.deep_view(), r.1.deep_view()) == self.deep_view().settled(cancelled),
    {
        let end = if cancelled {
            end_plainly(self.snapshot.clone(), "Cancelled".to_owned(), false)
        } else {
            let plan_review = text::str_eq(self.snapshot.phase.as_str(), "waiting_plan_review");
            end_plainly(self.snapshot.clone(), self.final_status.clone(), plan_review)
        };
        self.quietly(Waiting::Done, DriveRequest::Finish(end))
    }

    fn settle(self, cancelled: bool) -> (r: (Drive, DriveStep))
        ensures
            (r.0.deep_view(), r.1.deep_view()) == self.deep_view().settle(cancelled),
    {
        let mode = self.settings.permission_mode;
        if text::str_eq(self.snapshot.phase.as_str(), "idle") && !text::str_eq(
            self.snapshot.permission_mode.as_str(),
            mode.wire_value(),
        ) {
            let tools = self.settings.safe_tools.clone();
            assert(tools.deep_view() =~= self.settings.safe_tools.deep_view());
            let event = CoreEvent::configure_tools(tools, mode);
            self.quietly(Waiting::Permissions { cancelled }, DriveRequest::Send(event))
        } else {
            self.settled(cancelled)
        }
    }

    fn dispatch(self) -> (r: (Drive, DriveStep))
        requires
            self.effects@.len() > 0,
        ensures
            (r.0.deep_view(), r.1.deep_view()) == self.deep_view().dispatch(),
    {
        let mut rest = self;
        let popped = rest.effects.pop();
        let effect = match popped {
            Some(effect) => effect,
            None => {
                return rest.quietly(Waiting::Done, DriveRequest::Fail(DriveError::OutOfTurn));
            },
        };
        assert(effect.deep_view() == self.effects.deep_view().last());
        assert(rest.effects.deep_view() =~= self.effects.deep_view().drop_last());
        let kind = effect.kind.as_str();
        if text::str_eq(kind, "request_model") {
            if should_auto_compact(&rest.settings, &rest.snapshot) {
                let event = auto_compaction_event(&rest.snapshot);
                rest.quietly(
                    Waiting::Replace(ReplyNote::AutoCompacting),
                    DriveRequest::Send(event),
                )
            } else {
                let told = one_update(progress_update(&rest.snapshot, "Waiting for model…"));
                let plan_mode = rest.snapshot.plan.enabled;
                rest.telling(told, Waiting::Model, DriveRequest::AskModel { plan_mode })
            }
        } else if text::str_eq(kind, "request_compaction") {
            let told = one_update(progress_update(&rest.snapshot, "Summarizing old context…"));
            rest.telling(told, Waiting::Summary, DriveRequest::Summarize)
        } else if text::str_eq(kind, "request_approval") {
            rest.quietly(Waiting::ApprovalSteer(effect), DriveRequest::PollSteer)
        } else if text::str_eq(kind, "request_plan_review") {
            let end = end_plainly(
                rest.snapshot.clone(),
                "Plan ready · y approve · r refine · e edit · n cancel".to_owned(),
                true,
            );
            rest.quietly(Waiting::Done, DriveRequest::Finish(end))
        } else if text::str_eq(kind, "invoke_tool") {
            match effect.call {
                Some(call) => rest.run_tool(call),
                None => rest.quietly(
                    Waiting::Done,
                    DriveRequest::Fail(
                        DriveError::MissingCoreEffectCall { kind: "invoke_tool".to_owned() },
                    ),
                ),
            }
        } else {
            rest.quietly(
                Waiting::Done,
                DriveRequest::Fail(DriveError::UnknownCoreEffect { kind: effect.kind }),
            )
        }
    }

    fn run_tool(self, call: CoreToolCall) -> (r: (Drive, DriveStep))
        ensures
            (r.0.deep_view(), r.1.deep_view()) == self.deep_view().telling(
                seq![
                    UpdateView::ToolStarted {
                        call_id: call.deep_view().call_id,
                        label: session::label_of(call.deep_view()),
                    },
                    progress(
                        self.deep_view().snapshot,
                        "Running "@ + session::label_of(call.deep_view()) + "…"@,
                    ),
                ],
                WaitingView::Tool(call.deep_view()),
                DriveRequestView::RunTool(call.deep_view()),
            ),
    {
        let label = call.display_label().to_owned();
        let mut status = text::cat("Running ", label.as_str());
        status.append("…");
        let mut told = one_update(
            RuntimeUpdate::ToolStarted { call_id: call.call_id.clone(), label },
        );
        let ghost first = told.deep_view();
        told.push(progress_update(&self.snapshot, status.as_str()));
        assert(told.deep_view() =~= first.push(progress(self.deep_view().snapshot, status@)));
        assert(told.deep_view() =~= seq![
            first[0],
            progress(self.deep_view().snapshot, status@),
        ]);
        let run = call.clone();
        self.telling(told, Waiting::Tool(call), DriveRequest::RunTool(run))
    }

    /// Begins the work on a reply of the core.
    pub fn start(response: CoreResponse, settings: DriveSettings) -> (r: (Drive, DriveStep))
        ensures
            (r.0.deep_view(), r.1.deep_view()) == DriveView::begun(
                response.deep_view(),
                settings.deep_view(),
            ),
    {
        let told = one_update(progress_update(&response.snapshot, "Processing…"));
        let drive = Drive {
            snapshot: response.snapshot,
            effects: response.effects,
            final_status: "Ready".to_owned(),
            waiting: Waiting::Done,
            settings,
        };
        drive.proceed(told)
    }

    /// Takes the outcome of the last request.
    pub fn advance(self, event: DriveEvent) -> (r: (Drive, DriveStep))
        ensures
            (r.0.deep_view(), r.1.deep_view()) == self.deep_view().after(event.deep_view()),
    {
        let mut drive = self;
        let mut waiting = Waiting::Done;
        std::mem::swap(&mut waiting, &mut drive.waiting);
        match (waiting, event) {
            (Waiting::CancelCheck, DriveEvent::CancelChecked(cancelled)) => {
                drive.waiting = Waiting::CancelCheck;
                if cancelled {
                    drive.quietly(Waiting::Retire, DriveRequest::RetirePlugins)
                } else if drive.effects.len() > 0 {
                    drive.dispatch()
                } else {
                    drive.proceed(no_updates())
                }
            },
            (Waiting::Model, DriveEvent::Cancelled) => drive.quietly(
                Waiting::Retire,
                DriveRequest::RetirePlugins,
            ),
            (Waiting::Model, DriveEvent::Steered(text)) => {
                let event = steer_or_submit(&drive.snapshot, text);
                drive.quietly(Waiting::Replace(ReplyNote::Steering), DriveRequest::Send(event))
            },
            (Waiting::Model, DriveEvent::ModelDone(completion)) => drive.quietly(
                Waiting::Extend(ReplyNote::Silent),
                DriveRequest::Send(
                    CoreEvent::model_completed(
                        completion.content,
                        completion.tool_calls,
                        completion.input_tokens,
                    ),
                ),
            ),
            (Waiting::Model, DriveEvent::ModelFailed { overflow, message }) => {
                if overflow && compaction_cut(&drive.snapshot).is_some() {
                    let event = auto_compaction_event(&drive.snapshot);
                    drive.quietly(
                        Waiting::Replace(ReplyNote::Recovering),
                        DriveRequest::Send(event),
                    )
                } else {
                    drive.quietly(
                        Waiting::Done,
                        DriveRequest::Fail(DriveError::Provider(message)),
                    )
                }
            },
            (Waiting::Summary, DriveEvent::Cancelled) => drive.quietly(
                Waiting::Retire,
                DriveRequest::RetirePlugins,
            ),
            (Waiting::Summary, DriveEvent::Summarized(result)) => {
                let event = match result {
                    Ok(summary) => CoreEvent::compaction_completed(summary),
                    Err(message) => {
                        drive.final_status = text::cat("Compaction failed: ", message.as_str());
                        CoreEvent::compaction_failed()
                    },
                };
                drive.quietly(Waiting::Extend(ReplyNote::Silent), DriveRequest::Send(event))
            },
            (Waiting::ApprovalSteer(effect), DriveEvent::SteerPolled(steer)) => match steer {
                Some(text) => {
                    let event = steer_or_submit(&drive.snapshot, text);
                    drive.quietly(
                        Waiting::Replace(ReplyNote::Steering),
                        DriveRequest::Send(event),
                    )
                },
                None => match effect.call {
                    Some(call) => {
                        let end = RuntimeFinal {
                            snapshot: drive.snapshot.clone(),
                            status: approval_prompt(&call),
                            approval: Some(call),
                            plan_review: false,
                            local_entry: None,
                        };
                        drive.quietly(Waiting::Done, DriveRequest::Finish(end))
                    },
                    None => drive.quietly(
                        Waiting::Done,
                        DriveRequest::Fail(
                            DriveError::MissingCoreEffectCall {
                                kind: "request_approval".to_owned(),
                            },
                        ),
                    ),
                },
            },
            (Waiting::IdleSteer, DriveEvent::SteerPolled(steer)) => match steer {
                Some(text) => {
                    let event = steer_or_submit(&drive.snapshot, text);
                    drive.quietly(
                        Waiting::Extend(ReplyNote::Steering),
                        DriveRequest::Send(event),
                    )
                },
                None => {
                    drive.waiting = Waiting::IdleSteer;
                    drive.settle(false)
                },
            },
            (Waiting::Tool(_), DriveEvent::Cancelled) => drive.quietly(
                Waiting::Retire,
                DriveRequest::RetirePlugins,
            ),
            (Waiting::Tool(call), DriveEvent::Steered(text)) => drive.quietly(
                Waiting::ToolSteer(call),
                DriveRequest::Send(CoreEvent::steer(text)),
            ),
            (Waiting::Tool(call), DriveEvent::ToolDone(result)) => {
                let told = one_update(
                    RuntimeUpdate::ToolFinished { call_id: call.call_id.clone() },
                );
                let (content, is_error) = match result {
                    Ok(output) => (output, false),
                    Err(message) => (
                        text::cat("Plugin execution failed: ", message.as_str()),
                        true,
                    ),
                };
                let event = CoreEvent::tool_completed(call.call_id, content, is_error);
                drive.telling(
                    told,
                    Waiting::Extend(ReplyNote::Silent),
                    DriveRequest::Send(event),
                )
            },
            (Waiting::ToolSteer(call), DriveEvent::Replied(reply)) => {
                drive.snapshot = reply.snapshot;
                let told = one_update(
                    progress_update(&drive.snapshot, "Steer queued · finishing current tool…"),
                );
                drive.telling(told, Waiting::Tool(call), DriveRequest::ContinueTool)
            },
            (Waiting::Replace(note), DriveEvent::Replied(reply)) => {
                drive.waiting = Waiting::Replace(note);
                drive.snapshot = reply.snapshot;
                drive.effects = reply.effects;
                let told = updates_of_note(&drive.snapshot, note);
                drive.proceed(told)
            },
            (Waiting::Extend(note), DriveEvent::Replied(reply)) => {
                drive.waiting = Waiting::Extend(note);
                drive.snapshot = reply.snapshot;
                append_effects(&mut drive.effects, reply.effects);
                let told = updates_of_note(&drive.snapshot, note);
                drive.proceed(told)
            },
            (Waiting::Retire, DriveEvent::Retired) => drive.quietly(
                Waiting::Abort,
                DriveRequest::Send(CoreEvent::abort()),
            ),
            (Waiting::Abort, DriveEvent::Replied(reply)) => {
                drive.waiting = Waiting::Abort;
                drive.snapshot = reply.snapshot;
                drive.settle(true)
            },
            (Waiting::Permissions { cancelled }, DriveEvent::Replied(reply)) => {
                drive.waiting = Waiting::Permissions { cancelled };
                drive.snapshot = reply.snapshot;
                drive.settled(cancelled)
            },
            _ => drive.quietly(Waiting::Done, DriveRequest::Fail(DriveError::OutOfTurn)),
        }
    }
}

/// A tool is run only for the next effect at hand, and only if that is an `invoke_tool` effect
/// with this very call.
pub proof fn law_only_the_core_invokes_tools(drive: DriveView, event: DriveEventView)
    ensures
        drive.after(event).1.request matches DriveRequestView::RunTool(call) ==> {
            &&& drive.waiting == WaitingView::CancelCheck
            &&& event == DriveEventView::CancelChecked(false)
            &&& drive.effects.len() > 0
            &&& drive.effects.last().kind == "invoke_tool"@
            &&& drive.effects.last().call == Some(call)
        },
{
}

/// Effects come from replies of the core alone: whatever else happens, the effects at hand are
/// those there were, or fewer.
pub proof fn law_effects_come_from_the_core(drive: DriveView, event: DriveEventView)
    ensures
        ({
            let next = drive.after(event).0.effects;
            match event {
                DriveEventView::Replied(reply) => next == drive.effects || next == reply.effects
                    || next == drive.effects + reply.effects,
                _ => next == drive.effects || (drive.effects.len() > 0 && next
                    == drive.effects.drop_last()),
            }
        }),
{
}

/// A cancellation retires the plugins first, then breaks the work off at the core, and ends as
/// cancelled; no tool and no model is asked in between.
pub proof fn law_cancellation(
    drive: DriveView,
    event: DriveEventView,
    aborted: CoreResponseView,
    configured: CoreResponseView,
)
    requires
        event == DriveEventView::Cancelled && (drive.waiting is Model || drive.waiting is Summary
            || drive.waiting is Tool) || event == DriveEventView::CancelChecked(true)
            && drive.waiting is CancelCheck,
    ensures
        ({
            let (retiring, first) = drive.after(event);
            let (aborting, second) = retiring.after(DriveEventView::Retired);
            let (settling, third) = aborting.after(DriveEventView::Replied(aborted));
            &&& first.request == DriveRequestView::RetirePlugins
            &&& second.request == DriveRequestView::Send(session::bare_event("abort"@))
            &&& third.request is Finish || third.request is Send
            &&& third.request matches DriveRequestView::Finish(end) ==> end == plain_end(
                aborted.snapshot,
                "Cancelled"@,
                false,
            )
            &&& third.request is Send ==> settling.after(
                DriveEventView::Replied(configured),
            ).1.request == DriveRequestView::Finish(
                plain_end(configured.snapshot, "Cancelled"@, false),
            )
        }),
{
}

} // verus!
