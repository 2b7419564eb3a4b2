//! Carrying out what the small agent's core asks for: the decisions between one effect and the
//! next.
use crate::classic::{
    approval_prompt, approval_status, bare_event, CoreEvent, CoreResponse, CoreSnapshot, EventView,
    FinalView, ResponseView, RuntimeFinal, RuntimeUpdate, SnapshotView, UpdateView,
};
use crate::session::{CoreEffect, CoreToolCall, EffectView, ToolCallView};
use crate::text;
use vstd::prelude::*;
use vstd::string::*;

verus! {

/// Why an action cannot go on.
#[derive(Debug, PartialEq, Eq)]
pub enum DriveError {
    MissingCoreEffectCall { kind: String },
    UnknownCoreEffect { kind: String },
    Provider(String),
    Plugin(String),
    OutOfTurn,
}

/// What such an error says.
pub enum DriveErrorView {
    MissingCoreEffectCall { kind: Seq<char> },
    UnknownCoreEffect { kind: Seq<char> },
    Provider(Seq<char>),
    Plugin(Seq<char>),
    OutOfTurn,
}

impl DeepView for DriveError {
    type V = DriveErrorView;

    open spec fn deep_view(&self) -> DriveErrorView {
        match self {
            DriveError::MissingCoreEffectCall { kind } => DriveErrorView::MissingCoreEffectCall {
                kind: kind@,
            },
            DriveError::UnknownCoreEffect { kind } => DriveErrorView::UnknownCoreEffect {
                kind: kind@,
            },
            DriveError::Provider(error) => DriveErrorView::Provider(error@),
            DriveError::Plugin(error) => DriveErrorView::Plugin(error@),
            DriveError::OutOfTurn => DriveErrorView::OutOfTurn,
        }
    }
}

/// What is to be done next.
#[derive(Debug, PartialEq, Eq)]
pub enum DriveRequest {
    /// Say whether the action was cancelled.
    CheckCancel,
    /// Tell the core an event and hand back its reply.
    Send(CoreEvent),
    /// Ask the model. A cancellation comes before an answer.
    AskModel,
    /// See to it that the plugin can be called.
    EnsurePlugin,
    /// Run a tool. A cancellation comes before the result.
    RunTool(CoreToolCall),
    /// Retire the plugin.
    RetirePlugin,
    /// The action has ended.
    Finish(RuntimeFinal),
    /// The action cannot go on.
    Fail(DriveError),
}

/// What such a request says.
pub enum DriveRequestView {
    CheckCancel,
    Send(EventView),
    AskModel,
    EnsurePlugin,
    RunTool(ToolCallView),
    RetirePlugin,
    Finish(FinalView),
    Fail(DriveErrorView),
}

impl DeepView for DriveRequest {
    type V = DriveRequestView;

    open spec fn deep_view(&self) -> DriveRequestView {
        match self {
            DriveRequest::CheckCancel => DriveRequestView::CheckCancel,
            DriveRequest::Send(event) => DriveRequestView::Send(event.deep_view()),
            DriveRequest::AskModel => DriveRequestView::AskModel,
            DriveRequest::EnsurePlugin => DriveRequestView::EnsurePlugin,
            DriveRequest::RunTool(call) => DriveRequestView::RunTool(call.deep_view()),
            DriveRequest::RetirePlugin => DriveRequestView::RetirePlugin,
            DriveRequest::Finish(end) => DriveRequestView::Finish(end.deep_view()),
            DriveRequest::Fail(error) => DriveRequestView::Fail(error.deep_view()),
        }
    }
}

/// What came of a request.
#[derive(Debug, PartialEq, Eq)]
pub enum DriveEvent {
    CancelChecked(bool),
    Replied(CoreResponse),
    Cancelled,
    ModelDone { content: String, tool_calls: Vec<CoreToolCall> },
    ModelFailed(String),
    PluginReady,
    PluginFailed(String),
    ToolDone(String),
    ToolFailed(String),
    Retired,
}

/// What such an event says.
pub enum DriveEventView {
    CancelChecked(bool),
    Replied(ResponseView),
    Cancelled,
    ModelDone { content: Seq<char>, tool_calls: Seq<ToolCallView> },
    ModelFailed(Seq<char>),
    PluginReady,
    PluginFailed(Seq<char>),
    ToolDone(Seq<char>),
    ToolFailed(Seq<char>),
    Retired,
}

impl DeepView for DriveEvent {
    type V = DriveEventView;

    open spec fn deep_view(&self) -> DriveEventView {
        match self {
            DriveEvent::CancelChecked(cancelled) => DriveEventView::CancelChecked(*cancelled),
            DriveEvent::Replied(reply) => DriveEventView::Replied(reply.deep_view()),
            DriveEvent::Cancelled => DriveEventView::Cancelled,
            DriveEvent::ModelDone { content, tool_calls } => DriveEventView::ModelDone {
                content: content@,
                tool_calls: tool_calls.deep_view(),
            },
            DriveEvent::ModelFailed(error) => DriveEventView::ModelFailed(error@),
            DriveEvent::PluginReady => DriveEventView::PluginReady,
            DriveEvent::PluginFailed(error) => DriveEventView::PluginFailed(error@),
            DriveEvent::ToolDone(output) => DriveEventView::ToolDone(output@),
            DriveEvent::ToolFailed(error) => DriveEventView::ToolFailed(error@),
            DriveEvent::Retired => DriveEventView::Retired,
        }
    }
}

/// What an action waits for.
#[derive(Debug, PartialEq, Eq)]
pub enum Waiting {
    CancelCheck,
    Model,
    Plugin(CoreToolCall),
    Tool(CoreToolCall),
    Reply,
    Retire,
    Abort,
    Done,
}

/// What such a wait is for.
pub enum WaitingView {
    CancelCheck,
    Model,
    Plugin(ToolCallView),
    Tool(ToolCallView),
    Reply,
    Retire,
    Abort,
    Done,
}

impl DeepView for Waiting {
    type V = WaitingView;

    open spec fn deep_view(&self) -> WaitingView {
        match self {
            Waiting::CancelCheck => WaitingView::CancelCheck,
            Waiting::Model => WaitingView::Model,
            Waiting::Plugin(call) => WaitingView::Plugin(call.deep_view()),
            Waiting::Tool(call) => WaitingView::Tool(call.deep_view()),
            Waiting::Reply => WaitingView::Reply,
            Waiting::Retire => WaitingView::Retire,
            Waiting::Abort => WaitingView::Abort,
            Waiting::Done => WaitingView::Done,
        }
    }
}

/// An action that is carried out.
#[derive(Debug)]
pub struct Drive {
    pub snapshot: CoreSnapshot,
    pub effects: Vec<CoreEffect>,
    pub waiting: Waiting,
}

/// The state of an action.
#[verifier::ext_equal]
pub struct DriveView {
    pub snapshot: SnapshotView,
    pub effects: Seq<EffectView>,
    pub waiting: WaitingView,
}

impl DeepView for Drive {
    type V = DriveView;

    open spec fn deep_view(&self) -> DriveView {
        DriveView {
            snapshot: self.snapshot.deep_view(),
            effects: self.effects.deep_view(),
            waiting: self.waiting.deep_view(),
        }
    }
}

/// News for the screen and what is to be done next.
#[derive(Debug, PartialEq, Eq)]
pub struct DriveStep {
    pub update: Option<RuntimeUpdate>,
    pub request: DriveRequest,
}

/// What a step says.
#[verifier::ext_equal]
pub struct DriveStepView {
    pub update: Option<UpdateView>,
    pub request: DriveRequestView,
}

impl DeepView for DriveStep {
    type V = DriveStepView;

    open spec fn deep_view(&self) -> DriveStepView {
        DriveStepView { update: self.update.deep_view(), request: self.request.deep_view() }
    }
}

impl DriveView {
    /// The action waits for what it asks for.
    pub open spec fn ask(
        self,
        update: Option<UpdateView>,
        waiting: WaitingView,
        request: DriveRequestView,
    ) -> (DriveView, DriveStepView) {
        (DriveView { waiting, ..self }, DriveStepView { update, request })
    }

    /// News of the session at hand.
    pub open spec fn progress(self, status: Seq<char>) -> Option<UpdateView> {
        Some(UpdateView::Progress { snapshot: self.snapshot, status })
    }

    /// The action goes on with the next effect, or has ended.
    pub open spec fn proceed(self, update: Option<UpdateView>) -> (DriveView, DriveStepView) {
        if self.effects.len() > 0 {
            self.ask(update, WaitingView::CancelCheck, DriveRequestView::CheckCancel)
        } else {
            self.ask(
                update,
                WaitingView::Done,
                DriveRequestView::Finish(
                    FinalView { snapshot: self.snapshot, status: "Ready"@, approval: None },
                ),
            )
        }
    }

    /// The action cannot go on.
    pub open spec fn fail(self, error: DriveErrorView) -> (DriveView, DriveStepView) {
        self.ask(None, WaitingView::Done, DriveRequestView::Fail(error))
    }

    /// The action is given up: the plugin is retired, and the core told.
    pub open spec fn give_up(self) -> (DriveView, DriveStepView) {
        self.ask(None, WaitingView::Retire, DriveRequestView::RetirePlugin)
    }

    /// The newest effect is carried out.
    pub open spec fn dispatch(self) -> (DriveView, DriveStepView) {
        let effect = self.effects.last();
        let rest = DriveView { effects: self.effects.drop_last(), ..self };
        if effect.kind == "request_model"@ {
            rest.ask(
                rest.progress("Waiting for model…"@),
                WaitingView::Model,
                DriveRequestView::AskModel,
            )
        } else if effect.kind == "request_approval"@ {
            match effect.call {
                Some(call) => rest.ask(
                    None,
                    WaitingView::Done,
                    DriveRequestView::Finish(
                        FinalView {
                            snapshot: rest.snapshot,
                            status: approval_status(call),
                            approval: Some(call),
                        },
                    ),
                ),
                None => rest.fail(
                    DriveErrorView::MissingCoreEffectCall { kind: "request_approval"@ },
                ),
            }
        } else if effect.kind == "invoke_tool"@ {
            match effect.call {
                Some(call) => rest.ask(
                    None,
                    WaitingView::Plugin(call),
                    DriveRequestView::EnsurePlugin,
                ),
                None => rest.fail(DriveErrorView::MissingCoreEffectCall { kind: "invoke_tool"@ }),
            }
        } else {
            rest.fail(DriveErrorView::UnknownCoreEffect { kind: effect.kind })
        }
    }

    /// The core is told what a tool gave.
    pub open spec fn tool_told(
        self,
        call: ToolCallView,
        content: Seq<char>,
        is_error: bool,
    ) -> (DriveView, DriveStepView) {
        self.ask(
            None,
            WaitingView::Reply,
            DriveRequestView::Send(
                EventView {
                    call_id: Some(call.call_id),
                    content: Some(content),
                    is_error: Some(is_error),
                    ..bare_event("tool_completed"@)
                },
            ),
        )
    }

    /// The action after what came of its request.
    pub open spec fn after(self, event: DriveEventView) -> (DriveView, DriveStepView) {
        match (self.waiting, event) {
            (WaitingView::CancelCheck, DriveEventView::CancelChecked(cancelled)) => if cancelled {
                self.give_up()
            } else if self.effects.len() > 0 {
                self.dispatch()
            } else {
                self.proceed(None)
            },
            (WaitingView::Model, DriveEventView::Cancelled) => self.give_up(),
            (WaitingView::Model, DriveEventView::ModelDone { content, tool_calls }) => self.ask(
                None,
                WaitingView::Reply,
                DriveRequestView::Send(
                    EventView {
                        content: Some(content),
                        tool_calls,
                        ..bare_event("model_completed"@)
                    },
                ),
            ),
            (WaitingView::Model, DriveEventView::ModelFailed(error)) => self.fail(
                DriveErrorView::Provider(error),
            ),
            (WaitingView::Plugin(call), DriveEventView::PluginReady) => self.ask(
                self.progress("Running "@ + call.name + "…"@),
                WaitingView::Tool(call),
                DriveRequestView::RunTool(call),
            ),
            (WaitingView::Plugin(call), DriveEventView::PluginFailed(error)) => self.fail(
                DriveErrorView::Plugin(error),
            ),
            (WaitingView::Tool(call), DriveEventView::Cancelled) => self.give_up(),
            (WaitingView::Tool(call), DriveEventView::ToolDone(output)) => self.tool_told(
                call,
                output,
                false,
            ),
            (WaitingView::Tool(call), DriveEventView::ToolFailed(error)) => self.tool_told(
                call,
                "Plugin execution failed: "@ + error,
                true,
            ),
            (WaitingView::Reply, DriveEventView::Replied(reply)) => (DriveView {
                snapshot: reply.snapshot,
                effects: self.effects + reply.effects,
                ..self
            }).proceed(None),
            (WaitingView::Retire, DriveEventView::Retired) => self.ask(
                None,
                WaitingView::Abort,
                DriveRequestView::Send(bare_event("abort"@)),
            ),
            (WaitingView::Abort, DriveEventView::Replied(reply)) => self.ask(
                None,
                WaitingView::Done,
                DriveRequestView::Finish(
                    FinalView { snapshot: reply.snapshot, status: "Cancelled"@, approval: None },
                ),
            ),
            _ => self.fail(DriveErrorView::OutOfTurn),
        }
    }

    /// The start of an action.
    pub open spec fn begun(reply: ResponseView) -> (DriveView, DriveStepView) {
        let drive = DriveView {
            snapshot: reply.snapshot,
            effects: reply.effects,
            waiting: WaitingView::Done,
        };
        drive.proceed(drive.progress("Processing…"@))
    }
}

impl Drive {
    fn ask(self, update: Option<RuntimeUpdate>, waiting: Waiting, request: DriveRequest) -> (r: (
        Drive,
        DriveStep,
    ))
        ensures
            (r.0.deep_view(), r.1.deep_view()) == self.deep_view().ask(
                update.deep_view(),
                waiting.deep_view(),
                request.deep_view(),
            ),
    {
        (
            Drive { snapshot: self.snapshot, effects: self.effects, waiting },
            DriveStep { update, request },
        )
    }

    fn progress(&self, status: &str) -> (r: Option<RuntimeUpdate>)
        ensures
            r.deep_view() == self.deep_view().progress(status@),
    {
        Some(
            RuntimeUpdate::Progress { snapshot: self.snapshot.clone(), status: status.to_owned() },
        )
    }

    fn proceed(self, update: Option<RuntimeUpdate>) -> (r: (Drive, DriveStep))
        ensures
            (r.0.deep_view(), r.1.deep_view()) == self.deep_view().proceed(update.deep_view()),
    {
        if self.effects.len() > 0 {
            self.ask(update, Waiting::CancelCheck, DriveRequest::CheckCancel)
        } else {
            let end = RuntimeFinal {
                snapshot: self.snapshot.clone(),
                status: "Ready".to_owned(),
                approval: None,
            };
            self.ask(update, Waiting::Done, DriveRequest::Finish(end))
        }
    }

    fn fail(self, error: DriveError) -> (r: (Drive, DriveStep))
        ensures
            (r.0.deep_view(), r.1.deep_view()) == self.deep_view().fail(error.deep_view()),
    {
        self.ask(None, Waiting::Done, DriveRequest::Fail(error))
    }

    fn give_up(self) -> (r: (Drive, DriveStep))
        ensures
            (r.0.deep_view(), r.1.deep_view()) == self.deep_view().give_up(),
    {
        self.ask(None, Waiting::Retire, DriveRequest::RetirePlugin)
    }

    fn dispatch(self) -> (r: (Drive, DriveStep))
        requires
            self.effects@.len() > 0,
        ensures
            (r.0.deep_view(), r.1.deep_view()) == self.deep_view().dispatch(),
    {
        let mut rest = self;
        let effect = match rest.effects.pop() {
            Some(effect) => effect,
            None => {
                return rest.fail(DriveError::OutOfTurn);
            },
        };
        assert(effect.deep_view() == self.effects.deep_view().last());
        assert(rest.effects.deep_view() =~= self.effects.deep_view().drop_last());
        let kind = effect.kind.as_str();
        if text::str_eq(kind, "request_model") {
            let update = rest.progress("Waiting for model…");
            rest.ask(update, Waiting::Model, DriveRequest::AskModel)
        } else if text::str_eq(kind, "request_approval") {
            match effect.call {
                Some(call) => {
                    let end = RuntimeFinal {
                        snapshot: rest.snapshot.clone(),
                        status: approval_prompt(&call),
                        approval: Some(call),
                    };
                    rest.ask(None, Waiting::Done, DriveRequest::Finish(end))
                },
                None => rest.fail(
                    DriveError::MissingCoreEffectCall { kind: "request_approval".to_owned() },
                ),
            }
        } else if text::str_eq(kind, "invoke_tool") {
            match effect.call {
                Some(call) => rest.ask(None, Waiting::Plugin(call), DriveRequest::EnsurePlugin),
                None => rest.fail(
                    DriveError::MissingCoreEffectCall { kind: "invoke_tool".to_owned() },
                ),
            }
        } else {
            rest.fail(DriveError::UnknownCoreEffect { kind: effect.kind })
        }
    }

    fn tool_told(self, call: CoreToolCall, content: String, is_error: bool) -> (r: (
        Drive,
        DriveStep,
    ))
        ensures
            (r.0.deep_view(), r.1.deep_view()) == self.deep_view().tool_told(
                call.deep_view(),
                content@,
                is_error,
            ),
    {
        let event = CoreEvent::tool_completed(call.call_id, content, is_error);
        self.ask(None, Waiting::Reply, DriveRequest::Send(event))
    }

    /// Begins the work on a reply of the core.
    pub fn start(response: CoreResponse) -> (r: (Drive, DriveStep))
        ensures
            (r.0.deep_view(), r.1.deep_view()) == DriveView::begun(response.deep_view()),
    {
        let drive = Drive {
            snapshot: response.snapshot,
            effects: response.effects,
            waiting: Waiting::Done,
        };
        let update = drive.progress("Processing…");
        drive.proceed(update)
    }

    /// Takes what came of the last request.
    pub fn advance(self, event: DriveEvent) -> (r: (Drive, DriveStep))
        ensures
            (r.0.deep_view(), r.1.deep_view()) == self.deep_view().after(event.deep_view()),
    {
        let Drive { snapshot, effects, waiting } = self;
        match (waiting, event) {
            (Waiting::CancelCheck, DriveEvent::CancelChecked(cancelled)) => {
                let drive = Drive { snapshot, effects, waiting: Waiting::CancelCheck };
                if cancelled {
                    drive.give_up()
                } else if drive.effects.len() > 0 {
                    drive.dispatch()
                } else {
                    drive.proceed(None)
                }
            },
            (Waiting::Model, DriveEvent::Cancelled) => {
                (Drive { snapshot, effects, waiting: Waiting::Done }).give_up()
            },
            (Waiting::Model, DriveEvent::ModelDone { content, tool_calls }) => {
                let drive = Drive { snapshot, effects, waiting: Waiting::Done };
                let event = CoreEvent::model_completed(content, tool_calls);
                drive.ask(None, Waiting::Reply, DriveRequest::Send(event))
            },
            (Waiting::Model, DriveEvent::ModelFailed(error)) => {
                (Drive { snapshot, effects, waiting: Waiting::Done }).fail(
                    DriveError::Provider(error),
                )
            },
            (Waiting::Plugin(call), DriveEvent::PluginReady) => {
                let drive = Drive { snapshot, effects, waiting: Waiting::Done };
                let mut status = text::cat("Running ", call.name.as_str());
                status.append("…");
                let update = drive.progress(status.as_str());
                let run = call.clone();
                drive.ask(update, Waiting::Tool(call), DriveRequest::RunTool(run))
            },
            (Waiting::Plugin(_), DriveEvent::PluginFailed(error)) => {
                (Drive { snapshot, effects, waiting: Waiting::Done }).fail(
                    DriveError::Plugin(error),
                )
            },
            (Waiting::Tool(_), DriveEvent::Cancelled) => {
                (Drive { snapshot, effects, waiting: Waiting::Done }).give_up()
            },
            (Waiting::Tool(call), DriveEvent::ToolDone(output)) => {
                (Drive { snapshot, effects, waiting: Waiting::Done }).tool_told(
                    call,
                    output,
                    false,
                )
            },
            (Waiting::Tool(call), DriveEvent::ToolFailed(error)) => {
                let content = text::cat("Plugin execution failed: ", error.as_str());
                (Drive { snapshot, effects, waiting: Waiting::Done }).tool_told(
                    call,
                    content,
                    true,
                )
            },
            (Waiting::Reply, DriveEvent::Replied(reply)) => {
                let ghost joined = effects.deep_view() + reply.effects.deep_view();
                let mut effects = effects;
                let mut more = reply.effects;
                effects.append(&mut more);
                assert(effects.deep_view() =~= joined);
                (Drive { snapshot: reply.snapshot, effects, waiting: Waiting::Done }).proceed(None)
            },
            (Waiting::Retire, DriveEvent::Retired) => {
                (Drive { snapshot, effects, waiting: Waiting::Done }).ask(
                    None,
                    Waiting::Abort,
                    DriveRequest::Send(CoreEvent::abort()),
                )
            },
            (Waiting::Abort, DriveEvent::Replied(reply)) => {
                let end = RuntimeFinal {
                    snapshot: reply.snapshot,
                    status: "Cancelled".to_owned(),
                    approval: None,
                };
                (Drive { snapshot, effects, waiting: Waiting::Done }).ask(
                    None,
                    Waiting::Done,
                    DriveRequest::Finish(end),
                )
            },
            _ => (Drive { snapshot, effects, waiting: Waiting::Done }).fail(DriveError::OutOfTurn),
        }
    }
}

/// A tool runs only because the core asked for it: the call that runs is that of an effect of the
/// core, and an action comes to wait for the plugin on behalf of such an effect alone.
pub proof fn law_only_the_core_runs_tools(drive: DriveView, event: DriveEventView)
    ensures
        drive.after(event).1.request matches DriveRequestView::RunTool(call) ==> drive.waiting
            == WaitingView::Plugin(call),
        drive.after(event).0.waiting matches WaitingView::Plugin(call) ==> drive.effects.len() > 0
            && drive.effects.last() == (EffectView { kind: "invoke_tool"@, call: Some(call) }),
{
}

/// Whatever runs can be given up: from there the plugin is retired, the core is told, and the
/// action ends as cancelled with what the core replies.
pub proof fn law_cancellation(drive: DriveView, reply: ResponseView)
    requires
        drive.waiting is Model || drive.waiting is Tool,
    ensures
        ({
            let (retiring, first) = drive.after(DriveEventView::Cancelled);
            let (aborting, second) = retiring.after(DriveEventView::Retired);
            let (done, third) = aborting.after(DriveEventView::Replied(reply));
            &&& first.request == DriveRequestView::RetirePlugin
            &&& second.request == DriveRequestView::Send(bare_event("abort"@))
            &&& third.request == DriveRequestView::Finish(
                FinalView { snapshot: reply.snapshot, status: "Cancelled"@, approval: None },
            )
            &&& done.waiting == WaitingView::Done
        }),
{
}

} // verus!
