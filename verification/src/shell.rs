//! The loop around the terminal: what keys, news and finished edits lead to.
use crate::app::{base64_bytes, App, AppView, ProgressError};
use crate::keys::{KeyAction, KeyActionView, PlanReviewAction, PlanReviewView};
use crate::runtime::{self, FinalView, RuntimeFinal, RuntimeUpdate, UpdateView};
use crate::selection::{MouseAction, MouseActionView, MAX_SELECTION_BYTES};
use crate::session::{
    self, CoreEffect, CoreEvent, CoreResponse, CoreResponseView, CoreSnapshot, EffectView, EventView,
    PermissionMode, SnapshotView, CORE_PROTOCOL_VERSION,
};
use crate::todo::{self, CoreTodoPhase, TodoPhaseView};
use crate::transcript::{LiveToolView, LocalTranscriptEntry};
use crate::text;
use vstd::prelude::*;
use vstd::string::*;

verus! {

/// What the runtime is asked to do.
#[derive(Debug, PartialEq, Eq)]
pub enum RuntimeAction {
    Submit(String),
    Compact(Option<String>),
    EnterPlan(String),
    ReplaceTodos(Vec<CoreTodoPhase>),
    PlanReview(PlanReviewAction),
    Btw { question: String, snapshot: CoreSnapshot },
    Approval { call_id: String, approved: bool },
    Drive(CoreResponse),
    Steer(String),
}

/// What such an action says.
pub enum ActionView {
    Submit(Seq<char>),
    Compact(Option<Seq<char>>),
    EnterPlan(Seq<char>),
    ReplaceTodos(Seq<TodoPhaseView>),
    PlanReview(PlanReviewView),
    Btw { question: Seq<char>, snapshot: SnapshotView },
    Approval { call_id: Seq<char>, approved: bool },
    Drive(CoreResponseView),
    Steer(Seq<char>),
}

impl DeepView for RuntimeAction {
    type V = ActionView;

    open spec fn deep_view(&self) -> ActionView {
        match self {
            RuntimeAction::Submit(s) => ActionView::Submit(s@),
            RuntimeAction::Compact(s) => ActionView::Compact(s.deep_view()),
            RuntimeAction::EnterPlan(s) => ActionView::EnterPlan(s@),
            RuntimeAction::ReplaceTodos(todos) => ActionView::ReplaceTodos(todos.deep_view()),
            RuntimeAction::PlanReview(action) => ActionView::PlanReview(action.deep_view()),
            RuntimeAction::Btw { question, snapshot } => ActionView::Btw {
                question: question@,
                snapshot: snapshot.deep_view(),
            },
            RuntimeAction::Approval { call_id, approved } => ActionView::Approval {
                call_id: call_id@,
                approved: *approved,
            },
            RuntimeAction::Drive(reply) => ActionView::Drive(reply.deep_view()),
            RuntimeAction::Steer(s) => ActionView::Steer(s@),
        }
    }
}

/// How an action begins.
#[derive(Debug, PartialEq, Eq)]
pub enum ActionStart {
    /// Tell the core an event and drive its reply.
    Send(CoreEvent),
    /// Ask the model beside the conversation.
    Ask { question: String, snapshot: CoreSnapshot },
    /// Drive this reply.
    Drive(CoreResponse),
}

/// What the beginning of an action says.
pub enum ActionStartView {
    Send(EventView),
    Ask { question: Seq<char>, snapshot: SnapshotView },
    Drive(CoreResponseView),
}

impl DeepView for ActionStart {
    type V = ActionStartView;

    open spec fn deep_view(&self) -> ActionStartView {
        match self {
            ActionStart::Send(event) => ActionStartView::Send(event.deep_view()),
            ActionStart::Ask { question, snapshot } => ActionStartView::Ask {
                question: question@,
                snapshot: snapshot.deep_view(),
            },
            ActionStart::Drive(reply) => ActionStartView::Drive(reply.deep_view()),
        }
    }
}

/// An event with a text.
pub open spec fn text_event(kind: Seq<char>, s: Option<Seq<char>>) -> EventView {
    EventView { text: s, ..session::bare_event(kind) }
}

/// The event that a decision about a plan is told with.
pub open spec fn review_event(action: PlanReviewView) -> EventView {
    let bare = session::bare_event("plan_review_result"@);
    match action {
        PlanReviewView::Approve => EventView { approved: Some(true), ..bare },
        PlanReviewView::Refine(feedback) => EventView { text: Some(feedback), ..bare },
        PlanReviewView::Edit(content) => EventView { content: Some(content), ..bare },
        PlanReviewView::Cancel => EventView { approved: Some(false), ..bare },
    }
}

/// How an action begins.
pub open spec fn start_of(action: ActionView) -> ActionStartView {
    match action {
        ActionView::Btw { question, snapshot } => ActionStartView::Ask { question, snapshot },
        ActionView::Drive(reply) => ActionStartView::Drive(reply),
        ActionView::Submit(s) => ActionStartView::Send(text_event("submit"@, Some(s))),
        ActionView::Compact(s) => ActionStartView::Send(text_event("start_compaction"@, s)),
        ActionView::EnterPlan(s) => ActionStartView::Send(text_event("enter_plan"@, Some(s))),
        ActionView::ReplaceTodos(todos) => ActionStartView::Send(
            EventView { todos, ..session::bare_event("replace_todos"@) },
        ),
        ActionView::PlanReview(action) => ActionStartView::Send(review_event(action)),
        ActionView::Steer(s) => ActionStartView::Send(text_event("steer"@, Some(s))),
        ActionView::Approval { call_id, approved } => ActionStartView::Send(
            EventView {
                call_id: Some(call_id),
                approved: Some(approved),
                ..session::bare_event("approval_result"@)
            },
        ),
    }
}

/// How an action begins.
pub fn begin_action(action: RuntimeAction) -> (r: ActionStart)
    ensures
        r.deep_view() == start_of(action.deep_view()),
{
    match action {
        RuntimeAction::Btw { question, snapshot } => ActionStart::Ask { question, snapshot },
        RuntimeAction::Drive(response) => ActionStart::Drive(response),
        RuntimeAction::Submit(text) => ActionStart::Send(CoreEvent::submit(text)),
        RuntimeAction::Compact(instructions) => ActionStart::Send(
            CoreEvent::start_compaction(instructions, 0, false),
        ),
        RuntimeAction::EnterPlan(text) => ActionStart::Send(CoreEvent::enter_plan(text)),
        RuntimeAction::ReplaceTodos(todos) => ActionStart::Send(CoreEvent::replace_todos(todos)),
        RuntimeAction::PlanReview(action) => ActionStart::Send(
            match action {
                PlanReviewAction::Approve => CoreEvent::approve_plan(),
                PlanReviewAction::Refine(feedback) => CoreEvent::refine_plan(feedback),
                PlanReviewAction::Edit(content) => CoreEvent::edit_plan(content),
                PlanReviewAction::Cancel => CoreEvent::cancel_plan_review(),
            },
        ),
        RuntimeAction::Steer(text) => ActionStart::Send(CoreEvent::steer(text)),
        RuntimeAction::Approval { call_id, approved } => ActionStart::Send(
            CoreEvent::approval(call_id, approved),
        ),
    }
}

/// The end of a question beside the conversation that was cancelled.
pub fn btw_cancelled(snapshot: CoreSnapshot) -> (r: RuntimeFinal)
    ensures
        r.deep_view() == runtime::plain_end(snapshot.deep_view(), "BTW cancelled"@, false),
{
    RuntimeFinal {
        snapshot,
        status: "BTW cancelled".to_owned(),
        approval: None,
        plan_review: false,
        local_entry: None,
    }
}

/// The end of a question beside the conversation that was answered, once its entry is stored.
pub fn btw_answered(entry: LocalTranscriptEntry, snapshot: CoreSnapshot) -> (r: RuntimeFinal)
    ensures
        r.deep_view() == (FinalView {
            local_entry: Some(entry.deep_view()),
            ..runtime::plain_end(snapshot.deep_view(), "Ready"@, false)
        }),
{
    RuntimeFinal {
        snapshot,
        status: "Ready".to_owned(),
        approval: None,
        plan_review: false,
        local_entry: Some(entry),
    }
}

/// What the terminal loop is to do.
#[derive(Debug, PartialEq, Eq)]
pub enum ShellRequest {
    Nothing,
    Quit,
    /// Cancel the action at work.
    Cancel,
    /// Hand a change of direction to the action at work.
    Steer(String),
    /// Begin an action.
    Spawn(RuntimeAction),
    /// Have the todo list edited.
    EditTodos(String),
    /// Have the plan edited.
    EditPlan(String),
}

/// What such a request says.
pub enum ShellRequestView {
    Nothing,
    Quit,
    Cancel,
    Steer(Seq<char>),
    Spawn(ActionView),
    EditTodos(Seq<char>),
    EditPlan(Seq<char>),
}

impl DeepView for ShellRequest {
    type V = ShellRequestView;

    open spec fn deep_view(&self) -> ShellRequestView {
        match self {
            ShellRequest::Nothing => ShellRequestView::Nothing,
            ShellRequest::Quit => ShellRequestView::Quit,
            ShellRequest::Cancel => ShellRequestView::Cancel,
            ShellRequest::Steer(s) => ShellRequestView::Steer(s@),
            ShellRequest::Spawn(action) => ShellRequestView::Spawn(action.deep_view()),
            ShellRequest::EditTodos(s) => ShellRequestView::EditTodos(s@),
            ShellRequest::EditPlan(s) => ShellRequestView::EditPlan(s@),
        }
    }
}

impl AppView {
    /// Busy, with this status.
    pub open spec fn working(self, status: Seq<char>) -> AppView {
        AppView { busy: true, status, ..self }
    }

    /// What the request of a key leads to. While an action is at work no other one begins; only a
    /// cancellation and a change of direction reach it.
    pub open spec fn asked(self, action: KeyActionView, active: bool) -> (AppView, ShellRequestView) {
        match action {
            KeyActionView::Ignore => (self, ShellRequestView::Nothing),
            KeyActionView::Quit => (self, ShellRequestView::Quit),
            KeyActionView::Cancel => if active {
                (self.working("Cancelling…"@), ShellRequestView::Cancel)
            } else {
                (self, ShellRequestView::Nothing)
            },
            KeyActionView::Steer(s) => if active {
                (self, ShellRequestView::Steer(s))
            } else {
                (
                    AppView { approval: None, ..self.working("Steering…"@) },
                    ShellRequestView::Spawn(ActionView::Steer(s)),
                )
            },
            _ => if active {
                (self, ShellRequestView::Nothing)
            } else {
                self.begun(action)
            },
        }
    }

    /// What the request of a key leads to while no action is at work.
    pub open spec fn begun(self, action: KeyActionView) -> (AppView, ShellRequestView) {
        match action {
            KeyActionView::Submit(s) => (
                self.working("Submitting…"@),
                ShellRequestView::Spawn(ActionView::Submit(s)),
            ),
            KeyActionView::Compact(s) => (
                self.working("Compacting context…"@),
                ShellRequestView::Spawn(ActionView::Compact(s)),
            ),
            KeyActionView::EnterPlan(s) => (
                self.working("Entering plan mode…"@),
                ShellRequestView::Spawn(ActionView::EnterPlan(s)),
            ),
            KeyActionView::EditTodos => (
                self,
                ShellRequestView::EditTodos(
                    text::terminated(todo::document_lines(self.snapshot.todos)),
                ),
            ),
            KeyActionView::EditPlan => (
                self,
                ShellRequestView::EditPlan(self.snapshot.plan.content),
            ),
            KeyActionView::PlanReview(action) => (
                AppView {
                    plan_review: false,
                    plan_feedback: false,
                    follow_tail: true,
                    ..self.working("Applying plan decision…"@)
                },
                ShellRequestView::Spawn(ActionView::PlanReview(action)),
            ),
            KeyActionView::Btw(question) => (
                self.working("Asking BTW…"@),
                ShellRequestView::Spawn(ActionView::Btw { question, snapshot: self.snapshot }),
            ),
            KeyActionView::Approval { call_id, approved } => (
                AppView { approval: None, ..self.working("Applying approval…"@) },
                ShellRequestView::Spawn(ActionView::Approval { call_id, approved }),
            ),
            _ => (self, ShellRequestView::Nothing),
        }
    }

    /// What an edited todo list leads to.
    pub open spec fn todos_edited(self, edited: Result<Seq<char>, Seq<char>>) -> (
        AppView,
        ShellRequestView,
    ) {
        match edited {
            Ok(document) => match todo::phases_of(text::lines_of(document)) {
                Ok(phases) => (
                    self.working("Saving todos…"@),
                    ShellRequestView::Spawn(ActionView::ReplaceTodos(phases)),
                ),
                Err(error) => (
                    self.with_status(
                        "Error: invalid todo document at line "@ + text::decimal(error.line)
                            + ": "@ + error.message,
                    ),
                    ShellRequestView::Nothing,
                ),
            },
            Err(message) => (self.with_status("Error: "@ + message), ShellRequestView::Nothing),
        }
    }

    /// What an edited plan leads to.
    pub open spec fn plan_edited(self, edited: Result<Seq<char>, Seq<char>>) -> (
        AppView,
        ShellRequestView,
    ) {
        match edited {
            Ok(content) => if content == self.snapshot.plan.content {
                (
                    self.with_status(
                        "Plan unchanged · y approve · r refine · e edit · n cancel"@,
                    ),
                    ShellRequestView::Nothing,
                )
            } else {
                (
                    AppView { plan_review: false, ..self.working("Saving plan revision…"@) },
                    ShellRequestView::Spawn(
                        ActionView::PlanReview(PlanReviewView::Edit(content)),
                    ),
                )
            },
            Err(message) => (self.with_status("Error: "@ + message), ShellRequestView::Nothing),
        }
    }

    /// The application when an action has ended.
    pub open spec fn settled(self, end: FinalView) -> AppView {
        let scrolled = if end.plan_review && !self.plan_review {
            AppView { scroll_offset: 0, follow_tail: false, ..self }
        } else {
            self
        };
        let held = scrolled.with_snapshot(end.snapshot);
        let told = match end.local_entry {
            Some(entry) => AppView {
                local_entries: held.local_entries.push(entry),
                ..held
            }.relaid(),
            None => held,
        };
        AppView {
            status: end.status,
            approval: end.approval,
            plan_review: end.plan_review,
            plan_feedback: false,
            busy: false,
            live_tool: None,
            ..told.unselected()
        }
    }

    /// The application when an action has failed.
    pub open spec fn failed(self, message: Seq<char>) -> AppView {
        AppView {
            status: "Error: "@ + message,
            busy: false,
            plan_review: self.snapshot.phase == "waiting_plan_review"@,
            plan_feedback: false,
            live_tool: None,
            ..self.unselected()
        }
    }

    /// The application when news has come; none where it cannot be read.
    pub open spec fn updated(self, update: UpdateView) -> Option<AppView> {
        match update {
            UpdateView::Progress { snapshot, status } => Some(
                self.with_snapshot(snapshot).working(status),
            ),
            UpdateView::ToolStarted { call_id, label } => Some(
                AppView {
                    live_tool: Some(
                        LiveToolView {
                            call_id,
                            label,
                            stdout: Seq::empty(),
                            stderr: Seq::empty(),
                        },
                    ),
                    ..self.unselected()
                }.working("Running "@ + label + "…"@),
            ),
            UpdateView::ToolProgress { call_id, progress } => match base64_bytes(progress.data@) {
                Some(bytes) => Some(
                    AppView {
                        busy: true,
                        ..self.with_progress(call_id, progress.stream, bytes)
                    },
                ),
                None => None,
            },
            UpdateView::ToolFinished { call_id } => Some(self.with_tool_finished(call_id)),
            UpdateView::Settled(end) => Some(self.settled(end)),
            UpdateView::Failed(message) => Some(self.failed(message)),
        }
    }
}

/// Takes the request of a key.
pub fn on_key_action(app: &mut App, action: KeyAction, active: bool) -> (r: ShellRequest)
    requires
        old(app).wf(),
    ensures
        final(app).wf(),
        (final(app).deep_view(), r.deep_view()) == old(app).deep_view().asked(
            action.deep_view(),
            active,
        ),
{
    match action {
        KeyAction::Ignore => ShellRequest::Nothing,
        KeyAction::Quit => ShellRequest::Quit,
        KeyAction::Cancel => {
            if !active {
                return ShellRequest::Nothing;
            }
            app.status = "Cancelling…".to_owned();
            app.busy = true;
            ShellRequest::Cancel
        },
        KeyAction::Steer(text) => {
            if active {
                return ShellRequest::Steer(text);
            }
            app.busy = true;
            app.approval = None;
            app.status = "Steering…".to_owned();
            ShellRequest::Spawn(RuntimeAction::Steer(text))
        },
        _ => {
            if active {
                return ShellRequest::Nothing;
            }
            begin_key_action(app, action)
        },
    }
}

/// Takes the request of a key while no action is at work.
fn begin_key_action(app: &mut App, action: KeyAction) -> (r: ShellRequest)
    requires
        old(app).wf(),
    ensures
        final(app).wf(),
        (final(app).deep_view(), r.deep_view()) == old(app).deep_view().begun(action.deep_view()),
{
    match action {
        KeyAction::Submit(text) => {
            app.busy = true;
            app.status = "Submitting…".to_owned();
            ShellRequest::Spawn(RuntimeAction::Submit(text))
        },
        KeyAction::Compact(instructions) => {
            app.busy = true;
            app.status = "Compacting context…".to_owned();
            ShellRequest::Spawn(RuntimeAction::Compact(instructions))
        },
        KeyAction::EnterPlan(text) => {
            app.busy = true;
            app.status = "Entering plan mode…".to_owned();
            ShellRequest::Spawn(RuntimeAction::EnterPlan(text))
        },
        KeyAction::EditTodos => ShellRequest::EditTodos(
            todo::todos_to_markdown(&app.snapshot.todos),
        ),
        KeyAction::EditPlan => ShellRequest::EditPlan(app.snapshot.plan.content.clone()),
        KeyAction::PlanReview(action) => {
            app.busy = true;
            app.plan_review = false;
            app.plan_feedback = false;
            app.follow_tail = true;
            app.status = "Applying plan decision…".to_owned();
            ShellRequest::Spawn(RuntimeAction::PlanReview(action))
        },
        KeyAction::Btw(question) => {
            app.busy = true;
            app.status = "Asking BTW…".to_owned();
            let snapshot = app.snapshot.clone();
            ShellRequest::Spawn(RuntimeAction::Btw { question, snapshot })
        },
        KeyAction::Approval { call_id, approved } => {
            app.busy = true;
            app.approval = None;
            app.status = "Applying approval…".to_owned();
            ShellRequest::Spawn(RuntimeAction::Approval { call_id, approved })
        },
        _ => ShellRequest::Nothing,
    }
}

/// A change of direction reached the action at work, or came too late: then it is the input again.
pub fn on_steer_sent(app: &mut App, refused: Option<String>)
    requires
        old(app).wf(),
    ensures
        final(app).wf(),
        final(app).deep_view() == match refused.deep_view() {
            None => old(app).deep_view().with_status("Steering…"@),
            Some(s) => old(app).deep_view().with_input(crate::input::InputView::ending(s)).with_status(
                "Task settled before steer arrived · press Enter to send"@,
            ),
        },
{
    match refused {
        None => {
            app.status = "Steering…".to_owned();
        },
        Some(text) => {
            app.set_input(text);
            app.status = "Task settled before steer arrived · press Enter to send".to_owned();
        },
    }
}

/// Takes an edited todo list, or why there is none.
pub fn on_todos_edited(app: &mut App, edited: Result<String, String>) -> (r: ShellRequest)
    requires
        old(app).wf(),
    ensures
        final(app).wf(),
        (final(app).deep_view(), r.deep_view()) == old(app).deep_view().todos_edited(
            runtime::result_view(edited),
        ),
{
    match edited {
        Ok(document) => match todo::parse_todos_markdown(document.as_str()) {
            Ok(todos) => {
                app.busy = true;
                app.status = "Saving todos…".to_owned();
                ShellRequest::Spawn(RuntimeAction::ReplaceTodos(todos))
            },
            Err(error) => {
                let mut status = text::cat(
                    "Error: invalid todo document at line ",
                    text::number(error.line as u64).as_str(),
                );
                status.append(": ");
                status.append(error.message.as_str());
                app.status = status;
                ShellRequest::Nothing
            },
        },
        Err(message) => {
            app.status = text::cat("Error: ", message.as_str());
            ShellRequest::Nothing
        },
    }
}

/// Takes an edited plan, or why there is none.
pub fn on_plan_edited(app: &mut App, edited: Result<String, String>) -> (r: ShellRequest)
    requires
        old(app).wf(),
    ensures
        final(app).wf(),
        (final(app).deep_view(), r.deep_view()) == old(app).deep_view().plan_edited(
            runtime::result_view(edited),
        ),
{
    match edited {
        Ok(content) => {
            if text::str_eq(content.as_str(), app.snapshot.plan.content.as_str()) {
                app.status =
                "Plan unchanged · y approve · r refine · e edit · n cancel".to_owned();
                return ShellRequest::Nothing;
            }
            app.busy = true;
            app.plan_review = false;
            app.status = "Saving plan revision…".to_owned();
            ShellRequest::Spawn(RuntimeAction::PlanReview(PlanReviewAction::Edit(content)))
        },
        Err(message) => {
            app.status = text::cat("Error: ", message.as_str());
            ShellRequest::Nothing
        },
    }
}

/// Takes the end of an action.
fn on_settled(app: &mut App, end: RuntimeFinal)
    requires
        old(app).wf(),
    ensures
        final(app).wf(),
        final(app).deep_view() == old(app).deep_view().settled(end.deep_view()),
{
    if end.plan_review && !app.plan_review {
        app.scroll_offset = 0;
        app.follow_tail = false;
    }
    app.set_snapshot(end.snapshot);
    if let Some(entry) = end.local_entry {
        app.push_local_entry(entry);
    }
    app.status = end.status;
    app.approval = end.approval;
    app.plan_review = end.plan_review;
    app.plan_feedback = false;
    app.busy = false;
    app.clear_live_tool();
}

/// Takes news of an action.
pub fn on_update(app: &mut App, update: RuntimeUpdate) -> (r: Result<(), ProgressError>)
    requires
        old(app).wf(),
    ensures
        final(app).wf(),
        r is Ok <==> old(app).deep_view().updated(update.deep_view()) is Some,
        match old(app).deep_view().updated(update.deep_view()) {
            Some(next) => final(app).deep_view() == next,
            None => *final(app) == *old(app),
        },
{
    match update {
        RuntimeUpdate::Progress { snapshot, status } => {
            app.set_snapshot(snapshot);
            app.status = status;
            app.busy = true;
        },
        RuntimeUpdate::ToolStarted { call_id, label } => {
            let mut status = text::cat("Running ", label.as_str());
            status.append("…");
            app.start_live_tool(call_id, label);
            app.status = status;
            app.busy = true;
        },
        RuntimeUpdate::ToolProgress { call_id, progress } => {
            match app.append_live_progress(call_id.as_str(), progress) {
                Ok(()) => {
                    app.busy = true;
                },
                Err(error) => {
                    return Err(error);
                },
            }
        },
        RuntimeUpdate::ToolFinished { call_id } => {
            app.finish_live_tool(call_id.as_str());
        },
        RuntimeUpdate::Settled(end) => {
            on_settled(app, end);
        },
        RuntimeUpdate::Failed(message) => {
            app.status = text::cat("Error: ", message.as_str());
            app.busy = false;
            app.plan_review = text::str_eq(app.snapshot.phase.as_str(), "waiting_plan_review");
            app.plan_feedback = false;
            app.clear_live_tool();
        },
    }
    Ok(())
}

/// What the request of the mouse leads to: whether the screen is to be drawn anew, how far is to
/// be scrolled, and what is to be copied.
#[derive(Debug, PartialEq, Eq)]
pub struct MouseOutcome {
    pub dirty: bool,
    pub pending_scroll: i32,
    pub copy: Option<String>,
}

/// `a + b` within the bounds of `i32`.
pub open spec fn add32(a: i32, b: i32) -> i32 {
    if a + b > i32::MAX {
        i32::MAX
    } else if a + b < i32::MIN {
        i32::MIN
    } else {
        (a + b) as i32
    }
}

/// Takes the request of the mouse.
pub fn on_mouse_action(app: &mut App, action: MouseAction, pending_scroll: i32) -> (r: MouseOutcome)
    requires
        old(app).wf(),
    ensures
        final(app).wf(),
        final(app).deep_view() == match action.deep_view() {
            MouseActionView::SelectionTooLarge => old(app).deep_view().with_status(
                "Selection exceeds the "@ + text::decimal(MAX_SELECTION_BYTES as nat)
                    + " byte clipboard limit"@,
            ),
            _ => old(app).deep_view(),
        },
        r.dirty == (action.deep_view() != MouseActionView::Ignore),
        r.pending_scroll == match action.deep_view() {
            MouseActionView::Scroll(delta) => add32(pending_scroll, delta),
            _ => pending_scroll,
        },
        r.copy.deep_view() == match action.deep_view() {
            MouseActionView::Copy(s) => Some(s),
            _ => None,
        },
{
    match action {
        MouseAction::Ignore => MouseOutcome { dirty: false, pending_scroll, copy: None },
        MouseAction::Redraw => MouseOutcome { dirty: true, pending_scroll, copy: None },
        MouseAction::Scroll(delta) => {
            let sum: i64 = pending_scroll as i64 + delta as i64;
            let total: i32 = if sum > i32::MAX as i64 {
                i32::MAX
            } else if sum < i32::MIN as i64 {
                i32::MIN
            } else {
                sum as i32
            };
            MouseOutcome { dirty: true, pending_scroll: total, copy: None }
        },
        MouseAction::Copy(text) => MouseOutcome {
            dirty: true,
            pending_scroll,
            copy: Some(text),
        },
        MouseAction::SelectionTooLarge => {
            let mut status = text::cat(
                "Selection exceeds the ",
                text::number(MAX_SELECTION_BYTES as u64).as_str(),
            );
            status.append(" byte clipboard limit");
            app.status = status;
            MouseOutcome { dirty: true, pending_scroll, copy: None }
        },
    }
}

/// A text was copied.
pub fn on_copied(app: &mut App, copied: &str)
    requires
        old(app).wf(),
    ensures
        final(app).wf(),
        final(app).deep_view() == old(app).deep_view().with_status(
            "Copied "@ + text::decimal(copied@.len()) + " characters"@,
        ),
{
    let mut status = text::cat("Copied ", text::number(text::char_count(copied) as u64).as_str());
    status.append(" characters");
    app.status = status;
}

/// An action begins before any key was pressed.
pub fn on_start(app: &mut App)
    requires
        old(app).wf(),
    ensures
        final(app).wf(),
        final(app).deep_view() == old(app).deep_view().working("Starting…"@),
{
    app.busy = true;
    app.status = "Starting…".to_owned();
}

/// What a session that was opened is to begin with.
#[derive(Debug, PartialEq, Eq)]
pub enum Startup {
    /// Tell the core which tools are safe, take the state it replies, and submit the prompt.
    Configure { event: CoreEvent, prompt: Option<String> },
    /// Drive this reply.
    Resume(CoreResponse),
    /// Tell the core an event and drive its reply.
    Recover(CoreEvent),
    /// Wait for the person.
    Wait,
}

/// What such a beginning says.
pub enum StartupView {
    Configure { event: EventView, prompt: Option<Seq<char>> },
    Resume(CoreResponseView),
    Recover(EventView),
    Wait,
}

impl DeepView for Startup {
    type V = StartupView;

    open spec fn deep_view(&self) -> StartupView {
        match self {
            Startup::Configure { event, prompt } => StartupView::Configure {
                event: event.deep_view(),
                prompt: prompt.deep_view(),
            },
            Startup::Resume(reply) => StartupView::Resume(reply.deep_view()),
            Startup::Recover(event) => StartupView::Recover(event.deep_view()),
            Startup::Wait => StartupView::Wait,
        }
    }
}

/// Why a session cannot be begun.
#[derive(Debug, PartialEq, Eq)]
pub enum StartupError {
    PromptWhileResuming { phase: String },
    MissingPendingTool { phase: String },
    UnsupportedSessionPhase { phase: String },
}

/// What such an error says.
pub enum StartupErrorView {
    PromptWhileResuming { phase: Seq<char> },
    MissingPendingTool { phase: Seq<char> },
    UnsupportedSessionPhase { phase: Seq<char> },
}

impl DeepView for StartupError {
    type V = StartupErrorView;

    open spec fn deep_view(&self) -> StartupErrorView {
        match self {
            StartupError::PromptWhileResuming { phase } => StartupErrorView::PromptWhileResuming {
                phase: phase@,
            },
            StartupError::MissingPendingTool { phase } => StartupErrorView::MissingPendingTool {
                phase: phase@,
            },
            StartupError::UnsupportedSessionPhase { phase } => {
                StartupErrorView::UnsupportedSessionPhase { phase: phase@ }
            },
        }
    }
}

/// Whether a session in this phase waits for something.
pub open spec fn is_waiting_phase(phase: Seq<char>) -> bool {
    phase == "waiting_model"@ || phase == "waiting_approval"@ || phase == "waiting_tool"@ || phase
        == "waiting_plan_review"@ || phase == "waiting_compaction"@
}

/// What is told about a tool that a restart interrupted.
pub open spec fn interrupted_text() -> Seq<char> {
    "Tool execution was interrupted by a process restart and was not replayed."@
}

/// The reply that asks the model again.
pub open spec fn resumed_reply(snapshot: SnapshotView) -> CoreResponseView {
    CoreResponseView {
        version: CORE_PROTOCOL_VERSION,
        request_id: "resume_model"@,
        ok: true,
        snapshot,
        effects: seq![EffectView { kind: "request_model"@, call: None }],
        error: None,
    }
}

impl AppView {
    /// What a session that was opened begins with. One that waits for something takes no prompt;
    /// a tool that a restart interrupted is reported as failed and never run again.
    pub open spec fn opened(
        self,
        prompt: Option<Seq<char>>,
        safe_tools: Seq<Seq<char>>,
        mode: PermissionMode,
    ) -> Result<(AppView, StartupView), StartupErrorView> {
        let phase = self.snapshot.phase;
        let index = self.snapshot.current_call as int;
        if phase == "idle"@ {
            Ok(
                (
                    self,
                    StartupView::Configure {
                        event: EventView {
                            safe_tools,
                            permission_mode: mode.wire(),
                            ..session::bare_event("configure_tools"@)
                        },
                        prompt,
                    },
                ),
            )
        } else if !is_waiting_phase(phase) {
            Err(StartupErrorView::UnsupportedSessionPhase { phase })
        } else if prompt is Some {
            Err(StartupErrorView::PromptWhileResuming { phase })
        } else if phase == "waiting_model"@ {
            Ok((self, StartupView::Resume(resumed_reply(self.snapshot))))
        } else if phase == "waiting_plan_review"@ {
            Ok(
                (
                    AppView { plan_review: true, status: runtime::review_status(), ..self },
                    StartupView::Wait,
                ),
            )
        } else if phase == "waiting_compaction"@ {
            Ok((self, StartupView::Recover(session::bare_event("compaction_failed"@))))
        } else if index >= self.snapshot.pending_calls.len() {
            Err(StartupErrorView::MissingPendingTool { phase })
        } else if phase == "waiting_approval"@ {
            let call = self.snapshot.pending_calls[index];
            Ok(
                (
                    AppView {
                        status: runtime::approval_status(call),
                        approval: Some(call),
                        ..self
                    },
                    StartupView::Wait,
                ),
            )
        } else {
            Ok(
                (
                    self,
                    StartupView::Recover(
                        EventView {
                            call_id: Some(self.snapshot.pending_calls[index].call_id),
                            content: Some(interrupted_text()),
                            is_error: Some(true),
                            ..session::bare_event("tool_completed"@)
                        },
                    ),
                ),
            )
        }
    }
}

/// Begins a session that was opened.
pub fn start_session(
    app: &mut App,
    prompt: Option<String>,
    safe_tools: Vec<String>,
    mode: PermissionMode,
) -> (r: Result<Startup, StartupError>)
    requires
        old(app).wf(),
    ensures
        final(app).wf(),
        match old(app).deep_view().opened(prompt.deep_view(), safe_tools.deep_view(), mode) {
            Ok((next, startup)) => r matches Ok(s) && s.deep_view() == startup
                && final(app).deep_view() == next,
            Err(error) => r matches Err(e) && e.deep_view() == error && *final(app) == *old(app),
        },
{
    let phase = app.snapshot.phase.clone();
    let name = phase.as_str();
    if text::str_eq(name, "idle") {
        return Ok(
            Startup::Configure { event: CoreEvent::configure_tools(safe_tools, mode), prompt },
        );
    }
    let known = text::str_eq(name, "waiting_model") || text::str_eq(name, "waiting_approval")
        || text::str_eq(name, "waiting_tool") || text::str_eq(name, "waiting_plan_review")
        || text::str_eq(name, "waiting_compaction");
    if !known {
        return Err(StartupError::UnsupportedSessionPhase { phase });
    }
    if prompt.is_some() {
        return Err(StartupError::PromptWhileResuming { phase });
    }
    if text::str_eq(name, "waiting_model") {
        return Ok(Startup::Resume(resume_model(app.snapshot.clone())));
    }
    if text::str_eq(name, "waiting_plan_review") {
        app.plan_review = true;
        app.status = "Plan ready · y approve · r refine · e edit · n cancel".to_owned();
        return Ok(Startup::Wait);
    }
    if text::str_eq(name, "waiting_compaction") {
        return Ok(Startup::Recover(CoreEvent::compaction_failed()));
    }
    let call = match session::active_pending_call(&app.snapshot) {
        Some(call) => call,
        None => {
            return Err(StartupError::MissingPendingTool { phase });
        },
    };
    assert(call.deep_view()
        == app.snapshot.pending_calls.deep_view()[app.snapshot.current_call as int]);
    if text::str_eq(name, "waiting_approval") {
        app.status = runtime::approval_prompt(&call);
        app.approval = Some(call);
        return Ok(Startup::Wait);
    }
    Ok(
        Startup::Recover(
            CoreEvent::tool_completed(
                call.call_id,
                "Tool execution was interrupted by a process restart and was not replayed.".to_owned(),
                true,
            ),
        ),
    )
}

/// The reply that asks the model again.
fn resume_model(snapshot: CoreSnapshot) -> (r: CoreResponse)
    ensures
        r.deep_view() == resumed_reply(snapshot.deep_view()),
{
    let mut effects: Vec<CoreEffect> = Vec::new();
    effects.push(CoreEffect { kind: "request_model".to_owned(), call: None });
    let r = CoreResponse {
        version: CORE_PROTOCOL_VERSION,
        request_id: "resume_model".to_owned(),
        ok: true,
        snapshot,
        effects,
        error: None,
    };
    assert(r.effects.deep_view() =~= resumed_reply(snapshot.deep_view()).effects);
    r
}

/// While an action is at work no other one begins.
pub proof fn law_one_action_at_a_time(app: AppView, action: KeyActionView)
    ensures
        !(app.asked(action, true).1 is Spawn),
        !(app.asked(action, true).1 is EditTodos),
        !(app.asked(action, true).1 is EditPlan),
{
}

/// A call is decided only by the person, and the decision names the call that was shown.
pub proof fn law_approval_names_the_call(app: AppView, key: crate::keys::KeyEvent)
    ensures
        app.after_key(key).1 matches KeyActionView::Approval { call_id, approved } ==> {
            &&& app.approval matches Some(call)
            &&& call.call_id == call_id
            &&& app.after_key(key).0.approval is None
        },
{
}

} // verus!
