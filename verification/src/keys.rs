//! What the keys of the keyboard do.
use crate::app::{App, AppView};
use crate::slash::{SlashCommand, SlashCommandView, SlashErrorView, SubmissionView, UserSubmission};
use crate::{session, slash, text};
use vstd::prelude::*;
use vstd::string::*;

verus! {

/// A key.
#[derive(Clone, Copy, Debug, PartialEq, Eq, Structural)]
pub enum KeyCode {
    Char(char),
    Enter,
    Backspace,
    Delete,
    Esc,
    Tab,
    Up,
    Down,
    Left,
    Right,
    Home,
    End,
    PageUp,
    PageDown,
    Other,
}

/// A key pressed, and what was held with it.
#[derive(Clone, Copy, Debug, PartialEq, Eq, Structural)]
pub struct KeyEvent {
    pub code: KeyCode,
    pub control: bool,
    pub alt: bool,
}

/// What a person decides about a plan.
#[derive(Debug, PartialEq, Eq)]
pub enum PlanReviewAction {
    Approve,
    Refine(String),
    Edit(String),
    Cancel,
}

/// What a key asks for.
#[derive(Debug, PartialEq, Eq)]
pub enum KeyAction {
    Ignore,
    Quit,
    Cancel,
    Submit(String),
    Compact(Option<String>),
    EnterPlan(String),
    EditTodos,
    PlanReview(PlanReviewAction),
    EditPlan,
    Steer(String),
    Btw(String),
    Approval { call_id: String, approved: bool },
}

/// What a decision about a plan says.
pub enum PlanReviewView {
    Approve,
    Refine(Seq<char>),
    Edit(Seq<char>),
    Cancel,
}

/// What a request of a key says.
pub enum KeyActionView {
    Ignore,
    Quit,
    Cancel,
    Submit(Seq<char>),
    Compact(Option<Seq<char>>),
    EnterPlan(Seq<char>),
    EditTodos,
    PlanReview(PlanReviewView),
    EditPlan,
    Steer(Seq<char>),
    Btw(Seq<char>),
    Approval { call_id: Seq<char>, approved: bool },
}

impl DeepView for PlanReviewAction {
    type V = PlanReviewView;

    open spec fn deep_view(&self) -> PlanReviewView {
        match self {
            PlanReviewAction::Approve => PlanReviewView::Approve,
            PlanReviewAction::Refine(s) => PlanReviewView::Refine(s@),
            PlanReviewAction::Edit(s) => PlanReviewView::Edit(s@),
            PlanReviewAction::Cancel => PlanReviewView::Cancel,
        }
    }
}

impl DeepView for KeyAction {
    type V = KeyActionView;

    open spec fn deep_view(&self) -> KeyActionView {
        match self {
            KeyAction::Ignore => KeyActionView::Ignore,
            KeyAction::Quit => KeyActionView::Quit,
            KeyAction::Cancel => KeyActionView::Cancel,
            KeyAction::Submit(s) => KeyActionView::Submit(s@),
            KeyAction::Compact(s) => KeyActionView::Compact(s.deep_view()),
            KeyAction::EnterPlan(s) => KeyActionView::EnterPlan(s@),
            KeyAction::EditTodos => KeyActionView::EditTodos,
            KeyAction::PlanReview(action) => KeyActionView::PlanReview(action.deep_view()),
            KeyAction::EditPlan => KeyActionView::EditPlan,
            KeyAction::Steer(s) => KeyActionView::Steer(s@),
            KeyAction::Btw(s) => KeyActionView::Btw(s@),
            KeyAction::Approval { call_id, approved } => KeyActionView::Approval {
                call_id: call_id@,
                approved: *approved,
            },
        }
    }
}

impl AppView {
    /// What a key of the line editor does, if it is one.
    pub open spec fn navigated(self, key: KeyEvent) -> Option<AppView> {
        let input = self.input;
        let some = key.alt || key.control;
        let typed = input.text().len() > 0;
        match key.code {
            KeyCode::Left => Some(
                self.with_cursor(
                    if some {
                        input.word_left()
                    } else {
                        input.left()
                    },
                ),
            ),
            KeyCode::Right => Some(
                self.with_cursor(
                    if some {
                        input.word_right()
                    } else {
                        input.right()
                    },
                ),
            ),
            KeyCode::Home => if key.control {
                Some(self.with_cursor(input.at_start()))
            } else if typed {
                Some(self.with_cursor(input.at_line_start()))
            } else {
                None
            },
            KeyCode::End => if key.control {
                Some(self.with_cursor(input.at_end()))
            } else if typed {
                Some(self.with_cursor(input.at_line_end()))
            } else {
                None
            },
            KeyCode::Char(c) => if c == 'b' && key.control {
                Some(self.with_cursor(input.left()))
            } else if c == 'f' && key.control {
                Some(self.with_cursor(input.right()))
            } else if c == 'b' && key.alt {
                Some(self.with_cursor(input.word_left()))
            } else if c == 'f' && key.alt {
                Some(self.with_cursor(input.word_right()))
            } else if c == 'a' && key.control {
                Some(self.with_cursor(input.at_line_start()))
            } else if c == 'e' && key.control {
                Some(self.with_cursor(input.at_line_end()))
            } else if c == 'w' && key.control {
                Some(self.without_word_left())
            } else if c == 'd' && key.alt {
                Some(self.without_word_right())
            } else {
                None
            },
            KeyCode::Backspace => if some {
                Some(self.without_word_left())
            } else {
                None
            },
            KeyCode::Delete => Some(self.with_edit(input.deleted(), input.after.len() > 0)),
            _ => None,
        }
    }

    /// Without the word before the cursor.
    pub open spec fn without_word_left(self) -> AppView {
        let rest = self.input.word_left_deleted();
        self.with_edit(rest, rest.before.len() != self.input.before.len())
    }

    /// Without the word behind the cursor.
    pub open spec fn without_word_right(self) -> AppView {
        let rest = self.input.word_right_deleted();
        self.with_edit(rest, rest.after.len() != self.input.after.len())
    }

    /// Without the grapheme before the cursor.
    pub open spec fn backspaced(self) -> AppView {
        self.with_edit(self.input.backspaced(), self.input.before.len() > 0)
    }

    /// What a key does while feedback on a plan is typed.
    pub open spec fn feedback_key(self, key: KeyEvent) -> (AppView, KeyActionView) {
        let feedback = text::trimmed(self.input.text());
        match (self.navigated(key), key.code) {
            (Some(moved), _) => (moved, KeyActionView::Ignore),
            (None, KeyCode::Enter) => if feedback.len() > 0 {
                (
                    AppView { plan_feedback: false, ..self.without_input() },
                    KeyActionView::PlanReview(PlanReviewView::Refine(feedback)),
                )
            } else {
                (self, KeyActionView::Ignore)
            },
            (None, KeyCode::Backspace) => (self.backspaced(), KeyActionView::Ignore),
            (None, KeyCode::Esc) => (
                AppView {
                    plan_feedback: false,
                    status: "Plan ready · y approve · r refine · e edit · n cancel"@,
                    ..self.without_input()
                },
                KeyActionView::Ignore,
            ),
            (None, KeyCode::Char(c)) => if key.control {
                (self, KeyActionView::Ignore)
            } else {
                (self.with_input(self.input.inserted(c)), KeyActionView::Ignore)
            },
            _ => (self, KeyActionView::Ignore),
        }
    }

    /// What a key does while a plan is reviewed.
    pub open spec fn review_key(self, key: KeyEvent) -> (AppView, KeyActionView) {
        match key.code {
            KeyCode::Char(c) => if c == 'y' || c == 'Y' {
                (self, KeyActionView::PlanReview(PlanReviewView::Approve))
            } else if c == 'r' || c == 'R' {
                (
                    AppView {
                        plan_feedback: true,
                        status: "Describe the plan changes, then press Enter"@,
                        ..self.without_input()
                    },
                    KeyActionView::Ignore,
                )
            } else if c == 'e' || c == 'E' {
                (self, KeyActionView::EditPlan)
            } else if c == 'n' || c == 'N' {
                (self, KeyActionView::PlanReview(PlanReviewView::Cancel))
            } else {
                (self, KeyActionView::Ignore)
            },
            KeyCode::Esc => (self, KeyActionView::PlanReview(PlanReviewView::Cancel)),
            _ => (self, KeyActionView::Ignore),
        }
    }

    /// What a key that scrolls does, if it is one.
    pub open spec fn scrolled(self, key: KeyEvent) -> Option<AppView> {
        match key.code {
            KeyCode::Up => Some(self.scrolled_up(1)),
            KeyCode::Down => Some(self.scrolled_down(1)),
            KeyCode::PageUp => Some(self.scrolled_up(self.page())),
            KeyCode::PageDown => Some(self.scrolled_down(self.page())),
            KeyCode::Home => Some(self.at_home()),
            KeyCode::End => Some(self.at_tail()),
            _ => None,
        }
    }

    /// What a key does while a call waits for approval and nothing is typed.
    pub open spec fn approval_key(self, key: KeyEvent) -> (AppView, KeyActionView) {
        let call_id = (self.approval->0).call_id;
        let decided = AppView { approval: None, ..self };
        match key.code {
            KeyCode::Char(c) => if c == 'y' || c == 'Y' {
                (decided, KeyActionView::Approval { call_id, approved: true })
            } else if c == 'n' || c == 'N' {
                (decided, KeyActionView::Approval { call_id, approved: false })
            } else {
                (self, KeyActionView::Ignore)
            },
            KeyCode::Esc => (decided, KeyActionView::Approval { call_id, approved: false }),
            _ => (self, KeyActionView::Ignore),
        }
    }

    /// Whether the session has nothing to do.
    pub open spec fn is_idle(self) -> bool {
        self.snapshot.phase == "idle"@ && !self.busy
    }

    /// Whether the session takes a change of direction.
    pub open spec fn takes_steer(self) -> bool {
        session::accepts_steer(self.snapshot.phase)
    }

    /// The request if it is allowed, else a status that says why not.
    pub open spec fn allowed(self, allowed: bool, action: KeyActionView, refusal: Seq<char>) -> (
        AppView,
        KeyActionView,
    ) {
        if allowed {
            (self.without_input(), action)
        } else {
            (self.without_input().with_status(refusal), KeyActionView::Ignore)
        }
    }

    /// What submitting the input does.
    pub open spec fn submitted(self) -> (AppView, KeyActionView) {
        let cleared = self.without_input();
        match slash::submission_of(self.input.text()) {
            Ok(SubmissionView::Command(SlashCommandView::Exit)) => (cleared, KeyActionView::Quit),
            Ok(SubmissionView::Command(SlashCommandView::Compact(instructions))) => self.allowed(
                self.is_idle(),
                KeyActionView::Compact(instructions),
                "Error: context can be compacted manually only while idle"@,
            ),
            Ok(SubmissionView::Command(SlashCommandView::Steer(instruction))) => self.allowed(
                self.takes_steer(),
                KeyActionView::Steer(instruction),
                "Error: no active main task to steer"@,
            ),
            Ok(SubmissionView::Command(SlashCommandView::Plan(goal))) => self.allowed(
                self.is_idle(),
                KeyActionView::EnterPlan(goal),
                "Error: plan mode can start only while idle"@,
            ),
            Ok(SubmissionView::Command(SlashCommandView::Todo)) => self.allowed(
                self.is_idle(),
                KeyActionView::EditTodos,
                "Error: todos can be edited directly only while idle"@,
            ),
            Ok(SubmissionView::Command(SlashCommandView::Btw(question))) => if self.busy
                || self.takes_steer() {
                (self, KeyActionView::Ignore)
            } else {
                (cleared, KeyActionView::Btw(question))
            },
            Ok(SubmissionView::Prompt(prompt)) => if self.takes_steer() {
                (cleared, KeyActionView::Steer(prompt))
            } else if self.busy {
                (self, KeyActionView::Ignore)
            } else {
                (cleared, KeyActionView::Submit(prompt))
            },
            Err(error) => (
                cleared.with_status(
                    "Error: "@ + match error {
                        SlashErrorView::InvalidUsage(usage) => "usage: "@ + usage,
                        SlashErrorView::Unknown(name) => "unknown slash command: /"@ + name,
                    },
                ),
                KeyActionView::Ignore,
            ),
        }
    }

    /// What a key that edits the input does.
    pub open spec fn edit_key(self, key: KeyEvent) -> (AppView, KeyActionView) {
        match key.code {
            KeyCode::Enter => if text::trimmed(self.input.text()).len() > 0 {
                self.submitted()
            } else {
                (self, KeyActionView::Ignore)
            },
            KeyCode::Tab => (self.completed(), KeyActionView::Ignore),
            KeyCode::Backspace => (self.backspaced(), KeyActionView::Ignore),
            KeyCode::Esc => (self.without_input(), KeyActionView::Ignore),
            KeyCode::Char(c) => if key.control {
                (self, KeyActionView::Ignore)
            } else {
                (self.with_input(self.input.inserted(c)), KeyActionView::Ignore)
            },
            _ => (self, KeyActionView::Ignore),
        }
    }

    /// What a key does while no plan is reviewed: it moves in the menu, edits the line, scrolls,
    /// cancels, decides about a call, closes the menu or edits the input, whichever comes first.
    pub open spec fn main_key(self, key: KeyEvent) -> (AppView, KeyActionView) {
        let input_active = self.approval is None || self.input.text().len() > 0;
        if self.approval is None && self.menu_visible() && key.code == KeyCode::Up {
            (self.menu_moved(true), KeyActionView::Ignore)
        } else if self.approval is None && self.menu_visible() && key.code == KeyCode::Down {
            (self.menu_moved(false), KeyActionView::Ignore)
        } else if input_active && self.navigated(key) is Some {
            (self.navigated(key)->0, KeyActionView::Ignore)
        } else if self.scrolled(key) is Some {
            (self.scrolled(key)->0, KeyActionView::Ignore)
        } else if self.busy && key.code == KeyCode::Esc {
            (self, KeyActionView::Cancel)
        } else if self.approval is Some && self.input.text().len() == 0 {
            self.approval_key(key)
        } else if key.code == KeyCode::Esc && self.menu_visible() {
            (self.dismissed(), KeyActionView::Ignore)
        } else {
            self.edit_key(key)
        }
    }

    /// What a key does.
    pub open spec fn after_key(self, key: KeyEvent) -> (AppView, KeyActionView) {
        if key.control && key.code == KeyCode::Char('c') {
            (self, KeyActionView::Quit)
        } else if key.control && key.code == KeyCode::Char('o') {
            (self.toggled(), KeyActionView::Ignore)
        } else if self.plan_review && self.plan_feedback {
            self.feedback_key(key)
        } else if self.plan_review {
            self.review_key(key)
        } else {
            self.main_key(key)
        }
    }
}

/// Takes a key of the line editor; says whether it was one.
pub fn handle_input_navigation(key: KeyEvent, app: &mut App) -> (r: bool)
    requires
        old(app).wf(),
    ensures
        final(app).wf(),
        r == (old(app).deep_view().navigated(key) is Some),
        final(app).deep_view() == match old(app).deep_view().navigated(key) {
            Some(moved) => moved,
            None => old(app).deep_view(),
        },
{
    proof {
        app.input.lemma_parts();
    }
    let some = key.alt || key.control;
    match key.code {
        KeyCode::Left => {
            if some {
                app.input.move_word_left();
            } else {
                app.input.move_left();
            }
        },
        KeyCode::Right => {
            if some {
                app.input.move_word_right();
            } else {
                app.input.move_right();
            }
        },
        KeyCode::Home => {
            if key.control {
                app.input.move_start();
            } else if !app.input.is_empty() {
                app.input.move_line_start();
            } else {
                return false;
            }
        },
        KeyCode::End => {
            if key.control {
                app.input.move_end();
            } else if !app.input.is_empty() {
                app.input.move_line_end();
            } else {
                return false;
            }
        },
        KeyCode::Char(c) => {
            if c == 'b' && key.control {
                app.input.move_left();
            } else if c == 'f' && key.control {
                app.input.move_right();
            } else if c == 'b' && key.alt {
                app.input.move_word_left();
            } else if c == 'f' && key.alt {
                app.input.move_word_right();
            } else if c == 'a' && key.control {
                app.input.move_line_start();
            } else if c == 'e' && key.control {
                app.input.move_line_end();
            } else if c == 'w' && key.control {
                app.delete_input_word_left();
            } else if c == 'd' && key.alt {
                app.delete_input_word_right();
            } else {
                return false;
            }
        },
        KeyCode::Backspace => {
            if some {
                app.delete_input_word_left();
            } else {
                return false;
            }
        },
        KeyCode::Delete => {
            app.delete_input_character();
        },
        _ => {
            return false;
        },
    }
    true
}

/// Takes a key while feedback on a plan is typed.
fn handle_feedback_key(key: KeyEvent, app: &mut App) -> (r: KeyAction)
    requires
        old(app).wf(),
    ensures
        final(app).wf(),
        (final(app).deep_view(), r.deep_view()) == old(app).deep_view().feedback_key(key),
{
    if handle_input_navigation(key, app) {
        return KeyAction::Ignore;
    }
    proof {
        app.input.lemma_parts();
    }
    match key.code {
        KeyCode::Enter => {
            let feedback = text::trim(app.input.as_str());
            if !feedback.as_str().is_empty() {
                app.clear_input();
                app.plan_feedback = false;
                return KeyAction::PlanReview(PlanReviewAction::Refine(feedback));
            }
        },
        KeyCode::Backspace => {
            app.pop_input_character();
        },
        KeyCode::Esc => {
            app.clear_input();
            app.plan_feedback = false;
            app.status = "Plan ready · y approve · r refine · e edit · n cancel".to_owned();
        },
        KeyCode::Char(c) => {
            if !key.control {
                app.push_input_character(c);
            }
        },
        _ => {},
    }
    KeyAction::Ignore
}

/// Takes a key while a plan is reviewed.
fn handle_review_key(key: KeyEvent, app: &mut App) -> (r: KeyAction)
    requires
        old(app).wf(),
    ensures
        final(app).wf(),
        (final(app).deep_view(), r.deep_view()) == old(app).deep_view().review_key(key),
{
    match key.code {
        KeyCode::Char(c) => {
            if c == 'y' || c == 'Y' {
                KeyAction::PlanReview(PlanReviewAction::Approve)
            } else if c == 'r' || c == 'R' {
                app.plan_feedback = true;
                app.clear_input();
                app.status = "Describe the plan changes, then press Enter".to_owned();
                KeyAction::Ignore
            } else if c == 'e' || c == 'E' {
                KeyAction::EditPlan
            } else if c == 'n' || c == 'N' {
                KeyAction::PlanReview(PlanReviewAction::Cancel)
            } else {
                KeyAction::Ignore
            }
        },
        KeyCode::Esc => KeyAction::PlanReview(PlanReviewAction::Cancel),
        _ => KeyAction::Ignore,
    }
}

/// Takes a key that scrolls; says whether it was one.
fn handle_scroll_key(key: KeyEvent, app: &mut App) -> (r: bool)
    requires
        old(app).wf(),
    ensures
        final(app).wf(),
        r == (old(app).deep_view().scrolled(key) is Some),
        final(app).deep_view() == match old(app).deep_view().scrolled(key) {
            Some(moved) => moved,
            None => old(app).deep_view(),
        },
{
    match key.code {
        KeyCode::Up => app.scroll_up(1),
        KeyCode::Down => app.scroll_down(1),
        KeyCode::PageUp => app.page_up(),
        KeyCode::PageDown => app.page_down(),
        KeyCode::Home => app.scroll_home(),
        KeyCode::End => app.scroll_end(),
        _ => {
            return false;
        },
    }
    true
}

/// Takes a key while a call waits for approval and nothing is typed.
fn handle_approval_key(key: KeyEvent, app: &mut App) -> (r: KeyAction)
    requires
        old(app).wf(),
        old(app).approval is Some,
    ensures
        final(app).wf(),
        (final(app).deep_view(), r.deep_view()) == old(app).deep_view().approval_key(key),
{
    let approved = match key.code {
        KeyCode::Char(c) => {
            if c == 'y' || c == 'Y' {
                true
            } else if c == 'n' || c == 'N' {
                false
            } else {
                return KeyAction::Ignore;
            }
        },
        KeyCode::Esc => false,
        _ => {
            return KeyAction::Ignore;
        },
    };
    match app.approval.take() {
        Some(call) => KeyAction::Approval { call_id: call.call_id, approved },
        None => KeyAction::Ignore,
    }
}

/// Whether the session has nothing to do.
fn is_idle(app: &App) -> (r: bool)
    ensures
        r == app.deep_view().is_idle(),
{
    text::str_eq(app.snapshot.phase.as_str(), "idle") && !app.busy
}

/// Submits the input.
fn submit_input(app: &mut App) -> (r: KeyAction)
    requires
        old(app).wf(),
    ensures
        final(app).wf(),
        (final(app).deep_view(), r.deep_view()) == old(app).deep_view().submitted(),
{
    proof {
        app.input.lemma_parts();
    }
    let idle = is_idle(app);
    let takes_steer = session::snapshot_accepts_steer(&app.snapshot);
    let parsed = slash::parse_submission(app.input.as_str().to_owned());
    let (allowed, action, refusal) = match parsed {
        Ok(UserSubmission::Command(SlashCommand::Exit)) => (true, KeyAction::Quit, String::new()),
        Ok(UserSubmission::Command(SlashCommand::Compact(instructions))) => (
            idle,
            KeyAction::Compact(instructions),
            "Error: context can be compacted manually only while idle".to_owned(),
        ),
        Ok(UserSubmission::Command(SlashCommand::Steer(instruction))) => (
            takes_steer,
            KeyAction::Steer(instruction),
            "Error: no active main task to steer".to_owned(),
        ),
        Ok(UserSubmission::Command(SlashCommand::Plan(goal))) => (
            idle,
            KeyAction::EnterPlan(goal),
            "Error: plan mode can start only while idle".to_owned(),
        ),
        Ok(UserSubmission::Command(SlashCommand::Todo)) => (
            idle,
            KeyAction::EditTodos,
            "Error: todos can be edited directly only while idle".to_owned(),
        ),
        Ok(UserSubmission::Command(SlashCommand::Btw(question))) => {
            if app.busy || takes_steer {
                return KeyAction::Ignore;
            }
            (true, KeyAction::Btw(question), String::new())
        },
        Ok(UserSubmission::Prompt(prompt)) => {
            if takes_steer {
                (true, KeyAction::Steer(prompt), String::new())
            } else if app.busy {
                return KeyAction::Ignore;
            } else {
                (true, KeyAction::Submit(prompt), String::new())
            }
        },
        Err(error) => {
            (false, KeyAction::Ignore, text::cat("Error: ", error.message().as_str()))
        },
    };
    app.clear_input();
    if allowed {
        action
    } else {
        app.status = refusal;
        KeyAction::Ignore
    }
}

/// Takes a key that edits the input.
fn handle_edit_key(key: KeyEvent, app: &mut App) -> (r: KeyAction)
    requires
        old(app).wf(),
    ensures
        final(app).wf(),
        (final(app).deep_view(), r.deep_view()) == old(app).deep_view().edit_key(key),
{
    proof {
        app.input.lemma_parts();
    }
    match key.code {
        KeyCode::Enter => {
            if !text::trim(app.input.as_str()).as_str().is_empty() {
                return submit_input(app);
            }
        },
        KeyCode::Tab => {
            app.complete_selected_slash_command();
        },
        KeyCode::Backspace => {
            app.pop_input_character();
        },
        KeyCode::Esc => {
            app.clear_input();
        },
        KeyCode::Char(c) => {
            if !key.control {
                app.push_input_character(c);
            }
        },
        _ => {},
    }
    KeyAction::Ignore
}

/// Takes a key while no plan is reviewed.
fn handle_main_key(key: KeyEvent, app: &mut App) -> (r: KeyAction)
    requires
        old(app).wf(),
    ensures
        final(app).wf(),
        (final(app).deep_view(), r.deep_view()) == old(app).deep_view().main_key(key),
{
    proof {
        app.input.lemma_parts();
    }
    if app.approval.is_none() {
        if key.code == KeyCode::Up && app.move_slash_selection(true) {
            return KeyAction::Ignore;
        }
        if key.code == KeyCode::Down && app.move_slash_selection(false) {
            return KeyAction::Ignore;
        }
    }
    let typed = !app.input.is_empty();
    proof {
        app.input.lemma_parts();
    }
    if (app.approval.is_none() || typed) && handle_input_navigation(key, app) {
        return KeyAction::Ignore;
    }
    if handle_scroll_key(key, app) {
        return KeyAction::Ignore;
    }
    if app.busy && key.code == KeyCode::Esc {
        return KeyAction::Cancel;
    }
    if app.approval.is_some() && !typed {
        return handle_approval_key(key, app);
    }
    if key.code == KeyCode::Esc && app.dismiss_slash_menu() {
        return KeyAction::Ignore;
    }
    handle_edit_key(key, app)
}

/// Takes a key.
pub fn handle_key(key: KeyEvent, app: &mut App) -> (r: KeyAction)
    requires
        old(app).wf(),
    ensures
        final(app).wf(),
        (final(app).deep_view(), r.deep_view()) == old(app).deep_view().after_key(key),
{
    if key.control && key.code == KeyCode::Char('c') {
        return KeyAction::Quit;
    }
    if key.control && key.code == KeyCode::Char('o') {
        app.toggle_transcript_details();
        return KeyAction::Ignore;
    }
    if app.plan_review {
        if app.plan_feedback {
            handle_feedback_key(key, app)
        } else {
            handle_review_key(key, app)
        }
    } else {
        handle_main_key(key, app)
    }
}

} // verus!
