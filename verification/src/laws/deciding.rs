//! What the keys of a person come to.
use crate::app::AppView;
use crate::keys::{KeyActionView, KeyCode, KeyEvent, PlanReviewView};
use crate::slash::{SlashCommandView, SlashErrorView, SubmissionView};
use vstd::prelude::*;

verus! {

/// Whether nothing is typed.
pub open spec fn nothing_typed(app: AppView) -> bool {
    app.input.before.len() == 0 && app.input.after.len() == 0
}

/// Whether a key says yes.
pub open spec fn says_yes(key: KeyEvent) -> bool {
    key.code == KeyCode::Char('y') || key.code == KeyCode::Char('Y')
}

/// Whether a key says no.
pub open spec fn says_no(key: KeyEvent) -> bool {
    key.code == KeyCode::Char('n') || key.code == KeyCode::Char('N') || key.code == KeyCode::Esc
}

/// Whether the task of a session is at work, so that it can be given another direction.
pub open spec fn at_work(app: AppView) -> bool {
    let phase = app.snapshot.phase;
    phase == "waiting_model"@ || phase == "waiting_approval"@ || phase == "waiting_tool"@
}

/// A key decides for a call only if it is y or Y, and against it only if it is n, N or Esc. The
/// call it decides about is the one shown, which is shown no longer.
pub proof fn law_only_yes_decides_for(app: AppView, key: KeyEvent)
    ensures
        app.after_key(key).1 matches KeyActionView::Approval { call_id, approved } ==> {
            &&& approved ==> says_yes(key)
            &&& !approved ==> says_no(key)
            &&& app.approval matches Some(call) && call.call_id == call_id
            &&& app.after_key(key).0 == (AppView { approval: None, ..app })
            &&& nothing_typed(app)
        },
{
}

/// While a call waits for approval and nothing is typed, y and Y decide for it; n and N decide
/// against it, and so does Esc where no action is at work; no other key decides anything.
pub proof fn law_approval_is_decided(app: AppView, key: KeyEvent)
    requires
        app.approval is Some,
        nothing_typed(app),
        !app.plan_review,
    ensures
        ({
            let (next, action) = app.after_key(key);
            let call_id = (app.approval->0).call_id;
            &&& says_yes(key) ==> action == (KeyActionView::Approval { call_id, approved: true })
            &&& says_no(key) && !(app.busy && key.code == KeyCode::Esc) ==> action == (
            KeyActionView::Approval { call_id, approved: false })
            &&& app.busy && key.code == KeyCode::Esc ==> action == KeyActionView::Cancel && next
                == app
            &&& !says_yes(key) && !says_no(key) ==> next.approval == app.approval && next.input
                == app.input && (action == KeyActionView::Ignore || (action
                == KeyActionView::Quit && key.control && key.code == KeyCode::Char('c')))
        }),
{
}

/// While a plan waits for review and no feedback is typed, y approves it, n and Esc cancel it, e
/// has it edited, and r asks for feedback. No other key decides anything.
pub proof fn law_plan_is_decided(app: AppView, key: KeyEvent)
    requires
        app.plan_review,
        !app.plan_feedback,
        !key.control,
    ensures
        ({
            let (next, action) = app.after_key(key);
            let refine = key.code == KeyCode::Char('r') || key.code == KeyCode::Char('R');
            let edit = key.code == KeyCode::Char('e') || key.code == KeyCode::Char('E');
            &&& says_yes(key) <==> action == KeyActionView::PlanReview(PlanReviewView::Approve)
            &&& says_no(key) <==> action == KeyActionView::PlanReview(PlanReviewView::Cancel)
            &&& edit <==> action == KeyActionView::EditPlan
            &&& refine <==> next.plan_feedback
            &&& refine ==> action == KeyActionView::Ignore && nothing_typed(next)
                && next.plan_review && next.status
                == "Describe the plan changes, then press Enter"@
            &&& !refine ==> next == app
            &&& !says_yes(key) && !says_no(key) && !edit ==> action == KeyActionView::Ignore
        }),
{
}

/// A plan is approved only by y or Y, cancelled only by n, N or Esc, and refined only by Enter
/// behind feedback, always while it waits for review.
pub proof fn law_plan_decisions(app: AppView, key: KeyEvent)
    ensures
        app.after_key(key).1 matches KeyActionView::PlanReview(decision) ==> {
            &&& app.plan_review
            &&& decision == PlanReviewView::Approve ==> says_yes(key) && !app.plan_feedback
            &&& decision == PlanReviewView::Cancel ==> says_no(key) && !app.plan_feedback
            &&& decision is Refine ==> key.code == KeyCode::Enter && app.plan_feedback
            &&& !(decision is Edit)
        },
        app.after_key(key).1 == KeyActionView::EditPlan ==> app.plan_review && (key.code
            == KeyCode::Char('e') || key.code == KeyCode::Char('E')),
{
}

/// While feedback on a plan is typed, Enter sends it, and Esc leaves the review as it was.
pub proof fn law_feedback_is_sent(app: AppView, key: KeyEvent)
    requires
        app.plan_review,
        app.plan_feedback,
    ensures
        ({
            let (next, action) = app.after_key(key);
            let feedback = crate::text::trimmed(app.input.before + app.input.after);
            &&& key.code == KeyCode::Enter && feedback.len() > 0 ==> action
                == KeyActionView::PlanReview(PlanReviewView::Refine(feedback)) && nothing_typed(
                next,
            ) && !next.plan_feedback
            &&& key.code == KeyCode::Enter && feedback.len() == 0 ==> action
                == KeyActionView::Ignore && next == app
            &&& key.code == KeyCode::Esc ==> action == KeyActionView::Ignore && next.plan_review
                && !next.plan_feedback && nothing_typed(next) && next.status
                == "Plan ready · y approve · r refine · e edit · n cancel"@
        }),
{
}

/// A letter typed without control or alt stands at the cursor, between what stood before it and
/// what stood behind it; it asks for nothing.
pub proof fn law_letters_are_typed(app: AppView, key: KeyEvent, c: char)
    requires
        key.code == KeyCode::Char(c),
        !key.control,
        !key.alt,
        app.plan_review ==> app.plan_feedback,
        !app.plan_review ==> app.approval is None || !nothing_typed(app),
    ensures
        ({
            let (next, action) = app.after_key(key);
            &&& next.input.before == app.input.before.push(c)
            &&& next.input.after == app.input.after
            &&& action == KeyActionView::Ignore
            &&& next == (AppView {
                input: next.input,
                slash_selection: 0,
                slash_menu_dismissed: false,
                ..app
            })
        }),
{
}

/// Control-C quits whatever else goes on, and control-O folds or unfolds the transcript.
pub proof fn law_control_keys(app: AppView, key: KeyEvent)
    requires
        key.control,
    ensures
        ({
            let (next, action) = app.after_key(key);
            &&& key.code == KeyCode::Char('c') ==> action == KeyActionView::Quit && next == app
            &&& key.code == KeyCode::Char('o') ==> {
                &&& action == KeyActionView::Ignore
                &&& next.transcript_details_expanded == !app.transcript_details_expanded
                &&& next.transcript_layout is None
                &&& next.text_selection is None
                &&& next.input == app.input && next.snapshot == app.snapshot
                &&& next.approval == app.approval && next.plan_review == app.plan_review
                &&& next.busy == app.busy && next.status == app.status
            }
        }),
{
}

proof fn lemma_slash(typed: Seq<char>)
    ensures
        "/"@.len() == 1 && "/"@[0] == '/',
        "//"@.len() == 2 && "//"@[0] == '/' && "//"@[1] == '/',
        crate::text::starts_with(typed, "/"@) <==> typed.len() > 0 && typed[0] == '/',
        crate::text::starts_with(typed, "//"@) <==> typed.len() > 1 && typed[0] == '/' && typed[1]
            == '/',
{
    reveal_strlit("//");
    reveal_strlit("/");
    if typed.len() > 0 {
        assert(typed.subrange(0, 1)[0] == typed[0]);
        assert(typed[0] == '/' ==> typed.subrange(0, 1) =~= "/"@);
    }
    if typed.len() > 1 {
        assert(typed.subrange(0, 2)[0] == typed[0]);
        assert(typed.subrange(0, 2)[1] == typed[1]);
        assert(typed[0] == '/' && typed[1] == '/' ==> typed.subrange(0, 2) =~= "//"@);
    }
}

/// What is submitted, told or asked is what was typed, and it leaves the input; and only Enter
/// does that.
pub proof fn law_enter_sends_what_was_typed(app: AppView, key: KeyEvent)
    requires
        !app.plan_review,
    ensures
        ({
            let (next, action) = app.after_key(key);
            let typed = app.input.before + app.input.after;
            &&& action matches KeyActionView::Submit(prompt) ==> {
                &&& key.code == KeyCode::Enter && !app.busy && !at_work(app) && nothing_typed(next)
                &&& typed.len() > 0 && typed[0] == '/' ==> prompt == typed.skip(1) && prompt[0]
                    == '/'
                &&& typed.len() > 0 && typed[0] != '/' ==> prompt == typed
            }
            &&& action is Compact || action is EnterPlan || action is EditTodos ==> key.code
                == KeyCode::Enter && typed[0] == '/' && !app.busy && app.snapshot.phase
                == "idle"@ && nothing_typed(next)
            &&& action is Steer ==> key.code == KeyCode::Enter && at_work(app) && nothing_typed(
                next,
            )
            &&& action is Btw ==> key.code == KeyCode::Enter && typed[0] == '/' && !app.busy
                && !at_work(app) && nothing_typed(next)
            &&& action == KeyActionView::Cancel ==> key.code == KeyCode::Esc && app.busy
        }),
{
    let typed = app.input.before + app.input.after;
    lemma_slash(typed);
    if crate::text::starts_with(typed, "//"@) {
        assert("/"@ + typed.subrange(2, typed.len() as int) =~= typed.skip(1));
    }
}

/// A prompt that is not blank and does not begin with a slash is submitted whole by Enter where
/// nothing goes on, becomes a change of direction where a task is at work, and otherwise stays
/// in the input.
pub proof fn law_prompts_are_submitted(app: AppView, key: KeyEvent)
    requires
        !app.plan_review,
        key.code == KeyCode::Enter,
        crate::text::trimmed(app.input.before + app.input.after).len() > 0,
        (app.input.before + app.input.after).len() > 0,
        (app.input.before + app.input.after)[0] != '/',
    ensures
        ({
            let (next, action) = app.after_key(key);
            let typed = app.input.before + app.input.after;
            &&& at_work(app) ==> action == KeyActionView::Steer(typed) && nothing_typed(next)
            &&& !at_work(app) && !app.busy ==> action == KeyActionView::Submit(typed)
                && nothing_typed(next)
            &&& !at_work(app) && app.busy ==> action == KeyActionView::Ignore && next == app
            &&& next.snapshot == app.snapshot && next.approval == app.approval && next.busy
                == app.busy && next.local_entries == app.local_entries
        }),
{
    lemma_slash(app.input.before + app.input.after);
}

/// No key changes the conversation, what was said beside it, or the tool at work.
pub proof fn law_keys_keep_the_conversation(app: AppView, key: KeyEvent)
    ensures
        ({
            let next = app.after_key(key).0;
            &&& next.snapshot == app.snapshot
            &&& next.local_entries == app.local_entries
            &&& next.live_tool == app.live_tool
            &&& next.busy == app.busy
            &&& next.plan_review == app.plan_review
            &&& next.approval is Some ==> next.approval == app.approval
        }),
{
}

/// The keys of the cursor scroll where no menu is open: Up and Down by a row, the page keys by a
/// page less a row, End to the tail and Home to the beginning where nothing is typed.
pub proof fn law_keys_scroll(app: AppView, key: KeyEvent)
    requires
        !app.plan_review,
        !key.control,
        !key.alt,
        nothing_typed(app),
    ensures
        ({
            let (next, action) = app.after_key(key);
            let at: int = if app.follow_tail {
                app.max_scroll as int
            } else {
                app.scroll_offset as int
            };
            let page: int = if app.page_rows > 2 {
                app.page_rows - 1
            } else {
                1
            };
            &&& key.code == KeyCode::PageUp && app.max_scroll > 0 ==> !next.follow_tail
                && next.scroll_offset == (if at > page {
                at - page
            } else {
                0
            })
            &&& key.code == KeyCode::PageDown && at + page <= usize::MAX ==> next.scroll_offset == (
            if at + page < app.max_scroll {
                at + page
            } else {
                app.max_scroll as int
            }) && next.follow_tail == (at + page >= app.max_scroll)
            &&& key.code == KeyCode::Home ==> next.scroll_offset == 0 && next.follow_tail == (
            app.max_scroll == 0)
            &&& key.code == KeyCode::End ==> next.scroll_offset == app.max_scroll
                && next.follow_tail
            &&& key.code == KeyCode::Up && app.max_scroll > 0 && app.candidates().len() == 0
                ==> !next.follow_tail && next.scroll_offset == (if at > 1 {
                at - 1
            } else {
                0
            })
            &&& key.code == KeyCode::Down && at + 1 <= usize::MAX && app.candidates().len() == 0
                ==> next.scroll_offset == (if at + 1 < app.max_scroll {
                at + 1
            } else {
                app.max_scroll as int
            }) && next.follow_tail == (at + 1 >= app.max_scroll)
        }),
{
}

/// A command that was typed is carried out when Enter is pressed: its words go with it, and it is
/// refused, with the reason, where the session is at something that it does not fit.
pub proof fn law_commands_are_carried_out(
    app: AppView,
    key: KeyEvent,
    words: Seq<char>,
    instructions: Option<Seq<char>>,
)
    requires
        !app.plan_review,
        key.code == KeyCode::Enter,
        !nothing_typed(app),
        crate::text::trimmed(app.input.before + app.input.after).len() > 0,
    ensures
        ({
            let (next, action) = app.after_key(key);
            let asked = crate::slash::submission_of(app.input.before + app.input.after);
            let idle = app.snapshot.phase == "idle"@ && !app.busy;
            &&& asked == commanded(SlashCommandView::Exit) ==> action == KeyActionView::Quit
            &&& asked == commanded(SlashCommandView::Plan(words)) ==> (if idle {
                action == KeyActionView::EnterPlan(words)
            } else {
                action == KeyActionView::Ignore && next.status
                    == "Error: plan mode can start only while idle"@
            })
            &&& asked == commanded(SlashCommandView::Compact(instructions)) ==> (if idle {
                action == KeyActionView::Compact(instructions)
            } else {
                action == KeyActionView::Ignore && next.status
                    == "Error: context can be compacted manually only while idle"@
            })
            &&& asked == commanded(SlashCommandView::Todo) ==> (if idle {
                action == KeyActionView::EditTodos
            } else {
                action == KeyActionView::Ignore && next.status
                    == "Error: todos can be edited directly only while idle"@
            })
            &&& asked == commanded(SlashCommandView::Steer(words)) ==> (if at_work(app) {
                action == KeyActionView::Steer(words)
            } else {
                action == KeyActionView::Ignore && next.status
                    == "Error: no active main task to steer"@
            })
            &&& asked == commanded(SlashCommandView::Btw(words)) ==> (if app.busy || at_work(app) {
                action == KeyActionView::Ignore && next == app
            } else {
                action == KeyActionView::Btw(words)
            })
            &&& asked matches Err(SlashErrorView::Unknown(name)) ==> action
                == KeyActionView::Ignore && next.status == "Error: "@ + (
            "unknown slash command: /"@ + name)
            &&& asked matches Err(SlashErrorView::InvalidUsage(usage)) ==> action
                == KeyActionView::Ignore && next.status == "Error: "@ + ("usage: "@ + usage)
        }),
{
}

/// What a command that was typed is taken for.
pub open spec fn commanded(command: SlashCommandView) -> Result<SubmissionView, SlashErrorView> {
    Ok(SubmissionView::Command(command))
}

/// A person quits only by control-C or the command for it.
pub proof fn law_quitting(app: AppView, key: KeyEvent)
    ensures
        app.after_key(key).1 == KeyActionView::Quit ==> (key.control && key.code == KeyCode::Char(
            'c',
        )) || (key.code == KeyCode::Enter && crate::slash::submission_of(
            app.input.before + app.input.after,
        ) == commanded(SlashCommandView::Exit)),
{
}

/// Where no action is at work and no menu is open, Esc clears the input; Enter on a blank input
/// does nothing.
pub proof fn law_clearing_and_blank_inputs(app: AppView, key: KeyEvent)
    requires
        !app.plan_review,
        app.approval is None || !nothing_typed(app),
    ensures
        ({
            let (next, action) = app.after_key(key);
            &&& key.code == KeyCode::Esc && !app.busy && app.candidates().len() == 0
                ==> nothing_typed(next) && action == KeyActionView::Ignore && next.snapshot
                == app.snapshot
            &&& key.code == KeyCode::Enter && crate::text::trimmed(
                app.input.before + app.input.after,
            ).len() == 0 ==> next == app && action == KeyActionView::Ignore
            &&& key.code == KeyCode::Other ==> next == app && action == KeyActionView::Ignore
        }),
{
}

} // verus!
