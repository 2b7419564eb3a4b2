//! The state of the terminal application and how it answers the mouse and the scroll keys.
use crate::input::{sat_add, InputBuffer, InputView};
use crate::protocol::{ToolOutputStream, ToolProgress};
use crate::selection::{
    ClickTracker, MouseAction, MouseActionView, SelectionPoint, SelectionRegion, TextSelection,
    MULTI_CLICK_INTERVAL,
};
use crate::session::{CoreSnapshot, CoreToolCall, SnapshotView, ToolCallView};
use crate::style::{Line, LineView, Style};
use crate::transcript::{
    LiveToolOutput, LiveToolView, LocalEntryView, LocalTranscriptEntry,
};
use crate::{selection, session, slash, style, text, transcript, unicode};
use base64::engine::general_purpose::STANDARD;
use base64::Engine;
use vstd::math::{max, min};
use vstd::prelude::*;
use vstd::string::*;

verus! {

/// The lines of the transcript as they were last laid out.
#[derive(Debug, PartialEq, Eq)]
pub struct TranscriptLayoutCache {
    pub revision: u64,
    pub width: u16,
    pub lines: Vec<Line>,
}

/// What such a layout holds.
#[verifier::ext_equal]
pub struct LayoutCacheView {
    pub revision: u64,
    pub width: u16,
    pub lines: Seq<LineView>,
}

impl DeepView for TranscriptLayoutCache {
    type V = LayoutCacheView;

    open spec fn deep_view(&self) -> LayoutCacheView {
        LayoutCacheView {
            revision: self.revision,
            width: self.width,
            lines: self.lines.deep_view(),
        }
    }
}

/// The state of the application.
#[derive(Debug, PartialEq, Eq)]
pub struct App {
    pub input: InputBuffer,
    pub slash_selection: usize,
    pub slash_menu_dismissed: bool,
    pub status: String,
    pub snapshot: CoreSnapshot,
    pub approval: Option<CoreToolCall>,
    pub plan_review: bool,
    pub plan_feedback: bool,
    pub busy: bool,
    pub scroll_offset: usize,
    pub max_scroll: usize,
    pub page_rows: usize,
    pub follow_tail: bool,
    pub selection_region: Option<SelectionRegion>,
    pub selection_lines: Vec<String>,
    pub text_selection: Option<TextSelection>,
    pub last_click: Option<ClickTracker>,
    pub pending_click_selection: bool,
    pub transcript_revision: u64,
    pub transcript_details_expanded: bool,
    pub transcript_layout: Option<TranscriptLayoutCache>,
    pub local_entries: Vec<LocalTranscriptEntry>,
    pub live_tool: Option<LiveToolOutput>,
}

/// What the state of the application says.
#[verifier::ext_equal]
pub struct AppView {
    pub input: InputView,
    pub slash_selection: usize,
    pub slash_menu_dismissed: bool,
    pub status: Seq<char>,
    pub snapshot: SnapshotView,
    pub approval: Option<ToolCallView>,
    pub plan_review: bool,
    pub plan_feedback: bool,
    pub busy: bool,
    pub scroll_offset: usize,
    pub max_scroll: usize,
    pub page_rows: usize,
    pub follow_tail: bool,
    pub selection_region: Option<SelectionRegion>,
    pub selection_lines: Seq<Seq<char>>,
    pub text_selection: Option<TextSelection>,
    pub last_click: Option<ClickTracker>,
    pub pending_click_selection: bool,
    pub transcript_revision: u64,
    pub transcript_details_expanded: bool,
    pub transcript_layout: Option<LayoutCacheView>,
    pub local_entries: Seq<LocalEntryView>,
    pub live_tool: Option<LiveToolView>,
}

impl DeepView for App {
    type V = AppView;

    open spec fn deep_view(&self) -> AppView {
        AppView {
            input: self.input.deep_view(),
            slash_selection: self.slash_selection,
            slash_menu_dismissed: self.slash_menu_dismissed,
            status: self.status@,
            snapshot: self.snapshot.deep_view(),
            approval: self.approval.deep_view(),
            plan_review: self.plan_review,
            plan_feedback: self.plan_feedback,
            busy: self.busy,
            scroll_offset: self.scroll_offset,
            max_scroll: self.max_scroll,
            page_rows: self.page_rows,
            follow_tail: self.follow_tail,
            selection_region: self.selection_region,
            selection_lines: self.selection_lines.deep_view(),
            text_selection: self.text_selection,
            last_click: self.last_click,
            pending_click_selection: self.pending_click_selection,
            transcript_revision: self.transcript_revision,
            transcript_details_expanded: self.transcript_details_expanded,
            transcript_layout: self.transcript_layout.deep_view(),
            local_entries: self.local_entries.deep_view(),
            live_tool: self.live_tool.deep_view(),
        }
    }
}

/// The mouse: which button did what.
#[derive(Clone, Copy, Debug, PartialEq, Eq, Structural)]
pub enum MouseEventKind {
    ScrollUp,
    ScrollDown,
    LeftDown,
    LeftDrag,
    LeftUp,
    Other,
}

/// A mouse event at a cell of the screen.
#[derive(Clone, Copy, Debug, PartialEq, Eq, Structural)]
pub struct MouseEvent {
    pub kind: MouseEventKind,
    pub column: u16,
    pub row: u16,
    pub control: bool,
}

/// The bytes that a text stands for in standard Base64, if it is any.
pub uninterp spec fn base64_bytes(s: Seq<char>) -> Option<Seq<u8>>;

/// The error of `base64` on a text that is no Base64.
#[verifier::external_type_specification]
#[verifier::external_body]
pub struct ExDecodeError(base64::DecodeError);

/// `Engine::decode` of `base64` with the standard alphabet and padding.
#[verifier::external_body]
pub(crate) fn decode_base64(s: &str) -> (r: Result<Vec<u8>, base64::DecodeError>)
    ensures
        r is Ok <==> base64_bytes(s@) is Some,
        r matches Ok(bytes) ==> base64_bytes(s@) == Some(bytes@),
{
    STANDARD.decode(s)
}

/// Why a piece of a tool's output was not taken.
#[derive(Debug, PartialEq, Eq)]
pub enum ProgressError {
    Encoding(base64::DecodeError),
}

/// The text of a span on the screen: its lines one behind the other.
pub open spec fn span_text(content: Seq<char>) -> Seq<char> {
    unicode::concatenated(text::lines_of(content))
}

/// The text of a span on the screen.
fn one_span_text(content: &str) -> (r: String)
    ensures
        r@ == span_text(content@),
{
    let lines = text::lines(content);
    let ghost all = lines.deep_view();
    let mut out = String::new();
    let mut i: usize = 0;
    while i < lines.len()
        invariant
            all == lines.deep_view(),
            i <= lines@.len(),
            out@ == unicode::concatenated(all.take(i as int)),
        decreases lines@.len() - i,
    {
        assert(all.take(i + 1).drop_last() =~= all.take(i as int));
        assert(all[i as int] == lines@[i as int]@);
        out.append(lines[i].as_str());
        i += 1;
    }
    assert(all.take(i as int) =~= all);
    out
}

/// The text of a line on the screen.
pub open spec fn line_text(spans: Seq<style::SpanView>) -> Seq<char>
    decreases spans.len(),
{
    if spans.len() == 0 {
        Seq::empty()
    } else {
        line_text(spans.drop_last()) + span_text(spans.last().content)
    }
}

/// A new application.
pub open spec fn new_app(snapshot: SnapshotView) -> AppView {
    AppView {
        input: InputView::ending(Seq::empty()),
        slash_selection: 0,
        slash_menu_dismissed: false,
        status: "Ready"@,
        snapshot,
        approval: None,
        plan_review: false,
        plan_feedback: false,
        busy: false,
        scroll_offset: 0,
        max_scroll: 0,
        page_rows: 1,
        follow_tail: true,
        selection_region: None,
        selection_lines: Seq::empty(),
        text_selection: None,
        last_click: None,
        pending_click_selection: false,
        transcript_revision: 0,
        transcript_details_expanded: false,
        transcript_layout: None,
        local_entries: Seq::empty(),
        live_tool: None,
    }
}

impl AppView {
    /// The commands the input can be completed to.
    pub open spec fn candidates(self) -> Seq<slash::SlashSpecView> {
        slash::candidates_of(self.input.text())
    }

    /// Whether the menu of commands is shown.
    pub open spec fn menu_visible(self) -> bool {
        !self.plan_review && !self.plan_feedback && !self.slash_menu_dismissed
            && self.candidates().len() > 0
    }

    /// With a changed input, whose menu begins anew.
    pub open spec fn with_input(self, input: InputView) -> AppView {
        AppView { input, slash_selection: 0, slash_menu_dismissed: false, ..self }
    }

    /// With another cursor in the same input.
    pub open spec fn with_cursor(self, input: InputView) -> AppView {
        AppView { input, ..self }
    }

    /// With the input changed if `changed`.
    pub open spec fn with_edit(self, input: InputView, changed: bool) -> AppView {
        if changed {
            self.with_input(input)
        } else {
            self
        }
    }

    /// Without an input.
    pub open spec fn without_input(self) -> AppView {
        self.with_input(InputView::ending(Seq::empty()))
    }

    /// With another status.
    pub open spec fn with_status(self, status: Seq<char>) -> AppView {
        AppView { status, ..self }
    }

    /// Without a selected text.
    pub open spec fn unselected(self) -> AppView {
        AppView { text_selection: None, pending_click_selection: false, ..self }
    }

    /// With the transcript to be laid out anew.
    pub open spec fn relaid(self) -> AppView {
        AppView {
            transcript_revision: ((self.transcript_revision + 1) % 0x1_0000_0000_0000_0000) as u64,
            transcript_layout: None,
            ..self.unselected()
        }
    }

    /// With the next or the previous command of the menu selected, round and round.
    pub open spec fn menu_moved(self, previous: bool) -> AppView {
        let count = self.candidates().len() as int;
        let selected = self.slash_selection as int;
        AppView {
            slash_selection: if previous {
                if selected == 0 {
                    (count - 1) as usize
                } else {
                    (selected - 1) as usize
                }
            } else {
                ((selected + 1) % count) as usize
            },
            ..self
        }
    }

    /// With the selected command typed, and a space where it takes arguments.
    pub open spec fn completed(self) -> AppView {
        if self.slash_selection < self.candidates().len() {
            let entry = self.candidates()[self.slash_selection as int];
            let typed = "/"@ + entry.name;
            AppView {
                input: InputView::ending(
                    if entry.takes_arguments {
                        typed.push(' ')
                    } else {
                        typed
                    },
                ),
                slash_selection: 0,
                slash_menu_dismissed: true,
                ..self
            }
        } else {
            self
        }
    }

    /// With the menu closed.
    pub open spec fn dismissed(self) -> AppView {
        AppView { slash_selection: 0, slash_menu_dismissed: true, ..self }
    }

    /// With details shown or hidden.
    pub open spec fn toggled(self) -> AppView {
        AppView { transcript_details_expanded: !self.transcript_details_expanded, ..self }.relaid()
    }

    /// The row that is the first one shown now.
    pub open spec fn current_row(self) -> int {
        if self.follow_tail {
            self.max_scroll as int
        } else {
            self.scroll_offset as int
        }
    }

    /// Scrolled up.
    pub open spec fn scrolled_up(self, rows: int) -> AppView {
        if self.max_scroll == 0 {
            self
        } else {
            AppView {
                scroll_offset: max(0, self.current_row() - max(rows, 1)) as usize,
                follow_tail: false,
                ..self.unselected()
            }
        }
    }

    /// Scrolled down; at the end the transcript follows its tail.
    pub open spec fn scrolled_down(self, rows: int) -> AppView {
        let offset = min(
            sat_add(self.current_row(), max(rows, 1)),
            self.max_scroll as int,
        );
        AppView {
            scroll_offset: offset as usize,
            follow_tail: offset == self.max_scroll,
            ..self.unselected()
        }
    }

    /// The rows of a page: those shown but for one, at least one.
    pub open spec fn page(self) -> int {
        max(self.page_rows - 1, 1)
    }

    /// At the first row.
    pub open spec fn at_home(self) -> AppView {
        AppView {
            scroll_offset: 0,
            follow_tail: self.max_scroll == 0,
            ..self.unselected()
        }
    }

    /// At the last row.
    pub open spec fn at_tail(self) -> AppView {
        AppView { scroll_offset: self.max_scroll, follow_tail: true, ..self.unselected() }
    }

    /// Scrolled by a number of rows, up where it is negative.
    pub open spec fn scrolled_by(self, delta: int) -> AppView {
        if delta < 0 {
            self.scrolled_up(-delta)
        } else if delta > 0 {
            self.scrolled_down(delta)
        } else {
            self
        }
    }

    /// Whether two states of the session show the same transcript, as far as is looked at: the
    /// number of messages and the last one.
    pub open spec fn same_transcript(self, snapshot: SnapshotView) -> bool {
        let mine = self.snapshot.messages;
        let other = snapshot.messages;
        mine.len() == other.len() && (mine.len() > 0 ==> session::messages_agree(
            mine.last(),
            other.last(),
        ))
    }

    /// With another state of the session.
    pub open spec fn with_snapshot(self, snapshot: SnapshotView) -> AppView {
        let held = AppView { snapshot, ..self };
        if self.same_transcript(snapshot) {
            held
        } else {
            held.relaid()
        }
    }

    /// With a running tool that has written these bytes.
    pub open spec fn with_progress(
        self,
        call_id: Seq<char>,
        stream: ToolOutputStream,
        bytes: Seq<u8>,
    ) -> AppView {
        let fresh = LiveToolView {
            call_id,
            label: "tool"@,
            stdout: Seq::empty(),
            stderr: Seq::empty(),
        };
        let live = match self.live_tool {
            Some(live) => if live.call_id == call_id {
                live
            } else {
                fresh
            },
            None => fresh,
        };
        let grown = match stream {
            ToolOutputStream::Stdout => LiveToolView {
                stdout: transcript::kept_output(live.stdout + bytes),
                ..live
            },
            ToolOutputStream::Stderr => LiveToolView {
                stderr: transcript::kept_output(live.stderr + bytes),
                ..live
            },
        };
        AppView { live_tool: Some(grown), ..self.unselected() }
    }

    /// Without the running tool of this call.
    pub open spec fn with_tool_finished(self, call_id: Seq<char>) -> AppView {
        match self.live_tool {
            Some(live) => if live.call_id == call_id {
                AppView { live_tool: None, ..self.unselected() }
            } else {
                self
            },
            None => self,
        }
    }

    /// With the content that can be selected.
    pub open spec fn with_selectable(
        self,
        region: Option<SelectionRegion>,
        lines: Seq<Seq<char>>,
    ) -> AppView {
        let held = if self.selection_region == region {
            self
        } else {
            self.unselected()
        };
        AppView { selection_region: region, selection_lines: lines, ..held }
    }

    /// Whether the layout at hand is that of the transcript at this width.
    pub open spec fn layout_is_current(self, width: u16) -> bool {
        match self.transcript_layout {
            Some(cache) => cache.revision == self.transcript_revision && cache.width == width,
            None => false,
        }
    }

    /// The lines of the conversation at this width: those at hand, or laid out anew.
    pub open spec fn laid_lines(self, width: u16) -> Seq<LineView> {
        if self.layout_is_current(width) {
            (self.transcript_layout->0).lines
        } else {
            transcript::transcript_lines(
                self.snapshot.messages,
                self.local_entries,
                width,
                self.transcript_details_expanded,
            )
        }
    }

    /// The lines of the tool that still runs.
    pub open spec fn live_lines(self, width: u16) -> Seq<LineView> {
        match self.live_tool {
            Some(live) => transcript::live_tool_lines(
                live,
                width,
                self.transcript_details_expanded,
            ),
            None => Seq::empty(),
        }
    }

    /// With the transcript laid out and scrolled for a view of this size.
    pub open spec fn viewed(self, width: u16, height: u16) -> AppView {
        let lines = self.laid_lines(width);
        let total = sat_add(lines.len() as int, self.live_lines(width).len() as int);
        let most = max(0, total - height);
        AppView {
            transcript_layout: Some(
                LayoutCacheView { revision: self.transcript_revision, width, lines },
            ),
            max_scroll: most as usize,
            page_rows: max(height as int, 1) as usize,
            scroll_offset: if self.follow_tail {
                most as usize
            } else {
                min(self.scroll_offset as int, most) as usize
            },
            ..self
        }
    }

    /// The lines of the transcript that a view of this size shows.
    pub open spec fn shown(self, width: u16, height: u16) -> Seq<LineView> {
        let all = self.laid_lines(width) + self.live_lines(width);
        let total = sat_add(
            self.laid_lines(width).len() as int,
            self.live_lines(width).len() as int,
        );
        let start = min(self.viewed(width, height).scroll_offset as int, total);
        all.subrange(start, min(sat_add(start, height as int), total))
    }

    /// The layout at hand is that of the transcript.
    pub open spec fn layout_is_true(self) -> bool {
        match self.transcript_layout {
            Some(cache) => cache.revision == self.transcript_revision ==> cache.lines
                == transcript::transcript_lines(
                self.snapshot.messages,
                self.local_entries,
                cache.width,
                self.transcript_details_expanded,
            ),
            None => true,
        }
    }

    /// How many clicks in a row a click is.
    pub open spec fn click_count(self, point: SelectionPoint, now: u64) -> u8 {
        match self.last_click {
            Some(last) => if last.point == point && last.at <= now && now - last.at
                <= MULTI_CLICK_INTERVAL && last.count < 3 {
                (last.count + 1) as u8
            } else {
                1
            },
            None => 1,
        }
    }

    /// With a click noted.
    pub open spec fn clicked(self, point: SelectionPoint, now: u64) -> AppView {
        AppView {
            last_click: Some(
                ClickTracker { point, at: now, count: self.click_count(point, now) },
            ),
            ..self
        }
    }

    /// What a click in a row selects: the second one a word, or with Control a line, the third one
    /// a paragraph.
    pub open spec fn multi_click(
        self,
        region: SelectionRegion,
        point: SelectionPoint,
        count: u8,
        control: bool,
    ) -> Option<TextSelection> {
        if count >= 3 {
            selection::paragraph_at(region, self.selection_lines, point)
        } else if count == 2 && control {
            selection::whole_line_at(region, self.selection_lines, point)
        } else if count == 2 {
            selection::word_at(region, self.selection_lines, point)
        } else {
            None
        }
    }

    /// What becomes of a finished selection: its text is copied; one of white space alone is given
    /// up, one that is too large is reported.
    pub open spec fn selection_done(self) -> (AppView, MouseActionView) {
        match (self.selection_region, self.text_selection) {
            (Some(region), Some(chosen)) => match selection::selected_text(
                region,
                self.selection_lines,
                chosen,
            ) {
                Some(s) => if text::trimmed(s).len() == 0 {
                    (self.unselected(), MouseActionView::Redraw)
                } else {
                    (self, MouseActionView::Copy(s))
                },
                None => (self, MouseActionView::SelectionTooLarge),
            },
            _ => (self, MouseActionView::Redraw),
        }
    }

    /// The left button went down.
    pub open spec fn pressed(self, point: SelectionPoint, control: bool, now: u64) -> (
        AppView,
        MouseActionView,
    ) {
        match self.selection_region {
            None => (self, MouseActionView::Ignore),
            Some(region) => if !region.holds(point) {
                (
                    AppView { last_click: None, ..self.unselected() },
                    if self.text_selection is Some {
                        MouseActionView::Redraw
                    } else {
                        MouseActionView::Ignore
                    },
                )
            } else {
                let noted = self.clicked(point, now);
                let count = self.click_count(point, now);
                match (
                    noted.multi_click(region, point, count, control),
                    self.text_selection,
                ) {
                    (Some(chosen), _) => (
                        AppView {
                            text_selection: Some(chosen),
                            pending_click_selection: true,
                            ..noted
                        },
                        MouseActionView::Redraw,
                    ),
                    (None, Some(held)) => if control {
                        (
                            AppView {
                                text_selection: Some(
                                    TextSelection {
                                        anchor: held.anchor,
                                        focus: point,
                                        dragging: true,
                                    },
                                ),
                                ..noted
                            },
                            MouseActionView::Redraw,
                        )
                    } else {
                        (noted.selecting_from(point), MouseActionView::Redraw)
                    },
                    (None, None) => (noted.selecting_from(point), MouseActionView::Redraw),
                }
            },
        }
    }

    /// With a selection begun at a cell.
    pub open spec fn selecting_from(self, point: SelectionPoint) -> AppView {
        AppView {
            pending_click_selection: false,
            text_selection: Some(
                TextSelection { anchor: point, focus: point, dragging: true },
            ),
            ..self
        }
    }

    /// The mouse moved with the left button down.
    pub open spec fn dragged(self, point: SelectionPoint) -> (AppView, MouseActionView) {
        match (self.selection_region, self.text_selection) {
            (Some(region), Some(held)) => if held.dragging {
                (
                    AppView {
                        last_click: None,
                        pending_click_selection: false,
                        text_selection: Some(
                            TextSelection { focus: region.nearest(point), ..held },
                        ),
                        ..self
                    },
                    MouseActionView::Redraw,
                )
            } else {
                (self, MouseActionView::Ignore)
            },
            _ => (self, MouseActionView::Ignore),
        }
    }

    /// The left button went up.
    pub open spec fn released(self, point: SelectionPoint) -> (AppView, MouseActionView) {
        if self.pending_click_selection {
            AppView { pending_click_selection: false, ..self }.selection_done()
        } else {
            match (self.selection_region, self.text_selection) {
                (Some(region), Some(held)) => if held.dragging {
                    let focus = region.nearest(point);
                    let done = AppView {
                        text_selection: Some(
                            TextSelection { anchor: held.anchor, focus, dragging: false },
                        ),
                        ..self
                    };
                    if held.anchor == focus {
                        (done.unselected(), MouseActionView::Redraw)
                    } else {
                        done.selection_done()
                    }
                } else {
                    (self, MouseActionView::Ignore)
                },
                _ => (self, MouseActionView::Ignore),
            }
        }
    }

    /// Whether a row lies in the transcript.
    pub open spec fn over_transcript(self, row: u16) -> bool {
        match self.selection_region {
            Some(region) => region.top <= row < region.bottom,
            None => false,
        }
    }

    /// What a mouse event does.
    pub open spec fn after_mouse(self, event: MouseEvent, now: u64) -> (AppView, MouseActionView) {
        let point = SelectionPoint { row: event.row, column: event.column };
        let rest = AppView { last_click: None, ..self.unselected() };
        match event.kind {
            MouseEventKind::ScrollUp => if self.over_transcript(event.row) {
                (rest, MouseActionView::Scroll((-1) as i32))
            } else {
                (self, MouseActionView::Ignore)
            },
            MouseEventKind::ScrollDown => if self.over_transcript(event.row) {
                (rest, MouseActionView::Scroll(1))
            } else {
                (self, MouseActionView::Ignore)
            },
            MouseEventKind::LeftDown => self.pressed(point, event.control, now),
            MouseEventKind::LeftDrag => self.dragged(point),
            MouseEventKind::LeftUp => self.released(point),
            MouseEventKind::Other => (self, MouseActionView::Ignore),
        }
    }
}

impl App {
    /// The cursor stands between characters, the menu's selection is one of its entries, the view
    /// is within the transcript, the region has a cell, and a running tool keeps its limit.
    pub open spec fn wf(&self) -> bool {
        &&& self.input.wf()
        &&& self.slash_selection == 0 || self.slash_selection < slash::candidates_of(
            self.input.text@,
        ).len()
        &&& self.scroll_offset <= self.max_scroll
        &&& self.selection_region matches Some(region) ==> region.wf()
        &&& self.live_tool matches Some(live) ==> live.wf()
    }

    /// A new application.
    pub fn new(snapshot: CoreSnapshot) -> (r: Self)
        ensures
            r.wf(),
            r.deep_view() == new_app(snapshot.deep_view()),
    {
        let r = App {
            input: InputBuffer::default(),
            slash_selection: 0,
            slash_menu_dismissed: false,
            status: "Ready".to_owned(),
            snapshot,
            approval: None,
            plan_review: false,
            plan_feedback: false,
            busy: false,
            scroll_offset: 0,
            max_scroll: 0,
            page_rows: 1,
            follow_tail: true,
            selection_region: None,
            selection_lines: Vec::new(),
            text_selection: None,
            last_click: None,
            pending_click_selection: false,
            transcript_revision: 0,
            transcript_details_expanded: false,
            transcript_layout: None,
            local_entries: Vec::new(),
            live_tool: None,
        };
        assert(r.deep_view() =~= new_app(snapshot.deep_view()));
        r
    }

    /// How many commands the input can be completed to.
    pub fn slash_candidate_count(&self) -> (r: usize)
        requires
            self.wf(),
        ensures
            r == self.deep_view().candidates().len(),
    {
        proof {
            self.input.lemma_parts();
        }
        slash::slash_command_candidates(self.input.as_str()).len()
    }

    /// Whether the menu of commands is shown.
    pub fn slash_menu_visible(&self) -> (r: bool)
        requires
            self.wf(),
        ensures
            r == self.deep_view().menu_visible(),
    {
        !self.plan_review && !self.plan_feedback && !self.slash_menu_dismissed
            && self.slash_candidate_count() > 0
    }

    /// The menu begins anew.
    pub fn input_changed(&mut self)
        ensures
            *final(self) == (App { slash_selection: 0, slash_menu_dismissed: false, ..*old(self) }),
    {
        self.slash_selection = 0;
        self.slash_menu_dismissed = false;
    }

    /// Replaces the input.
    pub fn set_input(&mut self, text: String)
        requires
            old(self).wf(),
        ensures
            final(self).wf(),
            final(self).deep_view() == old(self).deep_view().with_input(InputView::ending(text@)),
    {
        self.input.set_text(text);
        self.input_changed();
    }

    /// Types a character.
    pub fn push_input_character(&mut self, character: char)
        requires
            old(self).wf(),
        ensures
            final(self).wf(),
            final(self).deep_view() == old(self).deep_view().with_input(
                old(self).deep_view().input.inserted(character),
            ),
    {
        self.input.insert(character);
        self.input_changed();
    }

    /// Removes the grapheme before the cursor.
    pub fn pop_input_character(&mut self)
        requires
            old(self).wf(),
        ensures
            final(self).wf(),
            final(self).deep_view() == old(self).deep_view().with_edit(
                old(self).deep_view().input.backspaced(),
                old(self).deep_view().input.before.len() > 0,
            ),
    {
        proof {
            self.input.lemma_parts();
        }
        if self.input.backspace() {
            self.input_changed();
        } else {
            proof {
                self.input.lemma_parts();
            }
        }
    }

    /// Removes the grapheme behind the cursor.
    pub fn delete_input_character(&mut self)
        requires
            old(self).wf(),
        ensures
            final(self).wf(),
            final(self).deep_view() == old(self).deep_view().with_edit(
                old(self).deep_view().input.deleted(),
                old(self).deep_view().input.after.len() > 0,
            ),
    {
        proof {
            self.input.lemma_parts();
        }
        if self.input.delete() {
            self.input_changed();
        } else {
            proof {
                self.input.lemma_parts();
            }
        }
    }

    /// Removes the word before the cursor.
    pub fn delete_input_word_left(&mut self)
        requires
            old(self).wf(),
        ensures
            final(self).wf(),
            ({
                let input = old(self).deep_view().input;
                let rest = input.word_left_deleted();
                final(self).deep_view() == old(self).deep_view().with_edit(
                    rest,
                    rest.before.len() != input.before.len(),
                )
            }),
    {
        proof {
            self.input.lemma_parts();
            crate::input::lemma_before_word(self.input.before());
        }
        if self.input.delete_word_left() {
            self.input_changed();
        } else {
            proof {
                assert(self.input.before() =~= old(self).input.before());
                self.input.lemma_parts();
            }
        }
    }

    /// Removes the word behind the cursor.
    pub fn delete_input_word_right(&mut self)
        requires
            old(self).wf(),
        ensures
            final(self).wf(),
            ({
                let input = old(self).deep_view().input;
                let rest = input.word_right_deleted();
                final(self).deep_view() == old(self).deep_view().with_edit(
                    rest,
                    rest.after.len() != input.after.len(),
                )
            }),
    {
        proof {
            self.input.lemma_parts();
            crate::input::lemma_behind_word(self.input.after());
        }
        if self.input.delete_word_right() {
            self.input_changed();
        } else {
            proof {
                assert(self.input.after() =~= old(self).input.after());
                self.input.lemma_parts();
            }
        }
    }

    /// Removes the input.
    pub fn clear_input(&mut self)
        requires
            old(self).wf(),
        ensures
            final(self).wf(),
            final(self).deep_view() == old(self).deep_view().without_input(),
    {
        self.input.clear();
        self.input_changed();
    }

    /// Selects the next or the previous command of the menu, if it is shown.
    pub fn move_slash_selection(&mut self, previous: bool) -> (r: bool)
        requires
            old(self).wf(),
        ensures
            final(self).wf(),
            r == old(self).deep_view().menu_visible(),
            final(self).deep_view() == if r {
                old(self).deep_view().menu_moved(previous)
            } else {
                old(self).deep_view()
            },
    {
        if !self.slash_menu_visible() {
            return false;
        }
        proof {
            self.input.lemma_parts();
        }
        let count = self.slash_candidate_count();
        self.slash_selection = if previous {
            if self.slash_selection == 0 {
                count - 1
            } else {
                self.slash_selection - 1
            }
        } else {
            (self.slash_selection + 1) % count
        };
        true
    }

    /// Types the selected command.
    pub fn complete_selected_slash_command(&mut self) -> (r: bool)
        requires
            old(self).wf(),
        ensures
            final(self).wf(),
            r == (old(self).deep_view().candidates().len() > 0),
            final(self).deep_view() == old(self).deep_view().completed(),
    {
        proof {
            self.input.lemma_parts();
        }
        let candidates = slash::slash_command_candidates(self.input.as_str());
        if self.slash_selection >= candidates.len() {
            return false;
        }
        let entry = candidates[self.slash_selection];
        assert(candidates.deep_view()[self.slash_selection as int] == entry.deep_view());
        let mut completed = text::cat("/", entry.name);
        if entry.takes_arguments {
            completed.push(' ');
        }
        self.input.set_text(completed);
        self.slash_selection = 0;
        self.slash_menu_dismissed = true;
        true
    }

    /// Closes the menu, if it is shown.
    pub fn dismiss_slash_menu(&mut self) -> (r: bool)
        requires
            old(self).wf(),
        ensures
            final(self).wf(),
            r == old(self).deep_view().menu_visible(),
            final(self).deep_view() == if r {
                old(self).deep_view().dismissed()
            } else {
                old(self).deep_view()
            },
    {
        if !self.slash_menu_visible() {
            return false;
        }
        self.slash_selection = 0;
        self.slash_menu_dismissed = true;
        true
    }

    /// Gives up the selected text.
    pub fn clear_text_selection(&mut self)
        ensures
            *final(self) == (App {
                text_selection: None,
                pending_click_selection: false,
                ..*old(self)
            }),
            final(self).deep_view() == old(self).deep_view().unselected(),
    {
        self.text_selection = None;
        self.pending_click_selection = false;
    }

    /// Has the transcript laid out anew.
    fn relay(&mut self)
        ensures
            final(self).deep_view() == old(self).deep_view().relaid(),
            *final(self) == (App {
                text_selection: None,
                pending_click_selection: false,
                transcript_revision: final(self).transcript_revision,
                transcript_layout: None,
                ..*old(self)
            }),
    {
        self.transcript_revision = self.transcript_revision.wrapping_add(1);
        self.transcript_layout = None;
        self.clear_text_selection();
    }

    /// Shows or hides details.
    pub fn toggle_transcript_details(&mut self)
        requires
            old(self).wf(),
        ensures
            final(self).wf(),
            final(self).deep_view() == old(self).deep_view().toggled(),
    {
        self.transcript_details_expanded = !self.transcript_details_expanded;
        self.relay();
    }

    /// Takes another state of the session.
    pub fn set_snapshot(&mut self, snapshot: CoreSnapshot)
        requires
            old(self).wf(),
        ensures
            final(self).wf(),
            final(self).deep_view() == old(self).deep_view().with_snapshot(snapshot.deep_view()),
    {
        let count = self.snapshot.messages.len();
        let same = count == snapshot.messages.len() && (count == 0
            || self.snapshot.messages[count - 1].same(&snapshot.messages[count - 1]));
        assert(same == self.deep_view().same_transcript(snapshot.deep_view())) by {
            let mine = self.snapshot.messages.deep_view();
            let other = snapshot.messages.deep_view();
            if count > 0 && mine.len() == other.len() {
                assert(mine.last() == self.snapshot.messages@[count - 1].deep_view());
                assert(other.last() == snapshot.messages@[count - 1].deep_view());
            }
        }
        self.snapshot = snapshot;
        if !same {
            self.relay();
        }
    }

    /// Adds a question asked beside the conversation.
    pub fn push_local_entry(&mut self, entry: LocalTranscriptEntry)
        requires
            old(self).wf(),
        ensures
            final(self).wf(),
            final(self).deep_view() == (AppView {
                local_entries: old(self).deep_view().local_entries.push(entry.deep_view()),
                ..old(self).deep_view()
            }).relaid(),
    {
        let ghost before = self.local_entries.deep_view();
        self.local_entries.push(entry);
        assert(self.local_entries.deep_view() =~= before.push(entry.deep_view()));
        self.relay();
    }

    /// Replaces the questions asked beside the conversation.
    pub fn set_local_entries(&mut self, entries: Vec<LocalTranscriptEntry>)
        requires
            old(self).wf(),
        ensures
            final(self).wf(),
            final(self).deep_view() == (AppView {
                local_entries: entries.deep_view(),
                ..old(self).deep_view()
            }).relaid(),
    {
        self.local_entries = entries;
        self.relay();
    }

    /// A tool has begun.
    pub fn start_live_tool(&mut self, call_id: String, label: String)
        requires
            old(self).wf(),
        ensures
            final(self).wf(),
            final(self).deep_view() == (AppView {
                live_tool: Some(
                    LiveToolView {
                        call_id: call_id@,
                        label: label@,
                        stdout: Seq::empty(),
                        stderr: Seq::empty(),
                    },
                ),
                ..old(self).deep_view().unselected()
            }),
    {
        self.live_tool = Some(LiveToolOutput::new(call_id, label));
        self.clear_text_selection();
    }

    /// A running tool has written something. What is no Base64 is refused and changes nothing.
    pub fn append_live_progress(&mut self, call_id: &str, progress: ToolProgress) -> (r: Result<
        (),
        ProgressError,
    >)
        requires
            old(self).wf(),
        ensures
            final(self).wf(),
            r is Ok <==> base64_bytes(progress.data@) is Some,
            match base64_bytes(progress.data@) {
                Some(bytes) => final(self).deep_view() == old(self).deep_view().with_progress(
                    call_id@,
                    progress.stream,
                    bytes,
                ),
                None => *final(self) == *old(self),
            },
    {
        match decode_base64(progress.data.as_str()) {
            Ok(bytes) => {
                self.take_progress(call_id, progress.stream, &bytes);
                Ok(())
            },
            Err(error) => Err(ProgressError::Encoding(error)),
        }
    }

    /// A running tool has written these bytes; a tool that is not known to run begins.
    pub fn take_progress(&mut self, call_id: &str, stream: ToolOutputStream, bytes: &Vec<u8>)
        requires
            old(self).wf(),
        ensures
            final(self).wf(),
            final(self).deep_view() == old(self).deep_view().with_progress(
                call_id@,
                stream,
                bytes@,
            ),
    {
        let held = self.live_tool.take();
        let mut live = match held {
            Some(live) => if text::str_eq(live.call_id.as_str(), call_id) {
                live
            } else {
                LiveToolOutput::new(call_id.to_owned(), "tool".to_owned())
            },
            None => LiveToolOutput::new(call_id.to_owned(), "tool".to_owned()),
        };
        live.append(stream, bytes.as_slice());
        self.live_tool = Some(live);
        self.clear_text_selection();
    }

    /// A tool has finished.
    pub fn finish_live_tool(&mut self, call_id: &str)
        requires
            old(self).wf(),
        ensures
            final(self).wf(),
            final(self).deep_view() == old(self).deep_view().with_tool_finished(call_id@),
    {
        let finished = match &self.live_tool {
            Some(live) => text::str_eq(live.call_id.as_str(), call_id),
            None => false,
        };
        if finished {
            self.live_tool = None;
            self.clear_text_selection();
        }
    }

    /// No tool runs.
    pub fn clear_live_tool(&mut self)
        requires
            old(self).wf(),
        ensures
            final(self).wf(),
            final(self).deep_view() == (AppView {
                live_tool: None,
                ..old(self).deep_view().unselected()
            }),
    {
        self.live_tool = None;
        self.clear_text_selection();
    }

    /// Scrolls up.
    pub fn scroll_up(&mut self, rows: usize)
        requires
            old(self).wf(),
        ensures
            final(self).wf(),
            final(self).deep_view() == old(self).deep_view().scrolled_up(rows as int),
    {
        if self.max_scroll == 0 {
            return;
        }
        let current: usize = if self.follow_tail {
            self.max_scroll
        } else {
            self.scroll_offset
        };
        let step: usize = if rows < 1 {
            1
        } else {
            rows
        };
        self.scroll_offset = current.saturating_sub(step);
        self.follow_tail = false;
        self.clear_text_selection();
    }

    /// Scrolls down.
    pub fn scroll_down(&mut self, rows: usize)
        requires
            old(self).wf(),
        ensures
            final(self).wf(),
            final(self).deep_view() == old(self).deep_view().scrolled_down(rows as int),
    {
        let current: usize = if self.follow_tail {
            self.max_scroll
        } else {
            self.scroll_offset
        };
        let step: usize = if rows < 1 {
            1
        } else {
            rows
        };
        let target = current.saturating_add(step);
        self.scroll_offset = if target < self.max_scroll {
            target
        } else {
            self.max_scroll
        };
        self.follow_tail = self.scroll_offset == self.max_scroll;
        self.clear_text_selection();
    }

    /// The rows of a page.
    fn page(&self) -> (r: usize)
        ensures
            r == self.deep_view().page(),
    {
        if self.page_rows < 2 {
            1
        } else {
            self.page_rows - 1
        }
    }

    /// Scrolls up by a page.
    pub fn page_up(&mut self)
        requires
            old(self).wf(),
        ensures
            final(self).wf(),
            final(self).deep_view() == old(self).deep_view().scrolled_up(
                old(self).deep_view().page(),
            ),
    {
        let rows = self.page();
        self.scroll_up(rows);
    }

    /// Scrolls down by a page.
    pub fn page_down(&mut self)
        requires
            old(self).wf(),
        ensures
            final(self).wf(),
            final(self).deep_view() == old(self).deep_view().scrolled_down(
                old(self).deep_view().page(),
            ),
    {
        let rows = self.page();
        self.scroll_down(rows);
    }

    /// Scrolls to the first row.
    pub fn scroll_home(&mut self)
        requires
            old(self).wf(),
        ensures
            final(self).wf(),
            final(self).deep_view() == old(self).deep_view().at_home(),
    {
        self.scroll_offset = 0;
        self.follow_tail = self.max_scroll == 0;
        self.clear_text_selection();
    }

    /// Scrolls to the last row.
    pub fn scroll_end(&mut self)
        requires
            old(self).wf(),
        ensures
            final(self).wf(),
            final(self).deep_view() == old(self).deep_view().at_tail(),
    {
        self.scroll_offset = self.max_scroll;
        self.follow_tail = true;
        self.clear_text_selection();
    }

    /// Scrolls by a number of rows, up where it is negative.
    pub fn scroll_delta(&mut self, delta: i32)
        requires
            old(self).wf(),
        ensures
            final(self).wf(),
            final(self).deep_view() == old(self).deep_view().scrolled_by(delta as int),
    {
        if delta < 0 {
            let rows: i64 = 0 - delta as i64;
            self.scroll_up(rows as usize);
        } else if delta > 0 {
            self.scroll_down(delta as usize);
        }
    }

    /// Takes the content that can be selected; a selection in another region is given up.
    pub fn update_selection_content(&mut self, region: Option<SelectionRegion>, lines: &Vec<Line>)
        requires
            old(self).wf(),
            region matches Some(r) ==> r.wf(),
        ensures
            final(self).wf(),
            final(self).deep_view() == old(self).deep_view().with_selectable(
                region,
                lines.deep_view().map_values(|line: LineView| line_text(line.spans)),
            ),
    {
        let same = match (self.selection_region, region) {
            (Some(a), Some(b)) => a == b,
            (None, None) => true,
            _ => false,
        };
        if !same {
            self.clear_text_selection();
        }
        self.selection_region = region;
        self.selection_lines = lines_text(lines);
    }

    /// Notes a click and says how many in a row it is.
    pub fn register_click(&mut self, point: SelectionPoint, now: u64) -> (r: u8)
        requires
            old(self).wf(),
        ensures
            final(self).wf(),
            r == old(self).deep_view().click_count(point, now),
            final(self).deep_view() == old(self).deep_view().clicked(point, now),
    {
        let count: u8 = match self.last_click {
            Some(last) => if last.point == point && last.at <= now && now - last.at
                <= MULTI_CLICK_INTERVAL && last.count < 3 {
                last.count + 1
            } else {
                1
            },
            None => 1,
        };
        self.last_click = Some(ClickTracker { point, at: now, count });
        count
    }

    /// The word at a cell.
    pub fn word_selection_at(&self, point: SelectionPoint) -> (r: Option<TextSelection>)
        ensures
            r == match self.selection_region {
                Some(region) => selection::word_at(
                    region,
                    self.selection_lines.deep_view(),
                    point,
                ),
                None => None,
            },
    {
        match self.selection_region {
            Some(region) => selection::word_selection(region, &self.selection_lines, point),
            None => None,
        }
    }

    /// The content of the line at a cell.
    pub fn line_selection_at(&self, point: SelectionPoint) -> (r: Option<TextSelection>)
        ensures
            r == match self.selection_region {
                Some(region) => selection::whole_line_at(
                    region,
                    self.selection_lines.deep_view(),
                    point,
                ),
                None => None,
            },
    {
        match self.selection_region {
            Some(region) => selection::line_selection(region, &self.selection_lines, point),
            None => None,
        }
    }

    /// The paragraph at a cell.
    pub fn paragraph_selection_at(&self, point: SelectionPoint) -> (r: Option<TextSelection>)
        ensures
            r == match self.selection_region {
                Some(region) => selection::paragraph_at(
                    region,
                    self.selection_lines.deep_view(),
                    point,
                ),
                None => None,
            },
    {
        match self.selection_region {
            Some(region) => selection::paragraph_selection(region, &self.selection_lines, point),
            None => None,
        }
    }

    /// What becomes of a finished selection.
    pub fn completed_selection_action(&mut self) -> (r: MouseAction)
        requires
            old(self).wf(),
        ensures
            final(self).wf(),
            (final(self).deep_view(), r.deep_view()) == old(self).deep_view().selection_done(),
    {
        match (self.selection_region, self.text_selection) {
            (Some(region), Some(chosen)) => {
                match selection::selection_text(region, &self.selection_lines, chosen) {
                    Some(copied) => {
                        if text::char_count(text::trim(copied.as_str()).as_str()) == 0 {
                            self.clear_text_selection();
                            MouseAction::Redraw
                        } else {
                            MouseAction::Copy(copied)
                        }
                    },
                    None => MouseAction::SelectionTooLarge,
                }
            },
            _ => MouseAction::Redraw,
        }
    }

    /// The left button went down.
    fn press(&mut self, point: SelectionPoint, control: bool, now: u64) -> (r: MouseAction)
        requires
            old(self).wf(),
        ensures
            final(self).wf(),
            (final(self).deep_view(), r.deep_view()) == old(self).deep_view().pressed(
                point,
                control,
                now,
            ),
    {
        let region = match self.selection_region {
            Some(region) => region,
            None => {
                return MouseAction::Ignore;
            },
        };
        if !region.contains(point) {
            self.last_click = None;
            let changed = self.text_selection.is_some();
            self.clear_text_selection();
            return if changed {
                MouseAction::Redraw
            } else {
                MouseAction::Ignore
            };
        }
        let click_count = self.register_click(point, now);
        let multi_click = if click_count >= 3 {
            self.paragraph_selection_at(point)
        } else if click_count == 2 && control {
            self.line_selection_at(point)
        } else if click_count == 2 {
            self.word_selection_at(point)
        } else {
            None
        };
        if let Some(chosen) = multi_click {
            self.text_selection = Some(chosen);
            self.pending_click_selection = true;
            return MouseAction::Redraw;
        }
        if control {
            if let Some(held) = self.text_selection {
                self.text_selection = Some(
                    TextSelection { anchor: held.anchor, focus: point, dragging: true },
                );
                return MouseAction::Redraw;
            }
        }
        self.pending_click_selection = false;
        self.text_selection = Some(TextSelection { anchor: point, focus: point, dragging: true });
        MouseAction::Redraw
    }

    /// The mouse moved with the left button down.
    fn drag(&mut self, point: SelectionPoint) -> (r: MouseAction)
        requires
            old(self).wf(),
        ensures
            final(self).wf(),
            (final(self).deep_view(), r.deep_view()) == old(self).deep_view().dragged(point),
    {
        match (self.selection_region, self.text_selection) {
            (Some(region), Some(held)) => {
                if !held.dragging {
                    return MouseAction::Ignore;
                }
                self.last_click = None;
                self.pending_click_selection = false;
                self.text_selection = Some(
                    TextSelection {
                        anchor: held.anchor,
                        focus: region.clamp(point),
                        dragging: held.dragging,
                    },
                );
                MouseAction::Redraw
            },
            _ => MouseAction::Ignore,
        }
    }

    /// The left button went up.
    fn release(&mut self, point: SelectionPoint) -> (r: MouseAction)
        requires
            old(self).wf(),
        ensures
            final(self).wf(),
            (final(self).deep_view(), r.deep_view()) == old(self).deep_view().released(point),
    {
        if self.pending_click_selection {
            self.pending_click_selection = false;
            return self.completed_selection_action();
        }
        match (self.selection_region, self.text_selection) {
            (Some(region), Some(held)) => {
                if !held.dragging {
                    return MouseAction::Ignore;
                }
                let focus = region.clamp(point);
                self.text_selection = Some(
                    TextSelection { anchor: held.anchor, focus, dragging: false },
                );
                if held.anchor == focus {
                    self.clear_text_selection();
                    return MouseAction::Redraw;
                }
                self.completed_selection_action()
            },
            _ => MouseAction::Ignore,
        }
    }

    /// Takes a mouse event at a time in nanoseconds.
    pub fn handle_mouse_at(&mut self, event: MouseEvent, now: u64) -> (r: MouseAction)
        requires
            old(self).wf(),
        ensures
            final(self).wf(),
            (final(self).deep_view(), r.deep_view()) == old(self).deep_view().after_mouse(
                event,
                now,
            ),
    {
        let point = SelectionPoint { row: event.row, column: event.column };
        let over_transcript = match self.selection_region {
            Some(region) => point.row >= region.top && point.row < region.bottom,
            None => false,
        };
        match event.kind {
            MouseEventKind::ScrollUp => {
                if !over_transcript {
                    return MouseAction::Ignore;
                }
                self.last_click = None;
                self.clear_text_selection();
                MouseAction::Scroll(-1)
            },
            MouseEventKind::ScrollDown => {
                if !over_transcript {
                    return MouseAction::Ignore;
                }
                self.last_click = None;
                self.clear_text_selection();
                MouseAction::Scroll(1)
            },
            MouseEventKind::LeftDown => self.press(point, event.control, now),
            MouseEventKind::LeftDrag => self.drag(point),
            MouseEventKind::LeftUp => self.release(point),
            MouseEventKind::Other => MouseAction::Ignore,
        }
    }
}

/// The text of each line.
fn lines_text(lines: &Vec<Line>) -> (r: Vec<String>)
    ensures
        r.deep_view() == lines.deep_view().map_values(|line: LineView| line_text(line.spans)),
{
    let ghost wanted = lines.deep_view().map_values(|line: LineView| line_text(line.spans));
    let mut out: Vec<String> = Vec::new();
    let mut i: usize = 0;
    assert(out.deep_view() =~= wanted.take(0));
    while i < lines.len()
        invariant
            wanted == lines.deep_view().map_values(|line: LineView| line_text(line.spans)),
            i <= lines@.len(),
            out.deep_view() == wanted.take(i as int),
        decreases lines@.len() - i,
    {
        let ghost before = out.deep_view();
        let line = one_line_text(&lines[i]);
        assert(lines.deep_view()[i as int] == lines@[i as int].deep_view());
        out.push(line);
        assert(out.deep_view() =~= before.push(line@));
        assert(out.deep_view() =~= wanted.take(i + 1));
        i += 1;
    }
    assert(wanted.take(i as int) =~= wanted);
    out
}

/// The text of a line on the screen.
fn one_line_text(line: &Line) -> (r: String)
    ensures
        r@ == line_text(line.deep_view().spans),
{
    let ghost all = line.spans.deep_view();
    let mut out = String::new();
    let mut i: usize = 0;
    while i < line.spans.len()
        invariant
            all == line.spans.deep_view(),
            i <= line.spans@.len(),
            out@ == line_text(all.take(i as int)),
        decreases line.spans@.len() - i,
    {
        assert(all.take(i + 1).drop_last() =~= all.take(i as int));
        assert(all[i as int].content == line.spans@[i as int].content@);
        let shown = one_span_text(line.spans[i].content.as_str());
        out.append(shown.as_str());
        i += 1;
    }
    assert(all.take(i as int) =~= all);
    out
}

/// The lines from `from` up to `to`.
fn line_range(lines: &Vec<Line>, from: usize, to: usize) -> (r: Vec<Line>)
    requires
        from <= to <= lines@.len(),
    ensures
        r.deep_view() == lines.deep_view().subrange(from as int, to as int),
{
    let mut out: Vec<Line> = Vec::new();
    let mut i: usize = from;
    assert(out.deep_view() =~= lines.deep_view().subrange(from as int, from as int));
    while i < to
        invariant
            from <= i <= to <= lines@.len(),
            out.deep_view() == lines.deep_view().subrange(from as int, i as int),
        decreases to - i,
    {
        style::push_line(&mut out, lines[i].clone());
        assert(out.deep_view() =~= lines.deep_view().subrange(from as int, i + 1));
        i += 1;
    }
    out
}

/// The lines from `from` up to `to` of two lists one behind the other.
fn window(a: &Vec<Line>, b: &Vec<Line>, from: usize, to: usize) -> (r: Vec<Line>)
    requires
        from <= to <= a@.len() + b@.len(),
    ensures
        r.deep_view() == (a.deep_view() + b.deep_view()).subrange(from as int, to as int),
{
    let mut out: Vec<Line> = Vec::new();
    assert(out.deep_view() =~= Seq::empty());
    let laid = a.len();
    if from < laid {
        let upto: usize = if to < laid {
            to
        } else {
            laid
        };
        out = line_range(a, from, upto);
    }
    if to > laid {
        let more = line_range(b, from.saturating_sub(laid), to - laid);
        style::append_lines(&mut out, more);
    }
    assert(out.deep_view() =~= (a.deep_view() + b.deep_view()).subrange(from as int, to as int));
    out
}

/// The style of a line of a plan: a heading stands out.
pub open spec fn plan_style(source: Seq<char>) -> Style {
    if text::starts_with(source, "#"@) {
        Style::plain().fg(style::color_accent()).bold()
    } else {
        Style::plain().fg(style::color_text())
    }
}

/// The lines of the lines of a plan.
pub open spec fn plan_sources(sources: Seq<Seq<char>>, width: u16) -> Seq<LineView>
    decreases sources.len(),
{
    if sources.len() == 0 {
        Seq::empty()
    } else {
        plan_sources(sources.drop_last(), width) + transcript::wrapped_text(
            sources.last(),
            plan_style(sources.last()),
            width,
        )
    }
}

/// The lines of a plan; one that says so where there is none.
pub open spec fn plan_lines(content: Seq<char>, width: u16) -> Seq<LineView> {
    let lines = plan_sources(text::lines_of(content), max(width as int, 1) as u16);
    if lines.len() == 0 {
        seq![style::text_line("No plan content."@, Style::plain().fg(style::color_muted()))]
    } else {
        lines
    }
}

impl AppView {
    /// With the plan scrolled for a view of this size.
    pub open spec fn plan_viewed(self, width: u16, height: u16) -> AppView {
        let most = max(0, plan_lines(self.snapshot.plan.content, width).len() - height);
        AppView {
            max_scroll: most as usize,
            page_rows: max(height as int, 1) as usize,
            follow_tail: false,
            scroll_offset: min(self.scroll_offset as int, most) as usize,
            ..self
        }
    }

    /// The lines of the plan that a view of this size shows.
    pub open spec fn plan_shown(self, width: u16, height: u16) -> Seq<LineView> {
        let lines = plan_lines(self.snapshot.plan.content, width);
        let start = min(
            self.plan_viewed(width, height).scroll_offset as int,
            lines.len() as int,
        );
        lines.subrange(start, min(sat_add(start, height as int), lines.len() as int))
    }
}

/// The lines of a plan.
fn build_plan_lines(content: &str, width: u16) -> (r: Vec<Line>)
    ensures
        r.deep_view() == plan_lines(content@, width),
{
    let columns: u16 = if width < 1 {
        1
    } else {
        width
    };
    let sources = text::lines(content);
    let ghost all = sources.deep_view();
    let mut lines: Vec<Line> = Vec::new();
    let mut i: usize = 0;
    assert(lines.deep_view() =~= Seq::empty());
    while i < sources.len()
        invariant
            all == sources.deep_view(),
            i <= sources@.len(),
            lines.deep_view() == plan_sources(all.take(i as int), columns),
        decreases sources@.len() - i,
    {
        assert(all.take(i + 1).drop_last() =~= all.take(i as int));
        assert(all[i as int] == sources@[i as int]@);
        let source = sources[i].as_str();
        let shown = if text::has_prefix(source, "#") {
            Style::plain().fg(style::color_accent()).bold()
        } else {
            Style::plain().fg(style::color_text())
        };
        transcript::push_wrapped_line(&mut lines, source, shown, columns);
        i += 1;
    }
    assert(all.take(i as int) =~= all);
    if lines.len() == 0 {
        style::push_line(
            &mut lines,
            Line::of_text("No plan content.", Style::plain().fg(style::color_muted())),
        );
        assert(lines.deep_view() =~= plan_lines(content@, width));
    }
    lines
}

impl App {
    /// Lays the transcript out for a view of this size, scrolls it, and gives the lines shown. The
    /// layout is kept until the transcript or the width changes.
    pub fn visible_transcript(&mut self, width: u16, height: u16) -> (r: Vec<Line>)
        requires
            old(self).wf(),
        ensures
            final(self).wf(),
            final(self).deep_view() == old(self).deep_view().viewed(width, height),
            r.deep_view() == old(self).deep_view().shown(width, height),
    {
        let held = self.transcript_layout.take();
        let cache = match held {
            Some(cache) => if cache.revision == self.transcript_revision && cache.width == width {
                cache
            } else {
                self.lay_out(width)
            },
            None => self.lay_out(width),
        };
        let live_lines = self.lay_out_live(width);
        let total_lines = cache.lines.len().saturating_add(live_lines.len());
        let (start, end) = self.scroll_view(total_lines, height);
        let visible = window(&cache.lines, &live_lines, start, end);
        self.transcript_layout = Some(cache);
        visible
    }

    /// Scrolls a view of this height over so many lines, and gives the range it shows.
    fn scroll_view(&mut self, total: usize, height: u16) -> (r: (usize, usize))
        ensures
            ({
                let most = max(0, total - height);
                let offset = if old(self).follow_tail {
                    most
                } else {
                    min(old(self).scroll_offset as int, most)
                };
                &&& *final(self) == (App {
                    max_scroll: most as usize,
                    page_rows: max(height as int, 1) as usize,
                    scroll_offset: offset as usize,
                    ..*old(self)
                })
                &&& r.0 == min(offset, total as int)
                &&& r.1 == min(sat_add(r.0 as int, height as int), total as int)
                &&& r.0 <= r.1 <= total
            }),
    {
        self.max_scroll = total.saturating_sub(height as usize);
        self.page_rows = if height < 1 {
            1
        } else {
            height as usize
        };
        if self.follow_tail || self.scroll_offset > self.max_scroll {
            self.scroll_offset = self.max_scroll;
        }
        let start: usize = if self.scroll_offset < total {
            self.scroll_offset
        } else {
            total
        };
        let wanted = start.saturating_add(height as usize);
        let end: usize = if wanted < total {
            wanted
        } else {
            total
        };
        (start, end)
    }

    /// The lines of the tool that still runs.
    fn lay_out_live(&self, width: u16) -> (r: Vec<Line>)
        ensures
            r.deep_view() == self.deep_view().live_lines(width),
    {
        match &self.live_tool {
            Some(live) => transcript::build_live_tool_lines(
                live,
                width,
                self.transcript_details_expanded,
            ),
            None => {
                let none: Vec<Line> = Vec::new();
                assert(none.deep_view() =~= Seq::empty());
                none
            },
        }
    }

    /// The layout of the transcript at this width.
    fn lay_out(&self, width: u16) -> (r: TranscriptLayoutCache)
        ensures
            r.revision == self.transcript_revision,
            r.width == width,
            r.lines.deep_view() == transcript::transcript_lines(
                self.snapshot.messages.deep_view(),
                self.local_entries.deep_view(),
                width,
                self.transcript_details_expanded,
            ),
    {
        TranscriptLayoutCache {
            revision: self.transcript_revision,
            width,
            lines: transcript::build_transcript_lines(
                &self.snapshot.messages,
                &self.local_entries,
                width,
                self.transcript_details_expanded,
            ),
        }
    }

    /// Lays the plan out for a view of this size, scrolls it, and gives the lines shown.
    pub fn visible_plan(&mut self, width: u16, height: u16) -> (r: Vec<Line>)
        requires
            old(self).wf(),
        ensures
            final(self).wf(),
            final(self).deep_view() == old(self).deep_view().plan_viewed(width, height),
            r.deep_view() == old(self).deep_view().plan_shown(width, height),
    {
        let lines = build_plan_lines(self.snapshot.plan.content.as_str(), width);
        self.follow_tail = false;
        let (start, end) = self.scroll_view(lines.len(), height);
        line_range(&lines, start, end)
    }
}

/// A view never shows more rows than it has, and all of them while there are that many lines.
/// While the tail is followed it ends with the last line.
pub proof fn law_view_is_full(app: AppView, width: u16, height: u16)
    requires
        app.laid_lines(width).len() + app.live_lines(width).len() <= usize::MAX,
    ensures
        ({
            let all = app.laid_lines(width) + app.live_lines(width);
            let shown = app.shown(width, height);
            &&& shown.len() == min(height as int, all.len() as int)
            &&& app.viewed(width, height).scroll_offset <= app.viewed(width, height).max_scroll
            &&& app.follow_tail ==> shown == all.skip(all.len() - shown.len())
        }),
{
    let all = app.laid_lines(width) + app.live_lines(width);
    let shown = app.shown(width, height);
    if app.follow_tail {
        assert(shown =~= all.skip(all.len() - shown.len()));
    }
}

/// Scrolling up leaves the tail where there is anything to scroll, scrolling to the end or down to
/// the last row follows it again, and no scrolling leaves the transcript.
pub proof fn law_scrolling(app: AppView, rows: int)
    requires
        app.scroll_offset <= app.max_scroll,
        0 <= rows,
    ensures
        app.max_scroll > 0 ==> !app.scrolled_up(rows).follow_tail,
        app.scrolled_up(rows).scroll_offset <= app.max_scroll,
        app.scrolled_down(rows).scroll_offset <= app.max_scroll,
        app.scrolled_down(rows).follow_tail <==> app.scrolled_down(rows).scroll_offset
            == app.max_scroll,
        app.at_tail().follow_tail && app.at_tail().scroll_offset == app.max_scroll,
        app.at_home().scroll_offset == 0,
        1 <= rows <= app.current_row() && app.current_row() <= app.max_scroll ==> app.scrolled_up(
            rows,
        ).scrolled_down(rows).scroll_offset == app.current_row(),
{
}

/// A transcript that was changed is laid out anew, so that what is shown is what is held: the
/// layout at hand stays true through every change. A state of the session with the same number of
/// messages and the same last message must then have the same messages.
pub proof fn law_layout_stays_true(
    app: AppView,
    snapshot: SnapshotView,
    entries: Seq<LocalEntryView>,
    width: u16,
    height: u16,
)
    requires
        app.layout_is_true(),
        app.same_transcript(snapshot) ==> snapshot.messages == app.snapshot.messages,
    ensures
        app.with_snapshot(snapshot).layout_is_true(),
        app.toggled().layout_is_true(),
        (AppView { local_entries: entries, ..app }).relaid().layout_is_true(),
        app.viewed(width, height).layout_is_true(),
        app.laid_lines(width) == transcript::transcript_lines(
            app.snapshot.messages,
            app.local_entries,
            width,
            app.transcript_details_expanded,
        ),
{
}

} // verus!
