//! The state of a terminal view.

use crate::effect;
use crate::effect::{Effect, EffectView};
use crate::output::MAX_PENDING_OUTPUT_BYTES;
use crate::rows;
use crate::style::StyleRun;
use crate::text;
use crate::viewport;
use std::ops::Range;
use vstd::prelude::*;

verus! {

broadcast use crate::effect::group_effects;

/// Where the input for the program behind a terminal goes.
pub struct TerminalInput<S> {
    pub sender: S,
}

impl<S: Fn(&[u8])> TerminalInput<S> {
    /// Input goes to `send`.
    pub fn new(send: S) -> (input: Self)
        ensures
            input.sender == send,
    {
        TerminalInput { sender: send }
    }

    /// Sends a piece of input.
    pub fn send(&self, bytes: &[u8])
        requires
            call_requires(self.sender, (bytes,)),
        ensures
            call_ensures(self.sender, (bytes,), ()),
    {
        (self.sender)(bytes);
    }
}

/// A selected stretch of the viewport, in bytes: where the selection began and where it is now.
#[derive(Clone, Copy, Debug, PartialEq, Eq, Structural)]
pub struct ByteSelection {
    pub anchor: usize,
    pub active: usize,
}

impl ByteSelection {
    /// The selected bytes, whichever way the selection was drawn.
    pub fn range(self) -> (r: Range<usize>)
        ensures
            r.start == self.start(),
            r.end == self.end(),
    {
        if self.anchor <= self.active {
            self.anchor..self.active
        } else {
            self.active..self.anchor
        }
    }

    pub open spec fn start(self) -> int {
        if self.anchor <= self.active {
            self.anchor as int
        } else {
            self.active as int
        }
    }

    pub open spec fn end(self) -> int {
        if self.anchor <= self.active {
            self.active as int
        } else {
            self.anchor as int
        }
    }
}

/// A line as it was shaped for drawing: the text that was shaped and what the shaping gave.
pub struct LineLayout<L> {
    pub text: String,
    pub shaped: L,
}

/// The state of a terminal view, with fonts of type `F`, shaped lines of type `L` and shaping
/// parameters of type `K`.
pub struct TerminalView<F, L, K> {
    /// The lines that the viewport shows, without line ends.
    pub(crate) viewport_lines: Vec<String>,
    /// The byte at which each line starts in the text of the viewport.
    pub(crate) viewport_line_offsets: Vec<usize>,
    /// The length in bytes of the text of the viewport.
    pub(crate) viewport_total_len: usize,
    /// The styles of the rows of the viewport.
    pub(crate) viewport_style_runs: Vec<Vec<StyleRun>>,
    /// The lines that have been shaped.
    pub(crate) line_layouts: Vec<Option<LineLayout<L>>>,
    /// The parameters with which they were shaped.
    pub(crate) line_layout_key: Option<K>,
    /// The title that the window was given last.
    pub(crate) last_window_title: Option<String>,
    /// Whether there is a program behind the terminal that takes input.
    pub(crate) has_input: bool,
    /// Output that has not been fed to the session yet.
    pub(crate) pending_output: Vec<u8>,
    /// Whether the viewport has to be read again before it is drawn.
    pub(crate) pending_refresh: bool,
    /// The selected stretch of the viewport.
    pub(crate) selection: Option<ByteSelection>,
    /// The text that an input method is composing.
    pub(crate) marked_text: Option<String>,
    /// The selected part of that text, in UTF-16 units.
    pub(crate) marked_selected_range_utf16: Range<usize>,
    pub(crate) font: F,
    /// Whether the view had the focus when it was drawn last.
    pub(crate) was_focused: bool,
    /// Whether the next end of a composition comes from a commit.
    pub(crate) ime_unmark_from_commit: bool,
    pub(crate) cursor_blink_visible: bool,
    pub(crate) cursor_blink_started: bool,
    /// A change of the grid that nobody has asked for yet: columns, rows, width and height in
    /// pixels.
    pub(crate) pending_grid_resize: Option<(u16, u16, u32, u32)>,
}

/// The state of a terminal view as mathematical values. The line offsets and the total length are
/// left out: they follow from the lines.
pub struct ViewModel<F, L, K> {
    pub lines: Seq<Seq<char>>,
    pub style_runs: Seq<Seq<StyleRun>>,
    pub layouts: Seq<Option<(Seq<char>, L)>>,
    pub layout_key: Option<K>,
    pub last_window_title: Option<Seq<char>>,
    pub has_input: bool,
    pub pending_output: Seq<u8>,
    pub pending_refresh: bool,
    pub selection: Option<ByteSelection>,
    pub marked_text: Option<Seq<char>>,
    pub marked_selection: (int, int),
    pub font: F,
    pub was_focused: bool,
    pub ime_unmark_from_commit: bool,
    pub cursor_blink_visible: bool,
    pub cursor_blink_started: bool,
    pub pending_grid_resize: Option<(u16, u16, u32, u32)>,
}

/// The characters of a text that may be absent.
pub open spec fn opt_text(s: Option<String>) -> Option<Seq<char>> {
    match s {
        Some(s) => Some(s@),
        None => None,
    }
}

/// The texts of a list of strings.
pub open spec fn texts(lines: Seq<String>) -> Seq<Seq<char>> {
    Seq::new(lines.len(), |i: int| lines[i]@)
}

/// The styles of a list of rows.
pub open spec fn style_rows(rows: Seq<Vec<StyleRun>>) -> Seq<Seq<StyleRun>> {
    Seq::new(rows.len(), |i: int| rows[i]@)
}

/// The text and the shape of a line that may not have been shaped.
pub open spec fn layout_view<L>(layout: Option<LineLayout<L>>) -> Option<(Seq<char>, L)> {
    match layout {
        Some(layout) => Some((layout.text@, layout.shaped)),
        None => None,
    }
}

pub open spec fn layout_views<L>(layouts: Seq<Option<LineLayout<L>>>) -> Seq<
    Option<(Seq<char>, L)>,
> {
    Seq::new(layouts.len(), |i: int| layout_view(layouts[i]))
}

impl<F, L, K> View for TerminalView<F, L, K> {
    type V = ViewModel<F, L, K>;

    open(crate) spec fn view(&self) -> ViewModel<F, L, K> {
        ViewModel {
            lines: texts(self.viewport_lines@),
            style_runs: style_rows(self.viewport_style_runs@),
            layouts: layout_views(self.line_layouts@),
            layout_key: self.line_layout_key,
            last_window_title: opt_text(self.last_window_title),
            has_input: self.has_input,
            pending_output: self.pending_output@,
            pending_refresh: self.pending_refresh,
            selection: self.selection,
            marked_text: opt_text(self.marked_text),
            marked_selection: (
                self.marked_selected_range_utf16.start as int,
                self.marked_selected_range_utf16.end as int,
            ),
            font: self.font,
            was_focused: self.was_focused,
            ime_unmark_from_commit: self.ime_unmark_from_commit,
            cursor_blink_visible: self.cursor_blink_visible,
            cursor_blink_started: self.cursor_blink_started,
            pending_grid_resize: self.pending_grid_resize,
        }
    }
}

impl<F, L, K> ViewModel<F, L, K> {
    /// What holds of every state: the output that waits is bounded, a composition is never empty,
    /// and its selected part lies inside it.
    pub open spec fn valid(self) -> bool {
        &&& self.pending_output.len() <= MAX_PENDING_OUTPUT_BYTES
        &&& match self.marked_text {
            Some(marked) => {
                &&& marked.len() > 0
                &&& 0 <= self.marked_selection.0 <= text::utf16_count(marked)
                &&& 0 <= self.marked_selection.1 <= text::utf16_count(marked)
            },
            None => self.marked_selection == (0int, 0int),
        }
    }
}

impl<F, L, K> TerminalView<F, L, K> {
    /// The offsets and the total length belong to the lines, and the state is a valid one.
    pub open(crate) spec fn wf(&self) -> bool {
        &&& viewport::offsets_match(self@.lines, self.viewport_line_offsets@)
        &&& self.viewport_total_len == text::saturated(
            viewport::line_start(self@.lines, self@.lines.len() as int) as int,
        )
        &&& self@.valid()
    }
}

/// A view that has not been drawn yet and shows what the session gave.
pub open spec fn initial<F, L, K>(
    font: F,
    has_input: bool,
    dump: Option<Seq<char>>,
    style_runs: Seq<Seq<StyleRun>>,
) -> ViewModel<F, L, K> {
    ViewModel {
        lines: viewport::dump_lines(
            match dump {
                Some(dump) => dump,
                None => Seq::empty(),
            },
        ),
        style_runs,
        layouts: Seq::empty(),
        layout_key: None,
        last_window_title: None,
        has_input,
        pending_output: Seq::empty(),
        pending_refresh: false,
        selection: None,
        marked_text: None,
        marked_selection: (0, 0),
        font,
        was_focused: false,
        ime_unmark_from_commit: false,
        cursor_blink_visible: true,
        cursor_blink_started: false,
        pending_grid_resize: None,
    }
}

impl<F, L, K> TerminalView<F, L, K> {
    /// A view without a program that takes input, with the viewport and the styles of the rows as
    /// the session gave them.
    pub fn new(
        font: F,
        viewport: Option<String>,
        style_runs: Vec<Option<Vec<StyleRun>>>,
    ) -> (created: Self)
        ensures
            created.wf(),
            created@ == initial::<F, L, K>(
                font,
                false,
                opt_text(viewport),
                rows::all_runs(style_runs@),
            ),
    {
        Self::with_refreshed_viewport(font, false, viewport, style_runs)
    }

    /// A view whose input goes to a program.
    pub fn new_with_input(
        font: F,
        viewport: Option<String>,
        style_runs: Vec<Option<Vec<StyleRun>>>,
    ) -> (created: Self)
        ensures
            created.wf(),
            created@ == initial::<F, L, K>(
                font,
                true,
                opt_text(viewport),
                rows::all_runs(style_runs@),
            ),
    {
        Self::with_refreshed_viewport(font, true, viewport, style_runs)
    }

    fn with_refreshed_viewport(
        font: F,
        has_input: bool,
        viewport: Option<String>,
        style_runs: Vec<Option<Vec<StyleRun>>>,
    ) -> (created: Self)
        ensures
            created.wf(),
            created@ == initial::<F, L, K>(
                font,
                has_input,
                opt_text(viewport),
                rows::all_runs(style_runs@),
            ),
    {
        let mut created = TerminalView {
            viewport_lines: Vec::new(),
            viewport_line_offsets: Vec::new(),
            viewport_total_len: 0,
            viewport_style_runs: Vec::new(),
            line_layouts: Vec::new(),
            line_layout_key: None,
            last_window_title: None,
            has_input,
            pending_output: Vec::new(),
            pending_refresh: false,
            selection: None,
            marked_text: None,
            marked_selected_range_utf16: 0..0,
            font,
            was_focused: false,
            ime_unmark_from_commit: false,
            cursor_blink_visible: true,
            cursor_blink_started: false,
            pending_grid_resize: None,
        };
        created.refresh_viewport(viewport, style_runs);
        created
    }

    /// Gives the session a grid of columns and rows.
    pub fn resize_terminal(&mut self, cols: u16, rows: u16) -> (todo: Vec<Effect>)
        requires
            old(self).wf(),
        ensures
            final(self).wf(),
            final(self)@ == (ViewModel { pending_refresh: true, ..old(self)@ }),
            effect::effects(todo@) == seq![
                EffectView::Resize(cols, rows),
                EffectView::SyncScroll,
                EffectView::Notify,
            ],
    {
        let mut todo: Vec<Effect> = Vec::new();
        todo.push(Effect::Resize(cols, rows));
        todo.push(Effect::SyncScroll);
        self.pending_refresh = true;
        todo.push(Effect::Notify);
        todo
    }

    /// Changes the font: every line has to be shaped again.
    pub fn set_font(&mut self, font: F) -> (todo: Vec<Effect>)
        requires
            old(self).wf(),
        ensures
            final(self).wf(),
            final(self)@ == (ViewModel {
                font,
                layout_key: None::<K>,
                layouts: Seq::new(
                    old(self)@.layouts.len(),
                    |i: int| None::<(Seq<char>, L)>,
                ),
                pending_refresh: true,
                ..old(self)@
            }),
            effect::effects(todo@) == seq![EffectView::Notify],
    {
        self.font = font;
        self.line_layout_key = None;
        self.line_layouts = rows::blank_layouts(self.line_layouts.len());
        assert(layout_views(self.line_layouts@) =~= Seq::new(
            old(self)@.layouts.len(),
            |i: int| None::<(Seq<char>, L)>,
        ));
        self.pending_refresh = true;
        let mut todo: Vec<Effect> = Vec::new();
        todo.push(Effect::Notify);
        todo
    }

    /// Hands out the change of the grid that nobody has asked for yet.
    pub fn take_pending_grid_resize(&mut self) -> (change: Option<(u16, u16, u32, u32)>)
        requires
            old(self).wf(),
        ensures
            final(self).wf(),
            change == old(self)@.pending_grid_resize,
            final(self)@ == (ViewModel {
                pending_grid_resize: None::<(u16, u16, u32, u32)>,
                ..old(self)@
            }),
    {
        let change = self.pending_grid_resize;
        self.pending_grid_resize = None;
        change
    }
}

impl<F, L, K> TerminalView<F, L, K> {
    /// The lines that the viewport shows, without line ends.
    pub fn lines(&self) -> (lines: &Vec<String>)
        ensures
            texts(lines@) == self@.lines,
    {
        &self.viewport_lines
    }

    /// The byte at which each line starts in the text of the viewport.
    pub fn line_offsets(&self) -> (offsets: &Vec<usize>)
        requires
            self.wf(),
        ensures
            viewport::offsets_match(self@.lines, offsets@),
    {
        &self.viewport_line_offsets
    }

    /// The length in bytes of the text of the viewport.
    pub fn total_len(&self) -> (len: usize)
        requires
            self.wf(),
        ensures
            len == viewport::total_len(self@.lines),
    {
        self.viewport_total_len
    }

    /// The styles of the rows of the viewport.
    pub fn style_runs(&self) -> (rows: &Vec<Vec<StyleRun>>)
        ensures
            style_rows(rows@) == self@.style_runs,
    {
        &self.viewport_style_runs
    }

    /// The lines that have been shaped.
    pub fn line_layouts(&self) -> (layouts: &Vec<Option<LineLayout<L>>>)
        ensures
            layout_views(layouts@) == self@.layouts,
    {
        &self.line_layouts
    }

    /// The parameters with which they were shaped.
    pub fn line_layout_key(&self) -> (key: &Option<K>)
        ensures
            *key == self@.layout_key,
    {
        &self.line_layout_key
    }

    pub fn font(&self) -> (font: &F)
        ensures
            *font == self@.font,
    {
        &self.font
    }

    /// The selected stretch of the viewport.
    pub fn selection(&self) -> (selection: Option<ByteSelection>)
        ensures
            selection == self@.selection,
    {
        self.selection
    }

    /// The text that an input method is composing.
    pub fn marked_text(&self) -> (marked: &Option<String>)
        ensures
            opt_text(*marked) == self@.marked_text,
    {
        &self.marked_text
    }

    /// Output that has not been fed to the session yet.
    pub fn pending_output(&self) -> (pending: &Vec<u8>)
        ensures
            pending@ == self@.pending_output,
    {
        &self.pending_output
    }

    /// Whether the viewport has to be read again before it is drawn.
    pub fn pending_refresh(&self) -> (pending: bool)
        ensures
            pending == self@.pending_refresh,
    {
        self.pending_refresh
    }
}

} // verus!
