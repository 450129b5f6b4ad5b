//! What happens each time the view is drawn.

use crate::effect;
use crate::effect::{Effect, EffectView};
use crate::ime;
use crate::output;
use crate::text;
use crate::view;
use crate::view::{ByteSelection, TerminalView, ViewModel};
use vstd::prelude::*;

verus! {

broadcast use crate::effect::group_effects;

/// The size of the grid that fits the view, and the size of the view in pixels.
#[derive(Clone, Copy, Debug, PartialEq, Eq, Structural)]
pub struct GridSize {
    pub cols: u16,
    pub rows: u16,
    pub pixel_width: u32,
    pub pixel_height: u32,
}

/// Whether the view has lost the focus since it was drawn last.
pub open spec fn loses_focus<F, L, K>(m: ViewModel<F, L, K>, focused: bool) -> bool {
    m.was_focused && !focused
}

/// What drawing the view asks for: the timer of the cursor the first time, the end of the
/// composition where the focus was lost, the output that waits, and the viewport where it has
/// to be read again.
pub open spec fn render_effects<F, L, K>(m: ViewModel<F, L, K>, focused: bool) -> Seq<EffectView> {
    (if m.cursor_blink_started {
        Seq::empty()
    } else {
        seq![EffectView::StartCursorBlink]
    }) + (if loses_focus(m, focused) {
        seq![EffectView::Notify]
    } else {
        Seq::empty()
    }) + output::flush_effects(m.has_input, m.pending_output) + (if m.pending_refresh {
        seq![EffectView::RefreshViewport]
    } else {
        Seq::empty()
    })
}

/// The state after the view was drawn. Where the focus was lost, nothing is composed or selected
/// and the cursor is visible.
pub open spec fn render_model<F, L, K>(m: ViewModel<F, L, K>, focused: bool) -> ViewModel<F, L, K> {
    let kept = if loses_focus(m, focused) {
        ViewModel {
            selection: None::<ByteSelection>,
            cursor_blink_visible: true,
            ..ime::cleared(m)
        }
    } else {
        m
    };
    ViewModel {
        cursor_blink_started: true,
        was_focused: focused,
        pending_output: Seq::empty(),
        pending_refresh: false,
        ..kept
    }
}

/// The title of the window where the session has none.
pub open spec fn default_title() -> Seq<char> {
    "GPUI Embedded Terminal (Ghostty VT)"@
}

pub open spec fn title_or_default(title: Option<Seq<char>>) -> Seq<char> {
    match title {
        Some(title) => title,
        None => default_title(),
    }
}

pub open spec fn at_least_one(n: u16) -> u16 {
    if n == 0 {
        1
    } else {
        n
    }
}

/// The change that a grid makes necessary. A grid has at least one column and one row.
pub open spec fn grid_change(current: (u16, u16), grid: Option<GridSize>) -> Option<
    (u16, u16, u32, u32),
> {
    match grid {
        Some(grid) => {
            let cols = at_least_one(grid.cols);
            let rows = at_least_one(grid.rows);
            if current == (cols, rows) {
                None
            } else {
                Some((cols, rows, grid.pixel_width, grid.pixel_height))
            }
        },
        None => None,
    }
}

impl<F, L, K> TerminalView<F, L, K> {
    /// The view is about to be drawn.
    pub fn render(&mut self, focused: bool) -> (todo: Vec<Effect>)
        requires
            old(self).wf(),
        ensures
            final(self).wf(),
            final(self)@ == render_model(old(self)@, focused),
            effect::effects(todo@) == render_effects(old(self)@, focused),
    {
        let ghost before = self@;
        let mut todo: Vec<Effect> = Vec::new();
        if !self.cursor_blink_started {
            self.cursor_blink_started = true;
            todo.push(Effect::StartCursorBlink);
        }
        if self.was_focused && !focused {
            let mut cleared = self.clear_marked_text();
            todo.append(&mut cleared);
            self.selection = None;
            self.cursor_blink_visible = true;
        }
        self.was_focused = focused;
        let mut flushed = self.flush_pending_output();
        todo.append(&mut flushed);
        if self.pending_refresh {
            todo.push(Effect::RefreshViewport);
            self.pending_refresh = false;
        }
        assert(effect::effects(todo@) =~= render_effects(before, focused));
        todo
    }

    /// Gives the window the title of the session where it does not have it already.
    pub fn sync_window_title(&mut self, updates_enabled: bool, title: Option<&str>) -> (todo: Vec<
        Effect,
    >)
        requires
            old(self).wf(),
        ensures
            final(self).wf(),
            ({
                let wanted = title_or_default(
                    match title {
                        Some(title) => Some(title@),
                        None => None,
                    },
                );
                if updates_enabled && old(self)@.last_window_title != Some(wanted) {
                    &&& final(self)@ == (ViewModel {
                        last_window_title: Some(wanted),
                        ..old(self)@
                    })
                    &&& effect::effects(todo@) == seq![EffectView::SetWindowTitle(wanted)]
                } else {
                    final(self)@ == old(self)@ && effect::effects(todo@) == Seq::<
                        EffectView,
                    >::empty()
                }
            }),
    {
        let mut todo: Vec<Effect> = Vec::new();
        if updates_enabled {
            let wanted = match title {
                Some(title) => title,
                None => "GPUI Embedded Terminal (Ghostty VT)",
            };
            let known = match &self.last_window_title {
                Some(last) => text::str_eq(last.as_str(), wanted),
                None => false,
            };
            if !known {
                todo.push(Effect::SetWindowTitle(wanted.to_string()));
                self.last_window_title = Some(wanted.to_string());
            }
        }
        todo
    }

    /// The timer of the cursor fired.
    pub fn toggle_cursor_blink(&mut self) -> (todo: Vec<Effect>)
        requires
            old(self).wf(),
        ensures
            final(self).wf(),
            final(self)@ == (ViewModel {
                cursor_blink_visible: !old(self)@.cursor_blink_visible,
                ..old(self)@
            }),
            effect::effects(todo@) == seq![EffectView::Notify],
    {
        self.cursor_blink_visible = !self.cursor_blink_visible;
        let mut todo: Vec<Effect> = Vec::new();
        todo.push(Effect::Notify);
        todo
    }

    /// The view was laid out with a grid that fits it; `current` is the grid of the session.
    pub fn sync_grid(&mut self, current: (u16, u16), grid: Option<GridSize>) -> (todo: Vec<Effect>)
        requires
            old(self).wf(),
        ensures
            final(self).wf(),
            match grid_change(current, grid) {
                Some(change) => {
                    &&& final(self)@ == (ViewModel {
                        pending_refresh: true,
                        pending_grid_resize: Some(change),
                        ..old(self)@
                    })
                    &&& effect::effects(todo@) == seq![
                        EffectView::Resize(change.0, change.1),
                        EffectView::SyncScroll,
                        EffectView::Notify,
                    ]
                },
                None => final(self)@ == old(self)@ && effect::effects(todo@) == Seq::<
                    EffectView,
                >::empty(),
            },
    {
        let mut todo: Vec<Effect> = Vec::new();
        if let Some(grid) = grid {
            let cols: u16 = if grid.cols == 0 {
                1
            } else {
                grid.cols
            };
            let rows: u16 = if grid.rows == 0 {
                1
            } else {
                grid.rows
            };
            if current.0 != cols || current.1 != rows {
                todo.push(Effect::Resize(cols, rows));
                todo.push(Effect::SyncScroll);
                self.pending_refresh = true;
                self.pending_grid_resize = Some((cols, rows, grid.pixel_width, grid.pixel_height));
                todo.push(Effect::Notify);
            }
        }
        todo
    }
}

/// Drawing the view settles it: nothing is left to do when it is drawn again at once.
pub proof fn law_render_settles<F, L, K>(m: ViewModel<F, L, K>, focused: bool)
    ensures
        render_effects(render_model(m, focused), focused) == Seq::<EffectView>::empty(),
        render_model(render_model(m, focused), focused) == render_model(m, focused),
{
    assert(render_effects(render_model(m, focused), focused) =~= Seq::<EffectView>::empty());
}

/// What is queued is fed by the next drawing at the latest, behind what waited before.
pub proof fn law_queued_output_is_drawn<F, L, K>(
    m: ViewModel<F, L, K>,
    bytes: Seq<u8>,
    focused: bool,
)
    ensures
        ({
            let queued = ViewModel {
                pending_output: output::queue_pending(m.pending_output, bytes),
                ..m
            };
            effect::fed_bytes(
                output::queue_effects(m.has_input, m.pending_output, bytes) + render_effects(
                    queued,
                    focused,
                ),
            ) == m.pending_output + bytes
        }),
{
    let waits = output::queue_pending(m.pending_output, bytes);
    let queued = ViewModel { pending_output: waits, ..m };
    let first = output::queue_effects(m.has_input, m.pending_output, bytes);
    output::law_output_keeps_order(m.has_input, m.pending_output, bytes);
    effect::lemma_fed_bytes_concat(first, render_effects(queued, focused));
    lemma_render_feeds(queued, focused);
}

proof fn lemma_render_feeds<F, L, K>(m: ViewModel<F, L, K>, focused: bool)
    ensures
        effect::fed_bytes(render_effects(m, focused)) == m.pending_output,
{
    reveal_with_fuel(effect::fed_bytes, 4);
    let start = if m.cursor_blink_started {
        Seq::empty()
    } else {
        seq![EffectView::StartCursorBlink]
    };
    let lost = if loses_focus(m, focused) {
        seq![EffectView::Notify]
    } else {
        Seq::empty()
    };
    let flush = output::flush_effects(m.has_input, m.pending_output);
    let refresh = if m.pending_refresh {
        seq![EffectView::RefreshViewport]
    } else {
        Seq::empty()
    };
    effect::lemma_fed_bytes_concat(start, lost);
    effect::lemma_fed_bytes_concat(start + lost, flush);
    effect::lemma_fed_bytes_concat(start + lost + flush, refresh);
    output::lemma_flush_feeds_pending(m.has_input, m.pending_output);
    assert(effect::fed_bytes(start) =~= Seq::<u8>::empty());
    assert(effect::fed_bytes(lost) =~= Seq::<u8>::empty());
    assert(effect::fed_bytes(refresh) =~= Seq::<u8>::empty());
    assert(effect::fed_bytes(render_effects(m, focused)) =~= m.pending_output);
}

/// A session that took over the grid asks for no further change.
pub proof fn law_grid_settles(current: (u16, u16), grid: GridSize)
    ensures
        grid_change(current, Some(grid)) matches Some(change) ==> grid_change(
            (change.0, change.1),
            Some(grid),
        ) is None && change.0 >= 1 && change.1 >= 1,
{
}

} // verus!
