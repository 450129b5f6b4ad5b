//! What calls of the mouse and key handlers do.

use crate::effect;
use crate::effect::{Effect, EffectView};
use crate::keys::{KeyStep, Keystroke};
use crate::mouse;
use crate::mouse::{Modifiers, MouseDown, MouseModes, MouseMove, MouseUp};
use crate::view::{TerminalView, ViewModel};
use vstd::prelude::*;

verus! {

/// The row of a pointer is the one that it is in, the first for a pointer above the grid and the last
/// for one below it. A grid without rows has none.
pub proof fn law_row_of_a_pointer(y_cells: i32, rows: u16, row: Option<usize>)
    requires
        call_ensures(mouse::mouse_position_to_row, (y_cells, rows), row),
    ensures
        row is None <==> rows == 0,
        row matches Some(row) ==> {
            &&& row < rows
            &&& 0 <= y_cells < rows ==> row == y_cells
            &&& y_cells < 0 ==> row == 0
            &&& y_cells >= rows ==> row == rows - 1
        },
{
}

/// A click in a view without the focus asks for it before anything else. The click that brings the
/// window to the front does nothing more.
pub proof fn law_clicks_take_the_focus<F, L, K>(
    view: &mut TerminalView<F, L, K>,
    event: MouseDown,
    modes: MouseModes,
    cell: Option<(u16, u16)>,
    hyperlink: Option<String>,
    index: Option<usize>,
    todo: Vec<Effect>,
)
    requires
        call_ensures(
            TerminalView::<F, L, K>::on_mouse_down,
            (view, event, modes, cell, hyperlink, index),
            todo,
        ),
    ensures
        !event.focused ==> effect::effects(todo@).len() > 0 && effect::effects(todo@)[0] == EffectView::Focus,
        event.focused && event.first_mouse ==> effect::effects(todo@).len() == 0,
        !event.focused && event.first_mouse ==> effect::effects(todo@).len() == 1,
        final(view)@ == (ViewModel { selection: final(view)@.selection, ..old(view)@ }),
{
}

/// A release that is not reported ends a selection of nothing and keeps any other. One that is
/// reported leaves the selection alone.
pub proof fn law_releases<F, L, K>(
    view: &mut TerminalView<F, L, K>,
    event: MouseUp,
    modes: MouseModes,
    cell: Option<(u16, u16)>,
    todo: Vec<Effect>,
)
    requires
        call_ensures(TerminalView::<F, L, K>::on_mouse_up, (view, event, modes, cell), todo),
    ensures
        ({
            let reported = old(view)@.has_input && modes.reporting && modes.sgr
                && !event.modifiers.shift;
            &&& reported ==> final(view)@ == old(view)@ && effect::effects(todo@)
                == mouse::button_report(event.button, event.modifiers, cell, false)
            &&& !reported && old(view)@.selection is None ==> final(view)@ == old(view)@
                && effect::effects(todo@).len() == 0
            &&& !reported ==> (old(view)@.selection matches Some(selection) ==> {
                &&& selection.anchor == selection.active ==> final(view)@.selection is None
                &&& selection.anchor != selection.active ==> final(view)@.selection == Some(
                    selection,
                )
                &&& effect::effects(todo@) == seq![EffectView::Notify]
            })
            &&& final(view)@ == (ViewModel { selection: final(view)@.selection, ..old(view)@ })
        }),
{
}

/// A motion is reported, or drags the end of the selection to the byte under the pointer and draws
/// the view where that moves it, or does nothing.
pub proof fn law_motions<F, L, K>(
    view: &mut TerminalView<F, L, K>,
    event: MouseMove,
    modes: MouseModes,
    cell: Option<(u16, u16)>,
    index: Option<usize>,
    todo: Vec<Effect>,
)
    requires
        call_ensures(TerminalView::<F, L, K>::on_mouse_move, (view, event, modes, cell, index), todo),
    ensures
        ({
            let reported = mouse::reports_motion(old(view)@.has_input, event, modes);
            &&& reported ==> final(view)@ == old(view)@ && effect::effects(todo@).len() == if cell is Some {
                1nat
            } else {
                0
            }
            &&& !reported && !event.dragging ==> final(view)@ == old(view)@ && effect::effects(todo@).len() == 0
            &&& !reported && event.dragging ==> ((old(view)@.selection, index) matches (
                Some(selection),
                Some(at),
            ) ==> {
                &&& final(view)@.selection matches Some(dragged) && dragged.anchor
                    == selection.anchor && dragged.active == at
                &&& selection.active != at ==> effect::effects(todo@) == seq![EffectView::Notify]
                &&& selection.active == at ==> effect::effects(todo@).len() == 0
            })
            &&& final(view)@ == (ViewModel { selection: final(view)@.selection, ..old(view)@ })
        }),
{
}

/// A turn of the wheel goes to a program that wants it, one report for each line up to ten, or
/// scrolls by as many lines and has the viewport read again. A turn by no line does nothing.
pub proof fn law_wheel_turns<F, L, K>(
    view: &mut TerminalView<F, L, K>,
    delta_lines: i32,
    modifiers: Modifiers,
    modes: MouseModes,
    cell: (u16, u16),
    todo: Vec<Effect>,
    i: int,
)
    requires
        call_ensures(
            TerminalView::<F, L, K>::on_scroll_wheel,
            (view, delta_lines, modifiers, modes, Some(cell)),
            todo,
        ),
    ensures
        ({
            let reported = old(view)@.has_input && modes.reporting && modes.sgr && !modifiers.shift;
            let steps = if delta_lines < 0 {
                -delta_lines
            } else {
                delta_lines as int
            };
            &&& delta_lines == 0 ==> final(view)@ == old(view)@ && effect::effects(todo@).len() == 0
            &&& reported ==> final(view)@ == old(view)@ && effect::effects(todo@).len() == if steps <= 10 {
                steps
            } else {
                10
            }
            &&& reported && 0 <= i < effect::effects(todo@).len() ==> effect::effects(todo@)[i] == mouse::report(
                if delta_lines < 0 {
                    64
                } else {
                    65
                },
                false,
                modifiers,
                cell,
                true,
            )
            &&& !reported && delta_lines != 0 ==> {
                &&& final(view)@.pending_refresh
                &&& final(view)@ == (ViewModel { pending_refresh: true, ..old(view)@ })
                &&& effect::effects(todo@).len() == 4
                &&& effect::effects(todo@)[0] == EffectView::Scroll(delta_lines as int)
                &&& effect::effects(todo@)[1] == EffectView::SyncScroll
                &&& effect::effects(todo@)[3] == EffectView::Notify
            }
        }),
{
}

/// A key press that scrolls has the viewport read again, and no other key press changes the view.
pub proof fn law_scroll_keys_refresh<F, L, K>(
    view: &mut TerminalView<F, L, K>,
    raw_key: &str,
    ime_in_progress: bool,
    keystroke: &Keystroke,
    rows: u16,
    step: KeyStep,
)
    requires
        call_ensures(
            TerminalView::<F, L, K>::on_key_down,
            (view, raw_key, ime_in_progress, keystroke, rows),
            step,
        ),
    ensures
        step@ matches crate::keys::KeyStepView::Done(todo) ==> (todo.contains(EffectView::SyncScroll)
            ==> final(view)@.pending_refresh),
        step is Encode ==> final(view)@ == old(view)@,
        final(view)@ == (ViewModel { pending_refresh: final(view)@.pending_refresh, ..old(view)@ }),
        old(view)@.pending_refresh ==> final(view)@.pending_refresh,
        !old(view)@.pending_refresh && final(view)@.pending_refresh ==> (
        step@ matches crate::keys::KeyStepView::Done(todo) && todo.len() == 4 && todo[1]
            == EffectView::SyncScroll),
{
}

} // verus!
