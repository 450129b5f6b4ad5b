//! Drawing the view.

use crate::effect::EffectView;
use crate::render;
use crate::render::GridSize;
use crate::view::ViewModel;
use vstd::prelude::*;

verus! {

/// A refresh that is due happens at the end of the next drawing, whatever else happens there, and
/// none happens where none is due.
pub proof fn law_due_refresh_happens<F, L, K>(m: ViewModel<F, L, K>, focused: bool, i: int)
    ensures
        ({
            let todo = render::render_effects(m, focused);
            &&& m.pending_refresh ==> todo.len() > 0 && todo.last() == EffectView::RefreshViewport
            &&& 0 <= i < todo.len() && todo[i] == EffectView::RefreshViewport ==> m.pending_refresh
                && i == todo.len() - 1
            &&& !render::render_model(m, focused).pending_refresh
        }),
{
}

/// Output that waits is handed to the session, all of it and at once; then what the session wants
/// in the clipboard is put there, its scroll is shown and the rows that it changed are. With a
/// program behind the terminal the session's replies reach it.
pub proof fn law_waiting_output_is_shown<F, L, K>(m: ViewModel<F, L, K>, focused: bool)
    ensures
        ({
            let todo = render::render_effects(m, focused);
            let at = (if m.cursor_blink_started {
                0int
            } else {
                1
            }) + (if m.was_focused && !focused {
                1int
            } else {
                0
            });
            &&& m.pending_output.len() > 0 ==> {
                &&& todo.len() >= at + 4
                &&& todo[at] == if m.has_input {
                    EffectView::FeedWithResponses(m.pending_output)
                } else {
                    EffectView::Feed(m.pending_output)
                }
                &&& todo[at + 1] == EffectView::ApplySideEffects
                &&& todo[at + 2] == EffectView::TakeScrollDelta
                &&& todo[at + 3] == EffectView::TakeDirtyRows
            }
            &&& todo.len() == at + (if m.pending_output.len() > 0 {
                4int
            } else {
                0
            }) + (if m.pending_refresh {
                1int
            } else {
                0
            })
            &&& !m.cursor_blink_started ==> todo[0] == EffectView::StartCursorBlink
            &&& m.was_focused && !focused ==> todo[at - 1] == EffectView::Notify
            &&& render::render_model(m, focused).pending_output.len() == 0
        }),
{
}

/// Losing the focus ends the composition and the selection and shows the cursor; without that, all
/// three stay as they are. Nothing else depends on the focus but the memory of it.
pub proof fn law_focus_loss<F, L, K>(m: ViewModel<F, L, K>, focused: bool)
    ensures
        ({
            let drawn = render::render_model(m, focused);
            &&& drawn.was_focused == focused
            &&& drawn.cursor_blink_started
            &&& m.was_focused && !focused ==> drawn.marked_text is None && drawn.marked_selection
                == (0int, 0int) && drawn.selection is None && drawn.cursor_blink_visible
            &&& !m.was_focused || focused ==> drawn.marked_text == m.marked_text
                && drawn.marked_selection == m.marked_selection && drawn.selection == m.selection
                && drawn.cursor_blink_visible == m.cursor_blink_visible
            &&& drawn == (ViewModel {
                marked_text: drawn.marked_text,
                marked_selection: drawn.marked_selection,
                selection: drawn.selection,
                cursor_blink_visible: drawn.cursor_blink_visible,
                cursor_blink_started: true,
                was_focused: focused,
                pending_output: Seq::<u8>::empty(),
                pending_refresh: false,
                ..m
            })
        }),
{
}

/// The session gets the grid that fits the view, with at least one column and one row, exactly where
/// its own differs from it in columns or in rows, and the change that is told to others names the
/// same grid and the size in pixels.
pub proof fn law_session_follows_the_grid(
    cols: u16,
    rows: u16,
    grid: GridSize,
)
    ensures
        ({
            let change = render::grid_change((cols, rows), Some(grid));
            let fits = |n: u16, wanted: u16| n >= 1 && (n == wanted || (wanted == 0 && n == 1));
            &&& change is None <==> fits(cols, grid.cols) && fits(rows, grid.rows)
            &&& change is Some ==> {
                &&& fits((change->0).0, grid.cols)
                &&& fits((change->0).1, grid.rows)
                &&& (change->0).2 == grid.pixel_width
                &&& (change->0).3 == grid.pixel_height
            }
            &&& render::grid_change((cols, rows), None) is None
        }),
{
}

/// The window has the title of the session; where the session has none, the window is named after
/// the program.
pub proof fn law_title_is_the_sessions(title: Seq<char>)
    ensures
        render::title_or_default(Some(title)) == title,
        render::title_or_default(None) == "GPUI Embedded Terminal (Ghostty VT)"@,
{
}

} // verus!
