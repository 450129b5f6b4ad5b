//! What calls that bring the screen up to date do.

use crate::cells;
use crate::effect;
use crate::effect::{Effect, EffectView};
use crate::paint::{CursorMark, MarkedOverlay};
use crate::render::GridSize;
use crate::rows::RowsPlan;
use crate::style;
use crate::style::Rgb;
use crate::view::TerminalView;
use vstd::prelude::*;

verus! {

/// Dirty rows are read where the view knows as many rows as the session has, each of them, and the
/// whole viewport is read where it does not. Without dirty rows nothing is read.
pub proof fn law_dirty_rows_are_planned<F, L, K>(
    view: &TerminalView<F, L, K>,
    dirty: &[u16],
    rows: u16,
    plan: RowsPlan,
    i: int,
)
    requires
        call_ensures(
            TerminalView::<F, L, K>::plan_dirty_viewport_rows,
            (view, dirty, rows),
            plan,
        ),
    ensures
        plan is Nothing <==> dirty@.len() == 0,
        dirty@.len() > 0 ==> (plan is Dump <==> view@.lines.len() == rows && view@.style_runs.len()
            == rows),
        plan matches RowsPlan::Dump(dump) ==> {
            &&& 0 <= i < dirty@.len() && dirty@[i] < rows ==> dump@.contains(dirty@[i])
            &&& forall|k: int|
                0 <= k < dump@.len() ==> #[trigger] dump@[k] < rows && dirty@.contains(dump@[k])
        },
{
    if let RowsPlan::Dump(dump) = plan {
        crate::laws::rows::law_every_dirty_row_is_read(dirty@, Seq::empty(), 0, rows as int, i);
        assert forall|k: int| 0 <= k < dump@.len() implies #[trigger] dump@[k] < rows
            && dirty@.contains(dump@[k]) by {
            assert(dump@.contains(dump@[k]));
            crate::laws::rows::law_every_dirty_row_is_read(
                dirty@,
                Seq::empty(),
                dump@[k],
                rows as int,
                i,
            );
        }
    }
}

/// A scroll by less than the viewport moves the rows that stay and has the rows that enter read: as
/// many as were scrolled, the last ones downwards and the first ones upwards. A longer one, or one
/// where the view does not know the rows, has the whole viewport read.
pub proof fn law_scrolls_are_followed<F, L, K>(
    view: &mut TerminalView<F, L, K>,
    delta: i32,
    rows: u16,
    plan: RowsPlan,
    row: int,
)
    requires
        call_ensures(
            TerminalView::<F, L, K>::apply_viewport_scroll_delta,
            (view, delta, rows),
            plan,
        ),
    ensures
        ({
            let known = old(view)@.lines.len() == rows && old(view)@.style_runs.len() == rows;
            let short = -rows < delta < rows;
            &&& plan is Nothing <==> delta == 0 || rows == 0
            &&& plan is Refresh <==> delta != 0 && rows != 0 && !(known && short)
            &&& !(plan is Dump) ==> final(view)@ == old(view)@
            &&& plan matches RowsPlan::Dump(dump) ==> {
                &&& dump@.len() == if delta < 0 {
                    -delta
                } else {
                    delta as int
                }
                &&& 0 <= row < rows && 0 <= row + delta < rows ==> final(view)@.lines[row]
                    == old(view)@.lines[row + delta] && final(view)@.style_runs[row]
                    == old(view)@.style_runs[row + delta]
                &&& 0 <= row < rows && !(0 <= row + delta < rows) ==> dump@.contains(row as u16)
                &&& final(view)@.lines.len() == rows
            }
        }),
{
    if let RowsPlan::Dump(dump) = plan {
        if 0 <= row < rows && !(0 <= row + delta < rows) {
            let k = if delta > 0 {
                row - (rows - delta)
            } else {
                row
            };
            assert(dump@[k] == row as u16);
        }
    }
}

/// After a change of the grid the session has the columns and rows of the grid, at least one of
/// each, and somebody can ask for the change; without one nothing happens.
pub proof fn law_grid_changes<F, L, K>(
    view: &mut TerminalView<F, L, K>,
    current: (u16, u16),
    grid: GridSize,
    todo: Vec<Effect>,
)
    requires
        call_ensures(TerminalView::<F, L, K>::sync_grid, (view, current, Some(grid)), todo),
        grid.cols >= 1,
        grid.rows >= 1,
    ensures
        ({
            let fits = current.0 == grid.cols && current.1 == grid.rows;
            &&& fits ==> final(view)@ == old(view)@ && effect::effects(todo@).len() == 0
            &&& !fits ==> {
                &&& effect::effects(todo@).len() == 3
                &&& effect::effects(todo@)[0] == EffectView::Resize(grid.cols, grid.rows)
                &&& effect::effects(todo@)[1] == EffectView::SyncScroll
                &&& effect::effects(todo@)[2] == EffectView::Notify
                &&& final(view)@.pending_grid_resize == Some(
                    (grid.cols, grid.rows, grid.pixel_width, grid.pixel_height),
                )
                &&& final(view)@.pending_refresh
            }
        }),
{
}

/// The window gets the session's title where it has another one, and the view remembers it.
pub proof fn law_titles_are_set_once<F, L, K>(
    view: &mut TerminalView<F, L, K>,
    updates_enabled: bool,
    title: &str,
    todo: Vec<Effect>,
)
    requires
        call_ensures(
            TerminalView::<F, L, K>::sync_window_title,
            (view, updates_enabled, Some(title)),
            todo,
        ),
    ensures
        ({
            let new = updates_enabled && old(view)@.last_window_title != Some(title@);
            &&& new ==> effect::effects(todo@) == seq![EffectView::SetWindowTitle(title@)]
                && final(view)@.last_window_title == Some(title@)
            &&& !new ==> effect::effects(todo@).len() == 0 && final(view)@ == old(view)@
        }),
{
}

/// A pending refresh is asked for when the view is drawn, whatever output waits, and is not pending
/// any more; all output that waits is fed before that.
pub proof fn law_drawing_refreshes<F, L, K>(
    view: &mut TerminalView<F, L, K>,
    focused: bool,
    todo: Vec<Effect>,
    i: int,
)
    requires
        call_ensures(TerminalView::<F, L, K>::render, (view, focused), todo),
    ensures
        ({
            let done = effect::effects(todo@);
            &&& old(view)@.pending_refresh ==> done.len() > 0 && done.last()
                == EffectView::RefreshViewport
            &&& 0 <= i < done.len() && done[i] == EffectView::RefreshViewport
                ==> old(view)@.pending_refresh
            &&& !final(view)@.pending_refresh && final(view)@.pending_output.len() == 0
            &&& final(view)@.was_focused == focused && final(view)@.cursor_blink_started
        }),
{
}

/// A composition is drawn at the cursor, its column and row counted from zero, over the cells that it
/// fills, one at least, and on the background behind the cursor. Without a composition or a cursor
/// none is.
pub proof fn law_compositions_are_drawn<F, L, K>(
    view: &TerminalView<F, L, K>,
    col: u16,
    row: u16,
    is_monospace: bool,
    default_bg: Rgb,
    overlay: Option<MarkedOverlay>,
    background: Rgb,
)
    requires
        call_ensures(
            TerminalView::<F, L, K>::marked_overlay,
            (view, Some((col, row)), is_monospace, default_bg),
            overlay,
        ),
        call_ensures(
            TerminalView::<F, L, K>::background_at,
            (view, col, row, default_bg),
            background,
        ),
    ensures
        overlay is Some <==> view@.marked_text is Some,
        overlay matches Some(overlay) ==> {
            let marked = view@.marked_text->0;
            let cells = cells::cell_count(cells::measured(marked));
            &&& overlay.text@ == marked
            &&& col >= 1 ==> overlay.col == col - 1
            &&& row >= 1 ==> overlay.row == row - 1
            &&& col == 0 ==> overlay.col == 0
            &&& row == 0 ==> overlay.row == 0
            &&& 1 <= cells <= usize::MAX ==> overlay.cells == cells
            &&& cells == 0 ==> overlay.cells == 1
            &&& overlay.background == style::opaque_rgba(background)
            &&& overlay.fixed_width ==> is_monospace
            &&& is_monospace ==> (overlay.fixed_width <==> !cells::has_wide(
                cells::measured(marked),
            ))
        },
{
}

/// The cursor is drawn in a focused view while it blinks on, in its row if that has a place for a
/// shaped line, before the character in its column and in the shade for the background there.
pub proof fn law_cursor_is_drawn<F, L, K>(
    view: &TerminalView<F, L, K>,
    focused: bool,
    col: u16,
    row: u16,
    default_bg: Rgb,
    mark: Option<CursorMark>,
    background: Rgb,
)
    requires
        call_ensures(
            TerminalView::<F, L, K>::cursor_mark,
            (view, focused, Some((col, row)), default_bg),
            mark,
        ),
        call_ensures(
            TerminalView::<F, L, K>::background_at,
            (view, col, row, default_bg),
            background,
        ),
        row >= 1,
    ensures
        mark is Some <==> focused && view@.cursor_blink_visible && row <= view@.layouts.len(),
        mark matches Some(mark) ==> {
            &&& mark.row == row - 1
            &&& mark.shade == style::cursor_shade(background)
            &&& view@.layouts[row - 1] is None ==> mark.byte == 0
            &&& view@.layouts[row - 1] matches Some(layout) ==> mark.byte == cells::byte_of_column(
                cells::measured(layout.0),
                col as int,
            )
        },
{
}

/// The background under a cell is that of its row, and the default one below the rows.
pub proof fn law_background_under_a_cell<F, L, K>(
    view: &TerminalView<F, L, K>,
    col: u16,
    row: u16,
    default_bg: Rgb,
    background: Rgb,
    i: int,
)
    requires
        call_ensures(
            TerminalView::<F, L, K>::background_at,
            (view, col, row, default_bg),
            background,
        ),
        row >= 1,
        row <= view@.style_runs.len() ==> {
            let runs = view@.style_runs[row - 1];
            &&& 0 <= i < runs.len() && runs[i].start_col <= col <= runs[i].end_col
            &&& forall|j: int|
                0 <= j < i ==> !((#[trigger] runs[j]).start_col <= col <= runs[j].end_col)
        },
    ensures
        row <= view@.style_runs.len() ==> background == view@.style_runs[row - 1][i].bg,
        row > view@.style_runs.len() ==> background == default_bg,
{
    if row <= view@.style_runs.len() {
        crate::laws::paint::law_background_behind_a_column(
            view@.style_runs[row - 1],
            i,
            col,
            default_bg,
        );
    }
}

} // verus!
