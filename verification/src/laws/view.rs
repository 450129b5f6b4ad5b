//! The state of a view.

use crate::clipboard;
use crate::style::StyleRun;
use crate::view;
use crate::view::{ByteSelection, ViewModel};
use crate::viewport;
use vstd::math::{max, min};
use vstd::prelude::*;

verus! {

/// A selection reaches from the smaller of its ends to the larger one.
pub proof fn law_selection_ends(anchor: usize, active: usize)
    ensures
        (ByteSelection { anchor, active }).start() == min(anchor as int, active as int),
        (ByteSelection { anchor, active }).end() == max(anchor as int, active as int),
{
}

/// The selection of everything reaches from the first byte of the viewport to its end.
pub proof fn law_everything_is_selected(lines: Seq<Seq<char>>)
    ensures
        clipboard::whole_viewport(lines).start() == 0,
        clipboard::whole_viewport(lines).end() == viewport::total_len(lines),
{
}

/// A copy takes the whole viewport where nothing is selected, where the selection is empty, and where
/// no character lies wholly in it.
pub proof fn law_empty_selections_copy_everything(lines: Seq<Seq<char>>, selection: ByteSelection)
    requires
        viewport::line_start(lines, lines.len() as int) <= usize::MAX,
    ensures
        clipboard::copied_text(lines, None) == viewport::joined(lines, lines.len() as int),
        selection.anchor == selection.active ==> clipboard::copied_text(lines, Some(selection))
            == viewport::joined(lines, lines.len() as int),
        viewport::selected_text(lines, selection.start(), selection.end()).len() == 0
            ==> clipboard::copied_text(lines, Some(selection)) == viewport::joined(
            lines,
            lines.len() as int,
        ),
{
    clipboard::law_copy_everything(lines);
}

/// A new view shows what the session gave, with nothing selected, composed, waiting or due, and with
/// a visible cursor.
pub proof fn law_new_views_are_blank<F, L, K>(
    font: F,
    has_input: bool,
    dump: Option<Seq<char>>,
    style_runs: Seq<Seq<StyleRun>>,
)
    ensures
        ({
            let created: ViewModel<F, L, K> = view::initial(font, has_input, dump, style_runs);
            &&& dump matches Some(dump) ==> created.lines == viewport::dump_lines(dump)
            &&& dump is None ==> created.lines.len() == 0
            &&& created.style_runs == style_runs
            &&& created.font == font
            &&& created.has_input == has_input
            &&& created.layouts.len() == 0 && created.layout_key is None
            &&& created.selection is None && created.marked_text is None
            &&& created.pending_output.len() == 0 && !created.pending_refresh
            &&& created.pending_grid_resize is None && created.last_window_title is None
            &&& created.cursor_blink_visible && !created.cursor_blink_started
            &&& !created.was_focused && !created.ime_unmark_from_commit
            &&& created.valid()
        }),
{
}

/// Valid states hold at most 256 KiB of output, and a composition that is not empty, with what is
/// selected of it inside it.
pub proof fn law_valid_states<F, L, K>(m: ViewModel<F, L, K>)
    requires
        m.valid(),
    ensures
        m.pending_output.len() <= 256 * 1024,
        m.marked_text matches Some(marked) ==> marked.len() > 0 && 0 <= m.marked_selection.0
            <= crate::text::utf16_count(marked) && 0 <= m.marked_selection.1
            <= crate::text::utf16_count(marked),
        m.marked_text is None ==> m.marked_selection == (0int, 0int),
{
}

} // verus!
