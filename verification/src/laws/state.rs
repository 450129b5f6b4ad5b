//! What calls that change or read the state of a view do.

use crate::cells;
use crate::effect;
use crate::effect::{Effect, EffectView};
use crate::ime::CellPosition;
use crate::text;
use crate::view::{TerminalView, ViewModel};
use std::ops::Range;
use vstd::prelude::*;
use vstd::utf8::*;

verus! {

/// A new size is handed to the session, and the viewport is read again.
pub proof fn law_resizes<F, L, K>(
    view: &mut TerminalView<F, L, K>,
    cols: u16,
    rows: u16,
    todo: Vec<Effect>,
)
    requires
        call_ensures(TerminalView::<F, L, K>::resize_terminal, (view, cols, rows), todo),
    ensures
        effect::effects(todo@).len() == 3,
        effect::effects(todo@)[0] == EffectView::Resize(cols, rows),
        effect::effects(todo@)[1] == EffectView::SyncScroll,
        effect::effects(todo@)[2] == EffectView::Notify,
        final(view)@.pending_refresh,
        final(view)@.lines == old(view)@.lines,
{
}

/// With a new font no line stays shaped, and the view is drawn anew.
pub proof fn law_new_fonts<F, L, K>(
    view: &mut TerminalView<F, L, K>,
    font: F,
    todo: Vec<Effect>,
    row: int,
)
    requires
        call_ensures(TerminalView::<F, L, K>::set_font, (view, font), todo),
    ensures
        final(view)@.font == font,
        final(view)@.layout_key is None,
        final(view)@.layouts.len() == old(view)@.layouts.len(),
        0 <= row < final(view)@.layouts.len() ==> final(view)@.layouts[row] is None,
        final(view)@.pending_refresh,
        final(view)@.lines == old(view)@.lines,
        final(view)@.selection == old(view)@.selection,
        effect::effects(todo@) == seq![EffectView::Notify],
{
}

/// A change of the grid is handed out once.
pub proof fn law_grid_changes_are_taken_once<F, L, K>(
    first: &mut TerminalView<F, L, K>,
    second: &mut TerminalView<F, L, K>,
    change: Option<(u16, u16, u32, u32)>,
    again: Option<(u16, u16, u32, u32)>,
)
    requires
        call_ensures(TerminalView::<F, L, K>::take_pending_grid_resize, (first,), change),
        call_ensures(TerminalView::<F, L, K>::take_pending_grid_resize, (second,), again),
        second@ == final(first)@,
    ensures
        change == old(first)@.pending_grid_resize,
        again is None,
{
}

/// The cursor that blinks twice looks as before.
pub proof fn law_blinking_twice<F, L, K>(
    first: &mut TerminalView<F, L, K>,
    second: &mut TerminalView<F, L, K>,
    todo: Vec<Effect>,
    more: Vec<Effect>,
)
    requires
        call_ensures(TerminalView::<F, L, K>::toggle_cursor_blink, (first,), todo),
        call_ensures(TerminalView::<F, L, K>::toggle_cursor_blink, (second,), more),
        second@ == final(first)@,
    ensures
        final(first)@.cursor_blink_visible != old(first)@.cursor_blink_visible,
        final(second)@ == old(first)@,
        effect::effects(todo@) == seq![EffectView::Notify],
{
}

/// Output that must not wait is fed at once; then the viewport is read and what the session wants is
/// done.
pub proof fn law_output_at_once<F, L, K>(
    view: &mut TerminalView<F, L, K>,
    bytes: &[u8],
    todo: Vec<Effect>,
)
    requires
        call_ensures(TerminalView::<F, L, K>::feed_output_bytes, (view, bytes), todo),
    ensures
        effect::effects(todo@).len() == 4,
        old(view)@.has_input ==> effect::effects(todo@)[0] == EffectView::FeedWithResponses(bytes@),
        !old(view)@.has_input ==> effect::effects(todo@)[0] == EffectView::Feed(bytes@),
        effect::effects(todo@)[1] == EffectView::RefreshViewport,
        effect::effects(todo@)[2] == EffectView::ApplySideEffects,
        effect::effects(todo@)[3] == EffectView::Notify,
        final(view)@ == old(view)@,
{
}

/// A composition is as long as its UTF-16 units, and there is none where nothing is composed.
pub proof fn law_length_of_a_composition<F, L, K>(
    view: &TerminalView<F, L, K>,
    range: Option<Range<usize>>,
)
    requires
        call_ensures(TerminalView::<F, L, K>::marked_text_range, (view,), range),
    ensures
        view@.marked_text is None ==> range is None,
        view@.marked_text matches Some(marked) ==> (marked.len() > 0 ==> (range matches Some(range)
            && range.start == 0 && range.end == text::utf16_count(marked))),
{
}

/// A part of a composition is read as far as it lies in the composition, and told where it lies.
pub proof fn law_parts_of_a_composition<F, L, K>(
    view: &TerminalView<F, L, K>,
    wanted: Range<usize>,
    found: Option<(Range<usize>, Option<String>)>,
    i: int,
    j: int,
)
    requires
        call_ensures(TerminalView::<F, L, K>::text_for_range, (view, wanted), found),
        view@.marked_text matches Some(marked) ==> {
            &&& 0 <= i <= j <= marked.len()
            &&& wanted.start == text::utf16_count(marked.take(i))
            &&& wanted.end == text::utf16_count(marked.take(j)) || (j == marked.len() && wanted.end
                >= text::utf16_count(marked))
        },
    ensures
        view@.marked_text is None ==> found is None,
        view@.marked_text matches Some(marked) ==> (found matches Some((range, Some(part)))
            && range.start == wanted.start && range.end == text::utf16_count(marked.take(j))
            && part@ == marked.subrange(i, j)),
{
    if let Some(marked) = view@.marked_text {
        let all = text::utf16_count(marked);
        assert(marked.take(i) + marked.skip(i) =~= marked);
        assert(marked.take(j) + marked.skip(j) =~= marked);
        crate::laws::text::law_utf16_units_add_up(marked.take(i), marked.skip(i), 'a');
        crate::laws::text::law_utf16_units_add_up(marked.take(j), marked.skip(j), 'a');
        crate::laws::ime::law_parts_by_offset(marked, i, j);
        if j == marked.len() {
            assert(marked.take(j) =~= marked);
        }
        let part = ((found->0).1->0)@;
        text::lemma_encoding_injective(part, marked.subrange(i, j));
    }
}

/// The candidates of an input method stand at the cursor, counted from zero, behind the cells of the
/// composition before them.
pub proof fn law_candidates_at_the_cursor<F, L, K>(
    view: &TerminalView<F, L, K>,
    range: Range<usize>,
    col: u16,
    row: u16,
    at: Option<CellPosition>,
)
    requires
        call_ensures(
            TerminalView::<F, L, K>::cells_for_range,
            (view, range, Some((col, row))),
            at,
        ),
    ensures
        at matches Some(at) && {
            &&& col >= 1 ==> at.col == col - 1
            &&& col == 0 ==> at.col == 0
            &&& row >= 1 ==> at.row == row - 1
            &&& row == 0 ==> at.row == 0
            &&& view@.marked_text is None ==> at.offset == range.start
            &&& view@.marked_text matches Some(marked) ==> {
                let before = cells::cells_before_utf16(
                    cells::measured(marked),
                    range.start as int,
                );
                before <= usize::MAX ==> at.offset == before
            }
        },
{
}

/// Text that is typed goes to the program as it is, and empty text does nothing.
pub proof fn law_typed_text<F, L, K>(
    view: &mut TerminalView<F, L, K>,
    typed: &str,
    todo: Vec<Effect>,
)
    requires
        call_ensures(TerminalView::<F, L, K>::commit_text, (view, typed), todo),
    ensures
        typed@.len() == 0 ==> effect::effects(todo@).len() == 0 && final(view)@ == old(view)@,
        typed@.len() > 0 && old(view)@.has_input ==> effect::effects(todo@) == seq![
            EffectView::Send(encode_utf8(typed@)),
        ] && final(view)@ == old(view)@,
        typed@.len() > 0 && !old(view)@.has_input ==> effect::effects(todo@).len() == 3
            && effect::effects(todo@)[0] == EffectView::Feed(encode_utf8(typed@))
            && final(view)@.pending_refresh,
{
}

/// When the input method ends a composition, nothing of it is left, and the next end is no commit's.
pub proof fn law_ended_compositions<F, L, K>(view: &mut TerminalView<F, L, K>, todo: Vec<Effect>)
    requires
        call_ensures(TerminalView::<F, L, K>::unmark_text, (view,), todo),
    ensures
        final(view)@ == (ViewModel {
            marked_text: None,
            marked_selection: (0, 0),
            ime_unmark_from_commit: false,
            ..old(view)@
        }),
        effect::effects(todo@) == seq![EffectView::Notify],
{
}

} // verus!
