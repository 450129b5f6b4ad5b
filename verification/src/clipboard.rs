//! Copying from the viewport.

use crate::effect;
use crate::effect::{Effect, EffectView};
use crate::mouse;
use crate::text;
use crate::view::{ByteSelection, TerminalView, ViewModel};
use crate::viewport;
use vstd::prelude::*;
use vstd::utf8::*;

verus! {

broadcast use crate::effect::group_effects;

/// The text that a copy takes: what is selected, or the whole viewport where that is nothing.
pub open spec fn copied_text(lines: Seq<Seq<char>>, selection: Option<ByteSelection>) -> Seq<char> {
    let selected = match selection {
        Some(selection) => viewport::selected_text(lines, selection.start(), selection.end()),
        None => Seq::empty(),
    };
    if selected.len() > 0 {
        selected
    } else {
        viewport::selected_text(lines, 0, viewport::total_len(lines))
    }
}

/// The selection of the whole viewport.
pub open spec fn whole_viewport(lines: Seq<Seq<char>>) -> ByteSelection {
    ByteSelection { anchor: 0, active: viewport::total_len(lines) as usize }
}

impl<F, L, K> TerminalView<F, L, K> {
    /// Copies what is selected.
    pub fn on_copy(&self) -> (todo: Vec<Effect>)
        requires
            self.wf(),
        ensures
            effect::effects(todo@) == seq![
                EffectView::Copy(copied_text(self@.lines, self@.selection)),
            ],
    {
        let mut copied = String::new();
        if let Some(selection) = self.selection {
            copied = self.viewport_slice(selection.range());
        }
        if copied.as_str().is_empty() {
            copied = self.viewport_slice(0..self.viewport_total_len);
        }
        let mut todo: Vec<Effect> = Vec::new();
        todo.push(Effect::Copy(copied));
        todo
    }

    /// Selects the whole viewport and copies it.
    pub fn on_select_all(&mut self) -> (todo: Vec<Effect>)
        requires
            old(self).wf(),
        ensures
            final(self).wf(),
            final(self)@ == (ViewModel {
                selection: Some(whole_viewport(old(self)@.lines)),
                ..old(self)@
            }),
            effect::effects(todo@) == seq![
                EffectView::Copy(
                    copied_text(old(self)@.lines, Some(whole_viewport(old(self)@.lines))),
                ),
                EffectView::Notify,
            ],
    {
        self.selection = Some(ByteSelection { anchor: 0, active: self.viewport_total_len });
        let mut todo = self.on_copy();
        todo.push(Effect::Notify);
        todo
    }
}

/// Selecting everything copies every line, each with a line feed at its end, and so does a copy
/// without a selection.
pub proof fn law_copy_everything(lines: Seq<Seq<char>>)
    requires
        viewport::line_start(lines, lines.len() as int) <= usize::MAX,
    ensures
        copied_text(lines, Some(whole_viewport(lines))) == viewport::joined(
            lines,
            lines.len() as int,
        ),
        copied_text(lines, None) == viewport::joined(lines, lines.len() as int),
{
    viewport::law_whole_selection(lines);
}

/// A copy takes exactly the selected bytes, in whichever direction they were selected.
pub proof fn law_copy_is_the_selection(lines: Seq<Seq<char>>, selection: ByteSelection)
    requires
        viewport::line_start(lines, lines.len() as int) <= usize::MAX,
        selection.anchor != selection.active,
        text::is_text_range(
            viewport::joined(lines, lines.len() as int),
            selection.start(),
            selection.end(),
        ),
    ensures
        encode_utf8(copied_text(lines, Some(selection))) == encode_utf8(
            viewport::joined(lines, lines.len() as int),
        ).subrange(selection.start(), selection.end()),
        copied_text(
            lines,
            Some(ByteSelection { anchor: selection.active, active: selection.anchor }),
        ) == copied_text(lines, Some(selection)),
{
    viewport::law_selection_is_substring(lines, selection.start(), selection.end());
    let selected = viewport::selected_text(lines, selection.start(), selection.end());
    if selected.len() == 0 {
        assert(encode_utf8(selected).len() == 0);
    }
}

/// A drag from one place to another selects, and a copy then takes, exactly the bytes between them.
pub proof fn law_drag_copies_what_it_covers(lines: Seq<Seq<char>>, from: usize, to: usize)
    requires
        viewport::line_start(lines, lines.len() as int) <= usize::MAX,
        from < to,
        text::is_text_range(viewport::joined(lines, lines.len() as int), from as int, to as int),
    ensures
        ({
            let bytes = encode_utf8(viewport::joined(lines, lines.len() as int)).subrange(
                from as int,
                to as int,
            );
            let pressed_first = Some(ByteSelection { anchor: from, active: from });
            let pressed_last = Some(ByteSelection { anchor: to, active: to });
            &&& encode_utf8(
                copied_text(lines, mouse::dragged_selection(pressed_first, Some(to))),
            ) == bytes
            &&& encode_utf8(
                copied_text(lines, mouse::dragged_selection(pressed_last, Some(from))),
            ) == bytes
        }),
{
    law_copy_is_the_selection(lines, ByteSelection { anchor: from, active: to });
}

} // verus!
