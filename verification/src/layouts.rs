//! Which lines have to be shaped before they can be drawn.

use crate::cells;
use crate::rows;
use crate::spans;
use crate::spans::TextSpan;
use crate::text;
use crate::view;
use crate::view::{LineLayout, TerminalView, ViewModel};
use vstd::prelude::*;

verus! {

/// What a line is shaped from.
#[derive(Debug, PartialEq, Eq)]
pub struct LineShape {
    pub text: String,
    pub spans: Vec<TextSpan>,
    /// Whether every character gets the width of a cell.
    pub fixed_width: bool,
}

/// Whether a line is not shaped yet, or shaped with another text.
pub open spec fn is_stale<F, L, K>(m: ViewModel<F, L, K>, row: int) -> bool {
    match m.layouts[row] {
        Some((shaped_text, _)) => shaped_text != m.lines[row],
        None => true,
    }
}

/// The rows that have to be shaped, from the first to the last.
pub open spec fn stale_rows<F, L, K>(m: ViewModel<F, L, K>) -> Seq<usize> {
    Seq::new(m.lines.len(), |i: int| i as usize).filter(|row: usize| is_stale(m, row as int))
}

/// The state in which lines can be shaped with the parameters `key`. Lines that were shaped with
/// other parameters are forgotten, and so are those of a viewport of another height.
pub open spec fn prepared_model<F, L, K>(
    m: ViewModel<F, L, K>,
    key: K,
    key_is_current: bool,
) -> ViewModel<F, L, K> {
    if m.lines.len() == 0 {
        ViewModel { layouts: Seq::empty(), layout_key: None, ..m }
    } else if !key_is_current || m.layouts.len() != m.lines.len() {
        ViewModel {
            layouts: Seq::new(m.lines.len(), |i: int| None),
            layout_key: Some(key),
            ..m
        }
    } else {
        m
    }
}

/// The state after a line was shaped.
pub open spec fn shaped_model<F, L, K>(m: ViewModel<F, L, K>, row: int, shaped: L) -> ViewModel<
    F,
    L,
    K,
> {
    ViewModel { layouts: m.layouts.update(row, Some((m.lines[row], shaped))), ..m }
}

impl<F, L, K> TerminalView<F, L, K> {
    /// Prepares the lines for being shaped with the parameters `key`, and tells which of them have
    /// to be. `key_is_current` says whether the shaped lines were shaped with these parameters.
    pub fn prepare_line_layouts(&mut self, key: K, key_is_current: bool) -> (stale: Vec<usize>)
        requires
            old(self).wf(),
        ensures
            final(self).wf(),
            final(self)@ == prepared_model(old(self)@, key, key_is_current),
            stale@ == stale_rows(final(self)@),
    {
        let count = self.viewport_lines.len();
        if count == 0 {
            self.line_layouts = Vec::new();
            self.line_layout_key = None;
            assert(view::layout_views(self.line_layouts@) =~= Seq::<
                Option<(Seq<char>, L)>,
            >::empty());
        } else if !key_is_current || self.line_layouts.len() != count {
            self.line_layout_key = Some(key);
            self.line_layouts = rows::blank_layouts(count);
            assert(view::layout_views(self.line_layouts@) =~= Seq::new(
                old(self)@.lines.len(),
                |i: int| None::<(Seq<char>, L)>,
            ));
        }
        let ghost m = self@;
        let ghost all = Seq::new(m.lines.len(), |i: int| i as usize);
        let ghost wanted = |row: usize| is_stale(m, row as int);
        let mut stale: Vec<usize> = Vec::new();
        let mut i: usize = 0;
        assert(all.take(0) =~= Seq::<usize>::empty());
        assert(all.take(0).filter(wanted) =~= Seq::<usize>::empty()) by {
            reveal(Seq::filter);
        }
        while i < count
            invariant
                self.wf(),
                self@ == m,
                count == m.lines.len() == m.layouts.len(),
                all == Seq::new(m.lines.len(), |i: int| i as usize),
                wanted == (|row: usize| is_stale(m, row as int)),
                i <= count,
                stale@ == all.take(i as int).filter(wanted),
            decreases count - i,
        {
            proof {
                reveal(Seq::filter);
                assert(all.take(i + 1).drop_last() =~= all.take(i as int));
                assert(all.take(i + 1).last() == i);
                assert(m.layouts[i as int] == view::layout_view(self.line_layouts@[i as int]));
                assert(m.lines[i as int] == self.viewport_lines@[i as int]@);
            }
            let fresh = match &self.line_layouts[i] {
                Some(layout) => text::str_eq(layout.text.as_str(), self.viewport_lines[i].as_str()),
                None => false,
            };
            if !fresh {
                stale.push(i);
            }
            i = i + 1;
        }
        assert(all.take(count as int) =~= all);
        stale
    }

    /// What a line is shaped from. In a font whose characters are all equally wide, each gets the
    /// width of a cell, unless one of the line is wider than a cell.
    pub fn line_shape(&self, row: usize, is_monospace: bool) -> (shape: LineShape)
        requires
            row < self@.lines.len(),
        ensures
            shape.text@ == self@.lines[row as int],
            shape.spans@ == spans::line_spans(
                cells::measured(self@.lines[row as int]),
                spans::runs_of_row(self@.style_runs, row as int),
            ),
            shape.fixed_width == (is_monospace && !cells::has_wide(
                cells::measured(self@.lines[row as int]),
            )),
    {
        let line = self.viewport_lines[row].as_str();
        proof {
            cells::lemma_chars_measured(line@);
        }
        let bytes = line.as_bytes().len();
        assert(bytes == text::byte_len(line@));
        let chars = cells::measure(line);
        let spans = if row < self.viewport_style_runs.len() {
            spans::spans_of_line(&chars, &self.viewport_style_runs[row])
        } else {
            let none = Vec::new();
            spans::spans_of_line(&chars, &none)
        };
        let fixed_width = is_monospace && !cells::has_wide_char(&chars);
        LineShape { text: line.to_string(), spans, fixed_width }
    }

    /// A line was shaped.
    pub fn set_line_layout(&mut self, row: usize, shaped: L)
        requires
            old(self).wf(),
            row < old(self)@.lines.len(),
            row < old(self)@.layouts.len(),
        ensures
            final(self).wf(),
            final(self)@ == shaped_model(old(self)@, row as int, shaped),
    {
        let text = self.viewport_lines[row].as_str().to_string();
        self.line_layouts[row] = Some(LineLayout { text, shaped });
        assert(view::layout_views(self.line_layouts@) =~= shaped_model(
            old(self)@,
            row as int,
            shaped,
        ).layouts);
    }
}

/// A line that was shaped does not have to be shaped again, and shaping it leaves all others as
/// they are.
pub proof fn law_shaping_settles<F, L, K>(m: ViewModel<F, L, K>, row: int, shaped: L, other: int)
    requires
        0 <= row < m.layouts.len(),
        0 <= other < m.layouts.len(),
        other != row,
    ensures
        !is_stale(shaped_model(m, row, shaped), row),
        is_stale(shaped_model(m, row, shaped), other) == is_stale(m, other),
{
}

/// Once all lines that had to be shaped are shaped, none is left to be.
pub proof fn law_all_shaped<F, L, K>(m: ViewModel<F, L, K>)
    requires
        m.lines.len() <= usize::MAX,
    ensures
        (forall|row: int| 0 <= row < m.lines.len() ==> !is_stale(m, row)) <==> stale_rows(m)
            == Seq::<usize>::empty(),
{
    let all = Seq::new(m.lines.len(), |i: int| i as usize);
    let wanted = |row: usize| is_stale(m, row as int);
    if forall|row: int| 0 <= row < m.lines.len() ==> !is_stale(m, row) {
        if stale_rows(m).len() > 0 {
            all.lemma_filter_pred(wanted, 0);
            assert(stale_rows(m).contains(stale_rows(m)[0]));
            assert(all.contains(stale_rows(m)[0])) by {
                all.lemma_filter_contains_rev(wanted, stale_rows(m)[0]);
            }
        }
        assert(stale_rows(m) =~= Seq::<usize>::empty());
    }
    if stale_rows(m) == Seq::<usize>::empty() {
        assert forall|row: int| 0 <= row < m.lines.len() implies !is_stale(m, row) by {
            if is_stale(m, row) {
                assert(all[row] == row);
                all.lemma_filter_contains(wanted, row);
                assert(stale_rows(m).contains(all[row]));
            }
        }
    }
}

/// The state after several lines were shaped, one after the other, each with its shape.
pub open spec fn pass_model<F, L, K>(m: ViewModel<F, L, K>, rows: Seq<usize>, shapes: Seq<L>) -> ViewModel<
    F,
    L,
    K,
>
    decreases rows.len(),
{
    if rows.len() == 0 {
        m
    } else {
        shaped_model(
            pass_model(m, rows.drop_last(), shapes),
            rows.last() as int,
            shapes[rows.len() - 1],
        )
    }
}

/// Shaping every line that has to be shaped completes the lines: each is shaped with its own text,
/// those that had to be shaped have the shapes that were made for them, and all else is as it was.
pub proof fn law_pass_completes<F, L, K>(m: ViewModel<F, L, K>, shapes: Seq<L>)
    requires
        m.layouts.len() == m.lines.len() <= usize::MAX,
        shapes.len() == stale_rows(m).len(),
    ensures
        ({
            let stale = stale_rows(m);
            let done = pass_model(m, stale, shapes);
            &&& done == (ViewModel { layouts: done.layouts, ..m })
            &&& done.layouts.len() == m.lines.len()
            &&& forall|row: int|
                0 <= row < m.lines.len() ==> (#[trigger] done.layouts[row]) is Some && (
                done.layouts[row]->0).0 == m.lines[row]
            &&& forall|k: int|
                0 <= k < stale.len() ==> done.layouts[(#[trigger] stale[k]) as int] == Some(
                    (m.lines[stale[k] as int], shapes[k]),
                )
            &&& forall|row: int|
                0 <= row < m.lines.len() && !is_stale(m, row) ==> #[trigger] done.layouts[row]
                    == m.layouts[row]
            &&& stale_rows(done) == Seq::<usize>::empty()
        }),
{
    let stale = stale_rows(m);
    let done = pass_model(m, stale, shapes);
    lemma_stale_rows(m);
    lemma_pass(m, stale, shapes);
    assert forall|row: int| 0 <= row < m.lines.len() implies (#[trigger] done.layouts[row]) is Some
        && (done.layouts[row]->0).0 == m.lines[row] by {
        if is_stale(m, row) {
            assert(stale.contains(row as usize));
            let k = choose|k: int| 0 <= k < stale.len() && stale[k] == row as usize;
            assert(done.layouts[stale[k] as int] == Some((m.lines[stale[k] as int], shapes[k])));
        } else {
            assert(!stale.contains(row as usize));
        }
    }
    assert forall|row: int| 0 <= row < m.lines.len() && !is_stale(m, row) implies #[trigger]
        done.layouts[row] == m.layouts[row] by {
        assert(!stale.contains(row as usize));
    }
    assert forall|row: int| 0 <= row < done.lines.len() implies !is_stale(done, row) by {
        assert(done.layouts[row] is Some);
    }
    law_all_shaped(done);
}

proof fn lemma_pass<F, L, K>(m: ViewModel<F, L, K>, rows: Seq<usize>, shapes: Seq<L>)
    requires
        m.layouts.len() == m.lines.len(),
        rows.len() <= shapes.len(),
        forall|k: int| 0 <= k < rows.len() ==> (#[trigger] rows[k]) < m.lines.len(),
        forall|j: int, k: int| 0 <= j < k < rows.len() ==> (#[trigger] rows[j]) < (#[trigger] rows[k]),
    ensures
        ({
            let done = pass_model(m, rows, shapes);
            &&& done == (ViewModel { layouts: done.layouts, ..m })
            &&& done.layouts.len() == m.lines.len()
            &&& forall|k: int|
                0 <= k < rows.len() ==> done.layouts[(#[trigger] rows[k]) as int] == Some(
                    (m.lines[rows[k] as int], shapes[k]),
                )
            &&& forall|row: int|
                0 <= row < m.lines.len() && !rows.contains(row as usize) ==> #[trigger] done.layouts[row]
                    == m.layouts[row]
        }),
    decreases rows.len(),
{
    if rows.len() > 0 {
        let front = rows.drop_last();
        let last = rows.len() - 1;
        let before = pass_model(m, front, shapes);
        let done = pass_model(m, rows, shapes);
        lemma_pass(m, front, shapes);
        assert forall|k: int| 0 <= k < rows.len() implies done.layouts[(#[trigger] rows[k]) as int]
            == Some((m.lines[rows[k] as int], shapes[k])) by {
            if k < last {
                assert(front[k] == rows[k]);
                assert(rows[k] < rows[last]);
            }
        }
        assert forall|row: int|
            0 <= row < m.lines.len() && !rows.contains(row as usize) implies #[trigger] done.layouts[row]
            == m.layouts[row] by {
            assert(rows.contains(rows[last]));
            if front.contains(row as usize) {
                let k = choose|k: int| 0 <= k < front.len() && front[k] == row as usize;
                assert(rows[k] == row as usize);
            }
            assert(before.layouts[row] == m.layouts[row]);
        }
    }
}

/// The rows that have to be shaped come in order, and are exactly the stale ones.
pub proof fn lemma_stale_rows<F, L, K>(m: ViewModel<F, L, K>)
    requires
        m.lines.len() <= usize::MAX,
    ensures
        forall|k: int|
            0 <= k < stale_rows(m).len() ==> (#[trigger] stale_rows(m)[k]) < m.lines.len(),
        forall|j: int, k: int|
            0 <= j < k < stale_rows(m).len() ==> (#[trigger] stale_rows(m)[j]) < (
            #[trigger] stale_rows(m)[k]),
        forall|row: int|
            0 <= row < m.lines.len() ==> is_stale(m, row) == #[trigger] stale_rows(m).contains(
                row as usize,
            ),
{
    let all = Seq::new(m.lines.len(), |i: int| i as usize);
    let wanted = |row: usize| is_stale(m, row as int);
    lemma_filtered_rows(all, wanted);
    assert forall|row: int| 0 <= row < m.lines.len() implies is_stale(m, row)
        == #[trigger] stale_rows(m).contains(row as usize) by {
        assert(all[row] == row);
        if is_stale(m, row) {
            all.lemma_filter_contains(wanted, row);
        }
        if stale_rows(m).contains(row as usize) {
            let k = choose|k: int| 0 <= k < stale_rows(m).len() && stale_rows(m)[k] == row as usize;
            all.lemma_filter_pred(wanted, k);
        }
    }
}

proof fn lemma_filtered_rows(all: Seq<usize>, wanted: spec_fn(usize) -> bool)
    requires
        forall|i: int| 0 <= i < all.len() ==> #[trigger] all[i] == i,
    ensures
        forall|k: int|
            0 <= k < all.filter(wanted).len() ==> (#[trigger] all.filter(wanted)[k]) < all.len(),
        forall|j: int, k: int|
            0 <= j < k < all.filter(wanted).len() ==> (#[trigger] all.filter(wanted)[j]) < (
            #[trigger] all.filter(wanted)[k]),
    decreases all.len(),
{
    reveal(Seq::filter);
    if all.len() > 0 {
        let front = all.drop_last();
        lemma_filtered_rows(front, wanted);
        assert(all.last() == all[all.len() - 1]);
        let rows = all.filter(wanted);
        assert forall|k: int| 0 <= k < rows.len() implies (#[trigger] rows[k]) < all.len() by {
            if k < front.filter(wanted).len() {
                assert(rows[k] == front.filter(wanted)[k]);
            }
        }
        assert forall|j: int, k: int| 0 <= j < k < rows.len() implies (#[trigger] rows[j]) < (
        #[trigger] rows[k]) by {
            assert(rows[j] == front.filter(wanted)[j]);
            if k < front.filter(wanted).len() {
                assert(rows[k] == front.filter(wanted)[k]);
            }
        }
    }
}

/// A scroll keeps the work of shaping: a line that stays visible does not have to be shaped again
/// in its new row.
pub proof fn law_scroll_keeps_shaped_lines<F, L, K>(m: ViewModel<F, L, K>, delta: int, row: int)
    requires
        m.layouts.len() == m.lines.len(),
        0 <= row < m.lines.len(),
        0 <= row + delta < m.lines.len(),
    ensures
        is_stale(rows::shifted_model(m, delta), row) == is_stale(m, row + delta),
{
}

/// A row that was read from the session again has to be shaped again, also where only its style
/// changed.
pub proof fn law_dumped_rows_are_stale<F, L, K>(
    m: ViewModel<F, L, K>,
    dumps: Seq<rows::RowDump>,
    i: int,
)
    requires
        0 <= i < dumps.len(),
        dumps[i].row < m.layouts.len(),
    ensures
        is_stale(rows::dumped_model(m, dumps), dumps[i].row as int),
{
    lemma_forgotten(m.layouts, rows::layout_edits(dumps), i);
}

proof fn lemma_forgotten<L>(
    layouts: Seq<Option<(Seq<char>, L)>>,
    edits: Seq<(int, Option<(Seq<char>, L)>)>,
    i: int,
)
    requires
        0 <= i < edits.len(),
        forall|j: int| 0 <= j < edits.len() ==> (#[trigger] edits[j]).1 is None,
        0 <= edits[i].0 < layouts.len(),
    ensures
        rows::patched(layouts, edits).len() == layouts.len(),
        rows::patched(layouts, edits)[edits[i].0] is None,
    decreases edits.len(),
{
    lemma_patched_len(layouts, edits.drop_last());
    if i < edits.len() - 1 {
        lemma_forgotten(layouts, edits.drop_last(), i);
    }
}

proof fn lemma_patched_len<T>(rows: Seq<T>, edits: Seq<(int, T)>)
    ensures
        rows::patched(rows, edits).len() == rows.len(),
    decreases edits.len(),
{
    if edits.len() > 0 {
        lemma_patched_len(rows, edits.drop_last());
    }
}

} // verus!
