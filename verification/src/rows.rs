//! Keeping the rows of the viewport up to date with the session.

use crate::style::StyleRun;
use crate::text;
use crate::view;
use crate::view::{ByteSelection, LineLayout, TerminalView, ViewModel};
use crate::viewport;
use vstd::prelude::*;
use vstd::utf8::*;

verus! {

/// What has to be read from the session before the viewport is up to date.
#[derive(Debug, PartialEq, Eq)]
pub enum RowsPlan {
    /// Nothing has to be read.
    Nothing,
    /// The whole viewport has to be read.
    Refresh,
    /// These rows have to be read, counted from 0.
    Dump(Vec<u16>),
}

/// A row as the session gave it. The line is absent where the session failed to give it.
#[derive(Debug, PartialEq, Eq)]
pub struct RowDump {
    pub row: u16,
    pub line: Option<String>,
    pub style_runs: Option<Vec<StyleRun>>,
}

/// The styles of a row, none where the session failed to give them.
pub open spec fn runs_or_none(runs: Option<Vec<StyleRun>>) -> Seq<StyleRun> {
    match runs {
        Some(runs) => runs@,
        None => Seq::empty(),
    }
}

/// The styles of all rows.
pub open spec fn all_runs(rows: Seq<Option<Vec<StyleRun>>>) -> Seq<Seq<StyleRun>> {
    Seq::new(rows.len(), |i: int| runs_or_none(rows[i]))
}

/// Rows that moved up by `delta`, or down where it is negative. Rows that enter are blank.
pub open spec fn shifted<T>(rows: Seq<T>, delta: int, blank: T) -> Seq<T> {
    Seq::new(
        rows.len(),
        |i: int|
            if 0 <= i + delta < rows.len() {
                rows[i + delta]
            } else {
                blank
            },
    )
}

/// The rows, counted from 0, that enter a viewport of `rows` rows that moves by `delta`.
pub open spec fn entering_rows(rows: int, delta: int) -> Seq<u16> {
    if delta > 0 {
        Seq::new(delta as nat, |i: int| (rows - delta + i) as u16)
    } else {
        Seq::new((-delta) as nat, |i: int| i as u16)
    }
}

/// Whether a scroll can be shown by moving the rows that stay visible.
pub open spec fn can_shift<F, L, K>(m: ViewModel<F, L, K>, delta: int, rows: int) -> bool {
    &&& m.lines.len() == rows
    &&& m.style_runs.len() == rows
    &&& -rows < delta < rows
}

/// The state after the rows of the viewport moved by `delta`.
pub open spec fn shifted_model<F, L, K>(m: ViewModel<F, L, K>, delta: int) -> ViewModel<F, L, K> {
    ViewModel {
        lines: shifted(m.lines, delta, Seq::empty()),
        style_runs: shifted(m.style_runs, delta, Seq::empty()),
        layouts: if m.layouts.len() == m.lines.len() {
            shifted(m.layouts, delta, None)
        } else {
            m.layouts
        },
        ..m
    }
}

/// Rows with some of them replaced, one after the other. Replacements past the last row do
/// nothing.
pub open spec fn patched<T>(rows: Seq<T>, edits: Seq<(int, T)>) -> Seq<T>
    decreases edits.len(),
{
    if edits.len() == 0 {
        rows
    } else {
        let front = patched(rows, edits.drop_last());
        let (row, value) = edits.last();
        if 0 <= row < front.len() {
            front.update(row, value)
        } else {
            front
        }
    }
}

pub open spec fn line_edits(dumps: Seq<RowDump>) -> Seq<(int, Seq<char>)> {
    Seq::new(
        dumps.len(),
        |i: int|
            (
                dumps[i].row as int,
                match dumps[i].line {
                    Some(line) => viewport::without_line_end(line@),
                    None => Seq::empty(),
                },
            ),
    )
}

pub open spec fn run_edits(dumps: Seq<RowDump>) -> Seq<(int, Seq<StyleRun>)> {
    Seq::new(dumps.len(), |i: int| (dumps[i].row as int, runs_or_none(dumps[i].style_runs)))
}

pub open spec fn layout_edits<L>(dumps: Seq<RowDump>) -> Seq<(int, Option<(Seq<char>, L)>)> {
    Seq::new(dumps.len(), |i: int| (dumps[i].row as int, None))
}

/// Whether the session gave every line that was asked for.
pub open spec fn all_given(dumps: Seq<RowDump>) -> bool {
    forall|i: int| 0 <= i < dumps.len() ==> (#[trigger] dumps[i]).line is Some
}

/// The state after rows were read from the session: they hold what was read, have to be shaped
/// again, and nothing is selected.
pub open spec fn dumped_model<F, L, K>(m: ViewModel<F, L, K>, dumps: Seq<RowDump>) -> ViewModel<
    F,
    L,
    K,
> {
    ViewModel {
        lines: patched(m.lines, line_edits(dumps)),
        style_runs: patched(m.style_runs, run_edits(dumps)),
        layouts: patched(m.layouts, layout_edits(dumps)),
        selection: None,
        ..m
    }
}

/// The rows among `dirty` that a viewport of `rows` rows has.
pub open spec fn rows_in_range(dirty: Seq<u16>, rows: int) -> Seq<u16> {
    dirty.filter(|row: u16| row < rows)
}

/// Moves rows by `delta`; `blanks` are the rows that enter.
fn shift_rows<T>(rows: &mut Vec<T>, delta: i32, blanks: Vec<T>)
    requires
        -old(rows)@.len() <= delta <= old(rows)@.len(),
        blanks@.len() == if delta < 0 {
            -delta
        } else {
            delta as int
        },
    ensures
        final(rows)@ == if delta < 0 {
            blanks@ + old(rows)@.take(old(rows)@.len() + delta)
        } else {
            old(rows)@.skip(delta as int) + blanks@
        },
{
    let mut blanks = blanks;
    if delta >= 0 {
        let mut kept = rows.split_off(delta as usize);
        kept.append(&mut blanks);
        std::mem::swap(&mut kept, rows);
    } else {
        let count = blanks.len();
        rows.truncate(rows.len() - count);
        blanks.append(rows);
        std::mem::swap(&mut blanks, rows);
    }
}

fn blank_lines(count: usize) -> (blanks: Vec<String>)
    ensures
        blanks@.len() == count,
        forall|i: int| 0 <= i < count ==> (#[trigger] blanks@[i])@ == Seq::<char>::empty(),
{
    let mut blanks: Vec<String> = Vec::new();
    while blanks.len() < count
        invariant
            blanks@.len() <= count,
            forall|i: int|
                0 <= i < blanks@.len() ==> (#[trigger] blanks@[i])@ == Seq::<char>::empty(),
        decreases count - blanks.len(),
    {
        blanks.push(String::new());
    }
    blanks
}

fn blank_runs(count: usize) -> (blanks: Vec<Vec<StyleRun>>)
    ensures
        blanks@.len() == count,
        forall|i: int| 0 <= i < count ==> (#[trigger] blanks@[i])@ == Seq::<StyleRun>::empty(),
{
    let mut blanks: Vec<Vec<StyleRun>> = Vec::new();
    while blanks.len() < count
        invariant
            blanks@.len() <= count,
            forall|i: int|
                0 <= i < blanks@.len() ==> (#[trigger] blanks@[i])@ == Seq::<StyleRun>::empty(),
        decreases count - blanks.len(),
    {
        blanks.push(Vec::new());
    }
    blanks
}

pub(crate) fn blank_layouts<L>(count: usize) -> (blanks: Vec<Option<LineLayout<L>>>)
    ensures
        blanks@.len() == count,
        forall|i: int| 0 <= i < count ==> #[trigger] blanks@[i] is None,
{
    let mut blanks: Vec<Option<LineLayout<L>>> = Vec::new();
    while blanks.len() < count
        invariant
            blanks@.len() <= count,
            forall|i: int| 0 <= i < blanks@.len() ==> #[trigger] blanks@[i] is None,
        decreases count - blanks.len(),
    {
        blanks.push(None);
    }
    blanks
}

impl<F, L, K> TerminalView<F, L, K> {
    /// Computes the offsets and the total length of the lines anew.
    fn index_lines(&mut self)
        requires
            old(self)@.valid(),
        ensures
            final(self).wf(),
            final(self)@ == old(self)@,
    {
        self.viewport_line_offsets = viewport::compute_viewport_line_offsets(&self.viewport_lines);
        self.viewport_total_len = viewport::compute_viewport_total_len(&self.viewport_lines);
    }

    /// Takes over a whole viewport that was read from the session. What the session failed to give
    /// is empty.
    pub fn refresh_viewport(
        &mut self,
        viewport: Option<String>,
        style_runs: Vec<Option<Vec<StyleRun>>>,
    )
        requires
            old(self).wf(),
        ensures
            final(self).wf(),
            final(self)@ == (ViewModel {
                lines: viewport::dump_lines(
                    match view::opt_text(viewport) {
                        Some(dump) => dump,
                        None => Seq::empty(),
                    },
                ),
                style_runs: all_runs(style_runs@),
                layouts: Seq::<Option<(Seq<char>, L)>>::empty(),
                layout_key: None::<K>,
                selection: None::<ByteSelection>,
                ..old(self)@
            }),
    {
        let dump = match viewport {
            Some(dump) => dump,
            None => String::new(),
        };
        self.viewport_lines = viewport::split_viewport_lines(dump.as_str());
        let mut rows: Vec<Vec<StyleRun>> = Vec::new();
        let ghost given = style_runs@;
        let mut i: usize = 0;
        let mut style_runs = style_runs;
        while i < style_runs.len()
            invariant
                i <= style_runs.len(),
                style_runs@.len() == given.len(),
                forall|j: int| i <= j < given.len() ==> #[trigger] style_runs@[j] == given[j],
                rows@.len() == i,
                forall|j: int| 0 <= j < i ==> (#[trigger] rows@[j])@ == runs_or_none(given[j]),
            decreases style_runs.len() - i,
        {
            let mut taken: Option<Vec<StyleRun>> = None;
            std::mem::swap(&mut taken, &mut style_runs[i]);
            assert(taken == given[i as int]);
            rows.push(
                match taken {
                    Some(runs) => runs,
                    None => Vec::new(),
                },
            );
            i = i + 1;
        }
        assert(view::style_rows(rows@) =~= all_runs(given));
        self.viewport_style_runs = rows;
        self.line_layouts = Vec::new();
        assert(view::layout_views(self.line_layouts@) =~= Seq::<Option<(Seq<char>, L)>>::empty());
        self.line_layout_key = None;
        self.selection = None;
        self.index_lines();
    }
}

impl<F, L, K> TerminalView<F, L, K> {
    /// Shows that the session scrolled by `delta` lines: the rows that stay visible move, and the
    /// rows that enter have to be read.
    pub fn apply_viewport_scroll_delta(&mut self, delta: i32, rows: u16) -> (plan: RowsPlan)
        requires
            old(self).wf(),
        ensures
            final(self).wf(),
            if delta == 0 || rows == 0 {
                final(self)@ == old(self)@ && plan is Nothing
            } else if !can_shift(old(self)@, delta as int, rows as int) {
                final(self)@ == old(self)@ && plan is Refresh
            } else {
                final(self)@ == shifted_model(old(self)@, delta as int) && (plan matches RowsPlan::Dump(
                    entering,
                ) && entering@ == entering_rows(rows as int, delta as int))
            },
    {
        if delta == 0 || rows == 0 {
            return RowsPlan::Nothing;
        }
        let rows_i = rows as i32;
        if self.viewport_lines.len() != rows as usize || self.viewport_style_runs.len()
            != rows as usize || delta >= rows_i || delta <= -rows_i {
            return RowsPlan::Refresh;
        }
        let count: usize = if delta < 0 {
            (-delta) as usize
        } else {
            delta as usize
        };
        let ghost m = self@;
        let blanks = blank_lines(count);
        shift_rows(&mut self.viewport_lines, delta, blanks);
        assert(view::texts(self.viewport_lines@) =~= shifted(m.lines, delta as int, Seq::empty()));
        let blanks = blank_runs(count);
        shift_rows(&mut self.viewport_style_runs, delta, blanks);
        assert(view::style_rows(self.viewport_style_runs@) =~= shifted(
            m.style_runs,
            delta as int,
            Seq::empty(),
        ));
        if self.line_layouts.len() == rows as usize {
            let blanks = blank_layouts(count);
            shift_rows(&mut self.line_layouts, delta, blanks);
            assert(view::layout_views(self.line_layouts@) =~= shifted(
                m.layouts,
                delta as int,
                None,
            ));
        }
        self.index_lines();
        let first: u16 = if delta > 0 {
            rows - count as u16
        } else {
            0
        };
        let mut entering: Vec<u16> = Vec::new();
        while entering.len() < count
            invariant
                entering@.len() <= count,
                count == if delta < 0 {
                    -delta
                } else {
                    delta as int
                },
                -rows < delta < rows,
                first == if delta > 0 {
                    rows - delta
                } else {
                    0
                },
                forall|i: int|
                    0 <= i < entering@.len() ==> #[trigger] entering@[i] == (first + i) as u16,
            decreases count - entering.len(),
        {
            entering.push(first + entering.len() as u16);
        }
        assert(entering@ =~= entering_rows(rows as int, delta as int));
        RowsPlan::Dump(entering)
    }

    /// What has to be read because the session changed some rows.
    pub fn plan_dirty_viewport_rows(&self, dirty_rows: &[u16], rows: u16) -> (plan: RowsPlan)
        ensures
            if dirty_rows@.len() == 0 {
                plan is Nothing
            } else if self@.lines.len() != rows || self@.style_runs.len() != rows {
                plan is Refresh
            } else {
                plan matches RowsPlan::Dump(dump) && dump@ == rows_in_range(
                    dirty_rows@,
                    rows as int,
                )
            },
    {
        if dirty_rows.len() == 0 {
            return RowsPlan::Nothing;
        }
        if self.viewport_lines.len() != rows as usize || self.viewport_style_runs.len()
            != rows as usize {
            return RowsPlan::Refresh;
        }
        let mut dump: Vec<u16> = Vec::new();
        let mut i: usize = 0;
        let ghost in_range = |row: u16| row < rows as int;
        assert(dirty_rows@.take(0) =~= Seq::<u16>::empty());
        assert(dirty_rows@.take(0).filter(in_range) =~= Seq::<u16>::empty()) by {
            reveal(Seq::filter);
        }
        while i < dirty_rows.len()
            invariant
                i <= dirty_rows.len(),
                in_range == (|row: u16| row < rows as int),
                dump@ == dirty_rows@.take(i as int).filter(in_range),
            decreases dirty_rows.len() - i,
        {
            proof {
                reveal(Seq::filter);
                assert(dirty_rows@.take(i + 1).drop_last() =~= dirty_rows@.take(i as int));
                assert(dirty_rows@.take(i + 1).last() == dirty_rows@[i as int]);
            }
            if dirty_rows[i] < rows {
                dump.push(dirty_rows[i]);
            }
            i = i + 1;
        }
        assert(dirty_rows@.take(i as int) =~= dirty_rows@);
        RowsPlan::Dump(dump)
    }

    /// Takes over rows that were read from the session. Returns whether that was possible: where
    /// the session failed to give a line, nothing changes and the whole viewport has to be read.
    pub fn apply_dirty_viewport_rows(&mut self, dumps: Vec<RowDump>) -> (applied: bool)
        requires
            old(self).wf(),
        ensures
            final(self).wf(),
            applied == all_given(dumps@),
            final(self)@ == if all_given(dumps@) {
                dumped_model(old(self)@, dumps@)
            } else {
                old(self)@
            },
    {
        let ghost given = dumps@;
        let ghost m = self@;
        let mut i: usize = 0;
        while i < dumps.len()
            invariant
                i <= dumps.len(),
                dumps@ == given,
                *self == *old(self),
                self.wf(),
                forall|j: int| 0 <= j < i ==> (#[trigger] given[j]).line is Some,
            decreases dumps.len() - i,
        {
            if dumps[i].line.is_none() {
                return false;
            }
            i = i + 1;
        }
        let mut dumps = dumps;
        i = 0;
        assert(line_edits(given).take(0) =~= Seq::empty());
        assert(run_edits(given).take(0) =~= Seq::empty());
        assert(layout_edits::<L>(given).take(0) =~= Seq::empty());
        while i < dumps.len()
            invariant
                i <= dumps.len(),
                dumps@.len() == given.len(),
                all_given(given),
                forall|j: int| i <= j < given.len() ==> #[trigger] dumps@[j] == given[j],
                self@ == (ViewModel {
                    lines: patched(m.lines, line_edits(given).take(i as int)),
                    style_runs: patched(m.style_runs, run_edits(given).take(i as int)),
                    layouts: patched(m.layouts, layout_edits::<L>(given).take(i as int)),
                    ..m
                }),
            decreases dumps.len() - i,
        {
            let row = dumps[i].row as usize;
            let mut line: Option<String> = None;
            let mut style_runs: Option<Vec<StyleRun>> = None;
            assert(dumps@[i as int] == given[i as int]);
            std::mem::swap(&mut line, &mut dumps[i].line);
            std::mem::swap(&mut style_runs, &mut dumps[i].style_runs);
            assert(line == given[i as int].line);
            assert(style_runs == given[i as int].style_runs);
            proof {
                assert(line_edits(given).take(i + 1).drop_last() =~= line_edits(given).take(
                    i as int,
                ));
                assert(run_edits(given).take(i + 1).drop_last() =~= run_edits(given).take(i as int));
                assert(layout_edits::<L>(given).take(i + 1).drop_last() =~= layout_edits::<L>(
                    given,
                ).take(i as int));
            }
            let ghost now = self@;
            let line = match line {
                Some(line) => line,
                None => String::new(),
            };
            let line = strip_line_end(line);
            if row < self.viewport_lines.len() {
                self.viewport_lines[row] = line;
                assert(view::texts(self.viewport_lines@) =~= now.lines.update(
                    row as int,
                    line_edits(given)[i as int].1,
                ));
            }
            if row < self.viewport_style_runs.len() {
                self.viewport_style_runs[row] = match style_runs {
                    Some(runs) => runs,
                    None => Vec::new(),
                };
                assert(view::style_rows(self.viewport_style_runs@) =~= now.style_runs.update(
                    row as int,
                    run_edits(given)[i as int].1,
                ));
            }
            if row < self.line_layouts.len() {
                self.line_layouts[row] = None;
                assert(view::layout_views(self.line_layouts@) =~= now.layouts.update(
                    row as int,
                    None,
                ));
            }
            i = i + 1;
        }
        assert(line_edits(given).take(i as int) =~= line_edits(given));
        assert(run_edits(given).take(i as int) =~= run_edits(given));
        assert(layout_edits::<L>(given).take(i as int) =~= layout_edits::<L>(given));
        self.selection = None;
        self.index_lines();
        true
    }
}

impl<F, L, K> TerminalView<F, L, K> {
    /// Takes over rows that were read from the session, and tells what has to be read beyond them:
    /// the whole viewport where the session failed to give a line.
    pub fn take_rows(&mut self, dumps: Vec<RowDump>) -> (plan: RowsPlan)
        requires
            old(self).wf(),
        ensures
            final(self).wf(),
            all_given(dumps@) ==> plan is Nothing && final(self)@ == dumped_model(
                old(self)@,
                dumps@,
            ),
            !all_given(dumps@) ==> plan is Refresh && final(self)@ == old(self)@,
    {
        if self.apply_dirty_viewport_rows(dumps) {
            RowsPlan::Nothing
        } else {
            RowsPlan::Refresh
        }
    }
}

/// A line without the line feed at its end, if it has one.
fn strip_line_end(line: String) -> (stripped: String)
    ensures
        stripped@ == viewport::without_line_end(line@),
{
    let content = line.as_str();
    let bytes = content.as_bytes();
    if bytes.len() == 0 {
        return line;
    }
    let ghost s = line@;
    proof {
        assert(s.len() > 0);
        text::lemma_last_byte_line_feed(s);
        text::lemma_byte_len_concat(s.drop_last(), seq![s.last()]);
        assert(s.drop_last() + seq![s.last()] =~= s);
        text::lemma_prefix_is_boundary(s.drop_last(), seq![s.last()]);
        encode_utf8_valid_utf8(s);
        is_char_boundary_start_end_of_seq(encode_utf8(s));
    }
    if bytes[bytes.len() - 1] != 0x0a {
        return line;
    }
    let last = bytes.len() - 1;
    match text::byte_slice(content, 0, last) {
        Some(part) => {
            proof {
                assert(encode_utf8(s).subrange(0, last as int) =~= encode_utf8(s.drop_last()));
                text::lemma_encoding_injective(part@, s.drop_last());
            }
            part.to_string()
        },
        None => String::new(),
    }
}

/// Whether edits write into rows what `after` holds there.
pub open spec fn edits_from<T>(edits: Seq<(int, T)>, after: Seq<T>) -> bool {
    forall|k: int|
        0 <= k < edits.len() ==> 0 <= (#[trigger] edits[k]).0 < after.len() && edits[k].1
            == after[edits[k].0]
}

/// Whether some edit names a row.
pub open spec fn names_row<T>(edits: Seq<(int, T)>, row: int) -> bool {
    exists|k: int| 0 <= k < edits.len() && (#[trigger] edits[k]).0 == row
}

proof fn lemma_patched_keeps<T>(rows: Seq<T>, edits: Seq<(int, T)>, row: int)
    requires
        0 <= row < rows.len(),
        !names_row(edits, row),
    ensures
        patched(rows, edits).len() == rows.len(),
        patched(rows, edits)[row] == rows[row],
    decreases edits.len(),
{
    if edits.len() > 0 {
        assert(!names_row(edits.drop_last(), row)) by {
            if names_row(edits.drop_last(), row) {
                let k = choose|k: int|
                    0 <= k < edits.drop_last().len() && (#[trigger] edits.drop_last()[k]).0 == row;
                assert(edits[k].0 == row);
            }
        }
        lemma_patched_keeps(rows, edits.drop_last(), row);
        assert(edits[edits.len() - 1].0 != row);
    }
}

proof fn lemma_patched<T>(rows: Seq<T>, edits: Seq<(int, T)>, after: Seq<T>, row: int)
    requires
        rows.len() == after.len(),
        edits_from(edits, after),
        0 <= row < rows.len(),
    ensures
        patched(rows, edits).len() == rows.len(),
        patched(rows, edits)[row] == if names_row(edits, row) {
            after[row]
        } else {
            rows[row]
        },
    decreases edits.len(),
{
    if edits.len() > 0 {
        let front = edits.drop_last();
        assert(edits_from(front, after)) by {
            assert forall|k: int| 0 <= k < front.len() implies 0 <= (#[trigger] front[k]).0
                < after.len() && front[k].1 == after[front[k].0] by {
                assert(front[k] == edits[k]);
            }
        }
        lemma_patched(rows, front, after, row);
        assert(edits.last() == edits[edits.len() - 1]);
        if names_row(front, row) {
            let k = choose|k: int| 0 <= k < front.len() && (#[trigger] front[k]).0 == row;
            assert(edits[k].0 == row);
        } else if names_row(edits, row) {
            let k = choose|k: int| 0 <= k < edits.len() && (#[trigger] edits[k]).0 == row;
            if k < front.len() {
                assert(front[k].0 == row);
            }
        }
    }
}

/// Where every row that differs is replaced, the rows are those that were wanted.
proof fn lemma_patched_suffices<T>(before: Seq<T>, after: Seq<T>, edits: Seq<(int, T)>)
    requires
        before.len() == after.len(),
        edits_from(edits, after),
        forall|i: int|
            0 <= i < before.len() && #[trigger] before[i] != after[i] ==> names_row(edits, i),
    ensures
        patched(before, edits) == after,
{
    assert forall|i: int| 0 <= i < before.len() implies patched(before, edits)[i] == after[i] by {
        lemma_patched(before, edits, after, i);
        assert(before[i] == after[i] || before[i] != after[i]);
    }
    if before.len() > 0 {
        lemma_patched(before, edits, after, 0);
    } else {
        assert(edits.len() == 0) by {
            if edits.len() > 0 {
                assert(0 <= edits[0].0 < after.len());
            }
        }
    }
    assert(patched(before, edits) =~= after);
}

/// Scrolling there and back restores every row that stayed visible.
pub proof fn law_scroll_back<F, L, K>(m: ViewModel<F, L, K>, delta: int, row: int)
    requires
        0 <= row < m.lines.len(),
        0 <= row - delta < m.lines.len(),
    ensures
        ({
            let back = shifted_model(shifted_model(m, delta), -delta);
            &&& back.lines[row] == m.lines[row]
            &&& m.style_runs.len() == m.lines.len() ==> back.style_runs[row] == m.style_runs[row]
            &&& m.layouts.len() == m.lines.len() ==> back.layouts[row] == m.layouts[row]
            &&& m.layouts.len() != m.lines.len() ==> back.layouts == m.layouts
        }),
{
}

/// Reading rows leaves all other rows as they were.
pub proof fn law_other_rows_stay<F, L, K>(m: ViewModel<F, L, K>, dumps: Seq<RowDump>, row: int)
    requires
        0 <= row,
        !reads_row(dumps, row),
    ensures
        row < m.lines.len() ==> dumped_model(m, dumps).lines[row] == m.lines[row],
        row < m.style_runs.len() ==> dumped_model(m, dumps).style_runs[row] == m.style_runs[row],
        row < m.layouts.len() ==> dumped_model(m, dumps).layouts[row] == m.layouts[row],
{
    let texts = line_edits(dumps);
    let runs = run_edits(dumps);
    let layouts = layout_edits::<L>(dumps);
    assert(!names_row(texts, row) && !names_row(runs, row) && !names_row(layouts, row)) by {
        assert forall|k: int| 0 <= k < dumps.len() implies (#[trigger] texts[k]).0 != row && (
        #[trigger] runs[k]).0 != row && (#[trigger] layouts[k]).0 != row by {
            assert(dumps[k].row != row);
        }
    }
    if row < m.lines.len() {
        lemma_patched_keeps(m.lines, texts, row);
    }
    if row < m.style_runs.len() {
        lemma_patched_keeps(m.style_runs, runs, row);
    }
    if row < m.layouts.len() {
        lemma_patched_keeps(m.layouts, layouts, row);
    }
}

/// Whether rows that were read hold what a session shows in `lines` and `style_runs`.
pub open spec fn read_from(
    dumps: Seq<RowDump>,
    lines: Seq<Seq<char>>,
    style_runs: Seq<Seq<StyleRun>>,
) -> bool {
    forall|k: int|
        0 <= k < dumps.len() ==> {
            let row = (#[trigger] dumps[k]).row as int;
            &&& row < lines.len()
            &&& dumps[k].line is Some
            &&& viewport::without_line_end((dumps[k].line->0)@) == lines[row]
            &&& runs_or_none(dumps[k].style_runs) == style_runs[row]
        }
}

/// Whether some row that was read is a given one.
pub open spec fn reads_row(dumps: Seq<RowDump>, row: int) -> bool {
    exists|k: int| 0 <= k < dumps.len() && (#[trigger] dumps[k]).row == row
}

/// Reading the rows that changed does what reading the whole viewport would do: the view shows the
/// lines and the styles of the session.
pub proof fn law_changed_rows_are_enough<F, L, K>(
    m: ViewModel<F, L, K>,
    dumps: Seq<RowDump>,
    lines: Seq<Seq<char>>,
    style_runs: Seq<Seq<StyleRun>>,
)
    requires
        m.lines.len() == lines.len(),
        m.style_runs.len() == lines.len(),
        style_runs.len() == lines.len(),
        read_from(dumps, lines, style_runs),
        forall|i: int|
            0 <= i < lines.len() && (#[trigger] m.lines[i] != lines[i] || m.style_runs[i]
                != style_runs[i]) ==> reads_row(dumps, i),
    ensures
        all_given(dumps),
        dumped_model(m, dumps).lines == lines,
        dumped_model(m, dumps).style_runs == style_runs,
{
    let texts = line_edits(dumps);
    let runs = run_edits(dumps);
    assert(edits_from(texts, lines)) by {
        assert forall|k: int| 0 <= k < texts.len() implies 0 <= (#[trigger] texts[k]).0
            < lines.len() && texts[k].1 == lines[texts[k].0] by {
            assert(dumps[k].row < lines.len());
        }
    }
    assert(edits_from(runs, style_runs)) by {
        assert forall|k: int| 0 <= k < runs.len() implies 0 <= (#[trigger] runs[k]).0
            < style_runs.len() && runs[k].1 == style_runs[runs[k].0] by {
            assert(dumps[k].row < lines.len());
        }
    }
    assert forall|i: int| 0 <= i < lines.len() && reads_row(dumps, i) implies names_row(texts, i)
        && names_row(runs, i) by {
        let k = choose|k: int| 0 <= k < dumps.len() && (#[trigger] dumps[k]).row == i;
        assert(texts[k].0 == i);
        assert(runs[k].0 == i);
    }
    assert forall|i: int| 0 <= i < lines.len() && #[trigger] m.style_runs[i]
        != style_runs[i] implies names_row(runs, i) by {
        assert(m.lines[i] == lines[i] || m.lines[i] != lines[i]);
        assert(reads_row(dumps, i));
    }
    lemma_patched_suffices(m.lines, lines, texts);
    lemma_patched_suffices(m.style_runs, style_runs, runs);
}

/// After a scroll, moving the rows that stay visible and reading those that enter does what reading
/// the whole viewport would do.
pub proof fn law_entering_rows_are_enough<F, L, K>(
    m: ViewModel<F, L, K>,
    delta: int,
    dumps: Seq<RowDump>,
    lines: Seq<Seq<char>>,
    style_runs: Seq<Seq<StyleRun>>,
)
    requires
        lines.len() <= u16::MAX,
        style_runs.len() == lines.len(),
        can_shift(m, delta, lines.len() as int),
        forall|i: int|
            0 <= i < lines.len() && 0 <= i + delta < lines.len() ==> #[trigger] lines[i]
                == m.lines[i + delta] && style_runs[i] == m.style_runs[i + delta],
        read_from(dumps, lines, style_runs),
        dumps.len() == entering_rows(lines.len() as int, delta).len(),
        forall|k: int|
            0 <= k < dumps.len() ==> (#[trigger] dumps[k]).row == entering_rows(
                lines.len() as int,
                delta,
            )[k],
    ensures
        dumped_model(shifted_model(m, delta), dumps).lines == lines,
        dumped_model(shifted_model(m, delta), dumps).style_runs == style_runs,
{
    let moved = shifted_model(m, delta);
    let n = lines.len() as int;
    let entering = entering_rows(n, delta);
    assert forall|i: int|
        0 <= i < n && (#[trigger] moved.lines[i] != lines[i] || moved.style_runs[i]
            != style_runs[i]) implies reads_row(dumps, i) by {
        if 0 <= i + delta < n {
            assert(lines[i] == m.lines[i + delta]);
        }
        let k = if delta > 0 {
            i - (n - delta)
        } else {
            i
        };
        assert(0 <= k < entering.len());
        assert(entering[k] == i);
        assert(dumps[k].row == i);
    }
    law_changed_rows_are_enough(moved, dumps, lines, style_runs);
}

} // verus!
