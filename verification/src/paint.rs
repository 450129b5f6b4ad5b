//! What is drawn over and under the text: backgrounds, the selection, boxes, the composition and
//! the cursor.

use crate::boxes;
use crate::cells;
use crate::cells::MeasuredChar;
use crate::spans;
use crate::style;
use crate::style::{Rgb, Shade, StyleRun, TextRunKey};
use crate::text;
use crate::view;
use crate::view::{ByteSelection, TerminalView, ViewModel};
use crate::viewport;
use vstd::prelude::*;

verus! {

/// Cells of a row that are filled with a colour, with rows and columns counted from 0.
#[derive(Clone, Copy, Debug, PartialEq, Eq, Structural)]
pub struct CellFill {
    pub row: usize,
    pub col: u16,
    pub width: u16,
    pub color: u32,
}

/// Bytes of a shaped line that are selected.
#[derive(Clone, Copy, Debug, PartialEq, Eq, Structural)]
pub struct SelectionSegment {
    pub row: usize,
    pub start: usize,
    pub end: usize,
}

/// A box drawing character in a cell, with rows and columns counted from 0. Without a key it has
/// the default colour.
#[derive(Clone, Copy, Debug, PartialEq, Eq, Structural)]
pub struct BoxGlyph {
    pub row: usize,
    pub col: usize,
    pub ch: char,
    pub key: Option<TextRunKey>,
}

/// The composition as it is drawn at the cursor, with the cell of the cursor counted from 0.
#[derive(Debug, PartialEq, Eq)]
pub struct MarkedOverlay {
    pub text: String,
    pub col: u16,
    pub row: u16,
    /// The number of cells behind which the background is drawn.
    pub cells: usize,
    pub background: u32,
    /// Whether every character gets the width of a cell.
    pub fixed_width: bool,
}

/// The cursor, before a byte of a shaped line.
#[derive(Clone, Copy, Debug, PartialEq, Eq, Structural)]
pub struct CursorMark {
    pub row: usize,
    pub byte: usize,
    pub shade: Shade,
}

/// A number of columns or rows from 1 counted from 0.
pub open spec fn from_zero(n: u16) -> u16 {
    if n == 0 {
        0
    } else {
        (n - 1) as u16
    }
}

/// The number of columns of a run.
pub open spec fn run_width(run: StyleRun) -> u16 {
    if run.end_col <= run.start_col {
        1
    } else if run.end_col - run.start_col == u16::MAX {
        u16::MAX
    } else {
        (run.end_col - run.start_col + 1) as u16
    }
}

/// The cells that a run fills, where its background is not the default one.
pub open spec fn fill_of(row: int, run: StyleRun, default_bg: Rgb) -> Option<CellFill> {
    if run.bg == default_bg {
        None
    } else {
        Some(
            CellFill {
                row: row as usize,
                col: from_zero(run.start_col),
                width: run_width(run),
                color: style::opaque_rgba(run.bg) as u32,
            },
        )
    }
}

/// The cells that the runs of the first `n` rows fill, row by row.
pub open spec fn fills_of_rows(rows: Seq<Seq<StyleRun>>, n: int, default_bg: Rgb) -> Seq<CellFill>
    decreases n,
{
    if n <= 0 {
        Seq::empty()
    } else {
        fills_of_rows(rows, n - 1, default_bg) + rows[n - 1].filter_map(
            |run: StyleRun| fill_of(n - 1, run, default_bg),
        )
    }
}

/// Whether a run has a column.
pub open spec fn has_column(run: StyleRun, col: u16) -> bool {
    run.start_col <= col <= run.end_col
}

/// The background of the first of the runs that has a column, and the default one where none has.
pub open spec fn background_of(runs: Seq<StyleRun>, col: u16, default_bg: Rgb) -> Rgb
    decreases runs.len(),
{
    if runs.len() == 0 {
        default_bg
    } else if has_column(runs[0], col) {
        runs[0].bg
    } else {
        background_of(runs.drop_first(), col, default_bg)
    }
}

pub open spec fn clamp(n: int, low: int, high: int) -> int {
    if n > high {
        high
    } else if n < low {
        low
    } else {
        n
    }
}

/// The length in bytes of a line as it was shaped.
pub open spec fn shaped_len<L>(layout: Option<(Seq<char>, L)>) -> int {
    match layout {
        Some((shaped_text, _)) => text::byte_len(shaped_text) as int,
        None => 0,
    }
}

/// The bytes of a shaped line that a byte range of the viewport selects.
pub open spec fn segment_of<F, L, K>(m: ViewModel<F, L, K>, row: int, start: int, end: int) -> Option<
    SelectionSegment,
> {
    let line_start = text::saturated(viewport::line_start(m.lines, row) as int);
    let line_end = text::saturated(line_start + shaped_len(m.layouts[row]));
    let from = clamp(start, line_start, line_end);
    let to = clamp(end, line_start, line_end);
    if from < to {
        Some(
            SelectionSegment {
                row: row as usize,
                start: (from - line_start) as usize,
                end: (to - line_start) as usize,
            },
        )
    } else {
        None
    }
}

/// The selected bytes of the first `n` shaped lines.
pub open spec fn segments_of_rows<F, L, K>(
    m: ViewModel<F, L, K>,
    n: int,
    start: int,
    end: int,
) -> Seq<SelectionSegment>
    decreases n,
{
    if n <= 0 {
        Seq::empty()
    } else {
        let front = segments_of_rows(m, n - 1, start, end);
        match segment_of(m, n - 1, start, end) {
            Some(segment) => front.push(segment),
            None => front,
        }
    }
}

/// The number of shaped lines that have a line of the viewport.
pub open spec fn shaped_rows<F, L, K>(m: ViewModel<F, L, K>) -> int {
    if m.layouts.len() <= m.lines.len() {
        m.layouts.len() as int
    } else {
        m.lines.len() as int
    }
}

/// The selected bytes of all shaped lines.
pub open spec fn segments<F, L, K>(m: ViewModel<F, L, K>) -> Seq<SelectionSegment> {
    match m.selection {
        Some(selection) => if selection.start() < selection.end() {
            segments_of_rows(m, shaped_rows(m), selection.start(), selection.end())
        } else {
            Seq::empty()
        },
        None => Seq::empty(),
    }
}

impl<F, L, K> TerminalView<F, L, K> {
    /// The cells that have another background than the default one.
    pub fn background_fills(&self, default_bg: Rgb) -> (fills: Vec<CellFill>)
        ensures
            fills@ == fills_of_rows(
                self@.style_runs,
                self@.style_runs.len() as int,
                default_bg,
            ),
    {
        let ghost all = self@.style_runs;
        let mut fills: Vec<CellFill> = Vec::new();
        let mut row: usize = 0;
        while row < self.viewport_style_runs.len()
            invariant
                row <= self.viewport_style_runs.len(),
                all == self@.style_runs,
                fills@ == fills_of_rows(all, row as int, default_bg),
            decreases self.viewport_style_runs.len() - row,
        {
            let runs = &self.viewport_style_runs[row];
            let ghost before = fills@;
            let ghost fill = |run: StyleRun| fill_of(row as int, run, default_bg);
            let mut i: usize = 0;
            assert(all[row as int] == runs@);
            assert(runs@.take(0) =~= Seq::<StyleRun>::empty());
            assert(before + runs@.take(0).filter_map(fill) =~= before);
            while i < runs.len()
                invariant
                    i <= runs.len(),
                    fill == (|run: StyleRun| fill_of(row as int, run, default_bg)),
                    fills@ == before + runs@.take(i as int).filter_map(fill),
                decreases runs.len() - i,
            {
                let run = runs[i];
                let ghost now = fills@;
                proof {
                    runs@.lemma_filter_map_take_succ(fill, i as int);
                }
                if run.bg != default_bg {
                    fills.push(
                        CellFill {
                            row,
                            col: run.start_col.saturating_sub(1),
                            width: run.end_col.saturating_sub(run.start_col).saturating_add(1),
                            color: style::packed_rgba(run.bg),
                        },
                    );
                }
                i = i + 1;
                assert(fills@ =~= before + runs@.take(i as int).filter_map(fill));
            }
            assert(runs@.take(i as int) =~= runs@);
            row = row + 1;
            assert(fills@ =~= fills_of_rows(all, row as int, default_bg));
        }
        fills
    }

    /// The background of a cell, with its column and row counted from 1.
    pub fn background_at(&self, col: u16, row: u16, default_bg: Rgb) -> (background: Rgb)
        ensures
            background == background_of(
                spans::runs_of_row(self@.style_runs, from_zero(row) as int),
                col,
                default_bg,
            ),
    {
        let row_index = row.saturating_sub(1) as usize;
        if row_index >= self.viewport_style_runs.len() {
            return default_bg;
        }
        let runs = &self.viewport_style_runs[row_index];
        let mut i: usize = 0;
        assert(runs@.skip(0) =~= runs@);
        while i < runs.len()
            invariant
                i <= runs.len(),
                runs@ == spans::runs_of_row(self@.style_runs, from_zero(row) as int),
                background_of(runs@, col, default_bg) == background_of(
                    runs@.skip(i as int),
                    col,
                    default_bg,
                ),
            decreases runs.len() - i,
        {
            let run = runs[i];
            assert(runs@.skip(i as int).drop_first() =~= runs@.skip(i + 1));
            if col >= run.start_col && col <= run.end_col {
                return run.bg;
            }
            i = i + 1;
        }
        default_bg
    }

    /// The bytes of the shaped lines that are selected.
    pub fn selection_segments(&self) -> (found: Vec<SelectionSegment>)
        requires
            self.wf(),
        ensures
            found@ == segments(self@),
    {
        let mut found: Vec<SelectionSegment> = Vec::new();
        let selection = match self.selection {
            Some(selection) => selection,
            None => {
                return found;
            },
        };
        let range = selection.range();
        if range.start >= range.end {
            return found;
        }
        let mut row: usize = 0;
        while row < self.line_layouts.len() && row < self.viewport_line_offsets.len()
            invariant
                self.wf(),
                row <= shaped_rows(self@),
                range.start < range.end,
                found@ == segments_of_rows(
                    self@,
                    row as int,
                    range.start as int,
                    range.end as int,
                ),
            decreases self.line_layouts.len() - row,
        {
            assert(self@.layouts[row as int] == view::layout_view(self.line_layouts@[row as int]));
            let len = match &self.line_layouts[row] {
                Some(layout) => layout.text.as_str().as_bytes().len(),
                None => 0,
            };
            let line_start = self.viewport_line_offsets[row];
            let line_end = line_start.saturating_add(len);
            let seg_start = clamp_to(range.start, line_start, line_end);
            let seg_end = clamp_to(range.end, line_start, line_end);
            if seg_start < seg_end {
                found.push(
                    SelectionSegment {
                        row,
                        start: seg_start - line_start,
                        end: seg_end - line_start,
                    },
                );
            }
            row = row + 1;
        }
        found
    }
}

fn clamp_to(n: usize, low: usize, high: usize) -> (clamped: usize)
    requires
        low <= high,
    ensures
        clamped == clamp(n as int, low as int, high as int),
{
    if n > high {
        high
    } else if n < low {
        low
    } else {
        n
    }
}

/// The first run from `idx` on that does not end before a column.
pub open spec fn next_run(runs: Seq<StyleRun>, idx: int, col: u16) -> int
    decreases runs.len() - idx,
{
    if idx >= runs.len() || col <= runs[idx].end_col {
        idx
    } else {
        next_run(runs, idx + 1, col)
    }
}

/// The key of a run, where there is such a run and it has the column.
pub open spec fn key_in_column(runs: Seq<StyleRun>, idx: int, col: u16) -> Option<TextRunKey> {
    if 0 <= idx < runs.len() && has_column(runs[idx], col) {
        Some(style::run_key(runs[idx]))
    } else {
        None
    }
}

/// A column as style runs count it, in 16 bits.
pub open spec fn style_column(col: int) -> u16 {
    (col % 0x10000) as u16
}

/// The box drawing characters of a stretch of a line that begins in column `col`, with the runs
/// before `idx` left behind. Columns are counted from 1.
pub open spec fn glyphs_from(
    row: int,
    line: Seq<MeasuredChar>,
    runs: Seq<StyleRun>,
    col: int,
    idx: int,
) -> Seq<BoxGlyph>
    decreases line.len(),
{
    if line.len() == 0 {
        Seq::empty()
    } else {
        let next = text::saturated(col + line[0].1);
        if line[0].1 > 0 && boxes::arms(line[0].0) is Some {
            let run = next_run(runs, idx, style_column(col));
            seq![
                BoxGlyph {
                    row: row as usize,
                    col: (col - 1) as usize,
                    ch: line[0].0,
                    key: key_in_column(runs, run, style_column(col)),
                },
            ] + glyphs_from(row, line.drop_first(), runs, next, run)
        } else {
            glyphs_from(row, line.drop_first(), runs, next, idx)
        }
    }
}

/// The box drawing characters of a line with the styles of its row.
pub open spec fn glyphs_of_line(row: int, line: Seq<MeasuredChar>, runs: Seq<StyleRun>) -> Seq<
    BoxGlyph,
> {
    glyphs_from(row, line, runs, 1, 0)
}

/// The box drawing characters of the first `n` lines.
pub open spec fn glyphs_of_rows(
    lines: Seq<Seq<char>>,
    style_runs: Seq<Seq<StyleRun>>,
    n: int,
) -> Seq<BoxGlyph>
    decreases n,
{
    if n <= 0 {
        Seq::empty()
    } else {
        glyphs_of_rows(lines, style_runs, n - 1) + glyphs_of_line(
            n - 1,
            cells::measured(lines[n - 1]),
            spans::runs_of_row(style_runs, n - 1),
        )
    }
}

/// The first run from `from` on that does not end before a column.
fn advance_run(runs: &Vec<StyleRun>, from: usize, col: u16) -> (idx: usize)
    requires
        from <= runs@.len(),
    ensures
        idx <= runs@.len(),
        idx == next_run(runs@, from as int, col),
{
    let mut idx = from;
    while idx < runs.len() && col > runs[idx].end_col
        invariant
            idx <= runs@.len(),
            next_run(runs@, from as int, col) == next_run(runs@, idx as int, col),
        decreases runs.len() - idx,
    {
        idx = idx + 1;
    }
    idx
}

/// The box drawing characters of a line with the styles of its row.
pub fn box_glyphs_of_line(row: usize, line: &Vec<MeasuredChar>, runs: &Vec<StyleRun>) -> (glyphs:
    Vec<BoxGlyph>)
    ensures
        glyphs@ == glyphs_of_line(row as int, line@, runs@),
{
    let ghost all = line@;
    let mut glyphs: Vec<BoxGlyph> = Vec::new();
    let mut run_idx: usize = 0;
    let mut col: usize = 1;
    let mut i: usize = 0;
    proof {
        assert(all.skip(0) =~= all);
        assert(glyphs@ + glyphs_of_line(row as int, all, runs@) =~= glyphs_of_line(
            row as int,
            all,
            runs@,
        ));
    }
    while i < line.len()
        invariant
            all == line@,
            i <= all.len(),
            col >= 1,
            run_idx <= runs@.len(),
            glyphs@ + glyphs_from(
                row as int,
                all.skip(i as int),
                runs@,
                col as int,
                run_idx as int,
            ) == glyphs_of_line(row as int, all, runs@),
        decreases line.len() - i,
    {
        let ghost rest = all.skip(i as int);
        let ghost before = glyphs@;
        let ghost from = (col as int, run_idx as int);
        assert(rest.drop_first() =~= all.skip(i + 1));
        let ch = line[i].0;
        let width = line[i].1;
        if width > 0 && boxes::box_drawing_mask(ch).is_some() {
            let style_col = col as u16;
            assert(style_col == (col % 0x10000) as u16) by (bit_vector)
                requires
                    style_col == col as u16,
            ;
            run_idx = advance_run(runs, run_idx, style_col);
            let key = if run_idx < runs.len() && style_col >= runs[run_idx].start_col && style_col
                <= runs[run_idx].end_col {
                Some(style::text_run_key(&runs[run_idx]))
            } else {
                None
            };
            glyphs.push(BoxGlyph { row, col: col - 1, ch, key });
        }
        col = col.saturating_add(width);
        i = i + 1;
        assert(glyphs@ + glyphs_from(
            row as int,
            rest.drop_first(),
            runs@,
            col as int,
            run_idx as int,
        ) =~= before + glyphs_from(row as int, rest, runs@, from.0, from.1));
    }
    proof {
        assert(all.skip(all.len() as int) =~= Seq::<MeasuredChar>::empty());
        assert(glyphs@ + Seq::<BoxGlyph>::empty() =~= glyphs@);
    }
    glyphs
}

impl<F, L, K> TerminalView<F, L, K> {
    /// The box drawing characters of the viewport.
    pub fn box_glyphs(&self) -> (glyphs: Vec<BoxGlyph>)
        ensures
            glyphs@ == glyphs_of_rows(self@.lines, self@.style_runs, self@.lines.len() as int),
    {
        let none: Vec<StyleRun> = Vec::new();
        let mut glyphs: Vec<BoxGlyph> = Vec::new();
        let mut row: usize = 0;
        while row < self.viewport_lines.len()
            invariant
                none@ == Seq::<StyleRun>::empty(),
                row <= self.viewport_lines.len(),
                glyphs@ == glyphs_of_rows(self@.lines, self@.style_runs, row as int),
            decreases self.viewport_lines.len() - row,
        {
            let line = cells::measure(self.viewport_lines[row].as_str());
            let mut more = if row < self.viewport_style_runs.len() {
                box_glyphs_of_line(row, &line, &self.viewport_style_runs[row])
            } else {
                box_glyphs_of_line(row, &line, &none)
            };
            assert(line@ == cells::measured(self@.lines[row as int]));
            glyphs.append(&mut more);
            row = row + 1;
        }
        glyphs
    }

    /// The composition as it is drawn at the cursor, on the background of the cursor's cell.
    pub fn marked_overlay(
        &self,
        cursor: Option<(u16, u16)>,
        is_monospace: bool,
        default_bg: Rgb,
    ) -> (overlay: Option<MarkedOverlay>)
        requires
            self.wf(),
        ensures
            match (self@.marked_text, cursor) {
                (Some(marked), Some((col, row))) => {
                    &&& overlay is Some
                    &&& (overlay->0).text@ == marked
                    &&& (overlay->0).col == from_zero(col)
                    &&& (overlay->0).row == from_zero(row)
                    &&& (overlay->0).cells == if cells::cell_count(cells::measured(marked)) == 0 {
                        1
                    } else {
                        text::saturated(cells::cell_count(cells::measured(marked)) as int)
                    }
                    &&& (overlay->0).background == style::opaque_rgba(
                        background_of(
                            spans::runs_of_row(self@.style_runs, from_zero(row) as int),
                            col,
                            default_bg,
                        ),
                    )
                    &&& (overlay->0).fixed_width == (is_monospace && !cells::has_wide(
                        cells::measured(marked),
                    ))
                },
                _ => overlay is None,
            },
    {
        let marked = match &self.marked_text {
            Some(marked) => marked.as_str(),
            None => {
                return None;
            },
        };
        let (col, row) = match cursor {
            Some(position) => position,
            None => {
                return None;
            },
        };
        let chars = cells::measure(marked);
        let mut cells = cells::count_cells(&chars);
        if cells < 1 {
            cells = 1;
        }
        let background = self.background_at(col, row, default_bg);
        Some(
            MarkedOverlay {
                text: marked.to_string(),
                col: col.saturating_sub(1),
                row: row.saturating_sub(1),
                cells,
                background: style::packed_rgba(background),
                fixed_width: is_monospace && !cells::has_wide_char(&chars),
            },
        )
    }

    /// The cursor, where it is drawn: only with the focus, while it blinks on, and in a shaped row.
    pub fn cursor_mark(&self, focused: bool, cursor: Option<(u16, u16)>, default_bg: Rgb) -> (mark:
        Option<CursorMark>)
        ensures
            match cursor {
                Some((col, row)) => {
                    let at = from_zero(row) as int;
                    &&& mark is Some <==> focused && self@.cursor_blink_visible && at
                        < self@.layouts.len()
                    &&& mark is Some ==> {
                        &&& (mark->0).row == at
                        &&& (mark->0).byte == match self@.layouts[at] {
                            Some((shaped_text, _)) => cells::byte_of_column(
                                cells::measured(shaped_text),
                                col as int,
                            ) as int,
                            None => 0,
                        }
                        &&& (mark->0).shade == style::cursor_shade(
                            background_of(
                                spans::runs_of_row(self@.style_runs, at),
                                col,
                                default_bg,
                            ),
                        )
                    }
                },
                None => mark is None,
            },
    {
        if !focused || !self.cursor_blink_visible {
            return None;
        }
        let (col, row) = match cursor {
            Some(position) => position,
            None => {
                return None;
            },
        };
        let row_index = row.saturating_sub(1) as usize;
        if row_index >= self.line_layouts.len() {
            return None;
        }
        assert(self@.layouts[row_index as int] == view::layout_view(
            self.line_layouts@[row_index as int],
        ));
        let byte = match &self.line_layouts[row_index] {
            Some(layout) => cells::byte_index_for_column_in_line(layout.text.as_str(), col),
            None => 0,
        };
        let background = self.background_at(col, row, default_bg);
        Some(
            CursorMark {
                row: row_index,
                byte,
                shade: style::cursor_color_for_background(background),
            },
        )
    }
}

/// The cells that a run fills are those of its columns.
pub proof fn law_fill_covers_the_run(row: int, run: StyleRun, default_bg: Rgb, col: u16)
    requires
        1 <= run.start_col <= run.end_col,
        1 <= col,
    ensures
        fill_of(row, run, default_bg) is None <==> run.bg == default_bg,
        fill_of(row, run, default_bg) matches Some(fill) ==> {
            &&& fill.col <= col - 1 < fill.col + fill.width <==> has_column(run, col)
            &&& fill.color == style::opaque_rgba(run.bg)
        },
{
}

/// Whether a byte of a shaped line lies in one of some segments.
pub open spec fn is_highlighted(found: Seq<SelectionSegment>, row: int, at: int) -> bool {
    exists|i: int|
        0 <= i < found.len() && (#[trigger] found[i]).row == row && found[i].start <= at
            < found[i].end
}

pub proof fn lemma_segments<F, L, K>(
    m: ViewModel<F, L, K>,
    n: int,
    start: int,
    end: int,
    row: int,
    at: int,
)
    requires
        0 <= n <= usize::MAX,
        0 <= row,
    ensures
        forall|i: int|
            0 <= i < segments_of_rows(m, n, start, end).len() ==> (#[trigger] segments_of_rows(
                m,
                n,
                start,
                end,
            )[i]).row < n,
        is_highlighted(segments_of_rows(m, n, start, end), row, at) <==> row < n && (segment_of(
            m,
            row,
            start,
            end,
        ) is Some && (segment_of(m, row, start, end)->0).start <= at < (segment_of(
            m,
            row,
            start,
            end,
        )->0).end),
    decreases n,
{
    if n > 0 {
        lemma_segments(m, n - 1, start, end, row, at);
        let front = segments_of_rows(m, n - 1, start, end);
        let all = segments_of_rows(m, n, start, end);
        if let Some(segment) = segment_of(m, n - 1, start, end) {
            assert(all =~= front.push(segment));
            assert(all[all.len() - 1] == segment);
            if is_highlighted(front, row, at) {
                let i = choose|i: int|
                    0 <= i < front.len() && (#[trigger] front[i]).row == row && front[i].start <= at
                        < front[i].end;
                assert(all[i] == front[i]);
            }
            if is_highlighted(all, row, at) {
                let i = choose|i: int|
                    0 <= i < all.len() && (#[trigger] all[i]).row == row && all[i].start <= at
                        < all[i].end;
                if i < front.len() {
                    assert(front[i] == all[i]);
                }
            }
        }
    }
}

/// What is drawn as selected is what is selected: a byte of a shaped line is highlighted exactly
/// where its place in the text of the viewport lies in the selection.
pub proof fn law_selection_is_drawn<F, L, K>(
    m: ViewModel<F, L, K>,
    selection: ByteSelection,
    row: int,
    at: int,
)
    requires
        m.selection == Some(selection),
        viewport::line_start(m.lines, m.lines.len() as int) <= usize::MAX,
        0 <= row < m.lines.len(),
        row < m.layouts.len(),
        m.layouts[row] matches Some(layout) && layout.0 == m.lines[row],
        0 <= at < text::byte_len(m.lines[row]),
    ensures
        is_highlighted(segments(m), row, at) <==> selection.start() <= viewport::line_start(
            m.lines,
            row,
        ) + at < selection.end(),
{
    viewport::lemma_line_starts(m.lines, row + 1, m.lines.len() as int);
    viewport::lemma_line_starts(m.lines, 0, m.lines.len() as int);
    if selection.start() < selection.end() {
        lemma_segments(m, shaped_rows(m), selection.start(), selection.end(), row, at);
    }
}

proof fn lemma_next_run(runs: Seq<StyleRun>, idx: int, col: u16)
    requires
        0 <= idx <= runs.len(),
    ensures
        idx <= next_run(runs, idx, col) <= runs.len(),
        forall|j: int| idx <= j < next_run(runs, idx, col) ==> (#[trigger] runs[j]).end_col < col,
        next_run(runs, idx, col) < runs.len() ==> col <= runs[next_run(runs, idx, col)].end_col,
    decreases runs.len() - idx,
{
    if idx < runs.len() && col > runs[idx].end_col {
        lemma_next_run(runs, idx + 1, col);
    }
}

proof fn lemma_glyphs(
    row: int,
    s: Seq<MeasuredChar>,
    runs: Seq<StyleRun>,
    col: int,
    idx: int,
    k: int,
    run: int,
)
    requires
        spans::in_order(runs),
        1 <= col,
        col + cells::cell_count(s.take(k)) <= u16::MAX,
        0 <= idx <= runs.len(),
        forall|j: int| 0 <= j < idx ==> (#[trigger] runs[j]).end_col < col,
        0 <= k < s.len(),
        s[k].1 > 0,
        boxes::arms(s[k].0) is Some,
    ensures
        ({
            let at = (col + cells::cell_count(s.take(k))) as u16;
            let glyphs = glyphs_from(row, s, runs, col, idx);
            &&& 0 <= run < runs.len() && has_column(runs[run], at) ==> glyphs.contains(
                BoxGlyph {
                    row: row as usize,
                    col: (at - 1) as usize,
                    ch: s[k].0,
                    key: Some(style::run_key(runs[run])),
                },
            )
            &&& (forall|j: int| 0 <= j < runs.len() ==> !has_column(#[trigger] runs[j], at))
                ==> glyphs.contains(
                BoxGlyph { row: row as usize, col: (at - 1) as usize, ch: s[k].0, key: None },
            )
        }),
    decreases s.len(),
{
    let all = glyphs_from(row, s, runs, col, idx);
    let here = style_column(col);
    assert(here == col);
    let next = text::saturated(col + s[0].1);
    lemma_next_run(runs, idx, here);
    let found = next_run(runs, idx, here);
    if k == 0 {
        assert(s.take(0) =~= Seq::<MeasuredChar>::empty());
        let glyph = all[0];
        assert(all.contains(glyph));
        if 0 <= run < runs.len() && has_column(runs[run], here) {
            if found < run {
                assert(runs[found].end_col < runs[run].start_col);
            }
            assert(found == run);
        }
    } else {
        let rest = s.drop_first();
        let from = if s[0].1 > 0 && boxes::arms(s[0].0) is Some {
            found
        } else {
            idx
        };
        let after = glyphs_from(row, rest, runs, next, from);
        assert(s.take(k).drop_first() =~= rest.take(k - 1));
        assert(next == col + s[0].1);
        assert(rest[k - 1] == s[k]);
        assert forall|j: int| 0 <= j < from implies (#[trigger] runs[j]).end_col < next by {
            if j < idx {
                assert(runs[j].end_col < col);
            } else {
                assert(runs[j].end_col < here);
            }
        }
        lemma_glyphs(row, rest, runs, next, from, k - 1, run);
        assert forall|glyph: BoxGlyph| after.contains(glyph) implies all.contains(glyph) by {
            let i = choose|i: int| 0 <= i < after.len() && after[i] == glyph;
            assert(all[i + all.len() - after.len()] == glyph);
        }
    }
}

/// Each box drawing character of a line is drawn in its own cell, with the style of the run that
/// has its column, or with the default style where none has. Runs have to be in order, and the
/// character must stand in a column that 16 bits can count.
pub proof fn law_boxes_have_the_styles(
    row: int,
    line: Seq<MeasuredChar>,
    runs: Seq<StyleRun>,
    k: int,
    run: int,
)
    requires
        spans::in_order(runs),
        cells::cell_count(line.take(k)) < u16::MAX,
        0 <= k < line.len(),
        line[k].1 > 0,
        boxes::arms(line[k].0) is Some,
    ensures
        ({
            let at = (1 + cells::cell_count(line.take(k))) as u16;
            let glyphs = glyphs_of_line(row, line, runs);
            &&& 0 <= run < runs.len() && has_column(runs[run], at) ==> glyphs.contains(
                BoxGlyph {
                    row: row as usize,
                    col: (at - 1) as usize,
                    ch: line[k].0,
                    key: Some(style::run_key(runs[run])),
                },
            )
            &&& (forall|j: int| 0 <= j < runs.len() ==> !has_column(#[trigger] runs[j], at))
                ==> glyphs.contains(
                BoxGlyph { row: row as usize, col: (at - 1) as usize, ch: line[k].0, key: None },
            )
        }),
{
    lemma_glyphs(row, line, runs, 1, 0, k, run);
}

} // verus!
