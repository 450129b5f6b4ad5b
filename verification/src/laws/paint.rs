//! What is painted.

use crate::boxes;
use crate::cells;
use crate::cells::MeasuredChar;
use crate::laws::spans as span_laws;
use crate::paint;
use crate::paint::{BoxGlyph, CellFill};
use crate::spans;
use crate::style;
use crate::style::{Rgb, StyleRun};
use crate::text;
use crate::view::ViewModel;
use crate::viewport;
use vstd::prelude::*;

verus! {

/// The fill of a run covers the columns that the run is over, counted from zero, and no others. A run
/// that ends before it starts fills one cell, and a run over every column fills as many cells as a
/// `u16` can count.
pub proof fn law_fills_cover_their_columns(row: usize, run: StyleRun, default_bg: Rgb, col: u16)
    requires
        run.bg != default_bg,
    ensures
        paint::fill_of(row as int, run, default_bg) matches Some(fill) && {
            &&& fill.row == row
            &&& fill.color == style::opaque_rgba(run.bg)
            &&& 1 <= run.start_col <= run.end_col && 1 <= col ==> (fill.col <= col - 1 < fill.col
                + fill.width <==> run.start_col <= col <= run.end_col)
            &&& run.end_col < run.start_col ==> fill.width == 1
            &&& run.start_col == 0 ==> fill.col == 0
            &&& run.start_col == 0 && run.end_col == u16::MAX ==> fill.width == u16::MAX
            &&& run.start_col == 0 && run.end_col < u16::MAX ==> fill.width == run.end_col + 1
        },
        paint::fill_of(row as int, StyleRun { bg: default_bg, ..run }, default_bg) is None,
{
}

/// The fills are those of the runs with a background of their own, in order: a run more at the end of
/// the last row adds its fill at the end, or nothing where it has the default background; a row
/// without runs adds nothing.
pub proof fn law_every_background_is_filled(
    rows: Seq<Seq<StyleRun>>,
    runs: Seq<StyleRun>,
    run: StyleRun,
    default_bg: Rgb,
)
    requires
        rows.len() < usize::MAX,
    ensures
        ({
            let n = rows.len() as int;
            let before = paint::fills_of_rows(rows.push(runs), n + 1, default_bg);
            let after = paint::fills_of_rows(rows.push(runs.push(run)), n + 1, default_bg);
            &&& run.bg == default_bg ==> after == before
            &&& run.bg != default_bg ==> after == before.push(
                CellFill {
                    row: rows.len() as usize,
                    col: paint::from_zero(run.start_col),
                    width: paint::run_width(run),
                    color: style::opaque_rgba(run.bg) as u32,
                },
            )
            &&& paint::fills_of_rows(rows.push(Seq::empty()), n + 1, default_bg)
                == paint::fills_of_rows(rows, n, default_bg)
            &&& paint::fills_of_rows(rows, 0, default_bg).len() == 0
        }),
{
    let n = rows.len() as int;
    let fill = |run: StyleRun| paint::fill_of(n, run, default_bg);
    lemma_fills_of_prefix(rows, runs, n, default_bg);
    lemma_fills_of_prefix(rows, runs.push(run), n, default_bg);
    lemma_fills_of_prefix(rows, Seq::empty(), n, default_bg);
    let front = paint::fills_of_rows(rows, n, default_bg);
    let longer = runs.push(run);
    assert(longer.drop_last() =~= runs);
    assert(longer.take(runs.len() as int) =~= runs);
    assert(longer.take(runs.len() as int + 1) =~= longer);
    longer.lemma_filter_map_take_succ(fill, runs.len() as int);
    let last = if run.bg == default_bg {
        Seq::<CellFill>::empty()
    } else {
        seq![
            CellFill {
                row: rows.len() as usize,
                col: paint::from_zero(run.start_col),
                width: paint::run_width(run),
                color: style::opaque_rgba(run.bg) as u32,
            },
        ]
    };
    assert(longer.filter_map(fill) =~= runs.filter_map(fill) + last);
    assert(front + longer.filter_map(fill) =~= front + runs.filter_map(fill) + last);
    reveal_with_fuel(Seq::filter_map, 2);
    let none = Seq::<StyleRun>::empty();
    assert(none.filter_map(fill) =~= Seq::<CellFill>::empty());
    assert(front + none.filter_map(fill) =~= front);
}

proof fn lemma_fills_of_prefix(
    rows: Seq<Seq<StyleRun>>,
    runs: Seq<StyleRun>,
    n: int,
    default_bg: Rgb,
)
    requires
        n <= rows.len(),
    ensures
        paint::fills_of_rows(rows.push(runs), n, default_bg) == paint::fills_of_rows(
            rows,
            n,
            default_bg,
        ),
    decreases n,
{
    if n > 0 {
        lemma_fills_of_prefix(rows, runs, n - 1, default_bg);
        assert(rows.push(runs)[n - 1] == rows[n - 1]);
    }
}

/// The background behind a column is that of the first run over it, and the default one where no run
/// is.
pub proof fn law_background_behind_a_column(
    runs: Seq<StyleRun>,
    i: int,
    col: u16,
    default_bg: Rgb,
)
    requires
        0 <= i <= runs.len(),
        forall|j: int| 0 <= j < i ==> !((#[trigger] runs[j]).start_col <= col <= runs[j].end_col),
        i < runs.len() ==> runs[i].start_col <= col <= runs[i].end_col,
    ensures
        i < runs.len() ==> paint::background_of(runs, col, default_bg) == runs[i].bg,
        i == runs.len() ==> paint::background_of(runs, col, default_bg) == default_bg,
    decreases runs.len(),
{
    if i > 0 {
        let rest = runs.drop_first();
        assert forall|j: int| 0 <= j < i - 1 implies !((#[trigger] rest[j]).start_col <= col
            <= rest[j].end_col) by {
            assert(rest[j] == runs[j + 1]);
        }
        assert(!(runs[0].start_col <= col <= runs[0].end_col));
        law_background_behind_a_column(rest, i - 1, col, default_bg);
    }
}

/// A byte of a shaped line is highlighted exactly where the selection holds it: from its smaller end
/// on and before its larger one.
pub proof fn law_selected_bytes_are_highlighted<F, L, K>(
    m: ViewModel<F, L, K>,
    anchor: usize,
    active: usize,
    row: int,
    shaped_text: Seq<char>,
    shaped: L,
    at: int,
)
    requires
        m.selection matches Some(selection) && selection.anchor == anchor && selection.active
            == active,
        0 <= row < m.lines.len() <= usize::MAX,
        row < m.layouts.len(),
        m.layouts[row] == Some((shaped_text, shaped)),
        viewport::line_start(m.lines, row) + text::byte_len(shaped_text) <= usize::MAX,
        0 <= at,
    ensures
        ({
            let place = viewport::line_start(m.lines, row) + at;
            paint::is_highlighted(paint::segments(m), row, at) <==> at < text::byte_len(shaped_text)
                && (anchor <= place < active || active <= place < anchor)
        }),
{
    let selection = m.selection->0;
    if selection.start() < selection.end() {
        paint::lemma_segments(
            m,
            paint::shaped_rows(m),
            selection.start(),
            selection.end(),
            row,
            at,
        );
    }
}

/// Nothing is highlighted without a selection, with an empty one, in rows that are not shaped and in
/// rows that have no line. A row is highlighted at most once, and never over nothing.
pub proof fn law_nothing_else_is_highlighted<F, L, K>(m: ViewModel<F, L, K>, i: int, j: int)
    requires
        m.lines.len() <= usize::MAX,
    ensures
        m.selection is None ==> paint::segments(m).len() == 0,
        m.selection matches Some(selection) ==> (selection.anchor == selection.active
            ==> paint::segments(m).len() == 0),
        0 <= i < paint::segments(m).len() ==> paint::segments(m)[i].start
            < paint::segments(m)[i].end && paint::segments(m)[i].row < m.lines.len()
            && paint::segments(m)[i].row < m.layouts.len()
            && m.layouts[paint::segments(m)[i].row as int] is Some,
        0 <= i < j < paint::segments(m).len() ==> paint::segments(m)[i].row
            < paint::segments(m)[j].row,
{
    if let Some(selection) = m.selection {
        lemma_segment_rows(m, paint::shaped_rows(m), selection.start(), selection.end());
    }
}

proof fn lemma_segment_rows<F, L, K>(m: ViewModel<F, L, K>, n: int, start: int, end: int)
    requires
        n <= usize::MAX,
    ensures
        ({
            let found = paint::segments_of_rows(m, n, start, end);
            &&& forall|i: int|
                0 <= i < found.len() ==> {
                    &&& (#[trigger] found[i]).start < found[i].end
                    &&& found[i].row < n
                    &&& m.layouts[found[i].row as int] is Some
                }
            &&& forall|i: int, j: int|
                0 <= i < j < found.len() ==> (#[trigger] found[i]).row < (#[trigger] found[j]).row
        }),
    decreases n,
{
    if n > 0 {
        lemma_segment_rows(m, n - 1, start, end);
    }
}

/// Every box drawing character with a width is drawn in its column, counted from zero, with the style
/// of the run over that column, and with none where no run is.
pub proof fn law_every_box_is_drawn(
    row: usize,
    line: Seq<MeasuredChar>,
    runs: Seq<StyleRun>,
    k: int,
    run: int,
)
    requires
        span_laws::side_by_side(runs),
        cells::cell_count(line.take(k)) < u16::MAX,
        0 <= k < line.len(),
        line[k].1 > 0,
        boxes::strokes_of(line[k].0) is Some,
    ensures
        ({
            let col = cells::cell_count(line.take(k));
            let drawn = paint::glyphs_of_line(row as int, line, runs);
            &&& 0 <= run < runs.len() && runs[run].start_col <= col + 1 <= runs[run].end_col
                ==> drawn.contains(
                BoxGlyph {
                    row,
                    col: col as usize,
                    ch: line[k].0,
                    key: Some(style::run_key(runs[run])),
                },
            )
            &&& (forall|j: int|
                0 <= j < runs.len() ==> !((#[trigger] runs[j]).start_col <= col + 1
                    <= runs[j].end_col)) ==> drawn.contains(
                BoxGlyph { row, col: col as usize, ch: line[k].0, key: None },
            )
        }),
{
    paint::law_boxes_have_the_styles(row as int, line, runs, k, run);
    let at = (1 + cells::cell_count(line.take(k))) as u16;
    assert forall|j: int| 0 <= j < runs.len() implies paint::has_column(#[trigger] runs[j], at) == (
    runs[j].start_col <= at <= runs[j].end_col) by {}
}

/// Nothing but box drawing characters is drawn, each once, from left to right.
pub proof fn law_only_boxes_are_drawn(
    row: usize,
    line: Seq<MeasuredChar>,
    runs: Seq<StyleRun>,
    i: int,
    j: int,
)
    requires
        cells::cell_count(line) < usize::MAX,
    ensures
        ({
            let drawn = paint::glyphs_of_line(row as int, line, runs);
            &&& 0 <= i < drawn.len() ==> drawn[i].row == row && boxes::strokes_of(drawn[i].ch) is Some
                && cells::chars_of(line).contains(drawn[i].ch) && drawn[i].col < cells::cell_count(
                line,
            )
            &&& 0 <= i < j < drawn.len() ==> drawn[i].col < drawn[j].col
        }),
{
    lemma_drawn(row as int, line, runs, 1, 0);
}

proof fn lemma_drawn(row: int, line: Seq<MeasuredChar>, runs: Seq<StyleRun>, col: int, idx: int)
    requires
        1 <= col,
        col + cells::cell_count(line) <= usize::MAX,
    ensures
        ({
            let drawn = paint::glyphs_from(row, line, runs, col, idx);
            &&& forall|i: int|
                0 <= i < drawn.len() ==> {
                    &&& (#[trigger] drawn[i]).row == row as usize
                    &&& boxes::strokes_of(drawn[i].ch) is Some
                    &&& cells::chars_of(line).contains(drawn[i].ch)
                    &&& col - 1 <= drawn[i].col < col - 1 + cells::cell_count(line)
                }
            &&& forall|i: int, j: int|
                0 <= i < j < drawn.len() ==> (#[trigger] drawn[i]).col < (#[trigger] drawn[j]).col
        }),
    decreases line.len(),
{
    if line.len() > 0 {
        let rest = line.drop_first();
        let next = col + line[0].1;
        let is_box = line[0].1 > 0 && boxes::arms(line[0].0) is Some;
        let run = if is_box {
            paint::next_run(runs, idx, paint::style_column(col))
        } else {
            idx
        };
        lemma_drawn(row, rest, runs, next, run);
        let drawn = paint::glyphs_from(row, line, runs, col, idx);
        let others = paint::glyphs_from(row, rest, runs, next, run);
        assert(cells::chars_of(line)[0] == line[0].0);
        assert forall|c: char| #[trigger] cells::chars_of(rest).contains(c) implies cells::chars_of(
            line,
        ).contains(c) by {
            let i = choose|i: int|
                0 <= i < cells::chars_of(rest).len() && cells::chars_of(rest)[i] == c;
            assert(cells::chars_of(line)[i + 1] == c);
        }
        if is_box {
            assert(drawn.len() == others.len() + 1);
            assert(forall|i: int|
                1 <= i < drawn.len() ==> (#[trigger] drawn[i]) == others[i - 1]);
        } else {
            assert(drawn =~= others);
        }
    }
}

/// The boxes of the viewport are those of its lines, from top to bottom, each line drawn with the runs
/// of its row.
pub proof fn law_boxes_line_by_line(
    lines: Seq<Seq<char>>,
    line: Seq<char>,
    style_runs: Seq<Seq<StyleRun>>,
)
    ensures
        ({
            let n = lines.len() as int;
            let drawn = paint::glyphs_of_rows(lines.push(line), style_runs, n + 1);
            let before = paint::glyphs_of_rows(lines, style_runs, n);
            let own = paint::glyphs_of_line(
                n,
                cells::measured(line),
                if n < style_runs.len() {
                    style_runs[n]
                } else {
                    Seq::empty()
                },
            );
            &&& drawn.len() == before.len() + own.len()
            &&& drawn.take(before.len() as int) == before
            &&& drawn.skip(before.len() as int) == own
            &&& paint::glyphs_of_rows(lines, style_runs, 0).len() == 0
        }),
{
    let n = lines.len() as int;
    lemma_boxes_of_prefix(lines, line, style_runs, n);
    let drawn = paint::glyphs_of_rows(lines.push(line), style_runs, n + 1);
    let before = paint::glyphs_of_rows(lines, style_runs, n);
    assert(drawn.take(before.len() as int) =~= before);
    assert(drawn.skip(before.len() as int) =~= paint::glyphs_of_line(
        n,
        cells::measured(line),
        spans::runs_of_row(style_runs, n),
    ));
}

proof fn lemma_boxes_of_prefix(
    lines: Seq<Seq<char>>,
    line: Seq<char>,
    style_runs: Seq<Seq<StyleRun>>,
    n: int,
)
    requires
        n <= lines.len(),
    ensures
        paint::glyphs_of_rows(lines.push(line), style_runs, n) == paint::glyphs_of_rows(
            lines,
            style_runs,
            n,
        ),
    decreases n,
{
    if n > 0 {
        lemma_boxes_of_prefix(lines, line, style_runs, n - 1);
        assert(lines.push(line)[n - 1] == lines[n - 1]);
    }
}

} // verus!
