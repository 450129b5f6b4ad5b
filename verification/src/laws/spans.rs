//! Styled spans of a line.

use crate::cells;
use crate::cells::MeasuredChar;
use crate::laws::cells as cell_laws;
use crate::spans;
use crate::style;
use crate::style::StyleRun;
use crate::text;
use vstd::prelude::*;

verus! {

/// Runs that stand one behind the other, each over a column or more.
pub open spec fn side_by_side(runs: Seq<StyleRun>) -> bool {
    &&& forall|i: int| 0 <= i < runs.len() ==> (#[trigger] runs[i]).start_col <= runs[i].end_col
    &&& forall|i: int, j: int|
        0 <= i < j < runs.len() ==> (#[trigger] runs[i]).end_col < (#[trigger] runs[j]).start_col
}

/// A character with a width has the style of the run over the last of its columns, and none where no
/// run is over it.
pub proof fn law_characters_have_their_style(
    line: Seq<MeasuredChar>,
    runs: Seq<StyleRun>,
    i: int,
    k: int,
)
    requires
        side_by_side(runs),
        text::byte_len(cells::chars_of(line)) <= usize::MAX,
        0 <= k < line.len(),
        line[k].1 > 0,
        cells::cell_count(line.take(k + 1)) < u16::MAX,
    ensures
        ({
            let last = cells::cell_count(line.take(k + 1)) as int;
            let at = text::byte_len(cells::chars_of(line.take(k))) as int;
            let key = spans::key_at(spans::line_spans(line, runs), at);
            &&& 0 <= i < runs.len() && runs[i].start_col <= last <= runs[i].end_col ==> key == Some(
                style::run_key(runs[i]),
            )
            &&& (forall|j: int|
                0 <= j < runs.len() ==> !((#[trigger] runs[j]).start_col <= last
                    <= runs[j].end_col)) ==> key is None
        }),
{
    let last = cells::cell_count(line.take(k + 1)) as int;
    let at = text::byte_len(cells::chars_of(line.take(k))) as int;
    lemma_in_line(line, k);
    assert forall|j: int| 0 <= j < runs.len() implies spans::run_holds(
        line,
        #[trigger] runs[j],
        at,
    ) == (runs[j].start_col <= last <= runs[j].end_col) by {
        lemma_run_over(line, runs[j], k);
    }
    spans::law_spans_have_the_styles(line, runs, i, at);
}

proof fn lemma_in_line(line: Seq<MeasuredChar>, k: int)
    requires
        0 <= k < line.len(),
    ensures
        text::byte_len(cells::chars_of(line.take(k))) < text::byte_len(
            cells::chars_of(line.take(k + 1)),
        ) <= text::byte_len(cells::chars_of(line)),
        cells::cell_count(line.take(k + 1)) == cells::cell_count(line.take(k)) + line[k].1,
{
    let front = cells::chars_of(line.take(k));
    let one = seq![line[k].0];
    let rest = cells::chars_of(line.skip(k + 1));
    assert(front + one =~= cells::chars_of(line.take(k + 1)));
    assert(front + one + rest =~= cells::chars_of(line));
    text::lemma_byte_len_concat(front, one);
    text::lemma_byte_len_concat(front + one, rest);
    text::lemma_utf16_at_most_bytes(one);
    cell_laws::law_cells_add_up(line.take(k), seq![line[k]], line[k]);
    assert(line.take(k) + seq![line[k]] =~= line.take(k + 1));
}

proof fn lemma_run_over(line: Seq<MeasuredChar>, run: StyleRun, k: int)
    requires
        0 <= k < line.len(),
        line[k].1 > 0,
        cells::cell_count(line.take(k + 1)) < u16::MAX,
        run.start_col <= run.end_col,
    ensures
        ({
            let last = cells::cell_count(line.take(k + 1)) as int;
            let at = text::byte_len(cells::chars_of(line.take(k))) as int;
            spans::run_holds(line, run, at) == (run.start_col <= last <= run.end_col)
        }),
{
    let last = cells::cell_count(line.take(k + 1)) as int;
    let at = text::byte_len(cells::chars_of(line.take(k))) as int;
    lemma_in_line(line, k);
    cell_laws::law_column_shows_its_character(line, k, last);
    lemma_behind(line, k + 1, last);
    let start = run.start_col as int;
    let end = if run.end_col == u16::MAX {
        run.end_col as int
    } else {
        run.end_col + 1
    };
    if start <= last {
        cells::law_column_positions(line, start, last);
    } else {
        cells::law_column_positions(line, last + 1, start);
    }
    if end <= last {
        cells::law_column_positions(line, end, last);
    } else {
        cells::law_column_positions(line, last + 1, end);
    }
}

proof fn lemma_behind(line: Seq<MeasuredChar>, k: int, before: int)
    requires
        0 <= k <= line.len(),
        before >= cells::cell_count(line.take(k)),
    ensures
        cells::byte_of_cell(line, before) >= text::byte_len(cells::chars_of(line.take(k))),
    decreases line.len(),
{
    if k == 0 {
        assert(cells::chars_of(line.take(0)) =~= Seq::<char>::empty());
    } else {
        let rest = line.drop_first();
        assert(line.take(k)[0] == line[0]);
        assert(line.take(k).drop_first() =~= rest.take(k - 1));
        lemma_behind(rest, k - 1, before - line[0].1);
        let chars = cells::chars_of(line.take(k));
        assert(chars.drop_first() =~= cells::chars_of(rest.take(k - 1)));
        assert(chars[0] == line[0].0);
        assert(text::byte_len(chars) == text::utf8_units(line[0].0) + text::byte_len(
            chars.drop_first(),
        ));
    }
}

/// A line has a span, and only the span of an empty line is empty.
pub proof fn law_spans_are_not_empty(line: Seq<MeasuredChar>, runs: Seq<StyleRun>, i: int)
    requires
        text::byte_len(cells::chars_of(line)) <= usize::MAX,
    ensures
        spans::line_spans(line, runs).len() > 0,
        0 <= i < spans::line_spans(line, runs).len() && spans::line_spans(line, runs)[i].len == 0
            ==> text::byte_len(cells::chars_of(line)) == 0 && i == 0 && spans::line_spans(
            line,
            runs,
        ).len() == 1,
{
    lemma_full(line, runs, runs.len() as int);
}

proof fn lemma_full(line: Seq<MeasuredChar>, runs: Seq<StyleRun>, n: int)
    requires
        text::byte_len(cells::chars_of(line)) <= usize::MAX,
    ensures
        ({
            let (found, pos) = spans::spans_of_runs(line, runs, n);
            &&& 0 <= pos
            &&& forall|i: int| 0 <= i < found.len() ==> (#[trigger] found[i]).len > 0
            &&& found.len() == 0 ==> pos == 0
        }),
    decreases n,
{
    if n > 0 {
        lemma_full(line, runs, n - 1);
        let run = runs[n - 1];
        cells::law_column_positions(line, run.start_col as int, run.start_col as int);
        let end = if run.end_col == u16::MAX {
            run.end_col as int
        } else {
            run.end_col + 1
        };
        cells::law_column_positions(line, end, end);
    }
}

/// A row has the runs that were read for it, and none where none were.
pub proof fn law_rows_have_their_runs(style_runs: Seq<Seq<StyleRun>>, row: int)
    requires
        0 <= row,
    ensures
        row < style_runs.len() ==> spans::runs_of_row(style_runs, row) == style_runs[row],
        row >= style_runs.len() ==> spans::runs_of_row(style_runs, row).len() == 0,
{
}

} // verus!
