//! Keeping the shown rows up to date.

use crate::rows;
use crate::rows::RowDump;
use crate::style::StyleRun;
use crate::view::{ByteSelection, ViewModel};
use crate::viewport;
use vstd::prelude::*;

verus! {

/// Every row that the session changed and that the viewport has is read, in the order in which the
/// session named them, once for each time that it named them, and no other row is. What is read for
/// one list after another is what is read for both together.
pub proof fn law_every_dirty_row_is_read(
    dirty: Seq<u16>,
    more: Seq<u16>,
    row: u16,
    rows: int,
    i: int,
)
    ensures
        rows::rows_in_range(dirty + more, rows) == rows::rows_in_range(dirty, rows)
            + rows::rows_in_range(more, rows),
        rows::rows_in_range(seq![row], rows) == if row < rows {
            seq![row]
        } else {
            Seq::empty()
        },
        0 <= i < dirty.len() && dirty[i] < rows ==> rows::rows_in_range(dirty, rows).contains(
            dirty[i],
        ),
        rows::rows_in_range(dirty, rows).contains(row) ==> row < rows && dirty.contains(row),
        (forall|k: int| 0 <= k < dirty.len() ==> #[trigger] dirty[k] < rows)
            ==> rows::rows_in_range(dirty, rows) == dirty,
{
    let wanted = |row: u16| row < rows;
    Seq::filter_distributes_over_add(dirty, more, wanted);
    assert(rows::rows_in_range(seq![row], rows) =~= if row < rows {
        seq![row]
    } else {
        Seq::empty()
    }) by {
        reveal_with_fuel(Seq::filter, 2);
        assert(seq![row].drop_last() =~= Seq::<u16>::empty());
        assert(seq![row].last() == row);
    }
    if 0 <= i < dirty.len() && dirty[i] < rows {
        dirty.lemma_filter_contains(wanted, i);
    }
    if rows::rows_in_range(dirty, rows).contains(row) {
        dirty.lemma_filter_contains_rev(wanted, row);
        let k = choose|k: int|
            0 <= k < rows::rows_in_range(dirty, rows).len() && rows::rows_in_range(dirty, rows)[k]
                == row;
        dirty.lemma_filter_pred(wanted, k);
    }
    if forall|k: int| 0 <= k < dirty.len() ==> #[trigger] dirty[k] < rows {
        lemma_all_wanted(dirty, rows);
    }
}

proof fn lemma_all_wanted(dirty: Seq<u16>, rows: int)
    requires
        forall|k: int| 0 <= k < dirty.len() ==> #[trigger] dirty[k] < rows,
    ensures
        rows::rows_in_range(dirty, rows) == dirty,
    decreases dirty.len(),
{
    reveal(Seq::filter);
    if dirty.len() > 0 {
        lemma_all_wanted(dirty.drop_last(), rows);
        assert(dirty[dirty.len() - 1] < rows);
        assert(dirty.drop_last().push(dirty.last()) =~= dirty);
        assert(rows::rows_in_range(dirty, rows) =~= dirty);
    } else {
        assert(rows::rows_in_range(dirty, rows) =~= dirty);
    }
}

/// Reading the rows that are planned for a list of changed rows brings the view up to date: where
/// every row that differs from the session is named in the list, the view shows afterwards what the
/// session shows.
pub proof fn law_planned_rows_are_enough<F, L, K>(
    m: ViewModel<F, L, K>,
    dirty: Seq<u16>,
    dumps: Seq<RowDump>,
    lines: Seq<Seq<char>>,
    style_runs: Seq<Seq<StyleRun>>,
)
    requires
        lines.len() <= u16::MAX,
        m.lines.len() == lines.len(),
        m.style_runs.len() == lines.len(),
        style_runs.len() == lines.len(),
        dumps.len() == rows::rows_in_range(dirty, lines.len() as int).len(),
        forall|k: int|
            0 <= k < dumps.len() ==> {
                let row = (#[trigger] dumps[k]).row as int;
                &&& row == rows::rows_in_range(dirty, lines.len() as int)[k]
                &&& dumps[k].line is Some
                &&& (dumps[k].line->0)@ == lines[row].push('\n')
                &&& dumps[k].style_runs is Some
                &&& (dumps[k].style_runs->0)@ == style_runs[row]
            },
        forall|i: int|
            0 <= i < lines.len() && (#[trigger] m.lines[i] != lines[i] || m.style_runs[i]
                != style_runs[i]) ==> dirty.contains(i as u16),
    ensures
        rows::all_given(dumps),
        rows::dumped_model(m, dumps).lines == lines,
        rows::dumped_model(m, dumps).style_runs == style_runs,
        rows::dumped_model(m, dumps).selection is None,
{
    let n = lines.len() as int;
    let plan = rows::rows_in_range(dirty, n);
    assert forall|k: int| 0 <= k < dumps.len() implies {
        let row = (#[trigger] dumps[k]).row as int;
        &&& row < lines.len()
        &&& dumps[k].line is Some
        &&& viewport::without_line_end((dumps[k].line->0)@) == lines[row]
        &&& rows::runs_or_none(dumps[k].style_runs) == style_runs[row]
    } by {
        let row = dumps[k].row as int;
        assert(plan.contains(plan[k]));
        law_every_dirty_row_is_read(dirty, dirty, plan[k], n, 0);
        assert(lines[row].push('\n').drop_last() =~= lines[row]);
    }
    assert(rows::read_from(dumps, lines, style_runs));
    assert forall|i: int|
        0 <= i < lines.len() && (#[trigger] m.lines[i] != lines[i] || m.style_runs[i]
            != style_runs[i]) implies rows::reads_row(dumps, i) by {
        assert(dirty.contains(i as u16));
        let at = choose|at: int| 0 <= at < dirty.len() && dirty[at] == i as u16;
        law_every_dirty_row_is_read(dirty, dirty, i as u16, n, at);
        let k = choose|k: int| 0 <= k < plan.len() && plan[k] == i as u16;
        assert(dumps[k].row == i);
    }
    rows::law_changed_rows_are_enough(m, dumps, lines, style_runs);
}

/// A scroll by less than the height is shown by moving rows, in both directions, wherever the view
/// has a line and a style for each row of the session. The rows that are read for it are exactly
/// those that nothing moved into, each once.
pub proof fn law_scrolls_move_rows<F, L, K>(m: ViewModel<F, L, K>, delta: int, rows: int, row: u16)
    requires
        0 < rows <= u16::MAX,
        -rows < delta < rows,
    ensures
        rows::can_shift(m, delta, rows) <==> m.lines.len() == rows && m.style_runs.len() == rows,
        !rows::can_shift(m, rows, rows) && !rows::can_shift(m, -rows, rows),
        rows::entering_rows(rows, delta).len() == if delta < 0 {
            -delta
        } else {
            delta
        },
        rows::entering_rows(rows, delta).contains(row) <==> row < rows && !(0 <= row + delta
            < rows),
        rows::entering_rows(rows, delta).no_duplicates(),
{
    let entering = rows::entering_rows(rows, delta);
    if row < rows && !(0 <= row + delta < rows) {
        let k = if delta > 0 {
            row - (rows - delta)
        } else {
            row as int
        };
        assert(entering[k] == row);
    }
    if entering.contains(row) {
        let k = choose|k: int| 0 <= k < entering.len() && entering[k] == row;
        assert(entering[k] == row);
    }
    assert forall|j: int, k: int| 0 <= j < entering.len() && 0 <= k < entering.len() && j != k implies
        entering[j] != entering[k] by {}
}

/// A scroll moves each line with its style and its shape by the same distance, leaves the rows that
/// enter blank and unshaped, and changes nothing else.
pub proof fn law_rows_move_together<F, L, K>(m: ViewModel<F, L, K>, delta: int, row: int)
    requires
        m.style_runs.len() == m.lines.len(),
        0 <= row < m.lines.len(),
    ensures
        ({
            let moved = rows::shifted_model(m, delta);
            &&& moved.lines.len() == m.lines.len()
            &&& moved.style_runs.len() == m.style_runs.len()
            &&& moved.layouts.len() == m.layouts.len()
            &&& 0 <= row + delta < m.lines.len() ==> moved.lines[row] == m.lines[row + delta]
                && moved.style_runs[row] == m.style_runs[row + delta]
            &&& !(0 <= row + delta < m.lines.len()) ==> moved.lines[row].len() == 0
                && moved.style_runs[row].len() == 0
            &&& m.layouts.len() == m.lines.len() ==> moved.layouts[row] == if 0 <= row + delta
                < m.lines.len() {
                m.layouts[row + delta]
            } else {
                None
            }
            &&& m.layouts.len() != m.lines.len() ==> moved.layouts == m.layouts
            &&& moved == (ViewModel {
                lines: moved.lines,
                style_runs: moved.style_runs,
                layouts: moved.layouts,
                ..m
            })
        }),
{
}

/// Rows that were read end a selection, are shaped again, and change nothing but lines, styles and
/// layouts. Their number stays.
pub proof fn law_read_rows_end_selections<F, L, K>(m: ViewModel<F, L, K>, dumps: Seq<RowDump>)
    ensures
        ({
            let read = rows::dumped_model(m, dumps);
            &&& read.selection is None
            &&& read == (ViewModel {
                lines: read.lines,
                style_runs: read.style_runs,
                layouts: read.layouts,
                selection: None::<ByteSelection>,
                ..m
            })
            &&& read.lines.len() == m.lines.len()
            &&& read.style_runs.len() == m.style_runs.len()
            &&& read.layouts.len() == m.layouts.len()
        }),
{
    lemma_same_len(m.lines, rows::line_edits(dumps));
    lemma_same_len(m.style_runs, rows::run_edits(dumps));
    lemma_same_len(m.layouts, rows::layout_edits::<L>(dumps));
}

proof fn lemma_same_len<T>(all: Seq<T>, edits: Seq<(int, T)>)
    ensures
        rows::patched(all, edits).len() == all.len(),
    decreases edits.len(),
{
    if edits.len() > 0 {
        lemma_same_len(all, edits.drop_last());
    }
}

/// A single row that was read replaces that row and no other, without the line feed that may end
/// it; a row that was read later replaces what was read before.
pub proof fn law_last_read_counts<F, L, K>(
    m: ViewModel<F, L, K>,
    dumps: Seq<RowDump>,
    dump: RowDump,
    content: Seq<char>,
)
    requires
        dump.row < m.lines.len(),
        dump.row < m.style_runs.len(),
        !content.contains('\n'),
        dump.line is Some,
        (dump.line->0)@ == content || (dump.line->0)@ == content.push('\n'),
    ensures
        rows::dumped_model(m, dumps.push(dump)).lines == rows::dumped_model(
            m,
            dumps,
        ).lines.update(dump.row as int, content),
        dump.style_runs is Some ==> rows::dumped_model(m, dumps.push(dump)).style_runs
            == rows::dumped_model(m, dumps).style_runs.update(
            dump.row as int,
            (dump.style_runs->0)@,
        ),
        dump.style_runs is None ==> rows::dumped_model(m, dumps.push(dump)).style_runs
            == rows::dumped_model(m, dumps).style_runs.update(dump.row as int, Seq::empty()),
{
    let more = dumps.push(dump);
    law_read_rows_end_selections(m, dumps);
    assert(rows::line_edits(more).drop_last() =~= rows::line_edits(dumps));
    assert(rows::run_edits(more).drop_last() =~= rows::run_edits(dumps));
    assert(content.push('\n').drop_last() =~= content);
    if (dump.line->0)@ == content && content.len() > 0 {
        assert(content.contains(content[content.len() - 1]));
    }
}

/// The rows that a refresh or a creation takes over keep the styles that were given, and have none
/// where none were.
pub proof fn law_given_styles_are_shown(given: Seq<Option<Vec<StyleRun>>>, row: int)
    requires
        0 <= row < given.len(),
    ensures
        rows::all_runs(given).len() == given.len(),
        given[row] is Some ==> rows::all_runs(given)[row] == (given[row]->0)@,
        given[row] is None ==> rows::all_runs(given)[row].len() == 0,
{
}

/// A list of rows is complete exactly where no line in it is missing.
pub proof fn law_missing_line_is_noticed(dumps: Seq<RowDump>, k: int)
    ensures
        0 <= k < dumps.len() && dumps[k].line is None ==> !rows::all_given(dumps),
        !rows::all_given(dumps) ==> exists|j: int|
            0 <= j < dumps.len() && (#[trigger] dumps[j]).line is None,
{
}

} // verus!
