//! The spans of a line that look the same.

use crate::cells;
use crate::cells::MeasuredChar;
use crate::style;
use crate::style::{StyleRun, TextRunKey};
use crate::text;
use vstd::prelude::*;

verus! {

/// A number of bytes of a line that look the same. Without a key they look as the default style
/// has it.
#[derive(Clone, Copy, Debug, PartialEq, Eq, Structural)]
pub struct TextSpan {
    pub len: usize,
    pub key: Option<TextRunKey>,
}

/// Byte at which the text of a run begins.
pub open spec fn run_start(line: Seq<MeasuredChar>, run: StyleRun) -> int {
    cells::byte_of_column(line, run.start_col as int) as int
}

/// Byte at which the text of a run ends.
pub open spec fn run_end(line: Seq<MeasuredChar>, run: StyleRun) -> int {
    cells::byte_of_column(
        line,
        if run.end_col == u16::MAX {
            run.end_col as int
        } else {
            run.end_col + 1
        },
    ) as int
}

/// Byte up to which a line has spans after a run that follows a span up to `pos`.
pub open spec fn after_run(line: Seq<MeasuredChar>, run: StyleRun, pos: int) -> int {
    if run_end(line, run) > run_start(line, run) {
        run_end(line, run)
    } else if run_start(line, run) > pos {
        run_start(line, run)
    } else {
        pos
    }
}

/// The spans that a run adds to spans up to `pos`: what lies before it in the default style, then
/// its own text.
pub open spec fn run_spans(line: Seq<MeasuredChar>, run: StyleRun, pos: int) -> Seq<TextSpan> {
    let start = run_start(line, run);
    let end = run_end(line, run);
    (if start > pos {
        seq![TextSpan { len: (start - pos) as usize, key: None }]
    } else {
        Seq::empty()
    }) + (if end > start {
        seq![TextSpan { len: (end - start) as usize, key: Some(style::run_key(run)) }]
    } else {
        Seq::empty()
    })
}

/// The spans of the first `n` runs of a line, and the byte up to which they reach.
pub open spec fn spans_of_runs(line: Seq<MeasuredChar>, runs: Seq<StyleRun>, n: int) -> (
    Seq<TextSpan>,
    int,
)
    decreases n,
{
    if n <= 0 {
        (Seq::empty(), 0)
    } else {
        let (spans, pos) = spans_of_runs(line, runs, n - 1);
        (spans + run_spans(line, runs[n - 1], pos), after_run(line, runs[n - 1], pos))
    }
}

/// The spans of a line: those of its runs, and the rest in the default style. A line always has a
/// span, also where it is empty.
pub open spec fn line_spans(line: Seq<MeasuredChar>, runs: Seq<StyleRun>) -> Seq<TextSpan> {
    let (spans, pos) = spans_of_runs(line, runs, runs.len() as int);
    let len = text::byte_len(cells::chars_of(line)) as int;
    if pos < len {
        spans.push(TextSpan { len: (len - pos) as usize, key: None })
    } else if spans.len() == 0 {
        seq![TextSpan { len: len as usize, key: None }]
    } else {
        spans
    }
}

proof fn lemma_run_in_line(line: Seq<MeasuredChar>, run: StyleRun)
    ensures
        0 <= run_start(line, run) <= text::byte_len(cells::chars_of(line)),
        0 <= run_end(line, run) <= text::byte_len(cells::chars_of(line)),
{
    cells::law_column_positions(line, run.start_col as int, run.start_col as int);
    cells::law_column_positions(
        line,
        if run.end_col == u16::MAX {
            run.end_col as int
        } else {
            run.end_col + 1
        },
        u16::MAX as int + 1,
    );
}

/// The spans of a line with the styles of its row.
pub fn spans_of_line(line: &Vec<MeasuredChar>, style_runs: &Vec<StyleRun>) -> (spans: Vec<TextSpan>)
    requires
        text::byte_len(cells::chars_of(line@)) <= usize::MAX,
    ensures
        spans@ == line_spans(line@, style_runs@),
{
    let len = bytes_of_line(line);
    let ghost runs = style_runs@;
    let mut spans: Vec<TextSpan> = Vec::new();
    let mut byte_pos: usize = 0;
    let mut i: usize = 0;
    while i < style_runs.len()
        invariant
            runs == style_runs@,
            i <= runs.len(),
            len == text::byte_len(cells::chars_of(line@)),
            byte_pos <= len,
            (spans@, byte_pos as int) == spans_of_runs(line@, runs, i as int),
        decreases style_runs.len() - i,
    {
        let run = style_runs[i];
        let ghost before = spans@;
        let ghost pos = byte_pos as int;
        proof {
            lemma_run_in_line(line@, run);
        }
        let start = cells::byte_index_for_column(line, run.start_col);
        let end = cells::byte_index_for_column(line, run.end_col.saturating_add(1));
        if start > byte_pos {
            spans.push(TextSpan { len: start - byte_pos, key: None });
            byte_pos = start;
        }
        if end > start {
            spans.push(TextSpan { len: end - start, key: Some(style::text_run_key(&run)) });
            byte_pos = end;
        }
        assert(spans@ =~= before + run_spans(line@, run, pos));
        i = i + 1;
    }
    if byte_pos < len {
        spans.push(TextSpan { len: len - byte_pos, key: None });
    } else if spans.len() == 0 {
        spans.push(TextSpan { len, key: None });
        assert(spans@ =~= seq![TextSpan { len, key: None }]);
    }
    spans
}

/// The length of a line in bytes.
fn bytes_of_line(line: &Vec<MeasuredChar>) -> (len: usize)
    requires
        text::byte_len(cells::chars_of(line@)) <= usize::MAX,
    ensures
        len == text::byte_len(cells::chars_of(line@)),
{
    let ghost all = line@;
    let mut len: usize = 0;
    let mut i: usize = 0;
    assert(all.skip(0) =~= all);
    while i < line.len()
        invariant
            all == line@,
            i <= all.len(),
            text::byte_len(cells::chars_of(all)) <= usize::MAX,
            len + text::byte_len(cells::chars_of(all.skip(i as int))) == text::byte_len(
                cells::chars_of(all),
            ),
        decreases line.len() - i,
    {
        let ghost rest = all.skip(i as int);
        assert(rest.drop_first() =~= all.skip(i + 1));
        assert(cells::chars_of(rest).drop_first() =~= cells::chars_of(rest.drop_first()));
        len = len + text::len_utf8(line[i].0);
        i = i + 1;
    }
    len
}

/// The styles of a row; none where the row has no entry.
pub open spec fn runs_of_row(style_runs: Seq<Seq<StyleRun>>, row: int) -> Seq<StyleRun> {
    if 0 <= row < style_runs.len() {
        style_runs[row]
    } else {
        Seq::empty()
    }
}

/// The bytes of a list of spans.
pub open spec fn total_span(spans: Seq<TextSpan>) -> int
    decreases spans.len(),
{
    if spans.len() == 0 {
        0
    } else {
        total_span(spans.drop_last()) + spans.last().len
    }
}

/// The key of the span that holds a byte.
pub open spec fn key_at(spans: Seq<TextSpan>, pos: int) -> Option<TextRunKey>
    decreases spans.len(),
{
    if spans.len() == 0 {
        None
    } else if pos >= total_span(spans.drop_last()) {
        spans.last().key
    } else {
        key_at(spans.drop_last(), pos)
    }
}

/// Whether the runs of a row follow each other from left to right.
pub open spec fn in_order(runs: Seq<StyleRun>) -> bool {
    &&& forall|i: int| 0 <= i < runs.len() ==> (#[trigger] runs[i]).start_col <= runs[i].end_col
    &&& forall|i: int, j: int|
        0 <= i < j < runs.len() ==> (#[trigger] runs[i]).end_col < (#[trigger] runs[j]).start_col
}

/// The bytes before each run, and those of the run itself, are covered without gaps or overlaps.
proof fn lemma_spans_of_runs(line: Seq<MeasuredChar>, runs: Seq<StyleRun>, n: int)
    requires
        in_order(runs),
        0 <= n <= runs.len(),
        text::byte_len(cells::chars_of(line)) <= usize::MAX,
    ensures
        ({
            let (spans, pos) = spans_of_runs(line, runs, n);
            &&& total_span(spans) == pos
            &&& 0 <= pos <= text::byte_len(cells::chars_of(line))
            &&& forall|j: int| n <= j < runs.len() ==> pos <= run_start(line, #[trigger] runs[j])
        }),
    decreases n,
{
    if n > 0 {
        lemma_spans_of_runs(line, runs, n - 1);
        let (spans, pos) = spans_of_runs(line, runs, n - 1);
        let run = runs[n - 1];
        let start = run_start(line, run);
        let end = run_end(line, run);
        lemma_run_in_line(line, run);
        cells::law_column_positions(line, run.start_col as int, run.end_col as int + 1);
        cells::law_column_positions(line, run.start_col as int, run.end_col as int);
        lemma_total_span(spans, run_spans(line, run, pos));
        let gap = TextSpan { len: (start - pos) as usize, key: None };
        let own = TextSpan { len: (end - start) as usize, key: Some(style::run_key(run)) };
        lemma_total_of_two(gap, own);
        if start > pos && end > start {
            assert(run_spans(line, run, pos) =~= seq![gap, own]);
        } else if start > pos {
            assert(run_spans(line, run, pos) =~= seq![gap]);
        } else if end > start {
            assert(run_spans(line, run, pos) =~= seq![own]);
        } else {
            assert(run_spans(line, run, pos) =~= Seq::<TextSpan>::empty());
        }
        assert forall|j: int| n <= j < runs.len() implies after_run(line, run, pos) <= run_start(
            line,
            #[trigger] runs[j],
        ) by {
            assert(runs[n - 1].end_col < runs[j].start_col);
            cells::law_column_positions(line, run.end_col + 1, runs[j].start_col as int);
            cells::law_column_positions(line, run.start_col as int, runs[j].start_col as int);
        }
    }
}

proof fn lemma_total_of_two(a: TextSpan, b: TextSpan)
    ensures
        total_span(Seq::empty()) == 0,
        total_span(seq![a]) == a.len,
        total_span(seq![b]) == b.len,
        total_span(seq![a, b]) == a.len + b.len,
{
    reveal_with_fuel(total_span, 3);
    assert(seq![a].drop_last() =~= Seq::<TextSpan>::empty());
    assert(seq![b].drop_last() =~= Seq::<TextSpan>::empty());
    assert(seq![a, b].drop_last() =~= seq![a]);
}

proof fn lemma_total_span(a: Seq<TextSpan>, b: Seq<TextSpan>)
    ensures
        total_span(a + b) == total_span(a) + total_span(b),
    decreases b.len(),
{
    if b.len() == 0 {
        assert(a + b =~= a);
    } else {
        assert((a + b).drop_last() =~= a + b.drop_last());
        lemma_total_span(a, b.drop_last());
    }
}

/// The spans of a line cover the line: their lengths add up to its length where the runs of the
/// row are in order.
pub proof fn law_spans_cover_the_line(line: Seq<MeasuredChar>, runs: Seq<StyleRun>)
    requires
        in_order(runs),
        text::byte_len(cells::chars_of(line)) <= usize::MAX,
    ensures
        total_span(line_spans(line, runs)) == text::byte_len(cells::chars_of(line)),
{
    lemma_spans_of_runs(line, runs, runs.len() as int);
    let (spans, pos) = spans_of_runs(line, runs, runs.len() as int);
    let len = text::byte_len(cells::chars_of(line)) as int;
    let rest = TextSpan { len: (len - pos) as usize, key: None };
    if pos < len {
        assert(spans.push(rest).drop_last() =~= spans);
    } else if spans.len() == 0 {
        let all = TextSpan { len: len as usize, key: None };
        lemma_total_of_two(all, all);
    }
}

/// Whether a byte of a line belongs to a run.
pub open spec fn run_holds(line: Seq<MeasuredChar>, run: StyleRun, pos: int) -> bool {
    run_start(line, run) <= pos < run_end(line, run)
}

proof fn lemma_key_at_push(spans: Seq<TextSpan>, span: TextSpan, pos: int)
    ensures
        key_at(spans.push(span), pos) == if pos >= total_span(spans) {
            span.key
        } else {
            key_at(spans, pos)
        },
        total_span(spans.push(span)) == total_span(spans) + span.len,
{
    assert(spans.push(span).drop_last() =~= spans);
}

proof fn lemma_keys_of_runs(line: Seq<MeasuredChar>, runs: Seq<StyleRun>, n: int, at: int)
    requires
        in_order(runs),
        0 <= n <= runs.len(),
        0 <= at,
        text::byte_len(cells::chars_of(line)) <= usize::MAX,
    ensures
        ({
            let (spans, pos) = spans_of_runs(line, runs, n);
            &&& forall|i: int| 0 <= i < n ==> run_end(line, #[trigger] runs[i]) <= pos
            &&& forall|i: int|
                0 <= i < n && at < pos && run_holds(line, #[trigger] runs[i], at) ==> key_at(
                    spans,
                    at,
                ) == Some(style::run_key(runs[i]))
            &&& at < pos && (forall|i: int| 0 <= i < n ==> !run_holds(line, #[trigger] runs[i], at))
                ==> key_at(spans, at) is None
        }),
    decreases n,
{
    if n > 0 {
        lemma_keys_of_runs(line, runs, n - 1, at);
        lemma_spans_of_runs(line, runs, n - 1);
        let (spans, pos) = spans_of_runs(line, runs, n - 1);
        let (now, reached) = spans_of_runs(line, runs, n);
        let run = runs[n - 1];
        let start = run_start(line, run);
        let end = run_end(line, run);
        lemma_run_in_line(line, run);
        assert(pos <= start);
        let gap = TextSpan { len: (start - pos) as usize, key: None };
        let own = TextSpan { len: (end - start) as usize, key: Some(style::run_key(run)) };
        let before = if start > pos {
            spans.push(gap)
        } else {
            spans
        };
        lemma_key_at_push(spans, gap, at);
        lemma_key_at_push(before, own, at);
        if end > start {
            assert(now =~= before.push(own));
        } else {
            assert(now =~= before);
        }
        assert(forall|i: int| 0 <= i < n - 1 ==> run_end(line, #[trigger] runs[i]) <= pos);
        if at < reached {
            if at < pos {
                assert(key_at(now, at) == key_at(spans, at));
                assert(!run_holds(line, run, at));
            } else if at < start {
                assert(key_at(now, at) is None);
            } else {
                assert(run_holds(line, run, at));
                assert(key_at(now, at) == own.key);
            }
        }
    }
}

/// Each byte of a line looks as the run has it that holds the byte, and has the default style where
/// no run does, if the runs of the row are in order.
pub proof fn law_spans_have_the_styles(line: Seq<MeasuredChar>, runs: Seq<StyleRun>, i: int, at: int)
    requires
        in_order(runs),
        text::byte_len(cells::chars_of(line)) <= usize::MAX,
        0 <= at < text::byte_len(cells::chars_of(line)),
    ensures
        0 <= i < runs.len() && run_holds(line, runs[i], at) ==> key_at(line_spans(line, runs), at)
            == Some(style::run_key(runs[i])),
        (forall|j: int| 0 <= j < runs.len() ==> !run_holds(line, #[trigger] runs[j], at)) ==> key_at(
            line_spans(line, runs),
            at,
        ) is None,
{
    let n = runs.len() as int;
    lemma_keys_of_runs(line, runs, n, at);
    lemma_spans_of_runs(line, runs, n);
    let (spans, pos) = spans_of_runs(line, runs, n);
    let len = text::byte_len(cells::chars_of(line)) as int;
    if pos < len {
        lemma_key_at_push(spans, TextSpan { len: (len - pos) as usize, key: None }, at);
    }
}

} // verus!
