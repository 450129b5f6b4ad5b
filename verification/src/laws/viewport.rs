//! The text of the viewport.

use crate::text;
use crate::viewport;
use vstd::prelude::*;
use vstd::utf8::*;

verus! {

/// A dump is cut at its line feeds and nowhere else, and a line feed at its end starts no line: the
/// lines, each with a line feed, are the dump, with a line feed at its end where it has none. A dump
/// that is empty or only a line feed has no lines.
pub proof fn law_dump_is_cut_at_line_feeds(s: Seq<char>, i: int)
    ensures
        viewport::dump_lines(Seq::empty()).len() == 0,
        viewport::dump_lines(seq!['\n']).len() == 0,
        s.len() > 0 ==> viewport::joined(
            viewport::dump_lines(s.push('\n')),
            viewport::dump_lines(s.push('\n')).len() as int,
        ) == s.push('\n'),
        s.len() > 0 && s.last() != '\n' ==> viewport::joined(
            viewport::dump_lines(s),
            viewport::dump_lines(s).len() as int,
        ) == s.push('\n'),
        0 <= i < viewport::dump_lines(s).len() ==> !viewport::dump_lines(s)[i].contains('\n'),
{
    assert(seq!['\n'].drop_last() =~= Seq::<char>::empty());
    assert(s.push('\n').drop_last() =~= s);
    if s.len() > 0 {
        viewport::law_dump_round_trip(s.push('\n'));
        if s.last() != '\n' {
            viewport::law_dump_round_trip(s);
        }
    }
    viewport::law_lines_have_no_line_feed(s);
}

/// A line that was read loses the one line feed at its end, and nothing else.
pub proof fn law_only_the_line_feed_goes(s: Seq<char>)
    ensures
        viewport::without_line_end(s.push('\n')) == s,
        s.len() == 0 || s.last() != '\n' ==> viewport::without_line_end(s) == s,
{
    assert(s.push('\n').drop_last() =~= s);
}

/// A line starts where the lines before it, each with a line feed, end, and the viewport is as long
/// as all its lines.
pub proof fn law_lines_start_behind_each_other(lines: Seq<Seq<char>>, i: int)
    requires
        0 <= i <= lines.len(),
        text::byte_len(viewport::joined(lines, lines.len() as int)) <= usize::MAX,
    ensures
        viewport::line_start(lines, i) == text::byte_len(viewport::joined(lines, i)),
        viewport::total_len(lines) == text::byte_len(
            viewport::joined(lines, lines.len() as int),
        ),
{
    viewport::lemma_joined_len(lines, i);
    viewport::lemma_joined_len(lines, lines.len() as int);
}

/// A place behind the text of the viewport points at what its last byte points at.
pub proof fn law_places_behind_the_text(lines: Seq<Seq<char>>, index: int)
    requires
        lines.len() > 0,
        index >= viewport::total_len(lines),
    ensures
        viewport::url_at_byte(lines, index) == viewport::url_at_byte(
            lines,
            viewport::total_len(lines) - 1,
        ),
        viewport::url_at_byte(Seq::empty(), index) is None,
{
}

/// A range that ends where a line starts and one that begins there select what both together select,
/// and a range behind the text selects nothing.
pub proof fn law_ranges_join_at_lines(lines: Seq<Seq<char>>, row: int, start: int, end: int)
    requires
        viewport::line_start(lines, lines.len() as int) <= usize::MAX,
        0 <= row <= lines.len(),
        0 <= start <= viewport::line_start(lines, row) <= end,
    ensures
        viewport::selected_text(lines, start, end) == viewport::selected_text(
            lines,
            start,
            viewport::line_start(lines, row) as int,
        ) + viewport::selected_text(lines, viewport::line_start(lines, row) as int, end),
        viewport::selected_text(lines, viewport::total_len(lines), end).len() == 0,
{
    let n = lines.len() as int;
    let total = viewport::total_len(lines);
    let mid = viewport::line_start(lines, row) as int;
    viewport::lemma_line_starts(lines, row, n);
    let to = if end < total {
        end
    } else {
        total
    };
    lemma_parts_join(lines, n, row, start, to);
    if start == mid {
        assert(viewport::selected_text(lines, start, mid) =~= Seq::<char>::empty());
        assert(Seq::<char>::empty() + viewport::selected_text(lines, mid, end)
            =~= viewport::selected_text(lines, mid, end));
    } else if mid == to {
        assert(viewport::selected_text(lines, mid, end) =~= Seq::<char>::empty());
        assert(viewport::selected_text(lines, start, mid) + Seq::<char>::empty()
            =~= viewport::selected_text(lines, start, mid));
    }
}

proof fn lemma_parts_join(lines: Seq<Seq<char>>, n: int, row: int, start: int, end: int)
    requires
        viewport::line_start(lines, lines.len() as int) <= usize::MAX,
        0 <= n <= lines.len(),
        0 <= row <= lines.len(),
        0 <= start <= viewport::line_start(lines, row) <= end,
    ensures
        viewport::lines_part(lines, n, start, end) == viewport::lines_part(
            lines,
            n,
            start,
            viewport::line_start(lines, row) as int,
        ) + viewport::lines_part(lines, n, viewport::line_start(lines, row) as int, end),
        n <= row ==> viewport::lines_part(lines, n, viewport::line_start(lines, row) as int, end)
            == Seq::<char>::empty(),
    decreases n,
{
    let mid = viewport::line_start(lines, row) as int;
    if n > 0 {
        lemma_parts_join(lines, n - 1, row, start, end);
        let at = viewport::line_start(lines, n - 1) as int;
        let line = lines[n - 1];
        viewport::lemma_line_starts(lines, n, lines.len() as int);
        assert(viewport::line_start(lines, n) == at + text::byte_len(line) + 1);
        let whole = viewport::line_part(line, at, start, end);
        let first = viewport::line_part(line, at, start, mid);
        let second = viewport::line_part(line, at, mid, end);
        if n <= row {
            viewport::lemma_line_starts(lines, n, row);
            assert(second =~= Seq::<char>::empty());
            assert(first =~= whole);
        } else {
            viewport::lemma_line_starts(lines, row, n - 1);
            assert(first =~= Seq::<char>::empty());
            assert(second =~= whole);
        }
        let a = viewport::lines_part(lines, n - 1, start, mid);
        let b = viewport::lines_part(lines, n - 1, mid, end);
        if n <= row {
            assert(b =~= Seq::<char>::empty());
        }
        assert(a + b + whole =~= (a + first) + (b + second));
    } else {
        assert(viewport::lines_part(lines, n, start, end) =~= viewport::lines_part(
            lines,
            n,
            start,
            mid,
        ) + viewport::lines_part(lines, n, mid, end));
    }
}

/// A range inside a line that splits a character selects nothing of that line.
pub proof fn law_split_characters_are_left_out(line: Seq<char>, start: int, end: int)
    requires
        0 <= start < end <= text::byte_len(line) < usize::MAX,
        !is_char_boundary(encode_utf8(line), start) || !is_char_boundary(encode_utf8(line), end),
    ensures
        viewport::selected_text(seq![line], start, end).len() == 0,
{
    let lines = seq![line];
    reveal_with_fuel(viewport::line_start, 3);
    reveal_with_fuel(viewport::lines_part, 3);
    assert(viewport::line_start(lines, 1) == text::byte_len(line) + 1);
    assert(viewport::lines_part(lines, 1, start, end) =~= viewport::line_part(line, 0, start, end));
}

} // verus!
