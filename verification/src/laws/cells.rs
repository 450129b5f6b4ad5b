//! Cells.

use crate::cells;
use crate::cells::MeasuredChar;
use crate::text;
use vstd::prelude::*;
use vstd::utf8::*;

verus! {

/// The cells of a line are those of its parts, and those of a character are its own.
pub proof fn law_cells_add_up(a: Seq<MeasuredChar>, b: Seq<MeasuredChar>, c: MeasuredChar)
    ensures
        cells::cell_count(a + b) == cells::cell_count(a) + cells::cell_count(b),
        cells::cell_count(seq![c]) == c.1,
        cells::cell_count(Seq::empty()) == 0,
    decreases a.len(),
{
    assert(seq![c].drop_first() =~= Seq::<MeasuredChar>::empty());
    reveal_with_fuel(cells::cell_count, 2);
    if a.len() == 0 {
        assert(a + b =~= b);
    } else {
        law_cells_add_up(a.drop_first(), b, c);
        assert((a + b).drop_first() =~= a.drop_first() + b);
    }
}

/// A column shows the start of the character that fills it: each column from the second on that
/// lies behind the cells before a character, and not behind its own cells, shows that character. The
/// first column shows the start of the line.
pub proof fn law_column_shows_its_character(line: Seq<MeasuredChar>, k: int, col: int)
    requires
        0 <= k < line.len(),
        cells::cell_count(line.take(k)) < col <= cells::cell_count(line.take(k + 1)),
    ensures
        col >= 2 ==> cells::byte_of_column(line, col) == text::byte_len(
            cells::chars_of(line.take(k)),
        ),
        cells::byte_of_column(line, 1) == 0,
        cells::byte_of_column(line, 0) == 0,
{
    lemma_cell_shows(line, k, col - 1);
}

proof fn lemma_cell_shows(line: Seq<MeasuredChar>, k: int, before: int)
    requires
        0 <= k < line.len(),
        cells::cell_count(line.take(k)) <= before < cells::cell_count(line.take(k + 1)),
    ensures
        cells::byte_of_cell(line, before) == text::byte_len(cells::chars_of(line.take(k))),
    decreases line.len(),
{
    assert(line.take(k + 1).drop_first() =~= line.drop_first().take(k));
    if k == 0 {
        assert(cells::chars_of(line.take(0)) =~= Seq::<char>::empty());
        assert(line.take(1)[0] == line[0]);
        assert(line.take(1).drop_first() =~= Seq::<MeasuredChar>::empty());
        reveal_with_fuel(cells::cell_count, 2);
        assert(cells::cell_count(line.take(1)) == line[0].1);
    } else {
        let rest = line.drop_first();
        assert(line.take(k)[0] == line[0] && line.take(k + 1)[0] == line[0]);
        assert(line.take(k).drop_first() =~= rest.take(k - 1));
        lemma_cell_shows(rest, k - 1, before - line[0].1);
        let chars = cells::chars_of(line.take(k));
        assert(chars.drop_first() =~= cells::chars_of(rest.take(k - 1)));
        assert(chars[0] == line[0].0);
        assert(text::byte_len(chars) == text::utf8_units(line[0].0) + text::byte_len(
            chars.drop_first(),
        ));
    }
}

/// The cells before a UTF-16 offset are those of the characters that end at or before it.
pub proof fn law_cells_before_offsets(line: Seq<MeasuredChar>, k: int, offset: int)
    requires
        0 <= k <= line.len(),
        text::utf16_count(cells::chars_of(line.take(k))) <= offset,
        k < line.len() ==> offset < text::utf16_count(cells::chars_of(line.take(k + 1))),
    ensures
        cells::cells_before_utf16(line, offset) == cells::cell_count(line.take(k)),
    decreases line.len(),
{
    if line.len() > 0 {
        let rest = line.drop_first();
        if k == 0 {
            let one = cells::chars_of(line.take(1));
            assert(one.drop_first() =~= Seq::<char>::empty());
            reveal_with_fuel(text::utf16_count, 2);
            assert(line.take(0) =~= Seq::<MeasuredChar>::empty());
        } else {
            assert(line.take(k).drop_first() =~= rest.take(k - 1));
            assert(cells::chars_of(line.take(k)).drop_first() =~= cells::chars_of(
                rest.take(k - 1),
            ));
            if k < line.len() {
                assert(line.take(k + 1).drop_first() =~= rest.take(k));
                assert(cells::chars_of(line.take(k + 1)).drop_first() =~= cells::chars_of(
                    rest.take(k),
                ));
            }
            text::lemma_units(line[0].0);
            law_cells_before_offsets(rest, k - 1, offset - text::utf16_units(line[0].0));
        }
    } else {
        assert(line.take(0) =~= Seq::<MeasuredChar>::empty());
    }
}

/// A line is wide exactly where some character fills two cells or more.
pub proof fn law_wide_lines(line: Seq<MeasuredChar>, i: int)
    ensures
        0 <= i < line.len() && line[i].1 >= 2 ==> cells::has_wide(line),
        (forall|j: int| 0 <= j < line.len() ==> (#[trigger] line[j]).1 <= 1) ==> !cells::has_wide(
            line,
        ),
{
}

/// Measuring a text keeps its characters, and gives each the width that it has on its own: none for
/// the characters that have no width.
pub proof fn law_measuring_keeps_characters(s: Seq<char>, i: int)
    requires
        0 <= i < s.len(),
    ensures
        cells::measured(s).len() == s.len(),
        cells::measured(s)[i].0 == s[i],
        cells::char_width(s[i]) matches Some(width) ==> cells::measured(s)[i].1 == width,
        cells::char_width(s[i]) is None ==> cells::measured(s)[i].1 == 0,
        cells::chars_of(cells::measured(s)) == s,
{
    cells::lemma_chars_measured(s);
}

} // verus!
