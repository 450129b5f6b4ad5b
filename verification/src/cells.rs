//! Terminal cells: how many a character fills, and which byte of a line a column shows.

use crate::text;
use unicode_width::UnicodeWidthChar;
use vstd::prelude::*;
use vstd::utf8::*;

verus! {

/// The width that `unicode_width` gives a character: `None` for a control character.
pub uninterp spec fn char_width(c: char) -> Option<usize>;

/// Calls `UnicodeWidthChar::width`. Claims that the width depends on the character alone, that
/// exactly the characters below U+0020 and those from U+007F up to U+00A0 (exclusive) have none,
/// and that the printable ASCII characters have width 1.
#[verifier::external_body]
fn width_of(c: char) -> (w: Option<usize>)
    ensures
        w == char_width(c),
        w is None <==> (c as u32) < 0x20 || 0x7f <= (c as u32) < 0xa0,
        is_printable_ascii(c) ==> w == Some(1usize),
{
    c.width()
}

pub open spec fn is_printable_ascii(c: char) -> bool {
    0x20 <= (c as u32) < 0x7f
}

/// Number of cells that a character fills: 0 for control characters and combining marks.
pub open spec fn cell_width(c: char) -> usize {
    match char_width(c) {
        Some(w) => w,
        None => 0,
    }
}

/// A character and the number of cells that it fills.
pub type MeasuredChar = (char, usize);

/// The characters of a text, each with the cells that it fills.
pub open spec fn measured(s: Seq<char>) -> Seq<MeasuredChar> {
    Seq::new(s.len(), |i: int| (s[i], cell_width(s[i])))
}

/// The text that measured characters make up.
pub open spec fn chars_of(line: Seq<MeasuredChar>) -> Seq<char> {
    Seq::new(line.len(), |i: int| line[i].0)
}

/// Number of cells that characters fill.
pub open spec fn cell_count(line: Seq<MeasuredChar>) -> nat
    decreases line.len(),
{
    if line.len() == 0 {
        0
    } else {
        line[0].1 as nat + cell_count(line.drop_first())
    }
}

/// Byte position of the character that fills the cell with `before` cells to its left; the length
/// of the line where the line has no such cell.
pub open spec fn byte_of_cell(line: Seq<MeasuredChar>, before: int) -> nat
    decreases line.len(),
{
    if line.len() == 0 {
        0
    } else if before < line[0].1 {
        0
    } else {
        text::utf8_units(line[0].0) + byte_of_cell(line.drop_first(), before - line[0].1)
    }
}

/// Byte position that column `col` of a line shows, with columns counted from 1. Column 1, and the
/// out-of-range column 0, is always the start of the line, also where the line begins with
/// characters that fill no cell.
pub open spec fn byte_of_column(line: Seq<MeasuredChar>, col: int) -> nat {
    if col <= 1 {
        0
    } else {
        byte_of_cell(line, col - 1)
    }
}

/// Cells of the longest prefix of a line that has at most `offset` UTF-16 units.
pub open spec fn cells_before_utf16(line: Seq<MeasuredChar>, offset: int) -> nat
    decreases line.len(),
{
    if line.len() == 0 || text::utf16_units(line[0].0) > offset {
        0
    } else {
        line[0].1 as nat + cells_before_utf16(
            line.drop_first(),
            offset - text::utf16_units(line[0].0),
        )
    }
}

/// Whether a line has a character that fills more than one cell.
pub open spec fn has_wide(line: Seq<MeasuredChar>) -> bool {
    exists|i: int| 0 <= i < line.len() && (#[trigger] line[i]).1 > 1
}

/// Measured characters are the characters that were measured.
pub proof fn lemma_chars_measured(s: Seq<char>)
    ensures
        chars_of(measured(s)) == s,
{
    assert(chars_of(measured(s)) =~= s);
}

/// Number of cells that a character fills.
pub fn cells_of_char(c: char) -> (n: usize)
    ensures
        n == cell_width(c),
        is_printable_ascii(c) ==> n == 1,
{
    match width_of(c) {
        Some(w) => w,
        None => 0,
    }
}

/// The characters of a text, each with the cells that it fills.
pub fn measure(text: &str) -> (line: Vec<MeasuredChar>)
    ensures
        line@ == measured(text@),
        forall|i: int|
            0 <= i < text@.len() && is_printable_ascii(#[trigger] text@[i]) ==> line@[i].1 == 1,
{
    let ghost total = text@;
    let mut line: Vec<MeasuredChar> = Vec::new();
    assert(line@ =~= measured(total.take(0)));
    for ch in it: text.chars()
        invariant
            it.seq() == total,
            total == text@,
            line@.len() == it.index(),
            line@ == measured(total.take(it.index())),
            forall|i: int|
                0 <= i < it.index() && is_printable_ascii(#[trigger] total[i]) ==> line@[i].1
                    == 1,
    {
        line.push((ch, cells_of_char(ch)));
        assert(total.take(it.index() + 1) =~= total.take(it.index()).push(ch));
        assert(line@ =~= measured(total.take(it.index() + 1)));
    }
    assert(total.take(total.len() as int) =~= total);
    line
}

/// The byte of a line that column `col`, counted from 1, shows: the start of the character that
/// fills the column, or the length of the line where the line ends before it.
pub fn byte_index_for_column(line: &Vec<MeasuredChar>, col: u16) -> (index: usize)
    requires
        text::byte_len(chars_of(line@)) <= usize::MAX,
    ensures
        index == byte_of_column(line@, col as int),
{
    if col <= 1 {
        return 0;
    }
    let target: usize = col as usize;
    let ghost all = line@;
    let mut current_col: usize = 1;
    let mut byte_index: usize = 0;
    let mut i: usize = 0;
    assert(all.skip(0) =~= all);
    while i < line.len()
        invariant
            all == line@,
            i <= all.len(),
            1 < col,
            target == col,
            1 <= current_col <= target,
            text::byte_len(chars_of(all)) <= usize::MAX,
            byte_index + text::byte_len(chars_of(all.skip(i as int))) == text::byte_len(
                chars_of(all),
            ),
            byte_of_column(all, col as int) == byte_index + byte_of_cell(
                all.skip(i as int),
                target - current_col,
            ),
        decreases line.len() - i,
    {
        let ghost rest = all.skip(i as int);
        let ch = line[i].0;
        let width = line[i].1;
        proof {
            text::lemma_units(ch);
            assert(rest.drop_first() =~= all.skip(i + 1));
            assert(chars_of(rest).drop_first() =~= chars_of(rest.drop_first()));
        }
        let next_col = current_col.saturating_add(width);
        if width > 0 && target < next_col {
            return byte_index;
        }
        current_col = next_col;
        byte_index = byte_index + text::len_utf8(ch);
        i = i + 1;
    }
    byte_index
}

/// The byte of `line` that column `col`, counted from 1, shows. In a line of printable ASCII
/// characters each column is a byte.
pub fn byte_index_for_column_in_line(line: &str, col: u16) -> (index: usize)
    ensures
        index == byte_of_column(measured(line@), col as int),
        (forall|i: int| 0 <= i < line@.len() ==> is_printable_ascii(#[trigger] line@[i]))
            ==> index == if col <= 1 {
            0
        } else if col - 1 <= line@.len() {
            col - 1
        } else {
            line@.len() as int
        },
{
    proof {
        lemma_chars_measured(line@);
    }
    let bytes = line.as_bytes().len();
    assert(bytes == text::byte_len(line@));
    let chars = measure(line);
    proof {
        if forall|i: int| 0 <= i < line@.len() ==> is_printable_ascii(#[trigger] line@[i]) {
            assert forall|i: int| 0 <= i < chars@.len() implies (#[trigger] chars@[i]).1 == 1
                && text::utf8_units(chars@[i].0) == 1 by {
                assert(is_printable_ascii(line@[i]));
            }
            lemma_single_cells(chars@, col - 1);
        }
    }
    byte_index_for_column(&chars, col)
}

proof fn lemma_single_cells(line: Seq<MeasuredChar>, before: int)
    requires
        forall|i: int|
            0 <= i < line.len() ==> (#[trigger] line[i]).1 == 1 && text::utf8_units(line[i].0)
                == 1,
    ensures
        0 <= before ==> byte_of_cell(line, before) == if before <= line.len() {
            before
        } else {
            line.len() as int
        },
    decreases line.len(),
{
    if line.len() > 0 && before > 0 {
        lemma_single_cells(line.drop_first(), before - 1);
    }
}

/// Number of cells between the start of a line and a UTF-16 offset. A character that the offset
/// splits does not count.
pub fn cells_before_offset(line: &Vec<MeasuredChar>, utf16_offset: usize) -> (cells: usize)
    ensures
        cells == text::saturated(cells_before_utf16(line@, utf16_offset as int) as int),
{
    let ghost all = line@;
    let mut cells: usize = 0;
    let mut left: usize = utf16_offset;
    let mut i: usize = 0;
    assert(all.skip(0) =~= all);
    while i < line.len()
        invariant
            all == line@,
            i <= all.len(),
            text::saturated(cells_before_utf16(all, utf16_offset as int) as int) == text::saturated(
                cells + cells_before_utf16(all.skip(i as int), left as int),
            ),
        decreases line.len() - i,
    {
        assert(all.skip(i as int).drop_first() =~= all.skip(i + 1));
        let len_utf16 = text::len_utf16(line[i].0);
        if left < len_utf16 {
            return cells;
        }
        left = left - len_utf16;
        cells = cells.saturating_add(line[i].1);
        i = i + 1;
    }
    cells
}

/// Number of cells between the start of a text and a UTF-16 offset. A character that the offset
/// splits does not count.
pub fn cell_offset_for_utf16(text: &str, utf16_offset: usize) -> (cells: usize)
    ensures
        cells == text::saturated(cells_before_utf16(measured(text@), utf16_offset as int) as int),
{
    cells_before_offset(&measure(text), utf16_offset)
}

/// Number of cells that characters fill.
pub fn count_cells(line: &Vec<MeasuredChar>) -> (cells: usize)
    ensures
        cells == text::saturated(cell_count(line@) as int),
{
    let ghost all = line@;
    let mut cells: usize = 0;
    let mut i: usize = 0;
    assert(all.skip(0) =~= all);
    while i < line.len()
        invariant
            all == line@,
            i <= all.len(),
            text::saturated(cell_count(all) as int) == text::saturated(
                cells + cell_count(all.skip(i as int)),
            ),
        decreases line.len() - i,
    {
        assert(all.skip(i as int).drop_first() =~= all.skip(i + 1));
        cells = cells.saturating_add(line[i].1);
        i = i + 1;
    }
    cells
}

/// Whether a line has a character that fills more than one cell.
pub fn has_wide_char(line: &Vec<MeasuredChar>) -> (wide: bool)
    ensures
        wide == has_wide(line@),
{
    let mut i: usize = 0;
    while i < line.len()
        invariant
            i <= line.len(),
            forall|j: int| 0 <= j < i ==> (#[trigger] line@[j]).1 <= 1,
        decreases line.len() - i,
    {
        if line[i].1 > 1 {
            return true;
        }
        i = i + 1;
    }
    false
}

/// The byte that a column shows is a character boundary of the line, columns further right show
/// bytes further right, and columns behind the last cell show the end of the line.
pub proof fn law_column_positions(line: Seq<MeasuredChar>, first: int, second: int)
    requires
        first <= second,
    ensures
        byte_of_column(line, first) <= text::byte_len(chars_of(line)),
        is_char_boundary(encode_utf8(chars_of(line)), byte_of_column(line, first) as int),
        byte_of_column(line, first) <= byte_of_column(line, second),
        second >= 2 && second - 1 >= cell_count(line) ==> byte_of_column(line, second)
            == text::byte_len(chars_of(line)),
{
    let s = chars_of(line);
    let i = lemma_column_is_prefix(line, first);
    assert(s.take(i) + s.skip(i) =~= s);
    text::lemma_prefix_is_boundary(s.take(i), s.skip(i));
    text::lemma_byte_len_concat(s.take(i), s.skip(i));
    if first > 1 {
        lemma_cell_monotone(line, first - 1, second - 1);
    }
    if second - 1 >= cell_count(line) {
        lemma_cell_past_end(line, second - 1);
    }
}

proof fn lemma_cell_past_end(line: Seq<MeasuredChar>, before: int)
    requires
        before >= cell_count(line),
    ensures
        byte_of_cell(line, before) == text::byte_len(chars_of(line)),
    decreases line.len(),
{
    if line.len() > 0 {
        assert(chars_of(line).drop_first() =~= chars_of(line.drop_first()));
        lemma_cell_past_end(line.drop_first(), before - line[0].1);
    }
}

/// The byte that a column shows is the end of a prefix of the line.
pub proof fn lemma_column_is_prefix(line: Seq<MeasuredChar>, col: int) -> (i: int)
    ensures
        0 <= i <= line.len(),
        byte_of_column(line, col) == text::byte_len(chars_of(line).take(i)),
{
    if col <= 1 {
        assert(chars_of(line).take(0) =~= Seq::<char>::empty());
        0
    } else {
        lemma_cell_is_prefix(line, col - 1)
    }
}

proof fn lemma_cell_is_prefix(line: Seq<MeasuredChar>, before: int) -> (i: int)
    ensures
        0 <= i <= line.len(),
        byte_of_cell(line, before) == text::byte_len(chars_of(line).take(i)),
    decreases line.len(),
{
    let s = chars_of(line);
    if line.len() == 0 || before < line[0].1 {
        assert(s.take(0) =~= Seq::<char>::empty());
        0
    } else {
        let j = lemma_cell_is_prefix(line.drop_first(), before - line[0].1);
        assert(s.take(j + 1).drop_first() =~= chars_of(line.drop_first()).take(j));
        assert(s.take(j + 1)[0] == line[0].0);
        j + 1
    }
}

proof fn lemma_cell_monotone(line: Seq<MeasuredChar>, first: int, second: int)
    requires
        first <= second,
    ensures
        byte_of_cell(line, first) <= byte_of_cell(line, second),
    decreases line.len(),
{
    if line.len() > 0 && first >= line[0].1 {
        lemma_cell_monotone(line.drop_first(), first - line[0].1, second - line[0].1);
    }
}

/// The offset of the end of a line has all the cells of the line before it.
pub proof fn law_cells_before_end(line: Seq<MeasuredChar>)
    ensures
        cells_before_utf16(line, text::utf16_count(chars_of(line)) as int) == cell_count(line),
    decreases line.len(),
{
    if line.len() > 0 {
        assert(chars_of(line).drop_first() =~= chars_of(line.drop_first()));
        law_cells_before_end(line.drop_first());
    }
}

} // verus!
