//! Lengths and positions in text.

use crate::text;
use vstd::prelude::*;
use vstd::utf8::*;

verus! {

/// A character takes two UTF-16 units exactly where its UTF-8 encoding is four bytes long, and one
/// otherwise. The units of a text are those of its parts.
pub proof fn law_utf16_units_add_up(a: Seq<char>, b: Seq<char>, c: char)
    ensures
        text::utf16_units(c) == if encode_scalar(c as u32).len() == 4 {
            2nat
        } else {
            1
        },
        text::utf8_units(c) == encode_utf8(seq![c]).len(),
        text::utf16_count(Seq::empty()) == 0,
        text::utf16_count(seq![c]) == text::utf16_units(c),
        text::utf16_count(a + b) == text::utf16_count(a) + text::utf16_count(b),
    decreases a.len(),
{
    assert(seq![c].drop_first() =~= Seq::<char>::empty());
    reveal_with_fuel(text::utf16_count, 2);
    reveal_with_fuel(encode_utf8, 2);
    if a.len() == 0 {
        assert(a + b =~= b);
    } else {
        law_utf16_units_add_up(a.drop_first(), b, c);
        assert((a + b).drop_first() =~= a.drop_first() + b);
    }
}

/// The place for a UTF-16 offset is the end of the shortest beginning of the text that has at least
/// that many units. There is none for an offset behind the end.
pub proof fn law_offset_ends_shortest_prefix(s: Seq<char>, offset: int, i: int)
    requires
        0 <= i <= s.len(),
        text::utf16_count(s.take(i)) >= offset,
        i > 0 ==> text::utf16_count(s.take(i - 1)) < offset,
    ensures
        text::utf16_to_utf8(s, offset) == Some(text::byte_len(s.take(i))),
    decreases s.len(),
{
    assert(s.take(0) =~= Seq::<char>::empty());
    if i > 0 {
        let rest = s.drop_first();
        assert(s.take(i)[0] == s[0]);
        assert(s.take(i).drop_first() =~= rest.take(i - 1));
        if i > 1 {
            assert(s.take(i - 1)[0] == s[0]);
            assert(s.take(i - 1).drop_first() =~= rest.take(i - 2));
        } else {
            assert(rest.take(0) =~= Seq::<char>::empty());
        }
        assert(offset > 0) by {
            if i == 1 {
                assert(text::utf16_count(s.take(0)) == 0);
            }
        }
        law_offset_ends_shortest_prefix(rest, offset - text::utf16_units(s[0]), i - 1);
    }
}

/// An offset behind the end of a text has no place in it.
pub proof fn law_offset_behind_the_end(s: Seq<char>, offset: int)
    requires
        offset > text::utf16_count(s),
    ensures
        text::utf16_to_utf8(s, offset) is None,
    decreases s.len(),
{
    if s.len() > 0 {
        law_offset_behind_the_end(s.drop_first(), offset - text::utf16_units(s[0]));
    }
}

/// The bytes between two characters of a text are a text, and only whole characters are.
pub proof fn law_whole_characters_are_text(s: Seq<char>, i: int, j: int, start: int, end: int)
    requires
        0 <= i <= j <= s.len(),
    ensures
        text::is_text_range(
            s,
            text::byte_len(s.take(i)) as int,
            text::byte_len(s.take(j)) as int,
        ),
        text::is_text_range(s, start, end) ==> 0 <= start <= end <= text::byte_len(s)
            && is_char_boundary(encode_utf8(s), start) && is_char_boundary(encode_utf8(s), end),
{
    assert(s.take(i) + s.skip(i) =~= s);
    assert(s.take(j) + s.skip(j) =~= s);
    text::lemma_prefix_is_boundary(s.take(i), s.skip(i));
    text::lemma_prefix_is_boundary(s.take(j), s.skip(j));
    text::lemma_byte_len_concat(s.take(j), s.skip(j));
    assert(s.take(i) + s.subrange(i, j) =~= s.take(j));
    text::lemma_byte_len_concat(s.take(i), s.subrange(i, j));
}

/// A count stays as it is where a `usize` can hold it, and is the largest one otherwise.
pub proof fn law_counts_stop_at_the_largest(n: int)
    ensures
        n <= usize::MAX ==> text::saturated(n) == n,
        n > usize::MAX ==> text::saturated(n) == usize::MAX,
{
}

} // verus!
