//! Lengths and positions in text, counted in characters, UTF-8 bytes and UTF-16 units.

use std::ops::Range;
use vstd::prelude::*;
use vstd::utf8::*;

verus! {

/// Number of bytes of the UTF-8 encoding of a character.
pub open spec fn utf8_units(c: char) -> nat {
    encode_scalar(c as u32).len()
}

/// Number of bytes of the UTF-8 encoding of a text.
pub open spec fn byte_len(s: Seq<char>) -> nat {
    encode_utf8(s).len()
}

/// Number of code units of the UTF-16 encoding of a character.
pub open spec fn utf16_units(c: char) -> nat {
    if (c as u32) < 0x10000 {
        1
    } else {
        2
    }
}

/// Number of code units of the UTF-16 encoding of a text.
pub open spec fn utf16_count(s: Seq<char>) -> nat
    decreases s.len(),
{
    if s.len() == 0 {
        0
    } else {
        utf16_units(s[0]) + utf16_count(s.drop_first())
    }
}

/// Byte position of the first character boundary that has at least `offset` UTF-16 units before
/// it; `None` where the whole text has fewer.
pub open spec fn utf16_to_utf8(s: Seq<char>, offset: int) -> Option<nat>
    decreases s.len(),
{
    if offset <= 0 {
        Some(0)
    } else if s.len() == 0 {
        None
    } else {
        match utf16_to_utf8(s.drop_first(), offset - utf16_units(s[0])) {
            Some(rest) => Some(utf8_units(s[0]) + rest),
            None => None,
        }
    }
}

/// A count that stops at the largest `usize`.
pub open spec fn saturated(n: int) -> int {
    if n > usize::MAX {
        usize::MAX as int
    } else {
        n
    }
}

pub proof fn lemma_units(c: char)
    ensures
        1 <= utf8_units(c) <= 4,
        1 <= utf16_units(c) <= 2,
        utf16_units(c) <= utf8_units(c),
{
}

pub proof fn lemma_byte_len_concat(a: Seq<char>, b: Seq<char>)
    ensures
        encode_utf8(a + b) == encode_utf8(a) + encode_utf8(b),
        byte_len(a + b) == byte_len(a) + byte_len(b),
    decreases a.len(),
{
    if a.len() == 0 {
        assert(a + b =~= b);
        assert(encode_utf8(a) + encode_utf8(b) =~= encode_utf8(b));
    } else {
        lemma_byte_len_concat(a.drop_first(), b);
        assert((a + b).drop_first() =~= a.drop_first() + b);
        assert(encode_utf8(a + b) =~= encode_utf8(a) + encode_utf8(b));
    }
}

pub proof fn lemma_utf16_at_most_bytes(s: Seq<char>)
    ensures
        utf16_count(s) <= byte_len(s),
        s.len() <= byte_len(s),
    decreases s.len(),
{
    if s.len() > 0 {
        lemma_units(s[0]);
        lemma_utf16_at_most_bytes(s.drop_first());
    }
}

/// `String::push` appends one character.
pub assume_specification[ String::push ](s: &mut String, ch: char)
    ensures
        final(s)@ == old(s)@.push(ch),
;

/// The length of a character's UTF-8 encoding.
pub fn len_utf8(c: char) -> (n: usize)
    ensures
        n == utf8_units(c),
{
    let code = c as u32;
    if code < 0x80 {
        1
    } else if code < 0x800 {
        2
    } else if code < 0x10000 {
        3
    } else {
        4
    }
}

/// The length of a character's UTF-16 encoding.
pub fn len_utf16(c: char) -> (n: usize)
    ensures
        n == utf16_units(c),
{
    if (c as u32) < 0x10000 {
        1
    } else {
        2
    }
}

/// The number of UTF-16 code units of a text.
pub fn utf16_len(s: &str) -> (n: usize)
    ensures
        n == utf16_count(s@),
{
    let mut n: usize = 0;
    let ghost total = s@;
    let bytes = s.as_bytes().len();
    assert(total.skip(0) =~= total);
    for ch in it: s.chars()
        invariant
            it.seq() == total,
            bytes == byte_len(total),
            n + utf16_count(total.skip(it.index())) == utf16_count(total),
    {
        proof {
            lemma_utf16_at_most_bytes(total);
            assert(total.skip(it.index()).drop_first() =~= total.skip(it.index() + 1));
        }
        n = n + len_utf16(ch);
    }
    n
}

/// The byte range that stands for a range of UTF-16 units: each end moves to the first character
/// boundary at or past it. `None` where an end lies past the end of the text.
pub fn utf16_range_to_utf8(s: &str, range_utf16: Range<usize>) -> (r: Option<Range<usize>>)
    ensures
        match (
            utf16_to_utf8(s@, range_utf16.start as int),
            utf16_to_utf8(s@, range_utf16.end as int),
        ) {
            (Some(start), Some(end)) => r matches Some(found) && found.start == start && found.end
                == end,
            _ => r is None,
        },
{
    let ghost total = s@;
    let bytes = s.as_bytes().len();
    let mut utf16_count_so_far: usize = 0;
    let mut utf8_index: usize = 0;
    let mut start_utf8: Option<usize> = None;
    let mut end_utf8: Option<usize> = None;
    proof {
        assert(total.skip(0) =~= total);
        lemma_utf16_at_most_bytes(total);
    }
    for ch in it: s.chars()
        invariant
            it.seq() == total,
            bytes == byte_len(total),
            utf16_count(total) <= bytes,
            utf16_count_so_far + utf16_count(total.skip(it.index())) == utf16_count(total),
            utf8_index + byte_len(total.skip(it.index())) == byte_len(total),
            pending_end(total, range_utf16.start, total.skip(it.index()), utf8_index,
                utf16_count_so_far, start_utf8),
            pending_end(total, range_utf16.end, total.skip(it.index()), utf8_index,
                utf16_count_so_far, end_utf8),
    {
        let ghost rest = total.skip(it.index());
        proof {
            lemma_units(ch);
            assert(rest.drop_first() =~= total.skip(it.index() + 1));
        }
        if start_utf8.is_none() && utf16_count_so_far >= range_utf16.start {
            start_utf8 = Some(utf8_index);
        }
        if end_utf8.is_none() && utf16_count_so_far >= range_utf16.end {
            end_utf8 = Some(utf8_index);
        }
        utf16_count_so_far = utf16_count_so_far + len_utf16(ch);
        utf8_index = utf8_index + len_utf8(ch);
    }
    if start_utf8.is_none() && utf16_count_so_far >= range_utf16.start {
        start_utf8 = Some(utf8_index);
    }
    if end_utf8.is_none() && utf16_count_so_far >= range_utf16.end {
        end_utf8 = Some(utf8_index);
    }
    match (start_utf8, end_utf8) {
        (Some(start), Some(end)) => Some(start..end),
        _ => None,
    }
}

/// What the walk over a text knows of one end of a range: either the end is found, or it is the
/// end that the unread rest of the text gives.
spec fn pending_end(
    total: Seq<char>,
    offset: usize,
    rest: Seq<char>,
    utf8_index: usize,
    utf16_index: usize,
    found: Option<usize>,
) -> bool {
    match found {
        Some(at) => utf16_to_utf8(total, offset as int) == Some(at as nat),
        None => utf16_to_utf8(total, offset as int) == match utf16_to_utf8(
            rest,
            offset - utf16_index,
        ) {
            Some(more) => Some((utf8_index + more) as nat),
            None => None,
        },
    }
}

/// A byte position is a character boundary where it is the length of some prefix of the text.
pub proof fn lemma_prefix_is_boundary(a: Seq<char>, b: Seq<char>)
    ensures
        is_char_boundary(encode_utf8(a + b), byte_len(a) as int),
    decreases a.len(),
{
    encode_utf8_valid_utf8(a + b);
    if a.len() == 0 {
        is_char_boundary_start_end_of_seq(encode_utf8(a + b));
    } else {
        let s = a + b;
        lemma_units(a[0]);
        encode_utf8_first_scalar(s);
        assert(s.drop_first() =~= a.drop_first() + b);
        assert(pop_first_scalar(encode_utf8(s)) =~= encode_utf8(s.drop_first()));
        lemma_prefix_is_boundary(a.drop_first(), b);
        lemma_byte_len_concat(a, b);
    }
}

/// Two texts with the same encoding are the same text.
pub proof fn lemma_encoding_injective(a: Seq<char>, b: Seq<char>)
    requires
        encode_utf8(a) == encode_utf8(b),
    ensures
        a == b,
{
    encode_utf8_decode_utf8(a);
    encode_utf8_decode_utf8(b);
}

/// The last byte of a text is a line feed exactly where its last character is one, which then is
/// one byte long.
pub proof fn lemma_last_byte_line_feed(s: Seq<char>)
    requires
        s.len() > 0,
    ensures
        encode_utf8(s).len() > 0,
        encode_utf8(s).last() == 0x0a <==> s.last() == '\n',
        s.last() == '\n' ==> utf8_units(s.last()) == 1 && byte_len(s) == byte_len(s.drop_last()) + 1,
{
    let one = seq![s.last()];
    assert(s.drop_last() + one =~= s);
    lemma_byte_len_concat(s.drop_last(), one);
    lemma_char_encoding(s.last());
    assert(encode_utf8(s).last() == encode_utf8(one).last());
}

/// The encoding of a single character, and when it is a line feed.
proof fn lemma_char_encoding(c: char)
    ensures
        encode_utf8(seq![c]) == encode_scalar(c as u32),
        encode_utf8(seq![c]).len() == utf8_units(c) > 0,
        encode_utf8(seq![c]).last() == 0x0a <==> c == '\n',
        c == '\n' ==> utf8_units(c) == 1,
{
    let one = seq![c];
    lemma_units(c);
    assert(one.drop_first() =~= Seq::<char>::empty());
    assert(encode_utf8(one.drop_first()) =~= Seq::<u8>::empty());
    assert(encode_utf8(one) =~= encode_scalar(c as u32));
    if c <= '\u{7f}' {
        is_ascii_chars_encode_utf8(one);
        assert(encode_utf8(one)[0] == c as u8);
    } else {
        let low = ((c as u32) & 0x3F) as u8;
        assert(0x80u8 | low >= 0x80u8) by (bit_vector);
    }
}

/// A range of UTF-16 units has an end in the text exactly where the text is long enough, the
/// position found is a character boundary, and later offsets give later positions.
pub proof fn law_utf16_positions(s: Seq<char>, first: nat, second: nat)
    requires
        first <= second,
    ensures
        utf16_to_utf8(s, first as int) is Some <==> first <= utf16_count(s),
        utf16_to_utf8(s, first as int) matches Some(at) ==> at <= byte_len(s) && is_char_boundary(
            encode_utf8(s),
            at as int,
        ),
        utf16_to_utf8(s, first as int) matches Some(a) ==> (utf16_to_utf8(
            s,
            second as int,
        ) matches Some(b) ==> a <= b),
{
    lemma_utf16_position(s, first as int);
    lemma_utf16_position(s, second as int);
    lemma_utf16_monotone(s, first as int, second as int);
    if utf16_to_utf8(s, first as int) is Some {
        let i = choose|i: int|
            0 <= i <= s.len() && utf16_to_utf8(s, first as int) == Some(#[trigger] byte_len(s.take(i)));
        assert(s.take(i) + s.skip(i) =~= s);
        lemma_prefix_is_boundary(s.take(i), s.skip(i));
        lemma_byte_len_concat(s.take(i), s.skip(i));
    }
}

/// The offset of the end of a text stands for the end of its bytes.
pub proof fn law_utf16_end(s: Seq<char>)
    ensures
        utf16_to_utf8(s, utf16_count(s) as int) == Some(byte_len(s)),
    decreases s.len(),
{
    if s.len() > 0 {
        lemma_units(s[0]);
        law_utf16_end(s.drop_first());
    }
}

proof fn lemma_utf16_position(s: Seq<char>, offset: int)
    ensures
        utf16_to_utf8(s, offset) is Some <==> offset <= utf16_count(s),
        utf16_to_utf8(s, offset) is Some ==> exists|i: int|
            0 <= i <= s.len() && utf16_to_utf8(s, offset) == Some(#[trigger] byte_len(s.take(i))),
    decreases s.len(),
{
    if offset <= 0 {
        assert(s.take(0) =~= Seq::<char>::empty());
        assert(utf16_to_utf8(s, offset) == Some(byte_len(s.take(0))));
    } else if s.len() > 0 {
        let rest = s.drop_first();
        let inner = offset - utf16_units(s[0]);
        lemma_utf16_position(rest, inner);
        if utf16_to_utf8(rest, inner) is Some {
            let i = choose|i: int|
                0 <= i <= rest.len() && utf16_to_utf8(rest, inner) == Some(
                    #[trigger] byte_len(rest.take(i)),
                );
            assert(s.take(i + 1).drop_first() =~= rest.take(i));
            assert(s.take(i + 1)[0] == s[0]);
            assert(utf16_to_utf8(s, offset) == Some(byte_len(s.take(i + 1))));
        }
    }
}

proof fn lemma_utf16_monotone(s: Seq<char>, first: int, second: int)
    requires
        first <= second,
    ensures
        utf16_to_utf8(s, first) matches Some(a) ==> (utf16_to_utf8(s, second) matches Some(b)
            ==> a <= b),
    decreases s.len(),
{
    if first > 0 && s.len() > 0 {
        lemma_utf16_monotone(
            s.drop_first(),
            first - utf16_units(s[0]),
            second - utf16_units(s[0]),
        );
    }
}

/// Whether two texts are equal.
pub fn str_eq(a: &str, b: &str) -> (equal: bool)
    ensures
        equal == (a@ == b@),
{
    let x = a.as_bytes();
    let y = b.as_bytes();
    if x.len() != y.len() {
        return false;
    }
    let mut i: usize = 0;
    while i < x.len()
        invariant
            x@ == encode_utf8(a@),
            y@ == encode_utf8(b@),
            x.len() == y.len(),
            i <= x.len(),
            x@.take(i as int) == y@.take(i as int),
        decreases x.len() - i,
    {
        if x[i] != y[i] {
            return false;
        }
        assert(x@.take(i + 1) =~= x@.take(i as int).push(x@[i as int]));
        assert(y@.take(i + 1) =~= y@.take(i as int).push(y@[i as int]));
        i = i + 1;
    }
    proof {
        assert(x@.take(i as int) =~= x@);
        assert(y@.take(i as int) =~= y@);
        lemma_encoding_injective(a@, b@);
    }
    true
}

/// Whether a byte range cuts a text at character boundaries, in order.
pub open spec fn is_text_range(s: Seq<char>, start: int, end: int) -> bool {
    &&& 0 <= start <= end <= byte_len(s)
    &&& is_char_boundary(encode_utf8(s), start)
    &&& is_char_boundary(encode_utf8(s), end)
}

/// The part of a text between two bytes; `None` where the range runs backwards, leaves the text
/// or splits a character.
pub fn byte_slice(s: &str, start: usize, end: usize) -> (part: Option<&str>)
    ensures
        part is Some <==> is_text_range(s@, start as int, end as int),
        part matches Some(p) ==> encode_utf8(p@) == encode_utf8(s@).subrange(
            start as int,
            end as int,
        ),
{
    let len = s.as_bytes().len();
    if start > end || end > len || !s.is_char_boundary(start) || !s.is_char_boundary(end) {
        return None;
    }
    proof {
        encode_utf8_valid_utf8(s@);
        lemma_boundary_in_prefix(encode_utf8(s@), start as int, end as int);
    }
    let (head, _) = s.split_at(end);
    let (_, part) = head.split_at(start);
    assert(encode_utf8(part@) =~= encode_utf8(s@).subrange(start as int, end as int));
    Some(part)
}

/// A boundary of a text is a boundary of every longer prefix that ends at one.
pub proof fn lemma_boundary_in_prefix(bytes: Seq<u8>, start: int, end: int)
    requires
        valid_utf8(bytes),
        is_char_boundary(bytes, start),
        is_char_boundary(bytes, end),
        0 <= start <= end <= bytes.len(),
    ensures
        valid_utf8(bytes.subrange(0, end)),
        is_char_boundary(bytes.subrange(0, end), start),
{
    let prefix = bytes.subrange(0, end);
    valid_utf8_split(bytes, end);
    if start == end {
        is_char_boundary_start_end_of_seq(prefix);
    } else {
        is_char_boundary_iff_not_is_continuation_byte(bytes, start);
        is_char_boundary_iff_not_is_continuation_byte(prefix, start);
    }
}

} // verus!
