//! Links in plain text.

use crate::cells;
use crate::text;
use crate::url;
use vstd::prelude::*;
use vstd::utf8::*;

verus! {

/// The bytes that stand in addresses: the letters, the digits, and the marks `-._~`, `:/?#[]@` and
/// `!$&'()*+,;=` and `%`.
pub open spec fn address_byte(b: u8) -> bool {
    ||| 0x61 <= b <= 0x7a
    ||| 0x41 <= b <= 0x5a
    ||| 0x30 <= b <= 0x39
    ||| b == 0x2d || b == 0x2e || b == 0x5f || b == 0x7e
    ||| b == 0x3a || b == 0x2f || b == 0x3f || b == 0x23 || b == 0x5b || b == 0x5d || b == 0x40
    ||| b == 0x21 || b == 0x24 || b == 0x26 || b == 0x27 || b == 0x28 || b == 0x29
    ||| b == 0x2a || b == 0x2b || b == 0x2c || b == 0x3b || b == 0x3d
    ||| b == 0x25
}

/// The marks that end a sentence or close a bracket: `.,)]}` and `;:!?`.
pub open spec fn closing_byte(b: u8) -> bool {
    ||| b == 0x2e || b == 0x2c || b == 0x29 || b == 0x5d || b == 0x7d
    ||| b == 0x3b || b == 0x3a || b == 0x21 || b == 0x3f
}

/// Whether bytes begin with `http://` or `https://`.
pub open spec fn begins_as_web_address(b: Seq<u8>) -> bool {
    ||| b.len() >= 7 && b.subrange(0, 7) == seq![0x68u8, 0x74, 0x74, 0x70, 0x3a, 0x2f, 0x2f]
    ||| b.len() >= 8 && b.subrange(0, 8) == seq![
        0x68u8,
        0x74,
        0x74,
        0x70,
        0x73,
        0x3a,
        0x2f,
        0x2f,
    ]
}

/// Whether all bytes can stand in an address.
pub open spec fn all_address_bytes(b: Seq<u8>) -> bool {
    forall|i: int| 0 <= i < b.len() ==> address_byte(#[trigger] b[i])
}

/// Whether a stretch stands alone between two others: no byte of an address stands next to it.
pub open spec fn stands_alone(before: Seq<u8>, after: Seq<u8>) -> bool {
    &&& before.len() > 0 ==> !address_byte(before.last())
    &&& after.len() > 0 ==> !address_byte(after[0])
}

proof fn lemma_bytes(b: u8)
    ensures
        url::url_byte(b) == address_byte(b),
        url::trailing_byte(b) == closing_byte(b),
{
    let c = b as char;
    assert(c as u32 == b);
}

proof fn lemma_scheme(b: Seq<u8>)
    ensures
        url::has_web_scheme(b) == begins_as_web_address(b),
{
    assert(url::http_prefix() =~= seq![0x68u8, 0x74, 0x74, 0x70, 0x3a, 0x2f, 0x2f]);
    assert(url::https_prefix() =~= seq![0x68u8, 0x74, 0x74, 0x70, 0x73, 0x3a, 0x2f, 0x2f]);
}

proof fn lemma_start_of_word(b: Seq<u8>, start: int, i: int)
    requires
        0 <= start <= i <= b.len(),
        start > 0 ==> !address_byte(b[start - 1]),
        forall|k: int| start <= k < i ==> address_byte(#[trigger] b[k]),
    ensures
        url::run_start(b, i) == start,
    decreases i,
{
    if i > start {
        lemma_bytes(b[i - 1]);
        lemma_start_of_word(b, start, i - 1);
    } else if start > 0 {
        lemma_bytes(b[start - 1]);
    }
}

proof fn lemma_end_of_word(b: Seq<u8>, i: int, end: int)
    requires
        0 <= i <= end <= b.len(),
        end < b.len() ==> !address_byte(b[end]),
        forall|k: int| i <= k < end ==> address_byte(#[trigger] b[k]),
    ensures
        url::run_end(b, i) == end,
    decreases end - i,
{
    if i < end {
        lemma_bytes(b[i]);
        lemma_end_of_word(b, i + 1, end);
    } else if end < b.len() {
        lemma_bytes(b[end]);
    }
}

proof fn lemma_end_without_marks(b: Seq<u8>, start: int, stop: int, end: int)
    requires
        0 <= start <= stop <= end <= b.len(),
        stop > start ==> !closing_byte(b[stop - 1]),
        forall|k: int| stop <= k < end ==> closing_byte(#[trigger] b[k]),
    ensures
        url::trimmed_end(b, start, end) == stop,
    decreases end - stop,
{
    if end > stop {
        lemma_bytes(b[end - 1]);
        lemma_end_without_marks(b, start, stop, end - 1);
    } else if stop > start {
        lemma_bytes(b[stop - 1]);
    }
}

/// A web address in a text is found whole from each of its bytes, from the marks that follow it and
/// from the byte behind both: in a text that is `before`, the address, marks that end a sentence
/// and `after`, the address is what is found, without the marks.
pub proof fn law_address_is_found(
    before: Seq<u8>,
    address: Seq<u8>,
    marks: Seq<u8>,
    after: Seq<u8>,
    index: int,
)
    requires
        begins_as_web_address(address),
        all_address_bytes(address),
        !closing_byte(address.last()),
        all_address_bytes(marks),
        forall|i: int| 0 <= i < marks.len() ==> closing_byte(#[trigger] marks[i]),
        stands_alone(before, after),
        before.len() <= index <= before.len() + address.len() + marks.len(),
    ensures
        url::url_at(before + address + marks + after, index) == Some(address),
{
    let b = before + address + marks + after;
    let start = before.len() as int;
    let stop = start + address.len();
    let end = stop + marks.len();
    assert forall|k: int| start <= k < end implies address_byte(#[trigger] b[k]) by {
        if k < stop {
            assert(b[k] == address[k - start]);
        } else {
            assert(b[k] == marks[k - stop]);
        }
    }
    assert forall|k: int| stop <= k < end implies closing_byte(#[trigger] b[k]) by {
        assert(b[k] == marks[k - stop]);
    }
    if start > 0 {
        assert(b[start - 1] == before.last());
    }
    if end < b.len() {
        assert(b[end] == after[0]);
    }
    assert(b[stop - 1] == address.last());
    let i = if index < end {
        index
    } else {
        end - 1
    };
    lemma_bytes(b[i]);
    assert(address_byte(b[i]));
    if index == end && end < b.len() {
        lemma_bytes(b[end]);
    }
    assert(url::url_anchor(b, index) == Some(i));
    lemma_start_of_word(b, start, i);
    lemma_end_of_word(b, i + 1, end);
    lemma_end_without_marks(b, start, stop, end);
    lemma_scheme(address);
    assert(b.subrange(start, stop) =~= address);
}

/// Nothing but a web address is found: a word that does not begin with `http://` or `https://` gives
/// nothing from any of its bytes or from the byte behind it.
pub proof fn law_other_words_are_no_address(
    before: Seq<u8>,
    word: Seq<u8>,
    after: Seq<u8>,
    index: int,
)
    requires
        word.len() > 0,
        all_address_bytes(word),
        !begins_as_web_address(word),
        stands_alone(before, after),
        before.len() <= index <= before.len() + word.len(),
    ensures
        url::url_at(before + word + after, index) is None,
{
    let b = before + word + after;
    let start = before.len() as int;
    let end = start + word.len();
    assert forall|k: int| start <= k < end implies address_byte(#[trigger] b[k]) by {
        assert(b[k] == word[k - start]);
    }
    if start > 0 {
        assert(b[start - 1] == before.last());
    }
    if end < b.len() {
        assert(b[end] == after[0]);
        lemma_bytes(b[end]);
    }
    let i = if index < end {
        index
    } else {
        end - 1
    };
    lemma_bytes(b[i]);
    assert(address_byte(b[i]));
    assert(url::url_anchor(b, index) == Some(i));
    lemma_start_of_word(b, start, i);
    lemma_end_of_word(b, i + 1, end);
    let stop = url::trimmed_end(b, start, end);
    lemma_trimmed(b, start, end);
    let candidate = b.subrange(start, stop);
    lemma_scheme(candidate);
    if begins_as_web_address(candidate) {
        if candidate.len() >= 7 {
            assert(candidate.subrange(0, 7) =~= word.subrange(0, 7));
        }
        if candidate.len() >= 8 {
            assert(candidate.subrange(0, 8) =~= word.subrange(0, 8));
        }
    }
}

proof fn lemma_trimmed(b: Seq<u8>, start: int, end: int)
    requires
        start <= end,
    ensures
        start <= url::trimmed_end(b, start, end) <= end,
    decreases end - start,
{
    if end > start && url::trailing_byte(b[end - 1]) {
        lemma_trimmed(b, start, end - 1);
    }
}

/// A place between bytes that stand in no address points at nothing, and a place behind the text
/// points at what its last byte points at.
pub proof fn law_no_address_elsewhere(b: Seq<u8>, index: int)
    requires
        0 <= index,
    ensures
        b.len() == 0 ==> url::url_at(b, index) is None,
        index < b.len() && !address_byte(b[index]) && (index == 0 || !address_byte(b[index - 1]))
            ==> url::url_at(b, index) is None,
        b.len() > 0 && index >= b.len() ==> url::url_at(b, index) == url::url_at(
            b,
            b.len() - 1,
        ),
{
    if index < b.len() {
        lemma_bytes(b[index]);
        if index > 0 {
            lemma_bytes(b[index - 1]);
        }
    }
}

/// A column of a line points at what the character points at that fills the column.
pub proof fn law_columns_point_at_characters(line: Seq<char>, k: int, col: int)
    requires
        0 <= k < line.len(),
        2 <= col,
        cells::cell_count(cells::measured(line.take(k))) < col <= cells::cell_count(
            cells::measured(line.take(k + 1)),
        ),
    ensures
        url::url_at_column(line, col) == url::url_at(
            encode_utf8(line),
            text::byte_len(line.take(k)) as int,
        ),
        url::url_at_column(line, 1) == url::url_at(encode_utf8(line), 0),
        url::url_at_column(line, 0) == url::url_at(encode_utf8(line), 0),
{
    let all = cells::measured(line);
    assert(cells::measured(line.take(k)) =~= all.take(k));
    assert(cells::measured(line.take(k + 1)) =~= all.take(k + 1));
    crate::laws::cells::law_column_shows_its_character(all, k, col);
    assert(cells::chars_of(all.take(k)) =~= line.take(k));
}

/// The result of a search is the text that was found, or nothing.
pub proof fn law_found_text(found: Option<String>, address: Seq<u8>)
    ensures
        url::is_url_result(found, None) <==> found is None,
        url::is_url_result(found, Some(address)) <==> found is Some && encode_utf8((found->0)@)
            == address,
{
}

} // verus!
