//! Links in plain text: the `http://` or `https://` address under a position of a line.

use crate::cells;
use crate::text;
use vstd::prelude::*;
use vstd::utf8::*;

verus! {

/// The bytes that may stand in an address: letters, digits and `-._~:/?#[]@!$&'()*+,;=%`.
pub open spec fn url_byte(b: u8) -> bool {
    let c = b as char;
    ||| 'a' <= c <= 'z'
    ||| 'A' <= c <= 'Z'
    ||| '0' <= c <= '9'
    ||| c == '-' || c == '.' || c == '_' || c == '~' || c == ':' || c == '/'
    ||| c == '?' || c == '#' || c == '[' || c == ']' || c == '@' || c == '!'
    ||| c == '$' || c == '&' || c == '\'' || c == '(' || c == ')' || c == '*'
    ||| c == '+' || c == ',' || c == ';' || c == '=' || c == '%'
}

/// The bytes that end a sentence or close a bracket rather than belong to the address before them.
pub open spec fn trailing_byte(b: u8) -> bool {
    let c = b as char;
    ||| c == '.' || c == ',' || c == ')' || c == ']' || c == '}'
    ||| c == ';' || c == ':' || c == '!' || c == '?'
}

/// The byte of an address that a position points at: the byte there, or the one before it where
/// the position is just past an address. Positions past the end point at the last byte.
pub open spec fn url_anchor(b: Seq<u8>, index: int) -> Option<int> {
    let i = if index < b.len() {
        index
    } else {
        b.len() - 1
    };
    if b.len() == 0 {
        None
    } else if url_byte(b[i]) {
        Some(i)
    } else if i > 0 && url_byte(b[i - 1]) {
        Some(i - 1)
    } else {
        None
    }
}

/// Where the unbroken run of address bytes that reaches up to `i` starts.
pub open spec fn run_start(b: Seq<u8>, i: int) -> int
    decreases i,
{
    if i > 0 && url_byte(b[i - 1]) {
        run_start(b, i - 1)
    } else {
        i
    }
}

/// Where the unbroken run of address bytes that begins at `i` ends.
pub open spec fn run_end(b: Seq<u8>, i: int) -> int
    decreases b.len() - i,
{
    if i < b.len() && url_byte(b[i]) {
        run_end(b, i + 1)
    } else {
        i
    }
}

/// The end of a run without its trailing bytes.
pub open spec fn trimmed_end(b: Seq<u8>, start: int, end: int) -> int
    decreases end - start,
{
    if end > start && trailing_byte(b[end - 1]) {
        trimmed_end(b, start, end - 1)
    } else {
        end
    }
}

pub open spec fn https_prefix() -> Seq<u8> {
    seq!['h' as u8, 't' as u8, 't' as u8, 'p' as u8, 's' as u8, ':' as u8, '/' as u8, '/' as u8]
}

pub open spec fn http_prefix() -> Seq<u8> {
    seq!['h' as u8, 't' as u8, 't' as u8, 'p' as u8, ':' as u8, '/' as u8, '/' as u8]
}

/// Whether bytes begin with `https://` or `http://`.
pub open spec fn has_web_scheme(b: Seq<u8>) -> bool {
    https_prefix().is_prefix_of(b) || http_prefix().is_prefix_of(b)
}

/// The address around byte `i`: the run of address bytes around it without trailing punctuation,
/// where that names a web address.
pub open spec fn url_around(b: Seq<u8>, i: int) -> Option<Seq<u8>> {
    let start = run_start(b, i);
    let candidate = b.subrange(start, trimmed_end(b, start, run_end(b, i + 1)));
    if has_web_scheme(candidate) {
        Some(candidate)
    } else {
        None
    }
}

/// The address that a position of a text points at.
pub open spec fn url_at(b: Seq<u8>, index: int) -> Option<Seq<u8>> {
    match url_anchor(b, index) {
        Some(i) => url_around(b, i),
        None => None,
    }
}

/// The address that column `col` of a line points at.
pub open spec fn url_at_column(line: Seq<char>, col: int) -> Option<Seq<u8>> {
    url_at(encode_utf8(line), cells::byte_of_column(cells::measured(line), col) as int)
}

/// Whether a result is the text of the address found, or nothing where there is none.
pub open spec fn is_url_result(found: Option<String>, expected: Option<Seq<u8>>) -> bool {
    match expected {
        Some(bytes) => found matches Some(s) && encode_utf8(s@) == bytes,
        None => found is None,
    }
}

/// Whether a byte may stand in an address.
pub fn is_url_byte(b: u8) -> (r: bool)
    ensures
        r == url_byte(b),
{
    let c = b as char;
    (c >= 'a' && c <= 'z') || (c >= 'A' && c <= 'Z') || (c >= '0' && c <= '9') || c == '-'
        || c == '.' || c == '_' || c == '~' || c == ':' || c == '/' || c == '?' || c == '#'
        || c == '[' || c == ']' || c == '@' || c == '!' || c == '$' || c == '&' || c == '\''
        || c == '(' || c == ')' || c == '*' || c == '+' || c == ',' || c == ';' || c == '='
        || c == '%'
}

fn is_trailing_byte(b: u8) -> (r: bool)
    ensures
        r == trailing_byte(b),
{
    let c = b as char;
    c == '.' || c == ',' || c == ')' || c == ']' || c == '}' || c == ';' || c == ':' || c
        == '!' || c == '?'
}

fn starts_with(bytes: &[u8], prefix: &[u8]) -> (r: bool)
    ensures
        r == prefix@.is_prefix_of(bytes@),
{
    if bytes.len() < prefix.len() {
        return false;
    }
    let mut i: usize = 0;
    while i < prefix.len()
        invariant
            i <= prefix.len() <= bytes.len(),
            forall|j: int| 0 <= j < i ==> bytes@[j] == prefix@[j],
        decreases prefix.len() - i,
    {
        if bytes[i] != prefix[i] {
            assert(bytes@.subrange(0, prefix@.len() as int)[i as int] == bytes@[i as int]);
            return false;
        }
        i = i + 1;
    }
    assert(prefix@ =~= bytes@.subrange(0, prefix@.len() as int));
    true
}

proof fn lemma_run(b: Seq<u8>, i: int)
    requires
        0 <= i < b.len(),
        url_byte(b[i]),
    ensures
        0 <= run_start(b, i) <= i < run_end(b, i + 1) <= b.len(),
        run_start(b, i) <= trimmed_end(b, run_start(b, i), run_end(b, i + 1)) <= run_end(b, i + 1),
        forall|k: int| run_start(b, i) <= k < run_end(b, i + 1) ==> url_byte(#[trigger] b[k]),
{
    lemma_run_start(b, i);
    lemma_run_end(b, i + 1);
    lemma_trimmed_end(b, run_start(b, i), run_end(b, i + 1));
}

proof fn lemma_run_start(b: Seq<u8>, i: int)
    requires
        0 <= i <= b.len(),
    ensures
        0 <= run_start(b, i) <= i,
        forall|k: int| run_start(b, i) <= k < i ==> url_byte(#[trigger] b[k]),
        run_start(b, i) == 0 || !url_byte(b[run_start(b, i) - 1]),
    decreases i,
{
    if i > 0 && url_byte(b[i - 1]) {
        lemma_run_start(b, i - 1);
    }
}

proof fn lemma_run_end(b: Seq<u8>, i: int)
    requires
        0 <= i <= b.len(),
    ensures
        i <= run_end(b, i) <= b.len(),
        forall|k: int| i <= k < run_end(b, i) ==> url_byte(#[trigger] b[k]),
        run_end(b, i) == b.len() || !url_byte(b[run_end(b, i)]),
    decreases b.len() - i,
{
    if i < b.len() && url_byte(b[i]) {
        lemma_run_end(b, i + 1);
    }
}

proof fn lemma_trimmed_end(b: Seq<u8>, start: int, end: int)
    requires
        start <= end,
    ensures
        start <= trimmed_end(b, start, end) <= end,
        trimmed_end(b, start, end) == start || !trailing_byte(b[trimmed_end(b, start, end) - 1]),
    decreases end - start,
{
    if end > start && trailing_byte(b[end - 1]) {
        lemma_trimmed_end(b, start, end - 1);
    }
}

/// Both ends of a run of ASCII bytes are character boundaries.
proof fn lemma_ascii_run_is_text(s: Seq<char>, start: int, end: int)
    requires
        0 <= start < end <= text::byte_len(s),
        forall|k: int| start <= k < end ==> #[trigger] encode_utf8(s)[k] < 0x80,
    ensures
        text::is_text_range(s, start, end),
{
    let b = encode_utf8(s);
    encode_utf8_valid_utf8(s);
    is_char_boundary_iff_not_is_continuation_byte(b, start);
    assert(b[start] < 0x80);
    assert(b[end - 1] < 0x80);
    is_char_boundary_iff_not_is_continuation_byte(b, end - 1);
    let tail = b.subrange(end - 1, b.len() as int);
    valid_utf8_split(b, end - 1);
    assert(tail[0] == b[end - 1]);
    if end < b.len() {
        let rest = pop_first_scalar(tail);
        assert(valid_utf8(rest));
        assert(rest[0] == b[end]);
        assert(valid_first_scalar(rest));
        is_char_boundary_iff_not_is_continuation_byte(b, end);
    } else {
        is_char_boundary_start_end_of_seq(b);
    }
}

/// The web address that byte `index` of a text points at, if there is one.
pub fn url_at_byte_index(text: &str, index: usize) -> (url: Option<String>)
    ensures
        is_url_result(url, url_at(encode_utf8(text@), index as int)),
{
    let bytes = text.as_bytes();
    let ghost b = encode_utf8(text@);
    if bytes.len() == 0 {
        return None;
    }
    let mut idx: usize = if index < bytes.len() {
        index
    } else {
        bytes.len() - 1
    };
    if !is_url_byte(bytes[idx]) && idx > 0 && is_url_byte(bytes[idx - 1]) {
        idx = idx - 1;
    }
    if !is_url_byte(bytes[idx]) {
        return None;
    }
    let mut start: usize = idx;
    while start > 0 && is_url_byte(bytes[start - 1])
        invariant
            bytes@ == b,
            start <= idx < bytes.len(),
            run_start(b, start as int) == run_start(b, idx as int),
        decreases start,
    {
        start = start - 1;
    }
    let mut end: usize = idx + 1;
    while end < bytes.len() && is_url_byte(bytes[end])
        invariant
            bytes@ == b,
            idx < end <= bytes.len(),
            run_end(b, end as int) == run_end(b, idx + 1),
        decreases bytes.len() - end,
    {
        end = end + 1;
    }
    proof {
        lemma_run(b, idx as int);
    }
    let ghost run_stop = end;
    while end > start && is_trailing_byte(bytes[end - 1])
        invariant
            bytes@ == b,
            start <= end <= run_stop <= bytes.len(),
            trimmed_end(b, start as int, end as int) == trimmed_end(
                b,
                start as int,
                run_stop as int,
            ),
        decreases end,
    {
        end = end - 1;
    }
    let candidate = vstd::slice::slice_subrange(bytes, start, end);
    let https = ['h' as u8, 't' as u8, 't' as u8, 'p' as u8, 's' as u8, ':' as u8, '/' as u8, '/' as u8];
    let http = ['h' as u8, 't' as u8, 't' as u8, 'p' as u8, ':' as u8, '/' as u8, '/' as u8];
    assert(https@ =~= https_prefix());
    assert(http@ =~= http_prefix());
    if starts_with(candidate, &https) || starts_with(candidate, &http) {
        proof {
            assert(candidate@.len() > 0);
            lemma_ascii_run_is_text(text@, start as int, end as int);
        }
        match text::byte_slice(text, start, end) {
            Some(part) => Some(part.to_string()),
            None => None,
        }
    } else {
        None
    }
}

/// The web address that column `col` of a line, counted from 1, points at, if there is one.
pub fn url_at_column_in_line(line: &str, col: u16) -> (url: Option<String>)
    ensures
        is_url_result(url, url_at_column(line@, col as int)),
{
    let index = cells::byte_index_for_column_in_line(line, col);
    url_at_byte_index(line, index)
}

/// Every address found is a stretch of the text, begins with `http://` or `https://`, holds address
/// bytes only and does not end in trailing punctuation.
pub proof fn law_url_shape(b: Seq<u8>, index: int)
    requires
        0 <= index,
    ensures
        url_at(b, index) matches Some(url) ==> {
            &&& has_web_scheme(url)
            &&& forall|k: int| 0 <= k < url.len() ==> url_byte(#[trigger] url[k])
            &&& !trailing_byte(url.last())
            &&& exists|start: int|
                0 <= start <= b.len() - url.len() && url == #[trigger] b.subrange(
                    start,
                    start + url.len(),
                )
        },
{
    if let Some(i) = url_anchor(b, index) {
        let start = run_start(b, i);
        let end = trimmed_end(b, start, run_end(b, i + 1));
        lemma_run(b, i);
        lemma_trimmed_end(b, start, run_end(b, i + 1));
        if let Some(url) = url_at(b, index) {
            assert(url.len() > 0);
            assert(url.last() == b[end - 1]);
            assert(url == b.subrange(start, start + url.len()));
        }
    }
}

/// All positions inside one unbroken run of address bytes point at the same address.
pub proof fn law_url_same_in_run(b: Seq<u8>, i: int, j: int)
    requires
        0 <= i <= j < b.len(),
        forall|k: int| i <= k <= j ==> url_byte(#[trigger] b[k]),
    ensures
        url_at(b, i) == url_at(b, j),
{
    assert(url_byte(b[i]) && url_byte(b[j]));
    lemma_run_start_shared(b, i, j);
    lemma_run_end_shared(b, i + 1, j + 1);
}

/// A position just past an address points at that address.
pub proof fn law_url_just_past(b: Seq<u8>, i: int)
    requires
        0 < i < b.len(),
        url_byte(b[i - 1]),
        !url_byte(b[i]),
    ensures
        url_at(b, i) == url_at(b, i - 1),
{
}

proof fn lemma_run_start_shared(b: Seq<u8>, i: int, j: int)
    requires
        0 <= i <= j < b.len(),
        forall|k: int| i <= k <= j ==> url_byte(#[trigger] b[k]),
    ensures
        run_start(b, i) == run_start(b, j),
    decreases j - i,
{
    if i < j {
        assert(url_byte(b[j - 1]));
        lemma_run_start_shared(b, i, j - 1);
    }
}

proof fn lemma_run_end_shared(b: Seq<u8>, i: int, j: int)
    requires
        0 <= i <= j <= b.len(),
        forall|k: int| i <= k < j ==> url_byte(#[trigger] b[k]),
    ensures
        run_end(b, i) == run_end(b, j),
    decreases j - i,
{
    if i < j {
        assert(url_byte(b[i]));
        lemma_run_end_shared(b, i + 1, j);
    }
}

} // verus!
