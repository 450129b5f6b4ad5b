//! The text that the viewport shows: its lines, where each begins, and what a byte range selects.

use crate::text;
use crate::url;
use crate::view;
use crate::view::TerminalView;
use std::ops::Range;
use vstd::prelude::*;
use vstd::utf8::*;

verus! {

/// The byte at which line `i` starts in the text of the viewport, where every line ends with a
/// line feed.
pub open spec fn line_start(lines: Seq<Seq<char>>, i: int) -> nat
    decreases i,
{
    if i <= 0 {
        0
    } else {
        line_start(lines, i - 1) + text::byte_len(lines[i - 1]) + 1
    }
}

/// Whether a list holds the start of every line.
pub open spec fn offsets_match(lines: Seq<Seq<char>>, offsets: Seq<usize>) -> bool {
    &&& offsets.len() == lines.len()
    &&& forall|i: int|
        0 <= i < offsets.len() ==> #[trigger] offsets[i] == text::saturated(
            line_start(lines, i) as int,
        )
}

/// The length in bytes of the text of the viewport.
pub open spec fn total_len(lines: Seq<Seq<char>>) -> int {
    text::saturated(line_start(lines, lines.len() as int) as int)
}

/// A text without the line feed at its end, if it has one.
pub open spec fn without_line_end(s: Seq<char>) -> Seq<char> {
    if s.len() > 0 && s.last() == '\n' {
        s.drop_last()
    } else {
        s
    }
}

/// The parts of a text between its line feeds.
pub open spec fn split_at_line_feeds(s: Seq<char>) -> Seq<Seq<char>>
    decreases s.len(),
{
    if s.len() == 0 {
        seq![Seq::empty()]
    } else {
        let front = split_at_line_feeds(s.drop_last());
        if s.last() == '\n' {
            front.push(Seq::empty())
        } else {
            front.drop_last().push(front.last().push(s.last()))
        }
    }
}

/// The lines of a viewport dump: the parts between the line feeds, where a line feed at the end
/// starts no line of its own, and a dump without text has no lines.
pub open spec fn dump_lines(dump: Seq<char>) -> Seq<Seq<char>> {
    if without_line_end(dump).len() == 0 {
        Seq::empty()
    } else {
        split_at_line_feeds(without_line_end(dump))
    }
}

/// The lines of a viewport dump.
pub fn split_viewport_lines(viewport: &str) -> (lines: Vec<String>)
    ensures
        view::texts(lines@) == dump_lines(viewport@),
{
    let ghost total = viewport@;
    let mut lines: Vec<String> = Vec::new();
    let mut line = String::new();
    let mut count: usize = 0;
    let mut ends_line = false;
    let bytes = viewport.as_bytes().len();
    proof {
        assert(total.take(0) =~= Seq::<char>::empty());
        assert(view::texts(lines@).push(line@) =~= split_at_line_feeds(total.take(0)));
        text::lemma_utf16_at_most_bytes(total);
    }
    for ch in it: viewport.chars()
        invariant
            it.seq() == total,
            total == viewport@,
            total.len() <= bytes,
            count == it.index(),
            ends_line == (count > 0 && total[count - 1] == '\n'),
            view::texts(lines@).push(line@) == split_at_line_feeds(total.take(it.index())),
    {
        let ghost i = it.index();
        let ghost before = view::texts(lines@).push(line@);
        assert(total.take(i + 1).drop_last() =~= total.take(i));
        if ch == '\n' {
            lines.push(line);
            line = String::new();
            ends_line = true;
            assert(view::texts(lines@) =~= before);
        } else {
            line.push(ch);
            ends_line = false;
            assert(view::texts(lines@) =~= before.drop_last());
        }
        count = count + 1;
    }
    proof {
        assert(total.take(total.len() as int) =~= total);
        if ends_line {
            let front = total.drop_last();
            assert(view::texts(lines@) =~= split_at_line_feeds(total).drop_last());
            assert(split_at_line_feeds(total).drop_last() =~= split_at_line_feeds(front));
        }
    }
    if count == 0 {
        assert(view::texts(lines@) =~= Seq::<Seq<char>>::empty()) by {
            assert(split_at_line_feeds(total).len() == 1);
        }
        return lines;
    }
    if ends_line {
        if count == 1 {
            return Vec::new();
        }
        return lines;
    }
    let ghost before = view::texts(lines@).push(line@);
    lines.push(line);
    assert(view::texts(lines@) =~= before);
    lines
}

/// The byte at which each line starts.
pub fn compute_viewport_line_offsets(lines: &Vec<String>) -> (offsets: Vec<usize>)
    ensures
        offsets_match(view::texts(lines@), offsets@),
{
    let ghost all = view::texts(lines@);
    let mut offsets: Vec<usize> = Vec::with_capacity(lines.len());
    let mut offset: usize = 0;
    let mut i: usize = 0;
    while i < lines.len()
        invariant
            all == view::texts(lines@),
            i <= lines.len(),
            offsets.len() == i,
            offset == text::saturated(line_start(all, i as int) as int),
            forall|j: int|
                0 <= j < i ==> #[trigger] offsets@[j] == text::saturated(
                    line_start(all, j) as int,
                ),
        decreases lines.len() - i,
    {
        offsets.push(offset);
        offset = offset.saturating_add(lines[i].as_str().as_bytes().len()).saturating_add(1);
        assert(all[i as int] == lines@[i as int]@);
        i = i + 1;
    }
    offsets
}

/// The length in bytes of lines that each end with a line feed.
pub fn compute_viewport_total_len(lines: &Vec<String>) -> (len: usize)
    ensures
        len == total_len(view::texts(lines@)),
{
    let ghost all = view::texts(lines@);
    let mut len: usize = 0;
    let mut i: usize = 0;
    while i < lines.len()
        invariant
            all == view::texts(lines@),
            i <= lines.len(),
            len == text::saturated(line_start(all, i as int) as int),
        decreases lines.len() - i,
    {
        len = len.saturating_add(lines[i].as_str().as_bytes().len()).saturating_add(1);
        assert(all[i as int] == lines@[i as int]@);
        i = i + 1;
    }
    len
}

/// The characters between two bytes of a text; none where the range splits a character.
pub open spec fn text_between(s: Seq<char>, start: int, end: int) -> Seq<char> {
    if text::is_text_range(s, start, end) {
        decode_utf8(encode_utf8(s).subrange(start, end))
    } else {
        Seq::empty()
    }
}

/// What a byte range of the viewport takes from a line that starts at byte `at`: the bytes of the
/// line that lie in the range, and the line feed where the range reaches past it.
pub open spec fn line_part(line: Seq<char>, at: int, start: int, end: int) -> Seq<char> {
    let len = text::byte_len(line) as int;
    let from = if start > at {
        start - at
    } else {
        0
    };
    let reach = text::saturated(at + len + 1);
    let to = (if end < reach {
        end
    } else {
        reach
    }) - at;
    if from < to {
        (if from < len {
            text_between(
                line,
                from,
                if to < len {
                    to
                } else {
                    len
                },
            )
        } else {
            Seq::empty()
        }) + (if to > len {
            seq!['\n']
        } else {
            Seq::empty()
        })
    } else {
        Seq::empty()
    }
}

/// What a byte range of the viewport takes from its first `n` lines.
pub open spec fn lines_part(lines: Seq<Seq<char>>, n: int, start: int, end: int) -> Seq<char>
    decreases n,
{
    if n <= 0 {
        Seq::empty()
    } else {
        lines_part(lines, n - 1, start, end) + line_part(
            lines[n - 1],
            text::saturated(line_start(lines, n - 1) as int),
            start,
            end,
        )
    }
}

/// The text that a byte range of the viewport selects. The range is cut at the end of the text.
pub open spec fn selected_text(lines: Seq<Seq<char>>, start: int, end: int) -> Seq<char> {
    let total = total_len(lines);
    let to = if end < total {
        end
    } else {
        total
    };
    if start < to {
        lines_part(lines, lines.len() as int, start, to)
    } else {
        Seq::empty()
    }
}

impl<F, L, K> TerminalView<F, L, K> {
    /// The text that a byte range of the viewport selects.
    pub fn viewport_slice(&self, range: Range<usize>) -> (out: String)
        requires
            self.wf(),
        ensures
            out@ == selected_text(self@.lines, range.start as int, range.end as int),
    {
        let ghost lines = self@.lines;
        let mut out = String::new();
        let start = range.start;
        let end: usize = if range.end < self.viewport_total_len {
            range.end
        } else {
            self.viewport_total_len
        };
        if start >= end {
            return out;
        }
        let mut i: usize = 0;
        while i < self.viewport_lines.len()
            invariant
                self.wf(),
                lines == self@.lines,
                i <= self.viewport_lines.len(),
                start < end <= total_len(lines),
                out@ == lines_part(lines, i as int, start as int, end as int),
            decreases self.viewport_lines.len() - i,
        {
            let line_at = self.viewport_line_offsets[i];
            let line = self.viewport_lines[i].as_str();
            let len = line.as_bytes().len();
            assert(lines[i as int] == line@);
            let reach = line_at.saturating_add(len).saturating_add(1);
            let seg_start: usize = if start > line_at {
                start
            } else {
                line_at
            };
            let seg_end: usize = if end < reach {
                end
            } else {
                reach
            };
            let ghost before = out@;
            let ghost part = line_part(line@, line_at as int, start as int, end as int);
            if seg_start < seg_end {
                let local_start: usize = seg_start - line_at;
                let local_end: usize = seg_end - line_at;
                if local_start < len {
                    let text_end: usize = if local_end < len {
                        local_end
                    } else {
                        len
                    };
                    if let Some(seg) = text::byte_slice(line, local_start, text_end) {
                        proof {
                            encode_utf8_decode_utf8(seg@);
                        }
                        out.append(seg);
                    }
                }
                if local_end > len {
                    out.push('\n');
                }
            }
            assert(out@ =~= before + part);
            i = i + 1;
        }
        out
    }
}

/// The last of the first `n` lines that starts at or before a byte of the viewport; the first
/// line where there is none.
pub open spec fn row_of_byte(lines: Seq<Seq<char>>, n: int, index: int) -> int
    decreases n,
{
    if n <= 1 {
        0
    } else if text::saturated(line_start(lines, n - 1) as int) <= index {
        n - 1
    } else {
        row_of_byte(lines, n - 1, index)
    }
}

/// The address that a byte of the viewport points at. Positions past the end point at the last
/// byte.
pub open spec fn url_at_byte(lines: Seq<Seq<char>>, index: int) -> Option<Seq<u8>> {
    let i = if index < total_len(lines) {
        index
    } else {
        total_len(lines) - 1
    };
    let row = row_of_byte(lines, lines.len() as int, i);
    if lines.len() == 0 {
        None
    } else {
        url::url_at(
            encode_utf8(lines[row]),
            i - text::saturated(line_start(lines, row) as int),
        )
    }
}

impl<F, L, K> TerminalView<F, L, K> {
    /// The web address that a byte of the viewport points at, if there is one.
    pub fn url_at_viewport_index(&self, index: usize) -> (found: Option<String>)
        requires
            self.wf(),
        ensures
            url::is_url_result(found, url_at_byte(self@.lines, index as int)),
    {
        let ghost lines = self@.lines;
        if self.viewport_lines.len() == 0 {
            return None;
        }
        proof {
            lemma_total_positive(lines);
        }
        let idx: usize = if index < self.viewport_total_len {
            index
        } else {
            self.viewport_total_len - 1
        };
        let mut row: usize = self.viewport_lines.len() - 1;
        while row > 0 && self.viewport_line_offsets[row] > idx
            invariant
                self.wf(),
                lines == self@.lines,
                row < lines.len(),
                row_of_byte(lines, row + 1, idx as int) == row_of_byte(
                    lines,
                    lines.len() as int,
                    idx as int,
                ),
            decreases row,
        {
            row = row - 1;
        }
        let line_at = self.viewport_line_offsets[row];
        assert(line_at <= idx);
        assert(lines[row as int] == self.viewport_lines@[row as int]@);
        url::url_at_byte_index(self.viewport_lines[row].as_str(), idx - line_at)
    }
}

proof fn lemma_total_positive(lines: Seq<Seq<char>>)
    requires
        lines.len() > 0,
    ensures
        total_len(lines) > 0,
{
}

/// A byte of a line, counted from the start of the viewport, points at the address that it points
/// at in its line.
pub proof fn law_url_in_line(lines: Seq<Seq<char>>, row: int, at: int)
    requires
        line_start(lines, lines.len() as int) <= usize::MAX,
        0 <= row < lines.len(),
        0 <= at <= text::byte_len(lines[row]),
    ensures
        url_at_byte(lines, line_start(lines, row) + at) == url::url_at(
            encode_utf8(lines[row]),
            at,
        ),
{
    lemma_line_starts(lines, row + 1, lines.len() as int);
    lemma_row_of_byte(lines, lines.len() as int, row, line_start(lines, row) + at);
}

pub proof fn lemma_line_starts(lines: Seq<Seq<char>>, n: int, m: int)
    requires
        0 <= n <= m,
    ensures
        line_start(lines, n) + (m - n) <= line_start(lines, m),
    decreases m,
{
    if n < m {
        lemma_line_starts(lines, n, m - 1);
    }
}

proof fn lemma_row_of_byte(lines: Seq<Seq<char>>, n: int, row: int, index: int)
    requires
        line_start(lines, lines.len() as int) <= usize::MAX,
        0 <= row < n <= lines.len(),
        line_start(lines, row) <= index < line_start(lines, row + 1),
    ensures
        row_of_byte(lines, n, index) == row,
    decreases n,
{
    lemma_line_starts(lines, n - 1, lines.len() as int);
    lemma_line_starts(lines, row, n - 1);
    if n - 1 > row {
        lemma_line_starts(lines, row + 1, n - 1);
        lemma_row_of_byte(lines, n - 1, row, index);
    }
}

/// The text of the viewport: its first `n` lines, each with a line feed.
pub open spec fn joined(lines: Seq<Seq<char>>, n: int) -> Seq<char>
    decreases n,
{
    if n <= 0 {
        Seq::empty()
    } else {
        joined(lines, n - 1) + lines[n - 1].push('\n')
    }
}

/// A byte range of the viewport selects exactly those bytes of its text, wherever the range does
/// not split a character.
pub proof fn law_selection_is_substring(lines: Seq<Seq<char>>, start: int, end: int)
    requires
        line_start(lines, lines.len() as int) <= usize::MAX,
        text::is_text_range(joined(lines, lines.len() as int), start, end),
    ensures
        encode_utf8(selected_text(lines, start, end)) == encode_utf8(
            joined(lines, lines.len() as int),
        ).subrange(start, end),
{
    let n = lines.len() as int;
    let all = encode_utf8(joined(lines, n));
    lemma_joined_len(lines, n);
    if start < end {
        lemma_lines_part(lines, n, start, end);
        assert(all.subrange(start, end) =~= all.subrange(clipped(start, n, lines), clipped(end, n, lines)));
    } else {
        assert(all.subrange(start, end) =~= Seq::<u8>::empty());
    }
}

/// The whole byte range of the viewport selects its whole text.
pub proof fn law_whole_selection(lines: Seq<Seq<char>>)
    requires
        line_start(lines, lines.len() as int) <= usize::MAX,
    ensures
        selected_text(lines, 0, total_len(lines)) == joined(lines, lines.len() as int),
{
    let n = lines.len() as int;
    let all = joined(lines, n);
    encode_utf8_valid_utf8(all);
    is_char_boundary_start_end_of_seq(encode_utf8(all));
    lemma_joined_len(lines, n);
    law_selection_is_substring(lines, 0, total_len(lines));
    assert(encode_utf8(all).subrange(0, total_len(lines)) =~= encode_utf8(all));
    text::lemma_encoding_injective(selected_text(lines, 0, total_len(lines)), all);
}

/// A position between two characters of a line lies between two characters of the text of the
/// viewport.
pub proof fn law_line_positions(lines: Seq<Seq<char>>, row: int, k: int)
    requires
        0 <= row < lines.len(),
        0 <= k <= lines[row].len(),
    ensures
        is_char_boundary(
            encode_utf8(joined(lines, lines.len() as int)),
            (line_start(lines, row) + text::byte_len(lines[row].take(k))) as int,
        ),
{
    let line = lines[row];
    let head = joined(lines, row) + line.take(k);
    let after = lemma_joined_tail(lines, row + 1, lines.len() as int);
    let tail = line.skip(k).push('\n') + after;
    assert(line =~= line.take(k) + line.skip(k));
    assert(head + tail =~= joined(lines, lines.len() as int));
    lemma_joined_len(lines, row);
    text::lemma_byte_len_concat(joined(lines, row), line.take(k));
    text::lemma_prefix_is_boundary(head, tail);
}

proof fn lemma_joined_tail(lines: Seq<Seq<char>>, n: int, m: int) -> (tail: Seq<char>)
    requires
        0 <= n <= m <= lines.len(),
    ensures
        joined(lines, m) == joined(lines, n) + tail,
    decreases m,
{
    if n == m {
        assert(joined(lines, m) =~= joined(lines, n) + Seq::<char>::empty());
        Seq::empty()
    } else {
        let before = lemma_joined_tail(lines, n, m - 1);
        let tail = before + lines[m - 1].push('\n');
        assert(joined(lines, m) =~= joined(lines, n) + tail);
        tail
    }
}

/// The lines of a dump hold its whole text: joined again they are the dump, with a line feed at its
/// end.
pub proof fn law_dump_round_trip(dump: Seq<char>)
    requires
        without_line_end(dump).len() > 0,
    ensures
        joined(dump_lines(dump), dump_lines(dump).len() as int) == without_line_end(dump).push('\n'),
{
    lemma_split_joined(without_line_end(dump));
}

/// No line of a dump holds a line feed.
pub proof fn law_lines_have_no_line_feed(dump: Seq<char>)
    ensures
        forall|i: int|
            0 <= i < dump_lines(dump).len() ==> !#[trigger] dump_lines(dump)[i].contains('\n'),
{
    lemma_split_no_line_feed(without_line_end(dump));
}

proof fn lemma_split_no_line_feed(s: Seq<char>)
    ensures
        split_at_line_feeds(s).len() > 0,
        forall|i: int|
            0 <= i < split_at_line_feeds(s).len() ==> !#[trigger] split_at_line_feeds(
                s,
            )[i].contains('\n'),
    decreases s.len(),
{
    if s.len() > 0 {
        lemma_split_no_line_feed(s.drop_last());
        let front = split_at_line_feeds(s.drop_last());
        let all = split_at_line_feeds(s);
        assert forall|i: int| 0 <= i < all.len() implies !#[trigger] all[i].contains('\n') by {
            if i < front.len() - 1 || s.last() == '\n' && i < front.len() {
                assert(all[i] == front[i]);
            } else if s.last() != '\n' {
                assert(all[i] == front.last().push(s.last()));
                assert(!front[front.len() - 1].contains('\n'));
                if all[i].contains('\n') {
                    let k = choose|k: int| 0 <= k < all[i].len() && all[i][k] == '\n';
                    assert(front.last()[k] == '\n');
                }
            }
        }
    }
}

proof fn lemma_split_joined(s: Seq<char>)
    ensures
        split_at_line_feeds(s).len() > 0,
        joined(split_at_line_feeds(s), split_at_line_feeds(s).len() as int) == s.push('\n'),
    decreases s.len(),
{
    let all = split_at_line_feeds(s);
    if s.len() == 0 {
        assert(joined(all, 0) =~= Seq::<char>::empty());
        assert(joined(all, 1) =~= s.push('\n'));
    } else {
        let front = split_at_line_feeds(s.drop_last());
        let n = front.len() as int;
        lemma_split_joined(s.drop_last());
        if s.last() == '\n' {
            lemma_joined_prefix(all, front, n);
            assert(joined(all, n + 1) =~= s.push('\n'));
        } else {
            lemma_joined_prefix(all, front, n - 1);
            assert(joined(front, n) == joined(front, n - 1) + front.last().push('\n'));
            let head = joined(front, n - 1) + front.last();
            assert(head.push('\n') =~= s.drop_last().push('\n'));
            assert(head =~= s.drop_last()) by {
                assert(head.push('\n').drop_last() =~= head);
                assert(s.drop_last().push('\n').drop_last() =~= s.drop_last());
            }
            assert(all[n - 1] == front.last().push(s.last()));
            assert(joined(all, n) == joined(front, n - 1) + front.last().push(s.last()).push('\n'));
            assert(joined(all, n) =~= head.push(s.last()).push('\n'));
            assert(s =~= s.drop_last().push(s.last()));
        }
    }
}

proof fn lemma_joined_prefix(a: Seq<Seq<char>>, b: Seq<Seq<char>>, n: int)
    requires
        0 <= n <= a.len(),
        n <= b.len(),
        forall|i: int| 0 <= i < n ==> #[trigger] a[i] == #[trigger] b[i],
    ensures
        joined(a, n) == joined(b, n),
    decreases n,
{
    if n > 0 {
        lemma_joined_prefix(a, b, n - 1);
        assert(a[n - 1] == b[n - 1]);
    }
}

pub proof fn lemma_joined_len(lines: Seq<Seq<char>>, n: int)
    requires
        0 <= n <= lines.len(),
    ensures
        text::byte_len(joined(lines, n)) == line_start(lines, n),
        n > 0 ==> encode_utf8(joined(lines, n)) == encode_utf8(joined(lines, n - 1)) + encode_utf8(
            lines[n - 1],
        ).push(0x0a),
    decreases n,
{
    if n > 0 {
        lemma_joined_len(lines, n - 1);
        let line = lines[n - 1];
        text::lemma_byte_len_concat(joined(lines, n - 1), line.push('\n'));
        assert(line.push('\n') =~= line + seq!['\n']);
        text::lemma_byte_len_concat(line, seq!['\n']);
        lemma_line_feed_encoding();
        assert(encode_utf8(line.push('\n')) =~= encode_utf8(line).push(0x0a));
    }
}

proof fn lemma_line_feed_encoding()
    ensures
        encode_utf8(seq!['\n']) == seq![0x0au8],
{
    let one = seq!['\n'];
    is_ascii_chars_encode_utf8(one);
    assert(encode_utf8(one) =~= seq![0x0au8]);
}

/// The text of the first lines is a prefix of the text of all lines.
proof fn lemma_joined_is_prefix(lines: Seq<Seq<char>>, n: int, m: int)
    requires
        0 <= n <= m <= lines.len(),
    ensures
        line_start(lines, n) <= line_start(lines, m),
        encode_utf8(joined(lines, n)) == encode_utf8(joined(lines, m)).subrange(
            0,
            line_start(lines, n) as int,
        ),
    decreases m,
{
    lemma_joined_len(lines, n);
    lemma_joined_len(lines, m);
    if n < m {
        lemma_joined_is_prefix(lines, n, m - 1);
        lemma_joined_len(lines, m - 1);
        assert(encode_utf8(joined(lines, m)).subrange(0, line_start(lines, n) as int)
            =~= encode_utf8(joined(lines, m - 1)).subrange(0, line_start(lines, n) as int));
    } else {
        assert(encode_utf8(joined(lines, m)).subrange(0, line_start(lines, n) as int)
            =~= encode_utf8(joined(lines, n)));
    }
}

spec fn clipped(x: int, n: int, lines: Seq<Seq<char>>) -> int {
    if x < line_start(lines, n) {
        x
    } else {
        line_start(lines, n) as int
    }
}

proof fn lemma_text_between(s: Seq<char>, start: int, end: int)
    requires
        text::is_text_range(s, start, end),
    ensures
        encode_utf8(text_between(s, start, end)) == encode_utf8(s).subrange(start, end),
{
    let b = encode_utf8(s);
    encode_utf8_valid_utf8(s);
    text::lemma_boundary_in_prefix(b, start, end);
    valid_utf8_split(b.subrange(0, end), start);
    assert(b.subrange(0, end).subrange(start, end) =~= b.subrange(start, end));
    decode_utf8_encode_utf8(b.subrange(start, end));
}

/// A boundary of the text of the viewport is a boundary of the line that it falls in.
proof fn lemma_boundary_in_line(lines: Seq<Seq<char>>, row: int, at: int)
    requires
        0 <= row < lines.len(),
        is_char_boundary(encode_utf8(joined(lines, lines.len() as int)), at),
        line_start(lines, row) <= at <= line_start(lines, row) + text::byte_len(lines[row]),
    ensures
        is_char_boundary(encode_utf8(lines[row]), at - line_start(lines, row)),
{
    let n = lines.len() as int;
    let all = encode_utf8(joined(lines, n));
    let line = encode_utf8(lines[row]);
    let local = at - line_start(lines, row);
    encode_utf8_valid_utf8(lines[row]);
    encode_utf8_valid_utf8(joined(lines, n));
    lemma_joined_len(lines, n);
    lemma_joined_is_prefix(lines, row + 1, n);
    lemma_joined_len(lines, row + 1);
    lemma_joined_len(lines, row);
    if local == line.len() {
        is_char_boundary_start_end_of_seq(line);
    } else {
        assert(encode_utf8(joined(lines, row + 1))[at] == all[at]);
        assert(encode_utf8(joined(lines, row + 1))[at] == line[local]);
        is_char_boundary_iff_not_is_continuation_byte(all, at);
        is_char_boundary_iff_not_is_continuation_byte(line, local);
    }
}

spec fn part_from(lines: Seq<Seq<char>>, row: int, start: int) -> int {
    let at = line_start(lines, row) as int;
    if start > at {
        start
    } else {
        at
    }
}

/// What a range takes from one line are the bytes of the range that the line covers.
proof fn lemma_line_part(lines: Seq<Seq<char>>, row: int, start: int, end: int)
    requires
        0 <= row < lines.len(),
        start < end,
        line_start(lines, lines.len() as int) <= usize::MAX,
        text::is_text_range(joined(lines, lines.len() as int), start, end),
    ensures
        part_from(lines, row, start) < clipped(end, row + 1, lines) ==> encode_utf8(
            line_part(lines[row], line_start(lines, row) as int, start, end),
        ) == encode_utf8(joined(lines, row + 1)).subrange(
            part_from(lines, row, start),
            clipped(end, row + 1, lines),
        ),
        part_from(lines, row, start) >= clipped(end, row + 1, lines) ==> line_part(
            lines[row],
            line_start(lines, row) as int,
            start,
            end,
        ).len() == 0,
{
    let line = lines[row];
    let bytes = encode_utf8(line);
    let at = line_start(lines, row) as int;
    let len = text::byte_len(line) as int;
    let from = part_from(lines, row, start) - at;
    let to = clipped(end, row + 1, lines) - at;
    lemma_joined_is_prefix(lines, row + 1, lines.len() as int);
    lemma_joined_len(lines, row + 1);
    lemma_joined_len(lines, row);
    assert(line_start(lines, row + 1) == at + len + 1);
    assert(text::saturated(at + len + 1) == at + len + 1);
    if from < to {
        let stop = if to < len {
            to
        } else {
            len
        };
        let shown = if from < len {
            text_between(line, from, stop)
        } else {
            Seq::empty()
        };
        let feed = if to > len {
            seq!['\n']
        } else {
            Seq::empty()
        };
        assert(line_part(line, at, start, end) == shown + feed);
        text::lemma_byte_len_concat(shown, feed);
        let whole = encode_utf8(joined(lines, row + 1));
        assert(encode_utf8(shown) =~= whole.subrange(
            at + from,
            if from < len {
                at + stop
            } else {
                at + from
            },
        )) by {
            if from < len {
                lemma_line_range(lines, row, start, end, from, stop);
                lemma_text_between(line, from, stop);
                assert(bytes.subrange(from, stop) =~= whole.subrange(at + from, at + stop));
            }
        }
        assert(encode_utf8(feed) =~= if to > len {
            seq![0x0au8]
        } else {
            Seq::empty()
        }) by {
            lemma_line_feed_encoding();
        }
        assert(encode_utf8(shown + feed) =~= whole.subrange(at + from, at + to));
    }
}

proof fn lemma_line_range(
    lines: Seq<Seq<char>>,
    row: int,
    start: int,
    end: int,
    from: int,
    stop: int,
)
    requires
        0 <= row < lines.len(),
        is_char_boundary(encode_utf8(joined(lines, lines.len() as int)), start),
        is_char_boundary(encode_utf8(joined(lines, lines.len() as int)), end),
        0 <= from <= stop <= text::byte_len(lines[row]),
        from == 0 || line_start(lines, row) + from == start,
        stop == text::byte_len(lines[row]) || line_start(lines, row) + stop == end,
    ensures
        text::is_text_range(lines[row], from, stop),
{
    let line = lines[row];
    encode_utf8_valid_utf8(line);
    is_char_boundary_start_end_of_seq(encode_utf8(line));
    if from != 0 {
        lemma_boundary_in_line(lines, row, start);
    }
    if stop != text::byte_len(line) {
        lemma_boundary_in_line(lines, row, end);
    }
}

proof fn lemma_lines_part(lines: Seq<Seq<char>>, n: int, start: int, end: int)
    requires
        0 <= n <= lines.len(),
        start < end,
        line_start(lines, lines.len() as int) <= usize::MAX,
        text::is_text_range(joined(lines, lines.len() as int), start, end),
    ensures
        encode_utf8(lines_part(lines, n, start, end)) == encode_utf8(
            joined(lines, lines.len() as int),
        ).subrange(clipped(start, n, lines), clipped(end, n, lines)),
    decreases n,
{
    let all = encode_utf8(joined(lines, lines.len() as int));
    lemma_joined_len(lines, lines.len() as int);
    if n > 0 {
        let row = n - 1;
        let at = line_start(lines, row) as int;
        lemma_lines_part(lines, row, start, end);
        lemma_joined_is_prefix(lines, n, lines.len() as int);
        lemma_joined_is_prefix(lines, row, n);
        lemma_line_part(lines, row, start, end);
        let head = lines_part(lines, row, start, end);
        let part = line_part(lines[row], at, start, end);
        text::lemma_byte_len_concat(head, part);
        let from = part_from(lines, row, start);
        let to = clipped(end, n, lines);
        if from < to {
            assert(encode_utf8(joined(lines, n)).subrange(from, to) =~= all.subrange(from, to));
            assert(all.subrange(clipped(start, n, lines), to) =~= all.subrange(
                clipped(start, row, lines),
                clipped(end, row, lines),
            ) + all.subrange(from, to));
        } else {
            assert(encode_utf8(part) =~= Seq::<u8>::empty());
            assert(all.subrange(clipped(start, n, lines), to) =~= all.subrange(
                clipped(start, row, lines),
                clipped(end, row, lines),
            ));
        }
    } else {
        assert(all.subrange(clipped(start, n, lines), clipped(end, n, lines))
            =~= Seq::<u8>::empty());
    }
}

} // verus!
