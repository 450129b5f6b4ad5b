//! Input methods: the text that is being composed, and what it is replaced by.

use crate::cells;
use crate::effect;
use crate::effect::{Effect, EffectView};
use crate::input;
use crate::text;
use crate::view::{TerminalView, ViewModel};
use std::ops::Range;
use vstd::prelude::*;
use vstd::utf8::*;

verus! {

broadcast use crate::effect::group_effects;

/// Where a piece of text is drawn, in cells: the cell of the cursor, counted from 0, and the
/// distance from it to the right.
#[derive(Clone, Copy, Debug, PartialEq, Eq, Structural)]
pub struct CellPosition {
    pub col: u16,
    pub row: u16,
    pub offset: usize,
}

/// The state without a composition.
pub open spec fn cleared<F, L, K>(m: ViewModel<F, L, K>) -> ViewModel<F, L, K> {
    ViewModel { marked_text: None, marked_selection: (0, 0), ..m }
}

pub open spec fn at_most(n: int, limit: int) -> int {
    if n <= limit {
        n
    } else {
        limit
    }
}

/// The state in which `marked` is composed with a part of it selected. A selection past the end is
/// moved to the end, and so is a selection that is absent. An empty composition is none.
pub open spec fn marked<F, L, K>(
    m: ViewModel<F, L, K>,
    marked: Seq<char>,
    selected: Option<(int, int)>,
) -> ViewModel<F, L, K> {
    let total = text::utf16_count(marked) as int;
    if marked.len() == 0 {
        cleared(m)
    } else {
        ViewModel {
            marked_text: Some(marked),
            marked_selection: match selected {
                Some((start, end)) => (at_most(start, total), at_most(end, total)),
                None => (total, total),
            },
            ..m
        }
    }
}

pub open spec fn opt_range(range: Option<Range<usize>>) -> Option<(int, int)> {
    match range {
        Some(range) => Some((range.start as int, range.end as int)),
        None => None,
    }
}

/// The bytes of a text between two UTF-16 offsets that lie inside it; none where the first
/// offset lies behind the second.
pub open spec fn part_of_text(s: Seq<char>, start: int, end: int) -> Option<Seq<u8>> {
    let from = text::utf16_to_utf8(s, start)->0 as int;
    let to = text::utf16_to_utf8(s, end)->0 as int;
    if from <= to {
        Some(encode_utf8(s).subrange(from, to))
    } else {
        None
    }
}

/// A text in which each end of a line, a line feed with or without a carriage return before it,
/// is a single carriage return, as the enter key sends it.
pub open spec fn line_ends_as_enter(s: Seq<char>) -> Seq<char>
    decreases s.len(),
{
    if s.len() == 0 {
        Seq::empty()
    } else if s.len() >= 2 && s[0] == '\r' && s[1] == '\n' {
        seq!['\r'] + line_ends_as_enter(s.skip(2))
    } else if s[0] == '\n' {
        seq!['\r'] + line_ends_as_enter(s.drop_first())
    } else {
        seq![s[0]] + line_ends_as_enter(s.drop_first())
    }
}

/// A list of effects several times over.
pub open spec fn repeated(list: Seq<EffectView>, times: nat) -> Seq<EffectView>
    decreases times,
{
    if times == 0 {
        Seq::empty()
    } else {
        repeated(list, (times - 1) as nat) + list
    }
}

/// How many characters a deletion of a range takes away: at least one.
pub open spec fn deletions(range: (int, int)) -> nat {
    if range.1 - range.0 <= 1 {
        1
    } else {
        (range.1 - range.0) as nat
    }
}

/// The input that a replacement stands for. An empty text deletes a range character by character,
/// or is the enter key where there is no range. A text of several lines has carriage returns at
/// the ends of its lines.
pub open spec fn replacement(range: Option<(int, int)>, new_text: Seq<char>) -> Seq<u8> {
    if new_text.len() == 0 {
        if range is Some {
            seq![0x7fu8]
        } else {
            seq![0x0du8]
        }
    } else if new_text.contains('\n') {
        encode_utf8(line_ends_as_enter(new_text))
    } else {
        encode_utf8(new_text)
    }
}

/// What a replacement asks for. The composition ends before a text is committed, and after all
/// other input.
pub open spec fn replacement_effects(
    has_input: bool,
    range: Option<(int, int)>,
    new_text: Seq<char>,
) -> Seq<EffectView> {
    let sent = input::input_effects(has_input, seq![replacement(range, new_text)]);
    if new_text.len() == 0 && range is Some {
        repeated(sent, deletions(range->0)).push(EffectView::Notify)
    } else if new_text.len() == 0 || new_text.contains('\n') {
        sent.push(EffectView::Notify)
    } else {
        seq![EffectView::Notify] + sent
    }
}

/// The state after a replacement.
pub open spec fn replacement_model<F, L, K>(
    m: ViewModel<F, L, K>,
    range: Option<(int, int)>,
    new_text: Seq<char>,
) -> ViewModel<F, L, K> {
    let after = cleared(input::input_model(m, seq![replacement(range, new_text)]));
    if new_text.len() == 0 || new_text.contains('\n') {
        after
    } else {
        ViewModel { ime_unmark_from_commit: true, ..after }
    }
}

/// Whether a text has a line feed.
fn has_line_feed(s: &str) -> (found: bool)
    ensures
        found == s@.contains('\n'),
{
    let ghost total = s@;
    for ch in it: s.chars()
        invariant
            it.seq() == total,
            total == s@,
            forall|i: int| 0 <= i < it.index() ==> total[i] != '\n',
    {
        if ch == '\n' {
            assert(total[it.index()] == '\n');
            return true;
        }
    }
    false
}

/// A text with a carriage return at the end of each line.
pub fn enter_for_line_ends(s: &str) -> (out: String)
    ensures
        out@ == line_ends_as_enter(s@),
{
    let ghost total = s@;
    let mut out = String::new();
    let mut after_return = false;
    assert(total.skip(0) =~= total);
    assert(out@ + line_ends_as_enter(total) =~= line_ends_as_enter(total));
    for ch in it: s.chars()
        invariant
            it.seq() == total,
            total == s@,
            line_ends_as_enter(total) == out@ + if after_return && it.index() < total.len()
                && total[it.index()] == '\n' {
                line_ends_as_enter(total.skip(it.index() + 1))
            } else {
                line_ends_as_enter(total.skip(it.index()))
            },
    {
        let ghost at = it.index();
        let ghost rest = total.skip(at);
        let ghost before = out@;
        proof {
            assert(rest[0] == ch);
            assert(rest.drop_first() =~= total.skip(at + 1));
            if at + 1 < total.len() {
                assert(rest[1] == total[at + 1]);
                assert(rest.skip(2) =~= total.skip(at + 2));
                assert(total.skip(at + 1).drop_first() =~= total.skip(at + 2));
            }
        }
        if ch == '\n' {
            if !after_return {
                out.push('\r');
                assert(before + (seq!['\r'] + line_ends_as_enter(total.skip(at + 1))) =~= out@
                    + line_ends_as_enter(total.skip(at + 1)));
            }
            after_return = false;
        } else {
            out.push(ch);
            after_return = ch == '\r';
            proof {
                if at + 1 < total.len() && ch == '\r' && total[at + 1] == '\n' {
                    assert(before + (seq!['\r'] + line_ends_as_enter(total.skip(at + 2))) =~= out@
                        + line_ends_as_enter(total.skip(at + 2)));
                } else {
                    assert(before + (seq![ch] + line_ends_as_enter(total.skip(at + 1))) =~= out@
                        + line_ends_as_enter(total.skip(at + 1)));
                }
            }
        }
    }
    proof {
        assert(total.skip(total.len() as int) =~= Seq::<char>::empty());
        assert(out@ + Seq::<char>::empty() =~= out@);
    }
    out
}

impl<F, L, K> TerminalView<F, L, K> {
    /// Ends the composition.
    pub fn clear_marked_text(&mut self) -> (todo: Vec<Effect>)
        requires
            old(self).wf(),
        ensures
            final(self).wf(),
            final(self)@ == cleared(old(self)@),
            effect::effects(todo@) == seq![EffectView::Notify],
    {
        self.marked_text = None;
        self.marked_selected_range_utf16 = 0..0;
        let mut todo: Vec<Effect> = Vec::new();
        todo.push(Effect::Notify);
        todo
    }

    /// Composes a text, with a part of it selected.
    pub fn set_marked_text(
        &mut self,
        text: String,
        selected_range_utf16: Option<Range<usize>>,
    ) -> (todo: Vec<Effect>)
        requires
            old(self).wf(),
        ensures
            final(self).wf(),
            final(self)@ == marked(old(self)@, text@, opt_range(selected_range_utf16)),
            effect::effects(todo@) == seq![EffectView::Notify],
    {
        if text.as_str().is_empty() {
            return self.clear_marked_text();
        }
        let total_utf16 = text::utf16_len(text.as_str());
        let (start, end) = match selected_range_utf16 {
            Some(range) => (range.start, range.end),
            None => (total_utf16, total_utf16),
        };
        let start = if start <= total_utf16 {
            start
        } else {
            total_utf16
        };
        let end = if end <= total_utf16 {
            end
        } else {
            total_utf16
        };
        self.marked_text = Some(text);
        self.marked_selected_range_utf16 = start..end;
        let mut todo: Vec<Effect> = Vec::new();
        todo.push(Effect::Notify);
        todo
    }

    /// The part of the composition between two UTF-16 offsets, with the offsets moved to the end
    /// of the composition where they lie behind it.
    pub fn text_for_range(&self, range_utf16: Range<usize>) -> (found: Option<
        (Range<usize>, Option<String>),
    >)
        ensures
            match self@.marked_text {
                Some(marked) => {
                    let total = text::utf16_count(marked) as int;
                    let start = at_most(range_utf16.start as int, total);
                    let end = at_most(range_utf16.end as int, total);
                    &&& found is Some
                    &&& (found->0).0.start == start
                    &&& (found->0).0.end == end
                    &&& match part_of_text(marked, start, end) {
                        Some(part) => (found->0).1 is Some && encode_utf8(((found->0).1->0)@)
                            == part,
                        None => (found->0).1 is None,
                    }
                },
                None => found is None,
            },
    {
        let marked = match &self.marked_text {
            Some(marked) => marked.as_str(),
            None => {
                return None;
            },
        };
        let total_utf16 = text::utf16_len(marked);
        let start = if range_utf16.start <= total_utf16 {
            range_utf16.start
        } else {
            total_utf16
        };
        let end = if range_utf16.end <= total_utf16 {
            range_utf16.end
        } else {
            total_utf16
        };
        proof {
            text::law_utf16_positions(marked@, start as nat, start as nat);
            text::law_utf16_positions(marked@, end as nat, end as nat);
        }
        let range_utf8 = match text::utf16_range_to_utf8(marked, start..end) {
            Some(range) => range,
            None => {
                return Some((start..end, None));
            },
        };
        match text::byte_slice(marked, range_utf8.start, range_utf8.end) {
            Some(part) => Some((start..end, Some(part.to_string()))),
            None => Some((start..end, None)),
        }
    }

    /// The selected part of the composition, in UTF-16 units.
    pub fn selected_text_range(&self) -> (range: Range<usize>)
        ensures
            (range.start as int, range.end as int) == self@.marked_selection,
    {
        self.marked_selected_range_utf16.start..self.marked_selected_range_utf16.end
    }

    /// The whole composition, in UTF-16 units.
    pub fn marked_text_range(&self) -> (range: Option<Range<usize>>)
        ensures
            match self@.marked_text {
                Some(marked) => {
                    &&& range is Some <==> marked.len() > 0
                    &&& range is Some ==> (range->0).start == 0 && (range->0).end
                        == text::utf16_count(marked)
                },
                None => range is None,
            },
    {
        match &self.marked_text {
            Some(marked) => {
                let len = text::utf16_len(marked.as_str());
                proof {
                    if marked@.len() > 0 {
                        text::lemma_units(marked@[0]);
                    }
                }
                if len > 0 {
                    Some(0..len)
                } else {
                    None
                }
            },
            None => None,
        }
    }

    /// The input method has ended the composition. The focus stays where it is.
    pub fn unmark_text(&mut self) -> (todo: Vec<Effect>)
        requires
            old(self).wf(),
        ensures
            final(self).wf(),
            final(self)@ == (ViewModel { ime_unmark_from_commit: false, ..cleared(old(self)@) }),
            effect::effects(todo@) == seq![EffectView::Notify],
    {
        self.ime_unmark_from_commit = false;
        self.clear_marked_text()
    }

    /// The input method replaces a range, or what it composed, by a text.
    pub fn replace_text_in_range(&mut self, range: Option<Range<usize>>, text: &str) -> (todo: Vec<
        Effect,
    >)
        requires
            old(self).wf(),
        ensures
            final(self).wf(),
            final(self)@ == replacement_model(old(self)@, opt_range(range), text@),
            effect::effects(todo@) == replacement_effects(
                old(self)@.has_input,
                opt_range(range),
                text@,
            ),
    {
        let ghost given = opt_range(range);
        if text.is_empty() {
            let mut todo: Vec<Effect> = Vec::new();
            match range {
                Some(r) => {
                    let deletes: usize = if r.end <= r.start || r.end - r.start <= 1 {
                        1
                    } else {
                        r.end - r.start
                    };
                    let ghost sent = input::input_effects(self@.has_input, seq![seq![0x7fu8]]);
                    let mut done: usize = 0;
                    while done < deletes
                        invariant
                            self.wf(),
                            done <= deletes,
                            deletes >= 1,
                            self@ == if done == 0 {
                                old(self)@
                            } else {
                                input::input_model(old(self)@, seq![seq![0x7fu8]])
                            },
                            sent == input::input_effects(
                                old(self)@.has_input,
                                seq![seq![0x7fu8]],
                            ),
                            effect::effects(todo@) == repeated(sent, done as nat),
                        decreases deletes - done,
                    {
                        let byte: Vec<u8> = vec![0x7f];
                        assert(byte@ =~= seq![0x7fu8]);
                        let mut more = self.send_input(byte);
                        todo.append(&mut more);
                        done = done + 1;
                    }
                },
                None => {
                    let byte: Vec<u8> = vec![0x0d];
                    assert(byte@ =~= seq![0x0du8]);
                    todo = self.send_input(byte);
                },
            }
            let mut cleared = self.clear_marked_text();
            todo.append(&mut cleared);
            assert(effect::effects(todo@) =~= replacement_effects(
                old(self)@.has_input,
                given,
                text@,
            ));
            return todo;
        }
        if has_line_feed(text) {
            let normalized = enter_for_line_ends(text);
            let mut todo = self.send_input(input::text_bytes(normalized.as_str()));
            let mut cleared = self.clear_marked_text();
            todo.append(&mut cleared);
            assert(effect::effects(todo@) =~= replacement_effects(
                old(self)@.has_input,
                given,
                text@,
            ));
            return todo;
        }
        self.ime_unmark_from_commit = true;
        let mut todo = self.clear_marked_text();
        let mut sent = self.commit_text(text);
        todo.append(&mut sent);
        assert(effect::effects(todo@) =~= replacement_effects(old(self)@.has_input, given, text@));
        todo
    }

    /// The input method composes a text.
    pub fn replace_and_mark_text_in_range(
        &mut self,
        new_text: &str,
        new_selected_range: Option<Range<usize>>,
    ) -> (todo: Vec<Effect>)
        requires
            old(self).wf(),
        ensures
            final(self).wf(),
            final(self)@ == marked(old(self)@, new_text@, opt_range(new_selected_range)),
            effect::effects(todo@) == seq![EffectView::Notify],
    {
        self.set_marked_text(new_text.to_string(), new_selected_range)
    }

    /// Where the part of the composition that begins at a UTF-16 offset is drawn. Without a
    /// composition each unit fills a cell.
    pub fn cells_for_range(&self, range_utf16: Range<usize>, cursor: Option<(u16, u16)>) -> (at:
        Option<CellPosition>)
        ensures
            match cursor {
                Some((col, row)) => {
                    &&& at is Some
                    &&& (at->0).col == if col == 0 {
                        0
                    } else {
                        col - 1
                    }
                    &&& (at->0).row == if row == 0 {
                        0
                    } else {
                        row - 1
                    }
                    &&& (at->0).offset == match self@.marked_text {
                        Some(marked) => text::saturated(
                            cells::cells_before_utf16(
                                cells::measured(marked),
                                range_utf16.start as int,
                            ) as int,
                        ),
                        None => range_utf16.start as int,
                    }
                },
                None => at is None,
            },
    {
        let (col, row) = match cursor {
            Some(position) => position,
            None => {
                return None;
            },
        };
        let offset = match &self.marked_text {
            Some(marked) => cells::cell_offset_for_utf16(marked.as_str(), range_utf16.start),
            None => range_utf16.start,
        };
        Some(CellPosition { col: col.saturating_sub(1), row: row.saturating_sub(1), offset })
    }
}

/// The range of the whole composition gives back the whole composition.
pub proof fn law_whole_composition(s: Seq<char>)
    ensures
        part_of_text(s, 0, text::utf16_count(s) as int) == Some(encode_utf8(s)),
{
    text::law_utf16_end(s);
    assert(encode_utf8(s).subrange(0, text::byte_len(s) as int) =~= encode_utf8(s));
}

/// A commit sends the text that is committed, whole and once, whatever was composed and whatever
/// range it replaces, and leaves no composition. Only ends of lines change: they become carriage
/// returns. Without a program that takes input the session gets the text.
pub proof fn law_commit_sends_the_text<F, L, K>(
    m: ViewModel<F, L, K>,
    composed: Seq<char>,
    selected: Option<(int, int)>,
    range: Option<(int, int)>,
    committed: Seq<char>,
)
    requires
        committed.len() > 0,
    ensures
        replacement_model(marked(m, composed, selected), range, committed).marked_text is None,
        ({
            let todo = replacement_effects(m.has_input, range, committed);
            let bytes = encode_utf8(line_ends_as_enter(committed));
            &&& effect::sent_bytes(todo) == if m.has_input {
                bytes
            } else {
                Seq::empty()
            }
            &&& effect::fed_bytes(todo) == if m.has_input {
                Seq::empty()
            } else {
                bytes
            }
        }),
        !committed.contains('\n') ==> line_ends_as_enter(committed) == committed,
{
    let bytes = replacement(range, committed);
    let sent = input::input_effects(m.has_input, seq![bytes]);
    let notify = seq![EffectView::Notify];
    law_line_ends(committed);
    input::law_input_arrives(m.has_input, seq![bytes]);
    assert(input::all_bytes(seq![bytes]) =~= bytes) by {
        reveal_with_fuel(input::all_bytes, 2);
        assert(seq![bytes].drop_last() =~= Seq::<Seq<u8>>::empty());
    }
    assert(effect::sent_bytes(notify) =~= Seq::<u8>::empty() && effect::fed_bytes(notify)
        =~= Seq::<u8>::empty()) by {
        reveal_with_fuel(effect::sent_bytes, 2);
        reveal_with_fuel(effect::fed_bytes, 2);
        assert(notify.drop_last() =~= Seq::<EffectView>::empty());
    }
    effect::lemma_sent_bytes_concat(sent, notify);
    effect::lemma_sent_bytes_concat(notify, sent);
    effect::lemma_fed_bytes_concat(sent, notify);
    effect::lemma_fed_bytes_concat(notify, sent);
    assert(sent.push(EffectView::Notify) =~= sent + notify);
    let todo = replacement_effects(m.has_input, range, committed);
    assert(effect::sent_bytes(todo) =~= effect::sent_bytes(sent));
    assert(effect::fed_bytes(todo) =~= effect::fed_bytes(sent));
}

/// No line feed is left where ends of lines become carriage returns, and a text without line feeds
/// stays as it is.
pub proof fn law_line_ends(s: Seq<char>)
    ensures
        !line_ends_as_enter(s).contains('\n'),
        !s.contains('\n') ==> line_ends_as_enter(s) == s,
    decreases s.len(),
{
    if s.len() > 0 {
        if s.len() >= 2 && s[0] == '\r' && s[1] == '\n' {
            law_line_ends(s.skip(2));
            assert(s.contains(s[1]));
        } else {
            law_line_ends(s.drop_first());
            assert(s.contains(s[0]));
            if !s.contains('\n') {
                assert forall|i: int| 0 <= i < s.drop_first().len() implies s.drop_first()[i]
                    != '\n' by {
                    assert(s.contains(s[i + 1]));
                }
                assert(seq![s[0]] + s.drop_first() =~= s);
            }
        }
    }
}

} // verus!
