//! Composition.

use crate::effect;
use crate::effect::EffectView;
use crate::ime;
use crate::input;
use crate::laws::text as text_laws;
use crate::text;
use crate::view::ViewModel;
use vstd::math::{max, min};
use vstd::prelude::*;
use vstd::utf8::*;

verus! {

/// A composition is kept with what is selected of it, which never leaves it; its end is selected
/// where nothing else is. An empty one is none. Nothing else changes.
pub proof fn law_compositions_are_kept<F, L, K>(
    m: ViewModel<F, L, K>,
    composed: Seq<char>,
    start: int,
    end: int,
)
    ensures
        ({
            let units = text::utf16_count(composed) as int;
            let kept = ime::marked(m, composed, Some((start, end)));
            let plain = ime::marked(m, composed, None);
            &&& composed.len() > 0 ==> kept == (ViewModel {
                marked_text: Some(composed),
                marked_selection: (min(start, units), min(end, units)),
                ..m
            })
            &&& composed.len() > 0 ==> plain == (ViewModel {
                marked_text: Some(composed),
                marked_selection: (units, units),
                ..m
            })
            &&& composed.len() == 0 ==> kept == plain && kept == ime::cleared(m)
            &&& ime::cleared(kept) == ime::cleared(m)
            &&& ime::cleared(m).marked_text is None
            &&& ime::cleared(m).marked_selection == (0int, 0int)
            &&& ime::cleared(m) == (ViewModel {
                marked_text: ime::cleared(m).marked_text,
                marked_selection: ime::cleared(m).marked_selection,
                ..m
            })
        }),
{
}

/// What lies between two characters of a composition is read by their UTF-16 offsets, and nothing is
/// read backwards.
pub proof fn law_parts_by_offset(s: Seq<char>, i: int, j: int)
    requires
        0 <= i <= s.len(),
        0 <= j <= s.len(),
    ensures
        ({
            let part = ime::part_of_text(
                s,
                text::utf16_count(s.take(i)) as int,
                text::utf16_count(s.take(j)) as int,
            );
            &&& i <= j ==> part == Some(encode_utf8(s.subrange(i, j)))
            &&& i > j ==> part is None
        }),
{
    lemma_place(s, i);
    lemma_place(s, j);
    if i <= j {
        let a = s.take(i);
        let b = s.subrange(i, j);
        let c = s.skip(j);
        assert(a + b =~= s.take(j));
        assert(a + b + c =~= s);
        text::lemma_byte_len_concat(a, b);
        text::lemma_byte_len_concat(a + b, c);
        assert(encode_utf8(s).subrange(
            text::byte_len(a) as int,
            text::byte_len(a + b) as int,
        ) =~= encode_utf8(b));
    } else {
        let b = s.subrange(j, i);
        assert(s.take(j) + b =~= s.take(i));
        text::lemma_byte_len_concat(s.take(j), b);
        text::lemma_utf16_at_most_bytes(b);
    }
}

proof fn lemma_place(s: Seq<char>, i: int)
    requires
        0 <= i <= s.len(),
    ensures
        text::utf16_to_utf8(s, text::utf16_count(s.take(i)) as int) == Some(
            text::byte_len(s.take(i)),
        ),
{
    if i > 0 {
        text_laws::law_utf16_units_add_up(s.take(i - 1), seq![s[i - 1]], s[i - 1]);
        assert(s.take(i - 1) + seq![s[i - 1]] =~= s.take(i));
    }
    text_laws::law_offset_ends_shortest_prefix(s, text::utf16_count(s.take(i)) as int, i);
}

/// A line end of two characters is one press of enter, wherever it stands in a text.
pub proof fn law_carriage_return_and_line_feed(a: Seq<char>, b: Seq<char>)
    ensures
        ime::line_ends_as_enter(a + seq!['\r', '\n'] + b) == ime::line_ends_as_enter(a) + seq!['\r']
            + ime::line_ends_as_enter(b),
    decreases a.len(),
{
    let s = a + seq!['\r', '\n'] + b;
    if a.len() == 0 {
        assert(s[0] == '\r' && s[1] == '\n');
        assert(s.skip(2) =~= b);
        assert(ime::line_ends_as_enter(a) =~= Seq::<char>::empty());
        assert(ime::line_ends_as_enter(s) =~= seq!['\r'] + ime::line_ends_as_enter(b));
    } else {
        assert(s[0] == a[0]);
        if a.len() >= 2 && a[0] == '\r' && a[1] == '\n' {
            assert(s[1] == a[1]);
            assert(s.skip(2) =~= a.skip(2) + seq!['\r', '\n'] + b);
            law_carriage_return_and_line_feed(a.skip(2), b);
        } else {
            if a.len() >= 2 {
                assert(s[1] == a[1]);
            } else {
                assert(s[1] == '\r');
            }
            assert(s.drop_first() =~= a.drop_first() + seq!['\r', '\n'] + b);
            law_carriage_return_and_line_feed(a.drop_first(), b);
        }
        assert(ime::line_ends_as_enter(s) =~= ime::line_ends_as_enter(a) + seq!['\r']
            + ime::line_ends_as_enter(b));
    }
}

/// A line feed alone is one press of enter, wherever it stands in a text, and other characters stay.
pub proof fn law_line_feed_alone(a: Seq<char>, b: Seq<char>)
    requires
        a.len() == 0 || a.last() != '\r',
    ensures
        ime::line_ends_as_enter(a + seq!['\n'] + b) == ime::line_ends_as_enter(a) + seq!['\r']
            + ime::line_ends_as_enter(b),
        !a.contains('\n') ==> ime::line_ends_as_enter(a) == a,
    decreases a.len(),
{
    ime::law_line_ends(a);
    let s = a + seq!['\n'] + b;
    if a.len() == 0 {
        assert(s.drop_first() =~= b);
        assert(ime::line_ends_as_enter(a) =~= Seq::<char>::empty());
        assert(ime::line_ends_as_enter(s) =~= seq!['\r'] + ime::line_ends_as_enter(b));
    } else {
        assert(s[0] == a[0]);
        if a.len() >= 2 && a[0] == '\r' && a[1] == '\n' {
            assert(s[1] == a[1]);
            assert(s.skip(2) =~= a.skip(2) + seq!['\n'] + b);
            law_line_feed_alone(a.skip(2), b);
        } else {
            if a.len() >= 2 {
                assert(s[1] == a[1]);
            }
            assert(s.drop_first() =~= a.drop_first() + seq!['\n'] + b);
            law_line_feed_alone(a.drop_first(), b);
        }
        assert(ime::line_ends_as_enter(s) =~= ime::line_ends_as_enter(a) + seq!['\r']
            + ime::line_ends_as_enter(b));
    }
}

/// A range that is replaced by nothing is deleted unit by unit, with one delete byte for each and one
/// at least. Replacing no range by nothing is a press of enter.
pub proof fn law_deletions(has_input: bool, start: int, end: int)
    ensures
        ({
            let deleted = ime::replacement_effects(has_input, Some((start, end)), Seq::empty());
            let entered = ime::replacement_effects(has_input, None, Seq::empty());
            let wanted = Seq::new(max(1, end - start) as nat, |i: int| 127u8);
            &&& has_input ==> effect::sent_bytes(deleted) == wanted && effect::fed_bytes(
                deleted,
            ).len() == 0
            &&& !has_input ==> effect::fed_bytes(deleted) == wanted && effect::sent_bytes(
                deleted,
            ).len() == 0
            &&& has_input ==> effect::sent_bytes(entered) == seq![13u8]
            &&& !has_input ==> effect::fed_bytes(entered) == seq![13u8]
        }),
{
    let key = ime::replacement(Some((start, end)), Seq::empty());
    let sent = input::input_effects(has_input, seq![key]);
    let times = max(1, end - start) as nat;
    lemma_one_part(has_input, key);
    lemma_repeated(has_input, sent, times);
    let deleted = ime::replacement_effects(has_input, Some((start, end)), Seq::empty());
    assert(deleted =~= ime::repeated(sent, times) + seq![EffectView::Notify]);
    lemma_notify();
    effect::lemma_fed_bytes_concat(ime::repeated(sent, times), seq![EffectView::Notify]);
    effect::lemma_sent_bytes_concat(ime::repeated(sent, times), seq![EffectView::Notify]);
    let enter = ime::replacement(None, Seq::empty());
    let pressed = input::input_effects(has_input, seq![enter]);
    lemma_one_part(has_input, enter);
    let entered = ime::replacement_effects(has_input, None, Seq::empty());
    assert(entered =~= pressed + seq![EffectView::Notify]);
    effect::lemma_fed_bytes_concat(pressed, seq![EffectView::Notify]);
    effect::lemma_sent_bytes_concat(pressed, seq![EffectView::Notify]);
    let wanted = Seq::new(times, |i: int| 127u8);
    if has_input {
        assert(effect::sent_bytes(deleted) =~= wanted);
        assert(effect::sent_bytes(entered) =~= seq![13u8]);
    } else {
        assert(effect::fed_bytes(deleted) =~= wanted);
        assert(effect::fed_bytes(entered) =~= seq![13u8]);
    }
}

proof fn lemma_notify()
    ensures
        effect::fed_bytes(seq![EffectView::Notify]).len() == 0,
        effect::sent_bytes(seq![EffectView::Notify]).len() == 0,
{
    reveal_with_fuel(effect::fed_bytes, 2);
    reveal_with_fuel(effect::sent_bytes, 2);
    assert(seq![EffectView::Notify].drop_last() =~= Seq::<EffectView>::empty());
}

proof fn lemma_one_part(has_input: bool, part: Seq<u8>)
    ensures
        ({
            let todo = input::input_effects(has_input, seq![part]);
            &&& has_input ==> effect::sent_bytes(todo) == part && effect::fed_bytes(todo).len()
                == 0
            &&& !has_input ==> effect::fed_bytes(todo) == part && effect::sent_bytes(todo).len()
                == 0
        }),
{
    let todo = input::input_effects(has_input, seq![part]);
    reveal_with_fuel(effect::fed_bytes, 4);
    reveal_with_fuel(effect::sent_bytes, 4);
    if has_input {
        assert(todo =~= seq![EffectView::Send(part)]);
        assert(todo.drop_last() =~= Seq::<EffectView>::empty());
        assert(effect::sent_bytes(todo) =~= part);
    } else {
        assert(todo =~= seq![
            EffectView::Feed(part),
            EffectView::ApplySideEffects,
            EffectView::Notify,
        ]);
        let front = todo.drop_last().drop_last();
        assert(front =~= seq![EffectView::Feed(part)]);
        assert(front.drop_last() =~= Seq::<EffectView>::empty());
        assert(effect::fed_bytes(todo) =~= part);
    }
}

proof fn lemma_repeated(has_input: bool, list: Seq<EffectView>, times: nat)
    requires
        has_input ==> effect::sent_bytes(list) == seq![127u8] && effect::fed_bytes(list).len() == 0,
        !has_input ==> effect::fed_bytes(list) == seq![127u8] && effect::sent_bytes(list).len() == 0,
    ensures
        ({
            let all = ime::repeated(list, times);
            let wanted = Seq::new(times, |i: int| 127u8);
            &&& has_input ==> effect::sent_bytes(all) == wanted && effect::fed_bytes(all).len()
                == 0
            &&& !has_input ==> effect::fed_bytes(all) == wanted && effect::sent_bytes(all).len()
                == 0
        }),
    decreases times,
{
    let all = ime::repeated(list, times);
    let wanted = Seq::new(times, |i: int| 127u8);
    if times > 0 {
        let front = ime::repeated(list, (times - 1) as nat);
        lemma_repeated(has_input, list, (times - 1) as nat);
        effect::lemma_fed_bytes_concat(front, list);
        effect::lemma_sent_bytes_concat(front, list);
    }
    if has_input {
        assert(effect::sent_bytes(all) =~= wanted);
    } else {
        assert(effect::fed_bytes(all) =~= wanted);
    }
}

/// A commit of text on one line draws the view without the composition before the text is on its way;
/// other replacements draw it in the end.
pub proof fn law_when_replacements_draw<F, L, K>(
    m: ViewModel<F, L, K>,
    range: Option<(int, int)>,
    new_text: Seq<char>,
)
    ensures
        ({
            let todo = ime::replacement_effects(m.has_input, range, new_text);
            let after = ime::replacement_model(m, range, new_text);
            let one_line = new_text.len() > 0 && !new_text.contains('\n');
            &&& one_line ==> todo[0] == EffectView::Notify && after.ime_unmark_from_commit
            &&& !one_line ==> todo.last() == EffectView::Notify && after.ime_unmark_from_commit
                == m.ime_unmark_from_commit
            &&& m.has_input && one_line ==> todo.len() == 2
            &&& after.marked_text is None && after.marked_selection == (0int, 0int)
            &&& after == (ViewModel {
                marked_text: None,
                marked_selection: (0, 0),
                ime_unmark_from_commit: after.ime_unmark_from_commit,
                pending_refresh: m.pending_refresh || !m.has_input,
                ..m
            })
        }),
{
}

} // verus!
