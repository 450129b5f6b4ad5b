//! Input for the program behind the terminal.

use crate::effect;
use crate::effect::{Effect, EffectView};
use crate::view;
use crate::view::{TerminalView, ViewModel};
use vstd::prelude::*;
use vstd::utf8::*;

verus! {

broadcast use crate::effect::group_effects;

/// Pieces of input as byte sequences.
pub open spec fn piece_bytes(parts: Seq<Vec<u8>>) -> Seq<Seq<u8>> {
    Seq::new(parts.len(), |i: int| parts[i]@)
}

/// What input asks for. It is sent to the program behind the terminal piece by piece. Without such
/// a program the session gets it, as if the program had echoed it.
pub open spec fn input_effects(has_input: bool, parts: Seq<Seq<u8>>) -> Seq<EffectView> {
    if parts.len() == 0 {
        Seq::empty()
    } else if has_input {
        Seq::new(parts.len(), |i: int| EffectView::Send(parts[i]))
    } else {
        Seq::new(parts.len(), |i: int| EffectView::Feed(parts[i])) + seq![
            EffectView::ApplySideEffects,
            EffectView::Notify,
        ]
    }
}

/// The state after input: where the session got it, the viewport has to be read again.
pub open spec fn input_model<F, L, K>(m: ViewModel<F, L, K>, parts: Seq<Seq<u8>>) -> ViewModel<
    F,
    L,
    K,
> {
    if parts.len() > 0 && !m.has_input {
        ViewModel { pending_refresh: true, ..m }
    } else {
        m
    }
}

/// What the tab key sends: a tab, or `ESC [ Z` backwards.
pub open spec fn tab_bytes(reverse: bool) -> Seq<u8> {
    if reverse {
        seq![0x1bu8, 0x5b, 0x5a]
    } else {
        seq![0x09u8]
    }
}

/// `ESC [ 200 ~`, which opens a bracketed paste.
pub open spec fn paste_start() -> Seq<u8> {
    seq![0x1bu8, 0x5b, 0x32, 0x30, 0x30, 0x7e]
}

/// `ESC [ 201 ~`, which closes a bracketed paste.
pub open spec fn paste_end() -> Seq<u8> {
    seq![0x1bu8, 0x5b, 0x32, 0x30, 0x31, 0x7e]
}

/// What a paste sends.
pub open spec fn paste_parts(pasted: Option<Seq<char>>, bracketed: bool) -> Seq<Seq<u8>> {
    match pasted {
        Some(pasted) => if bracketed {
            seq![paste_start(), encode_utf8(pasted), paste_end()]
        } else {
            seq![encode_utf8(pasted)]
        },
        None => Seq::empty(),
    }
}

/// The bytes of a text.
pub fn text_bytes(s: &str) -> (bytes: Vec<u8>)
    ensures
        bytes@ == encode_utf8(s@),
{
    vstd::slice::slice_to_vec(s.as_bytes())
}

impl<F, L, K> TerminalView<F, L, K> {
    /// Sends input to the program behind the terminal.
    pub fn send_input_parts(&mut self, parts: Vec<Vec<u8>>) -> (todo: Vec<Effect>)
        requires
            old(self).wf(),
        ensures
            final(self).wf(),
            final(self)@ == input_model(old(self)@, piece_bytes(parts@)),
            effect::effects(todo@) == input_effects(old(self)@.has_input, piece_bytes(parts@)),
    {
        let ghost pieces = piece_bytes(parts@);
        let count = parts.len();
        let mut todo: Vec<Effect> = Vec::new();
        if count == 0 {
            return todo;
        }
        let has_input = self.has_input;
        let mut parts = parts;
        let mut i: usize = 0;
        while i < count
            invariant
                i <= count == parts.len(),
                parts.len() == pieces.len(),
                forall|j: int| i <= j < count ==> (#[trigger] parts@[j])@ == pieces[j],
                effect::effects(todo@) == Seq::new(
                    i as nat,
                    |j: int|
                        if has_input {
                            EffectView::Send(pieces[j])
                        } else {
                            EffectView::Feed(pieces[j])
                        },
                ),
            decreases count - i,
        {
            let mut part: Vec<u8> = Vec::new();
            std::mem::swap(&mut part, &mut parts[i]);
            assert(part@ == pieces[i as int]);
            if has_input {
                todo.push(Effect::Send(part));
            } else {
                todo.push(Effect::Feed(part));
            }
            i = i + 1;
            assert(effect::effects(todo@) =~= Seq::new(
                i as nat,
                |j: int|
                    if has_input {
                        EffectView::Send(pieces[j])
                    } else {
                        EffectView::Feed(pieces[j])
                    },
            ));
        }
        if !has_input {
            todo.push(Effect::ApplySideEffects);
            self.pending_refresh = true;
            todo.push(Effect::Notify);
        }
        assert(effect::effects(todo@) =~= input_effects(has_input, pieces));
        todo
    }

    /// Sends a single piece of input.
    pub fn send_input(&mut self, bytes: Vec<u8>) -> (todo: Vec<Effect>)
        requires
            old(self).wf(),
        ensures
            final(self).wf(),
            final(self)@ == input_model(old(self)@, seq![bytes@]),
            effect::effects(todo@) == input_effects(old(self)@.has_input, seq![bytes@]),
    {
        let ghost piece = bytes@;
        let mut parts: Vec<Vec<u8>> = Vec::new();
        parts.push(bytes);
        assert(piece_bytes(parts@) =~= seq![piece]);
        self.send_input_parts(parts)
    }

    /// Sends a tab, or a back tab.
    pub fn send_tab(&mut self, reverse: bool) -> (todo: Vec<Effect>)
        requires
            old(self).wf(),
        ensures
            final(self).wf(),
            final(self)@ == input_model(old(self)@, seq![tab_bytes(reverse)]),
            effect::effects(todo@) == input_effects(old(self)@.has_input, seq![tab_bytes(reverse)]),
    {
        let mut bytes: Vec<u8> = Vec::new();
        if reverse {
            bytes.push(0x1b);
            bytes.push(0x5b);
            bytes.push(0x5a);
        } else {
            bytes.push(0x09);
        }
        assert(bytes@ =~= tab_bytes(reverse));
        self.send_input(bytes)
    }

    /// The tab key was pressed.
    pub fn on_tab(&mut self) -> (todo: Vec<Effect>)
        requires
            old(self).wf(),
        ensures
            final(self).wf(),
            final(self)@ == input_model(old(self)@, seq![tab_bytes(false)]),
            effect::effects(todo@) == input_effects(old(self)@.has_input, seq![tab_bytes(false)]),
    {
        self.send_tab(false)
    }

    /// The tab key was pressed with shift.
    pub fn on_tab_prev(&mut self) -> (todo: Vec<Effect>)
        requires
            old(self).wf(),
        ensures
            final(self).wf(),
            final(self)@ == input_model(old(self)@, seq![tab_bytes(true)]),
            effect::effects(todo@) == input_effects(old(self)@.has_input, seq![tab_bytes(true)]),
    {
        self.send_tab(true)
    }

    /// Sends a text that an input method has committed; nothing where it is empty.
    pub fn commit_text(&mut self, text: &str) -> (todo: Vec<Effect>)
        requires
            old(self).wf(),
        ensures
            final(self).wf(),
            final(self)@ == input_model(
                old(self)@,
                if text@.len() == 0 {
                    Seq::empty()
                } else {
                    seq![encode_utf8(text@)]
                },
            ),
            effect::effects(todo@) == input_effects(
                old(self)@.has_input,
                if text@.len() == 0 {
                    Seq::empty()
                } else {
                    seq![encode_utf8(text@)]
                },
            ),
    {
        if text.is_empty() {
            return Vec::new();
        }
        self.send_input(text_bytes(text))
    }

    /// Pastes the text of the clipboard, in brackets where the program asks for them.
    pub fn on_paste(&mut self, clipboard: Option<String>, bracketed: bool) -> (todo: Vec<Effect>)
        requires
            old(self).wf(),
        ensures
            final(self).wf(),
            final(self)@ == input_model(
                old(self)@,
                paste_parts(view::opt_text(clipboard), bracketed),
            ),
            effect::effects(todo@) == input_effects(
                old(self)@.has_input,
                paste_parts(view::opt_text(clipboard), bracketed),
            ),
    {
        let pasted = match clipboard {
            Some(pasted) => pasted,
            None => {
                return Vec::new();
            },
        };
        let mut parts: Vec<Vec<u8>> = Vec::new();
        if bracketed {
            let start: Vec<u8> = vec![0x1b, 0x5b, 0x32, 0x30, 0x30, 0x7e];
            let end: Vec<u8> = vec![0x1b, 0x5b, 0x32, 0x30, 0x31, 0x7e];
            assert(start@ =~= paste_start());
            assert(end@ =~= paste_end());
            parts.push(start);
            parts.push(text_bytes(pasted.as_str()));
            parts.push(end);
        } else {
            parts.push(text_bytes(pasted.as_str()));
        }
        assert(piece_bytes(parts@) =~= paste_parts(Some(pasted@), bracketed));
        self.send_input_parts(parts)
    }
}

/// Pieces of input one after the other.
pub open spec fn all_bytes(parts: Seq<Seq<u8>>) -> Seq<u8>
    decreases parts.len(),
{
    if parts.len() == 0 {
        Seq::empty()
    } else {
        all_bytes(parts.drop_last()) + parts.last()
    }
}

proof fn lemma_sent_pieces(parts: Seq<Seq<u8>>)
    ensures
        effect::sent_bytes(Seq::new(parts.len(), |i: int| EffectView::Send(parts[i]))) == all_bytes(
            parts,
        ),
        effect::fed_bytes(Seq::new(parts.len(), |i: int| EffectView::Send(parts[i]))) == Seq::<
            u8,
        >::empty(),
    decreases parts.len(),
{
    if parts.len() > 0 {
        let list = Seq::new(parts.len(), |i: int| EffectView::Send(parts[i]));
        lemma_sent_pieces(parts.drop_last());
        assert(list.drop_last() =~= Seq::new(
            parts.drop_last().len(),
            |i: int| EffectView::Send(parts.drop_last()[i]),
        ));
    }
}

proof fn lemma_fed_pieces(parts: Seq<Seq<u8>>)
    ensures
        effect::fed_bytes(Seq::new(parts.len(), |i: int| EffectView::Feed(parts[i]))) == all_bytes(
            parts,
        ),
        effect::sent_bytes(Seq::new(parts.len(), |i: int| EffectView::Feed(parts[i]))) == Seq::<
            u8,
        >::empty(),
    decreases parts.len(),
{
    if parts.len() > 0 {
        let list = Seq::new(parts.len(), |i: int| EffectView::Feed(parts[i]));
        lemma_fed_pieces(parts.drop_last());
        assert(list.drop_last() =~= Seq::new(
            parts.drop_last().len(),
            |i: int| EffectView::Feed(parts.drop_last()[i]),
        ));
    }
}

/// Input arrives whole and in order: at the program behind the terminal where there is one, at the
/// session where there is none, and never at both.
pub proof fn law_input_arrives(has_input: bool, parts: Seq<Seq<u8>>)
    ensures
        effect::sent_bytes(input_effects(has_input, parts)) == if has_input {
            all_bytes(parts)
        } else {
            Seq::empty()
        },
        effect::fed_bytes(input_effects(has_input, parts)) == if has_input {
            Seq::empty()
        } else {
            all_bytes(parts)
        },
{
    lemma_sent_pieces(parts);
    lemma_fed_pieces(parts);
    if parts.len() > 0 && !has_input {
        reveal_with_fuel(effect::fed_bytes, 3);
        reveal_with_fuel(effect::sent_bytes, 3);
        let fed = Seq::new(parts.len(), |i: int| EffectView::Feed(parts[i]));
        let list = input_effects(has_input, parts);
        assert(list.drop_last() =~= fed.push(EffectView::ApplySideEffects));
        assert(list.drop_last().drop_last() =~= fed);
        assert(list.last() == EffectView::Notify);
        assert(list.drop_last().last() == EffectView::ApplySideEffects);
        assert(effect::fed_bytes(list) =~= all_bytes(parts));
    }
}

/// A paste is the pasted text; where the program asks for brackets, nothing else stands between
/// them.
pub proof fn law_paste_is_the_text(pasted: Seq<char>)
    ensures
        all_bytes(paste_parts(Some(pasted), false)) == encode_utf8(pasted),
        all_bytes(paste_parts(Some(pasted), true)) == paste_start() + encode_utf8(pasted)
            + paste_end(),
        all_bytes(paste_parts(None, true)) == Seq::<u8>::empty(),
{
    reveal_with_fuel(all_bytes, 4);
    let plain = paste_parts(Some(pasted), false);
    assert(plain.drop_last() =~= Seq::empty());
    assert(all_bytes(plain) =~= encode_utf8(pasted));
    let wrapped = paste_parts(Some(pasted), true);
    assert(wrapped.drop_last() =~= seq![paste_start(), encode_utf8(pasted)]);
    assert(wrapped.drop_last().drop_last() =~= seq![paste_start()]);
    assert(wrapped.drop_last().drop_last().drop_last() =~= Seq::empty());
    assert(all_bytes(wrapped) =~= paste_start() + encode_utf8(pasted) + paste_end());
}

} // verus!
