//! Key presses.

use crate::effect;
use crate::effect::{Effect, EffectView};
use crate::input;
use crate::mouse;
use crate::mouse::Modifiers;
use crate::text;
use crate::view::{TerminalView, ViewModel};
use vstd::prelude::*;
use vstd::utf8::*;

verus! {

broadcast use crate::effect::group_effects;

/// A key that was pressed, and the text that it types, if any.
#[derive(Debug, PartialEq, Eq)]
pub struct Keystroke {
    pub modifiers: Modifiers,
    pub key: String,
    pub key_char: Option<String>,
}

/// The modifiers of a key whose encoding is asked for.
#[derive(Clone, Copy, Debug, PartialEq, Eq, Structural)]
pub struct KeyModifiers {
    pub shift: bool,
    pub control: bool,
    pub alt: bool,
    pub super_key: bool,
}

/// What a key press leads to.
#[derive(Debug, PartialEq, Eq)]
pub enum KeyStep {
    /// These effects, and nothing else.
    Done(Vec<Effect>),
    /// The encoding of the key with these modifiers decides; it goes to
    /// [`TerminalView::on_key_encoded`].
    Encode(KeyModifiers),
}

/// What a key press leads to, with the effects as sequences.
pub enum KeyStepView {
    Done(Seq<EffectView>),
    Encode(KeyModifiers),
}

impl View for KeyStep {
    type V = KeyStepView;

    open spec fn view(&self) -> KeyStepView {
        match *self {
            KeyStep::Done(todo) => KeyStepView::Done(effect::effects(todo@)),
            KeyStep::Encode(modifiers) => KeyStepView::Encode(modifiers),
        }
    }
}

/// The names of the enter keys.
pub open spec fn is_enter_key(key: Seq<char>) -> bool {
    ||| key == "enter"@
    ||| key == "return"@
    ||| key == "kp_enter"@
    ||| key == "numpad_enter"@
}

/// The names of the key that scrolls back by half a page.
pub open spec fn is_page_up_key(key: Seq<char>) -> bool {
    key == "pageup"@ || key == "page_up"@ || key == "page-up"@
}

/// The names of the key that scrolls on by half a page.
pub open spec fn is_page_down_key(key: Seq<char>) -> bool {
    key == "pagedown"@ || key == "page_down"@ || key == "page-down"@
}

/// Half of the rows, at least one.
pub open spec fn scroll_step(rows: int) -> int {
    if rows / 2 < 1 {
        1
    } else {
        rows / 2
    }
}

/// The scroll that a key stands for.
pub open spec fn key_scroll(key: Seq<char>, rows: int) -> Option<EffectView> {
    if key == "home"@ {
        Some(EffectView::ScrollTop)
    } else if key == "end"@ {
        Some(EffectView::ScrollBottom)
    } else if is_page_up_key(key) {
        Some(EffectView::Scroll(-scroll_step(rows)))
    } else if is_page_down_key(key) {
        Some(EffectView::Scroll(scroll_step(rows)))
    } else {
        None
    }
}

/// The text from which a control byte is made: what the key types, else the name of the key.
pub open spec fn control_candidate(k: Keystroke) -> Seq<char> {
    match k.key_char {
        Some(typed) => typed@,
        None => k.key@,
    }
}

/// The control byte for a key: 0 for space, and for `@`, the letters and `[\\]^_` the position in
/// the alphabet that begins with `@`. A small letter counts as the capital one.
pub open spec fn control_byte(candidate: Seq<char>) -> Option<u8> {
    let bytes = encode_utf8(candidate);
    if candidate == "space"@ {
        Some(0)
    } else if bytes.len() != 1 {
        None
    } else if 0x40 <= bytes[0] <= 0x5f {
        Some((bytes[0] - 0x40) as u8)
    } else if 0x61 <= bytes[0] <= 0x7a {
        Some((bytes[0] - 0x60) as u8)
    } else {
        None
    }
}

/// Whether a key press belongs to the input method alone. Enter never does.
pub open spec fn skipped_for_ime(has_input: bool, ime_in_progress: bool, key: Seq<char>) -> bool {
    has_input && ime_in_progress && !is_enter_key(key)
}

/// What a key press leads to. The input method sees it first. Keys with the platform or the
/// function modifier are left to others. Scroll keys scroll, with shift where there is a program
/// that takes input. For such a program a control key is its control byte, and with alt a typed
/// text goes after an escape byte. All other keys are encoded.
pub open spec fn key_step<F, L, K>(
    m: ViewModel<F, L, K>,
    raw_key: Seq<char>,
    ime_in_progress: bool,
    k: Keystroke,
    rows: int,
) -> KeyStepView {
    let scroll = key_scroll(k.key@, rows);
    if skipped_for_ime(m.has_input, ime_in_progress, raw_key) || k.modifiers.platform
        || k.modifiers.function {
        KeyStepView::Done(Seq::empty())
    } else if scroll is Some && (k.modifiers.shift || !m.has_input) {
        KeyStepView::Done(mouse::scroll_effects(scroll->0))
    } else if m.has_input && k.modifiers.control && control_byte(control_candidate(k)) is Some {
        KeyStepView::Done(seq![EffectView::Send(seq![control_byte(control_candidate(k))->0])])
    } else if m.has_input && k.modifiers.alt && k.key_char is Some {
        KeyStepView::Done(
            seq![EffectView::Send(seq![0x1bu8]), EffectView::Send(encode_utf8((k.key_char->0)@))],
        )
    } else {
        KeyStepView::Encode(
            KeyModifiers {
                shift: k.modifiers.shift,
                control: k.modifiers.control,
                alt: k.modifiers.alt,
                super_key: false,
            },
        )
    }
}

/// The bytes that a key stands for once its encoding is known: without a program that takes input,
/// a backspace that has no encoding is a backspace byte.
pub open spec fn encoded_input(
    has_input: bool,
    key: Seq<char>,
    encoded: Option<Seq<u8>>,
) -> Option<Seq<u8>> {
    if encoded is Some {
        encoded
    } else if !has_input && key == "backspace"@ {
        Some(seq![0x08u8])
    } else {
        None
    }
}

/// Input that is made of at most one piece.
pub open spec fn at_most_one(piece: Option<Seq<u8>>) -> Seq<Seq<u8>> {
    match piece {
        Some(piece) => seq![piece],
        None => Seq::empty(),
    }
}

pub open spec fn opt_bytes(bytes: Option<Vec<u8>>) -> Option<Seq<u8>> {
    match bytes {
        Some(bytes) => Some(bytes@),
        None => None,
    }
}

/// Whether a key press belongs to the input method alone.
pub fn should_skip_key_down_for_ime(has_input: bool, ime_in_progress: bool, key: &str) -> (skip:
    bool)
    ensures
        skip == skipped_for_ime(has_input, ime_in_progress, key@),
{
    if !has_input || !ime_in_progress {
        return false;
    }
    !(text::str_eq(key, "enter") || text::str_eq(key, "return") || text::str_eq(key, "kp_enter")
        || text::str_eq(key, "numpad_enter"))
}

/// The control byte for a key.
pub fn ctrl_byte_for_keystroke(keystroke: &Keystroke) -> (byte: Option<u8>)
    ensures
        byte == control_byte(control_candidate(*keystroke)),
{
    let candidate = match &keystroke.key_char {
        Some(typed) => typed.as_str(),
        None => keystroke.key.as_str(),
    };
    if text::str_eq(candidate, "space") {
        return Some(0x00);
    }
    let bytes = candidate.as_bytes();
    if bytes.len() != 1 {
        return None;
    }
    let b = bytes[0];
    if b >= 0x40 && b <= 0x5f {
        assert(b & 0x1f == b - 0x40) by (bit_vector)
            requires
                0x40 <= b <= 0x5f,
        ;
        Some(b & 0x1f)
    } else if b >= 0x61 && b <= 0x7a {
        Some(b - 0x61 + 1)
    } else {
        None
    }
}

/// The scroll that a key stands for.
fn scroll_of_key(key: &str, rows: u16) -> (scroll: Option<Effect>)
    ensures
        match key_scroll(key@, rows as int) {
            Some(e) => scroll matches Some(found) && found@ == e,
            None => scroll is None,
        },
{
    let half = rows as i32 / 2;
    let step: i32 = if half < 1 {
        1
    } else {
        half
    };
    if text::str_eq(key, "home") {
        Some(Effect::ScrollTop)
    } else if text::str_eq(key, "end") {
        Some(Effect::ScrollBottom)
    } else if text::str_eq(key, "pageup") || text::str_eq(key, "page_up") || text::str_eq(
        key,
        "page-up",
    ) {
        Some(Effect::Scroll(-step))
    } else if text::str_eq(key, "pagedown") || text::str_eq(key, "page_down") || text::str_eq(
        key,
        "page-down",
    ) {
        Some(Effect::Scroll(step))
    } else {
        None
    }
}

impl<F, L, K> TerminalView<F, L, K> {
    /// A key was pressed. `raw_key` is its name and `ime_in_progress` whether an input method is
    /// still at work on it; `keystroke` is what the key comes to without an input method.
    pub fn on_key_down(
        &mut self,
        raw_key: &str,
        ime_in_progress: bool,
        keystroke: &Keystroke,
        rows: u16,
    ) -> (step: KeyStep)
        requires
            old(self).wf(),
        ensures
            final(self).wf(),
            step@ == key_step(old(self)@, raw_key@, ime_in_progress, *keystroke, rows as int),
            final(self)@ == (ViewModel {
                pending_refresh: old(self)@.pending_refresh || (!skipped_for_ime(
                    old(self)@.has_input,
                    ime_in_progress,
                    raw_key@,
                ) && !keystroke.modifiers.platform && !keystroke.modifiers.function && key_scroll(
                    keystroke.key@,
                    rows as int,
                ) is Some && (keystroke.modifiers.shift || !old(self)@.has_input)),
                ..old(self)@
            }),
    {
        let mut todo: Vec<Effect> = Vec::new();
        if should_skip_key_down_for_ime(self.has_input, ime_in_progress, raw_key) {
            return KeyStep::Done(todo);
        }
        if keystroke.modifiers.platform || keystroke.modifiers.function {
            return KeyStep::Done(todo);
        }
        if keystroke.modifiers.shift || !self.has_input {
            if let Some(scroll) = scroll_of_key(keystroke.key.as_str(), rows) {
                todo.push(scroll);
                todo.push(Effect::SyncScroll);
                todo.push(Effect::ApplySideEffects);
                self.pending_refresh = true;
                todo.push(Effect::Notify);
                assert(effect::effects(todo@) =~= mouse::scroll_effects(
                    key_scroll(keystroke.key@, rows as int)->0,
                ));
                return KeyStep::Done(todo);
            }
        }
        if self.has_input {
            if keystroke.modifiers.control {
                if let Some(b) = ctrl_byte_for_keystroke(keystroke) {
                    let byte: Vec<u8> = vec![b];
                    assert(byte@ =~= seq![b]);
                    todo.push(Effect::Send(byte));
                    assert(effect::effects(todo@) =~= seq![EffectView::Send(seq![b])]);
                    return KeyStep::Done(todo);
                }
            }
            if keystroke.modifiers.alt {
                if let Some(typed) = &keystroke.key_char {
                    let escape: Vec<u8> = vec![0x1b];
                    assert(escape@ =~= seq![0x1bu8]);
                    todo.push(Effect::Send(escape));
                    todo.push(Effect::Send(input::text_bytes(typed.as_str())));
                    assert(effect::effects(todo@) =~= seq![
                        EffectView::Send(seq![0x1bu8]),
                        EffectView::Send(encode_utf8(typed@)),
                    ]);
                    return KeyStep::Done(todo);
                }
            }
        }
        KeyStep::Encode(
            KeyModifiers {
                shift: keystroke.modifiers.shift,
                control: keystroke.modifiers.control,
                alt: keystroke.modifiers.alt,
                super_key: false,
            },
        )
    }

    /// The encoding that [`KeyStep::Encode`] asked for is known; it is absent where the key has
    /// none.
    pub fn on_key_encoded(&mut self, key: &str, encoded: Option<Vec<u8>>) -> (todo: Vec<Effect>)
        requires
            old(self).wf(),
        ensures
            final(self).wf(),
            final(self)@ == input::input_model(
                old(self)@,
                at_most_one(encoded_input(old(self)@.has_input, key@, opt_bytes(encoded))),
            ),
            effect::effects(todo@) == input::input_effects(
                old(self)@.has_input,
                at_most_one(encoded_input(old(self)@.has_input, key@, opt_bytes(encoded))),
            ),
    {
        match encoded {
            Some(bytes) => self.send_input(bytes),
            None => {
                if !self.has_input && text::str_eq(key, "backspace") {
                    let byte: Vec<u8> = vec![0x08];
                    assert(byte@ =~= seq![0x08u8]);
                    return self.send_input(byte);
                }
                Vec::new()
            },
        }
    }
}

proof fn lemma_single_ascii(c: char)
    requires
        (c as u32) < 0x80,
    ensures
        encode_utf8(seq![c]) == seq![c as u8],
{
    let s = seq![c];
    assert(c <= '\u{7f}');
    is_ascii_chars_encode_utf8(s);
    assert(encode_utf8(s) =~= seq![c as u8]);
}

/// Control bytes are the codes below a space. `@`, the letters and the signs after them have one,
/// and a small letter has that of the capital one.
pub proof fn law_control_bytes(candidate: Seq<char>, c: char)
    ensures
        control_byte(candidate) is Some ==> control_byte(candidate)->0 < 0x20,
        0x40 <= c as u32 <= 0x5f ==> control_byte(seq![c]) == Some((c as u32 - 0x40) as u8),
        'a' <= c <= 'z' ==> control_byte(seq![c]) == control_byte(
            seq![((c as u32 - 0x20) as u8) as char],
        ),
{
    reveal_strlit("space");
    if (c as u32) < 0x80 {
        lemma_single_ascii(c);
        assert("space"@.len() != seq![c].len());
    }
    if 'a' <= c <= 'z' {
        let upper = ((c as u32 - 0x20) as u8) as char;
        assert(upper as u32 == c as u32 - 0x20);
        lemma_single_ascii(upper);
        assert("space"@.len() != seq![upper].len());
    }
}

/// Enter is never left to the input method: what it leads to does not depend on one.
pub proof fn law_enter_is_never_skipped<F, L, K>(
    m: ViewModel<F, L, K>,
    raw_key: Seq<char>,
    k: Keystroke,
    rows: int,
)
    requires
        is_enter_key(raw_key),
    ensures
        key_step(m, raw_key, true, k, rows) == key_step(m, raw_key, false, k, rows),
{
}

/// With a program that takes input, a key never reaches the session: it scrolls, or it is sent.
pub proof fn law_keys_reach_the_program<F, L, K>(
    m: ViewModel<F, L, K>,
    raw_key: Seq<char>,
    ime_in_progress: bool,
    k: Keystroke,
    rows: int,
    encoded: Option<Seq<u8>>,
)
    requires
        m.has_input,
    ensures
        key_step(m, raw_key, ime_in_progress, k, rows) matches KeyStepView::Done(todo)
            ==> effect::fed_bytes(todo) == Seq::<u8>::empty(),
        effect::fed_bytes(
            input::input_effects(m.has_input, at_most_one(encoded_input(true, k.key@, encoded))),
        ) == Seq::<u8>::empty(),
        encoded is Some ==> effect::sent_bytes(
            input::input_effects(m.has_input, at_most_one(encoded_input(true, k.key@, encoded))),
        ) == encoded->0,
{
    input::law_input_arrives(true, at_most_one(encoded_input(true, k.key@, encoded)));
    if encoded is Some {
        let parts = at_most_one(encoded);
        assert(parts.drop_last() =~= Seq::empty());
        reveal_with_fuel(input::all_bytes, 2);
        assert(input::all_bytes(parts) =~= encoded->0);
    }
    if let KeyStepView::Done(todo) = key_step(m, raw_key, ime_in_progress, k, rows) {
        lemma_nothing_fed(todo);
    }
}

proof fn lemma_nothing_fed(list: Seq<EffectView>)
    requires
        forall|i: int|
            0 <= i < list.len() ==> !((#[trigger] list[i]) is Feed) && !(
            list[i] is FeedWithResponses),
    ensures
        effect::fed_bytes(list) == Seq::<u8>::empty(),
    decreases list.len(),
{
    if list.len() > 0 {
        lemma_nothing_fed(list.drop_last());
    }
}

} // verus!
