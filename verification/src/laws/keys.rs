//! Keys.

use crate::effect::EffectView;
use crate::keys;
use crate::keys::{KeyModifiers, KeyStepView, Keystroke};
use crate::view::ViewModel;
use vstd::prelude::*;
use vstd::utf8::*;

verus! {

/// A key that is encoded is encoded with the modifiers with which it was pressed.
pub proof fn law_encoding_keeps_modifiers<F, L, K>(
    m: ViewModel<F, L, K>,
    raw_key: Seq<char>,
    ime_in_progress: bool,
    k: Keystroke,
    rows: int,
)
    ensures
        keys::key_step(m, raw_key, ime_in_progress, k, rows) matches KeyStepView::Encode(encoded)
            ==> {
            &&& encoded.shift == k.modifiers.shift
            &&& encoded.control == k.modifiers.control
            &&& encoded.alt == k.modifiers.alt
            &&& !encoded.super_key
            &&& !k.modifiers.platform && !k.modifiers.function
        },
{
}

/// Which keys are left to others: those with the platform or the function modifier, and those that
/// an input method is at work on, but for the enter keys and where no program takes input. They do
/// nothing.
pub proof fn law_keys_left_to_others<F, L, K>(
    m: ViewModel<F, L, K>,
    raw_key: Seq<char>,
    ime_in_progress: bool,
    k: Keystroke,
    rows: int,
)
    ensures
        ({
            let step = keys::key_step(m, raw_key, ime_in_progress, k, rows);
            let enter = raw_key == "enter"@ || raw_key == "return"@ || raw_key == "kp_enter"@
                || raw_key == "numpad_enter"@;
            let composing = m.has_input && ime_in_progress && !enter;
            &&& k.modifiers.platform || k.modifiers.function || composing ==> (step
                matches KeyStepView::Done(todo) && todo.len() == 0)
            &&& !(k.modifiers.platform || k.modifiers.function || composing) ==> (step
                matches KeyStepView::Done(todo) ==> todo.len() > 0)
            &&& keys::skipped_for_ime(m.has_input, ime_in_progress, raw_key) == composing
        }),
{
}

/// Whether a press of a key reaches what the key is for at all.
pub open spec fn is_handled<F, L, K>(
    m: ViewModel<F, L, K>,
    raw_key: Seq<char>,
    ime_in_progress: bool,
    k: Keystroke,
) -> bool {
    &&& !k.modifiers.platform
    &&& !k.modifiers.function
    &&& !(m.has_input && ime_in_progress) || raw_key == "enter"@ || raw_key == "return"@ || raw_key
        == "kp_enter"@ || raw_key == "numpad_enter"@
}

/// Whether a key has the name of a key that scrolls.
pub open spec fn has_scroll_name(key: Seq<char>) -> bool {
    ||| key == "home"@ || key == "end"@
    ||| key == "pageup"@ || key == "page_up"@ || key == "page-up"@
    ||| key == "pagedown"@ || key == "page_down"@ || key == "page-down"@
}

/// The keys that scroll: `home` to the oldest line, `end` to the newest, the page keys by half the
/// rows and at least by one, up and down by the same distance. With a program that takes input they
/// scroll with shift only, and no other key scrolls.
pub proof fn law_scroll_keys<F, L, K>(
    m: ViewModel<F, L, K>,
    raw_key: Seq<char>,
    ime_in_progress: bool,
    k: Keystroke,
    rows: int,
    by: int,
    i: int,
)
    requires
        0 <= rows,
        by >= 1,
        rows >= 2 ==> 2 * by <= rows < 2 * by + 2,
        rows < 2 ==> by == 1,
        is_handled(m, raw_key, ime_in_progress, k),
    ensures
        ({
            let step = keys::key_step(m, raw_key, ime_in_progress, k, rows);
            let key = k.key@;
            let free = k.modifiers.shift || !m.has_input;
            let up = key == "pageup"@ || key == "page_up"@ || key == "page-up"@;
            let down = key == "pagedown"@ || key == "page_down"@ || key == "page-down"@;
            &&& free && key == "home"@ ==> step == scrolled(EffectView::ScrollTop)
            &&& free && key == "end"@ ==> step == scrolled(EffectView::ScrollBottom)
            &&& free && up ==> step == scrolled(EffectView::Scroll(-by))
            &&& free && down ==> step == scrolled(EffectView::Scroll(by))
            &&& !free || !(key == "home"@ || key == "end"@ || up || down) ==> (step
                matches KeyStepView::Done(todo) ==> (0 <= i < todo.len() ==> todo[i] is Send))
            &&& keys::key_scroll(key, rows) is Some <==> key == "home"@ || key == "end"@ || up
                || down
        }),
{
    lemma_scroll_names();
    assert(keys::scroll_step(rows) == by);
    let key = k.key@;
    if keys::is_page_up_key(key) {
        assert(keys::key_scroll(key, rows) == Some(EffectView::Scroll(-by)));
    }
    if keys::is_page_down_key(key) {
        assert(keys::key_scroll(key, rows) == Some(EffectView::Scroll(by)));
    }
}

/// A scroll, after which the view is drawn from what the session shows.
pub open spec fn scrolled(by: EffectView) -> KeyStepView {
    KeyStepView::Done(
        seq![by, EffectView::SyncScroll, EffectView::ApplySideEffects, EffectView::Notify],
    )
}

proof fn lemma_scroll_names()
    ensures
        "home"@ != "end"@,
        forall|key: Seq<char>|
            #![trigger keys::is_page_up_key(key)]
            keys::is_page_up_key(key) ==> key != "home"@ && key != "end"@,
        forall|key: Seq<char>|
            #![trigger keys::is_page_down_key(key)]
            keys::is_page_down_key(key) ==> key != "home"@ && key != "end"@
                && !keys::is_page_up_key(key),
{
    reveal_strlit("home");
    reveal_strlit("end");
    reveal_strlit("pageup");
    reveal_strlit("page_up");
    reveal_strlit("page-up");
    reveal_strlit("pagedown");
    reveal_strlit("page_down");
    reveal_strlit("page-down");
    assert("home"@.len() == 4 && "end"@.len() == 3);
    assert("pageup"@.len() == 6 && "page_up"@.len() == 7 && "page-up"@.len() == 7);
    assert("pagedown"@.len() == 8 && "page_down"@.len() == 9 && "page-down"@.len() == 9);
}

/// What control makes of a key, for a program that takes input: a single byte, by what the key types
/// or, where it types nothing, by its name. Space gives 0, a letter its place in the alphabet, and
/// `@`, `[`, `\\`, `]`, `^` and `_` the places around the letters. Where there is such a byte nothing
/// else is sent.
pub proof fn law_control_keys<F, L, K>(
    m: ViewModel<F, L, K>,
    raw_key: Seq<char>,
    ime_in_progress: bool,
    k: Keystroke,
    rows: int,
    c: char,
)
    requires
        m.has_input,
        k.modifiers.control,
        !k.modifiers.shift || !has_scroll_name(k.key@),
        is_handled(m, raw_key, ime_in_progress, k),
        match k.key_char {
            Some(typed) => typed@ == seq![c],
            None => k.key@ == seq![c],
        },
    ensures
        ({
            let step = keys::key_step(m, raw_key, ime_in_progress, k, rows);
            let code = c as u32 as int;
            let byte = if 0x61 <= code <= 0x7a {
                code - 0x60
            } else {
                code - 0x40
            };
            &&& 0x40 <= code <= 0x5f || 0x61 <= code <= 0x7a ==> step == KeyStepView::Done(
                seq![EffectView::Send(seq![byte as u8])],
            )
            &&& !(0x40 <= code <= 0x5f || 0x61 <= code <= 0x7a) && !k.modifiers.alt ==> step
                is Encode
        }),
{
    let one = seq![c];
    assert(one.len() == 1 && one[0] == c);
    lemma_one_char(c);
    reveal_strlit("space");
    assert("space"@.len() == 5);
    assert(keys::control_candidate(k) == one);
    if 0x40 <= c as u32 <= 0x5f || 0x61 <= c as u32 <= 0x7a {
        let byte = keys::control_byte(one)->0;
        assert(seq![EffectView::Send(seq![byte])] =~= seq![EffectView::Send(seq![byte])]);
    }
}

proof fn lemma_one_char(c: char)
    ensures
        (c as u32) < 0x80 ==> encode_utf8(seq![c]) == seq![c as u8],
        (c as u32) >= 0x80 ==> encode_utf8(seq![c]).len() > 1,
{
    let one = seq![c];
    if (c as u32) < 0x80 {
        assert(c <= '\u{7f}');
        is_ascii_chars_encode_utf8(one);
        assert(encode_utf8(one) =~= seq![c as u8]);
    } else {
        assert(one.drop_first() =~= Seq::<char>::empty());
        reveal_with_fuel(encode_utf8, 2);
    }
}

/// Space has the control byte 0, by its name. What a key types decides before its name does. All
/// other texts that are not one character long have no control byte.
pub proof fn law_control_candidates(k: Keystroke, text: Seq<char>)
    ensures
        keys::control_byte("space"@) == Some(0u8),
        text.len() != 1 && text != "space"@ ==> keys::control_byte(text) is None,
        k.key_char matches Some(typed) ==> keys::control_candidate(k) == typed@,
        k.key_char is None ==> keys::control_candidate(k) == k.key@,
{
    if text.len() == 0 {
        assert(encode_utf8(text).len() == 0);
    } else if text.len() >= 2 {
        crate::text::lemma_utf16_at_most_bytes(text);
    }
}

/// With alt a typed text goes to the program behind an escape byte, where control does not decide.
pub proof fn law_alt_escapes<F, L, K>(
    m: ViewModel<F, L, K>,
    raw_key: Seq<char>,
    ime_in_progress: bool,
    k: Keystroke,
    rows: int,
)
    requires
        m.has_input,
        k.modifiers.alt,
        !k.modifiers.control || keys::control_byte(keys::control_candidate(k)) is None,
        !k.modifiers.shift || !has_scroll_name(k.key@),
        k.key_char is Some,
        is_handled(m, raw_key, ime_in_progress, k),
    ensures
        keys::key_step(m, raw_key, ime_in_progress, k, rows) == KeyStepView::Done(
            seq![EffectView::Send(seq![0x1bu8]), EffectView::Send(encode_utf8((k.key_char->0)@))],
        ),
{
}

/// With control a key that has a control byte sends it to the program, and nothing else.
pub proof fn law_control_decides<F, L, K>(
    m: ViewModel<F, L, K>,
    raw_key: Seq<char>,
    ime_in_progress: bool,
    k: Keystroke,
    rows: int,
    byte: u8,
)
    requires
        m.has_input,
        k.modifiers.control,
        !k.modifiers.shift || !has_scroll_name(k.key@),
        keys::control_byte(keys::control_candidate(k)) == Some(byte),
        is_handled(m, raw_key, ime_in_progress, k),
    ensures
        keys::key_step(m, raw_key, ime_in_progress, k, rows) == KeyStepView::Done(
            seq![EffectView::Send(seq![byte])],
        ),
{
}

/// A key without a modifier that decides is encoded: with a program that takes input every key, and
/// without one every key that does not scroll.
pub proof fn law_other_keys_are_encoded<F, L, K>(
    m: ViewModel<F, L, K>,
    raw_key: Seq<char>,
    ime_in_progress: bool,
    k: Keystroke,
    rows: int,
)
    requires
        is_handled(m, raw_key, ime_in_progress, k),
        m.has_input ==> {
            &&& !k.modifiers.shift || !has_scroll_name(k.key@)
            &&& !k.modifiers.control || keys::control_byte(keys::control_candidate(k)) is None
            &&& !k.modifiers.alt || k.key_char is None
        },
        !m.has_input ==> !has_scroll_name(k.key@),
    ensures
        keys::key_step(m, raw_key, ime_in_progress, k, rows) == KeyStepView::Encode(
            KeyModifiers {
                shift: k.modifiers.shift,
                control: k.modifiers.control,
                alt: k.modifiers.alt,
                super_key: false,
            },
        ),
{
}

/// A key whose encoding is known stands for that encoding. A key without one stands for nothing,
/// but for backspace where no program takes input.
pub proof fn law_encodings_are_used(has_input: bool, key: Seq<char>, bytes: Seq<u8>)
    ensures
        keys::encoded_input(has_input, key, Some(bytes)) == Some(bytes),
        keys::encoded_input(true, key, None) is None,
        key != "backspace"@ ==> keys::encoded_input(false, key, None) is None,
        keys::encoded_input(false, "backspace"@, None) == Some(seq![0x08u8]),
        keys::at_most_one(Some(bytes)) == seq![bytes],
        keys::at_most_one(None).len() == 0,
{
}

} // verus!
