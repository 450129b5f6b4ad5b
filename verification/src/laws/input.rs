//! Input for the program behind the terminal.

use crate::effect::EffectView;
use crate::input;
use crate::view::ViewModel;
use vstd::prelude::*;
use vstd::utf8::*;

verus! {

/// Input for a program is sent to it piece by piece, and that is all. Without a program the session
/// gets it piece by piece, and what that changes is shown.
pub proof fn law_input_piece_by_piece<F, L, K>(
    m: ViewModel<F, L, K>,
    parts: Seq<Seq<u8>>,
    i: int,
)
    ensures
        ({
            let todo = input::input_effects(m.has_input, parts);
            let after = input::input_model(m, parts);
            &&& m.has_input ==> todo.len() == parts.len() && after == m
            &&& m.has_input && 0 <= i < parts.len() ==> todo[i] == EffectView::Send(parts[i])
            &&& parts.len() == 0 ==> todo.len() == 0 && after == m
            &&& !m.has_input && parts.len() > 0 ==> {
                &&& todo.len() == parts.len() + 2
                &&& 0 <= i < parts.len() ==> todo[i] == EffectView::Feed(parts[i])
                &&& todo[parts.len() as int] == EffectView::ApplySideEffects
                &&& todo.last() == EffectView::Notify
                &&& after.pending_refresh
                &&& after == (ViewModel { pending_refresh: true, ..m })
            }
        }),
{
}

/// A tab is the tab byte, and a tab backwards is `ESC [ Z`.
pub proof fn law_tab_bytes(reverse: bool)
    ensures
        input::tab_bytes(reverse).len() == if reverse {
            3nat
        } else {
            1
        },
        !reverse ==> input::tab_bytes(reverse)[0] == 9,
        reverse ==> input::tab_bytes(reverse)[0] == 27 && input::tab_bytes(reverse)[1] == '[' as u8
            && input::tab_bytes(reverse)[2] == 'Z' as u8,
{
}

/// A paste is one piece, the text; in brackets it is three: `ESC [ 200 ~`, the text and
/// `ESC [ 201 ~`. Nothing is pasted where the clipboard has no text.
pub proof fn law_paste_pieces(pasted: Seq<char>, bracketed: bool)
    ensures
        input::paste_parts(Some(pasted), false) == seq![encode_utf8(pasted)],
        input::paste_parts(Some(pasted), true).len() == 3,
        input::paste_parts(Some(pasted), true)[0] == seq![
            27u8,
            '[' as u8,
            '2' as u8,
            '0' as u8,
            '0' as u8,
            '~' as u8,
        ],
        input::paste_parts(Some(pasted), true)[1] == encode_utf8(pasted),
        input::paste_parts(Some(pasted), true)[2] == seq![
            27u8,
            '[' as u8,
            '2' as u8,
            '0' as u8,
            '1' as u8,
            '~' as u8,
        ],
        input::paste_parts(None, bracketed).len() == 0,
{
    assert(input::paste_start() =~= seq![
        27u8,
        '[' as u8,
        '2' as u8,
        '0' as u8,
        '0' as u8,
        '~' as u8,
    ]);
    assert(input::paste_end() =~= seq![
        27u8,
        '[' as u8,
        '2' as u8,
        '0' as u8,
        '1' as u8,
        '~' as u8,
    ]);
}

} // verus!
