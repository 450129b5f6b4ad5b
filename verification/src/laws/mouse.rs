//! The mouse.

use crate::cells;
use crate::effect::EffectView;
use crate::mouse;
use crate::mouse::{Modifiers, MouseButton, MouseDown, MouseModes, MouseMove};
use crate::text;
use crate::url;
use crate::view::{ByteSelection, ViewModel};
use crate::viewport;
use vstd::math::min;
use vstd::prelude::*;
use vstd::utf8::*;

verus! {

/// The number that a text of decimal digits stands for.
pub open spec fn number_of(s: Seq<char>) -> int
    decreases s.len(),
{
    if s.len() == 0 {
        0
    } else {
        10 * number_of(s.drop_last()) + (s.last() as int - '0' as int)
    }
}

/// A number is written in decimal digits, without a zero in front.
pub proof fn law_numbers_are_decimal(n: nat)
    ensures
        number_of(mouse::decimal(n)) == n,
        forall|i: int|
            0 <= i < mouse::decimal(n).len() ==> '0' <= #[trigger] mouse::decimal(n)[i] <= '9',
        mouse::decimal(n).len() > 0,
        mouse::decimal(n)[0] == '0' ==> n == 0,
    decreases n,
{
    if n < 10 {
        assert(mouse::decimal(n).drop_last() =~= Seq::<char>::empty());
        reveal_with_fuel(number_of, 2);
    } else {
        law_numbers_are_decimal(n / 10);
        assert(mouse::decimal(n).drop_last() =~= mouse::decimal(n / 10));
        assert(mouse::decimal(n)[0] == mouse::decimal(n / 10)[0]);
    }
}

/// A report is `ESC [ <`, then the value, the column and the row with semicolons between them, then
/// `M` for a press and `m` for a release.
pub proof fn law_report_form(value: nat, col: nat, row: nat, pressed: bool)
    ensures
        ({
            let text = mouse::report_text(value as int, col as int, row as int, pressed);
            let a = mouse::decimal(value);
            let b = mouse::decimal(col);
            let c = mouse::decimal(row);
            let first = 3 + a.len() as int;
            let second = first + 1 + b.len() as int;
            &&& text.len() == second + 1 + c.len() + 1
            &&& text[0] as int == 27 && text[1] == '[' && text[2] == '<'
            &&& text.subrange(3, first) == a
            &&& text[first] == ';'
            &&& text.subrange(first + 1, second) == b
            &&& text[second] == ';'
            &&& text.subrange(second + 1, text.len() - 1) == c
            &&& text.last() == if pressed {
                'M'
            } else {
                'm'
            }
        }),
{
}

/// The value of a report tells the button and each modifier: two bits for the button, then one each
/// for shift, alt, control and motion, then the bit that marks the wheel.
pub proof fn law_button_values_tell_apart(
    base: u8,
    motion: bool,
    shift: bool,
    alt: bool,
    control: bool,
)
    requires
        base < 4 || 64 <= base < 68,
    ensures
        ({
            let value = mouse::button_value(base as int, motion, shift, alt, control);
            &&& value % 4 == base % 4
            &&& (value / 4) % 2 == 1 <==> shift
            &&& (value / 8) % 2 == 1 <==> alt
            &&& (value / 16) % 2 == 1 <==> control
            &&& (value / 32) % 2 == 1 <==> motion
            &&& value / 64 == base as int / 64
        }),
{
}

/// A value that would not fit in a byte is the largest that does.
pub proof fn law_button_values_fit(base: u8, motion: bool, shift: bool, alt: bool, control: bool)
    ensures
        ({
            let bit = |on: bool, worth: int| if on {
                worth
            } else {
                0
            };
            mouse::button_value(base as int, motion, shift, alt, control) == min(
                255,
                base + bit(shift, 4) + bit(alt, 8) + bit(control, 16) + bit(motion, 32),
            )
        }),
{
}

/// A click is reported with the number of its button, 0 for the left one, 1 for the middle one and 2
/// for the right one, with alt and control, and at its cell; other buttons, and clicks outside the
/// cells, are not.
pub proof fn law_clicks_report_their_button(modifiers: Modifiers, cell: (u16, u16), pressed: bool)
    ensures
        ({
            let report = |number: int|
                seq![
                    EffectView::Send(
                        encode_utf8(
                            mouse::report_text(
                                number + (if modifiers.alt {
                                    8int
                                } else {
                                    0
                                }) + (if modifiers.control {
                                    16int
                                } else {
                                    0
                                }),
                                cell.0 as int,
                                cell.1 as int,
                                pressed,
                            ),
                        ),
                    ),
                ];
            let reported = |button: MouseButton|
                mouse::button_report(button, modifiers, Some(cell), pressed);
            &&& reported(MouseButton::Left) == report(0)
            &&& reported(MouseButton::Middle) == report(1)
            &&& reported(MouseButton::Right) == report(2)
            &&& reported(MouseButton::Other).len() == 0
            &&& forall|button: MouseButton| #[trigger]
                mouse::button_report(button, modifiers, None, pressed).len() == 0
        }),
{
}

/// A motion is reported with the number of the button that is held down, and 3 for none, with alt,
/// control and the mark of a motion.
pub proof fn law_motions_report_their_button(
    button: Option<MouseButton>,
    modifiers: Modifiers,
    cell: (u16, u16),
)
    ensures
        mouse::motion_code(button) <= 3,
        mouse::motion_code(button) == 0 <==> button == Some(MouseButton::Left),
        mouse::motion_code(button) == 1 <==> button == Some(MouseButton::Middle),
        mouse::motion_code(button) == 2 <==> button == Some(MouseButton::Right),
        mouse::report(mouse::motion_code(button), true, modifiers, cell, true) == EffectView::Send(
            encode_utf8(
                mouse::report_text(
                    32 + mouse::motion_code(button) + (if modifiers.alt {
                        8int
                    } else {
                        0
                    }) + (if modifiers.control {
                        16int
                    } else {
                        0
                    }),
                    cell.0 as int,
                    cell.1 as int,
                    true,
                ),
            ),
        ),
{
}

/// The mouse is reported to a program that wants reports in the SGR form, unless shift is held down.
/// Of the motions it gets all, or those with a button held down, or none, as it wants.
pub proof fn law_who_gets_reports(has_input: bool, event: MouseMove, modes: MouseModes)
    ensures
        ({
            let shift = event.modifiers.shift;
            &&& mouse::reports_mouse(true, false, MouseModes { reporting: true, sgr: true, ..modes })
            &&& shift ==> !mouse::reports_mouse(has_input, shift, modes)
            &&& !has_input ==> !mouse::reports_mouse(has_input, shift, modes)
            &&& !modes.reporting ==> !mouse::reports_mouse(has_input, shift, modes)
            &&& !modes.sgr ==> !mouse::reports_mouse(has_input, shift, modes)
            &&& mouse::reports_motion(has_input, event, modes) ==> mouse::reports_mouse(
                has_input,
                shift,
                modes,
            )
            &&& mouse::reports_mouse(has_input, shift, modes) && modes.any_event
                ==> mouse::reports_motion(has_input, event, modes)
            &&& mouse::reports_mouse(has_input, shift, modes) && !modes.any_event && modes.button_event
                ==> (mouse::reports_motion(has_input, event, modes)
                <==> event.pressed_button is Some)
            &&& !modes.any_event && !modes.button_event ==> !mouse::reports_motion(
                has_input,
                event,
                modes,
            )
        }),
{
}

/// The cell of a pointer is counted from one: the one whose index it is at, the first for a pointer
/// before the grid, and the last for one behind it.
pub proof fn law_pointers_stay_in_the_grid(index: int, count: int)
    requires
        count >= 1,
    ensures
        1 <= mouse::cell_of_index(index, count) <= count,
        0 <= index < count ==> mouse::cell_of_index(index, count) == index + 1,
        index < 0 ==> mouse::cell_of_index(index, count) == 1,
        index >= count ==> mouse::cell_of_index(index, count) == count,
{
}

/// The click that brings the window to the front does nothing else.
pub proof fn law_first_click_does_nothing<F, L, K>(
    m: ViewModel<F, L, K>,
    event: MouseDown,
    modes: MouseModes,
    cell: Option<(u16, u16)>,
    hyperlink: Option<Seq<char>>,
    index: Option<usize>,
)
    requires
        event.first_mouse,
    ensures
        mouse::mouse_down_effects(m, event, modes, cell, hyperlink, index).len() == 0,
        mouse::mouse_down_selection(m, event, modes, cell, hyperlink, index) == m.selection,
        !mouse::mouse_down_needs(m.has_input, event, modes).cell,
        !mouse::mouse_down_needs(m.has_input, event, modes).index,
{
}

/// A left click with the platform key copies the link under it, and does nothing else: the hyperlink
/// of the cell, else the web address in its column of its line, else the web address at the byte
/// under the pointer. Pointers outside the cells only have the last of these.
pub proof fn law_links_are_copied<F, L, K>(
    m: ViewModel<F, L, K>,
    event: MouseDown,
    modes: MouseModes,
    cell: (u16, u16),
    hyperlink: Option<Seq<char>>,
    index: Option<usize>,
    address: Seq<u8>,
)
    requires
        !event.first_mouse,
        event.button == MouseButton::Left,
        event.modifiers.platform,
    ensures
        ({
            let todo = |cell: Option<(u16, u16)>, hyperlink: Option<Seq<char>>|
                mouse::mouse_down_effects(m, event, modes, cell, hyperlink, index);
            let kept = |cell: Option<(u16, u16)>, hyperlink: Option<Seq<char>>|
                mouse::mouse_down_selection(m, event, modes, cell, hyperlink, index) == m.selection;
            let in_line = 1 <= cell.1 <= m.lines.len() && url::url_at_column(
                m.lines[cell.1 - 1],
                cell.0 as int,
            ) == Some(address);
            let at_byte = index is Some && viewport::url_at_byte(m.lines, index->0 as int) == Some(
                address,
            );
            let nothing_in_line = cell.1 > m.lines.len() || (1 <= cell.1 && url::url_at_column(
                m.lines[cell.1 - 1],
                cell.0 as int,
            ) is None);
            let copied = seq![EffectView::Copy(decode_utf8(address))];
            &&& hyperlink is Some ==> todo(Some(cell), hyperlink) == seq![
                EffectView::Copy(hyperlink->0),
            ] && kept(Some(cell), hyperlink)
            &&& in_line ==> todo(Some(cell), None) == copied && kept(Some(cell), None)
            &&& nothing_in_line && at_byte ==> todo(Some(cell), None) == copied && kept(
                Some(cell),
                None,
            )
            &&& at_byte ==> todo(None, hyperlink) == copied && kept(None, hyperlink)
            &&& mouse::mouse_down_needs(m.has_input, event, modes).cell
            &&& mouse::mouse_down_needs(m.has_input, event, modes).index
        }),
{
}

/// A click that asks for no link goes to a program that wants it, and leaves the selection alone.
/// Otherwise the left button starts a selection at the byte under the pointer, and other buttons do
/// nothing.
pub proof fn law_clicks_report_or_select<F, L, K>(
    m: ViewModel<F, L, K>,
    event: MouseDown,
    modes: MouseModes,
    cell: Option<(u16, u16)>,
    hyperlink: Option<Seq<char>>,
    index: Option<usize>,
)
    requires
        !event.first_mouse,
        event.button != MouseButton::Left || !event.modifiers.platform,
    ensures
        ({
            let todo = mouse::mouse_down_effects(m, event, modes, cell, hyperlink, index);
            let selected = mouse::mouse_down_selection(m, event, modes, cell, hyperlink, index);
            let needs = mouse::mouse_down_needs(m.has_input, event, modes);
            let wanted = m.has_input && modes.reporting && modes.sgr && !event.modifiers.shift;
            let left = event.button == MouseButton::Left;
            &&& wanted ==> selected == m.selection && todo == mouse::button_report(
                event.button,
                event.modifiers,
                cell,
                true,
            )
            &&& !wanted && !left ==> selected == m.selection && todo.len() == 0
            &&& !wanted && left ==> (index matches Some(at) ==> selected == Some(
                ByteSelection { anchor: at, active: at },
            ) && todo == seq![EffectView::Notify])
            &&& !wanted && index is None ==> selected == m.selection && todo.len() == 0
            &&& needs.cell <==> wanted
            &&& needs.index <==> !wanted && left
        }),
{
}

/// A click with the platform key where there is no link is a click without it.
pub proof fn law_no_link_is_a_click<F, L, K>(
    m: ViewModel<F, L, K>,
    event: MouseDown,
    modes: MouseModes,
    cell: Option<(u16, u16)>,
    index: Option<usize>,
)
    requires
        cell matches Some(cell) ==> cell.1 >= 1 && (cell.1 <= m.lines.len() ==> url::url_at_column(
            m.lines[cell.1 - 1],
            cell.0 as int,
        ) is None),
        index matches Some(index) ==> viewport::url_at_byte(m.lines, index as int) is None,
    ensures
        ({
            let plain = MouseDown {
                modifiers: Modifiers { platform: false, ..event.modifiers },
                ..event
            };
            &&& mouse::mouse_down_effects(m, event, modes, cell, None, index)
                == mouse::mouse_down_effects(m, plain, modes, cell, None, index)
            &&& mouse::mouse_down_selection(m, event, modes, cell, None, index)
                == mouse::mouse_down_selection(m, plain, modes, cell, None, index)
        }),
{
}

/// A drag moves the end of the selection to the byte under the pointer and leaves its start, and
/// starts no selection.
pub proof fn law_drags_move_the_end(selection: ByteSelection, index: usize)
    ensures
        mouse::dragged_selection(Some(selection), Some(index)) matches Some(dragged)
            && dragged.anchor == selection.anchor && dragged.active == index,
        mouse::dragged_selection(Some(selection), None) == Some(selection),
        mouse::dragged_selection(None, Some(index)) is None,
        mouse::dragged_selection(None, None) is None,
{
}

/// A motion that is reported needs the cell. One that is not needs the byte under the pointer where
/// it drags a selection.
pub proof fn law_what_motions_need<F, L, K>(
    m: ViewModel<F, L, K>,
    event: MouseMove,
    modes: MouseModes,
)
    ensures
        ({
            let needs = mouse::mouse_move_needs(m, event, modes);
            let reported = mouse::reports_motion(m.has_input, event, modes);
            &&& reported ==> needs.cell && !needs.index
            &&& !reported ==> !needs.cell
            &&& !reported && event.dragging && m.selection is Some ==> needs.index
            &&& !event.dragging || m.selection is None ==> !needs.index
        }),
{
}

/// A turn of the wheel is reported once for each line, ten times at most, as button 64 upwards and as
/// button 65 downwards.
pub proof fn law_wheel_reports(delta: int)
    ensures
        -10 <= delta <= 0 ==> mouse::wheel_steps(delta) == -delta,
        0 <= delta <= 10 ==> mouse::wheel_steps(delta) == delta,
        delta > 10 || delta < -10 ==> mouse::wheel_steps(delta) == 10,
        delta < 0 ==> mouse::wheel_code(delta) == 64,
        delta > 0 ==> mouse::wheel_code(delta) == 65,
{
}

/// After a scroll the viewport follows, then what the session wants is done, then the view is drawn.
pub proof fn law_scrolls_are_shown(scroll: EffectView)
    ensures
        mouse::scroll_effects(scroll).len() == 4,
        mouse::scroll_effects(scroll)[0] == scroll,
        mouse::scroll_effects(scroll)[1] == EffectView::SyncScroll,
        mouse::scroll_effects(scroll)[2] == EffectView::ApplySideEffects,
        mouse::scroll_effects(scroll)[3] == EffectView::Notify,
{
}

/// In a shaped row the byte under the pointer is that of the shaped text, at most its end, behind the
/// lines above it.
pub proof fn law_shaped_rows_give_the_byte<F, L, K>(
    m: ViewModel<F, L, K>,
    row: int,
    shaped_text: Seq<char>,
    layout: L,
    x_index: usize,
    cell: Option<(u16, u16)>,
)
    requires
        0 <= row < m.layouts.len(),
        m.layouts[row] == Some((shaped_text, layout)),
        row < m.lines.len() ==> viewport::line_start(m.lines, row) + text::byte_len(shaped_text)
            <= usize::MAX,
        text::byte_len(shaped_text) <= usize::MAX,
    ensures
        ({
            let found = mouse::viewport_index(m, row, Some(x_index), cell);
            let within = min(x_index as int, text::byte_len(shaped_text) as int);
            &&& row < m.lines.len() ==> found == Some(viewport::line_start(m.lines, row) + within)
            &&& row >= m.lines.len() ==> found == Some(within)
        }),
{
}

/// In a row that is not shaped the byte under the pointer is that of the character in its cell,
/// behind the lines above it. There is none where the cell lies below the lines, or there is no cell.
pub proof fn law_cells_give_the_byte<F, L, K>(
    m: ViewModel<F, L, K>,
    row: int,
    x_index: Option<usize>,
    cell: (u16, u16),
)
    requires
        0 <= row,
        row >= m.layouts.len() || m.layouts[row] is None || x_index is None,
        viewport::line_start(m.lines, m.lines.len() as int) <= usize::MAX,
        cell.1 >= 1,
    ensures
        ({
            let found = mouse::viewport_index(m, row, x_index, Some(cell));
            let line = m.lines[cell.1 - 1];
            &&& cell.1 <= m.lines.len() ==> found == Some(
                viewport::line_start(m.lines, cell.1 - 1) + cells::byte_of_column(
                    cells::measured(line),
                    cell.0 as int,
                ) as int,
            )
            &&& cell.1 > m.lines.len() ==> found is None
            &&& mouse::viewport_index(m, row, x_index, None) is None
            &&& mouse::viewport_index(m, row, x_index, Some((cell.0, 0))) == mouse::viewport_index(
                m,
                row,
                x_index,
                Some((cell.0, 1)),
            )
        }),
{
    if cell.1 <= m.lines.len() {
        let line = m.lines[cell.1 - 1];
        viewport::lemma_line_starts(m.lines, cell.1 as int, m.lines.len() as int);
        assert(viewport::line_start(m.lines, cell.1 as int) == viewport::line_start(
            m.lines,
            cell.1 - 1,
        ) + text::byte_len(line) + 1);
        cells::law_column_positions(cells::measured(line), cell.0 as int, cell.0 as int);
        cells::lemma_chars_measured(line);
    }
}

} // verus!
