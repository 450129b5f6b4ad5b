//! Mouse events: reports to the program behind the terminal, selections, links and scrolling.

use crate::cells;
use crate::effect;
use crate::effect::{Effect, EffectView};
use crate::text;
use crate::url;
use crate::view;
use crate::view::{ByteSelection, TerminalView, ViewModel};
use crate::viewport;
use vstd::prelude::*;
use vstd::utf8::*;

verus! {

broadcast use crate::effect::group_effects;

/// A button of the mouse.
#[derive(Clone, Copy, Debug, PartialEq, Eq, Structural)]
pub enum MouseButton {
    Left,
    Middle,
    Right,
    Other,
}

/// The modifier keys that are held down.
#[derive(Clone, Copy, Debug, PartialEq, Eq, Structural)]
pub struct Modifiers {
    pub shift: bool,
    pub control: bool,
    pub alt: bool,
    pub platform: bool,
    pub function: bool,
}

/// The mouse modes that the program behind the terminal has switched on.
#[derive(Clone, Copy, Debug, PartialEq, Eq, Structural)]
pub struct MouseModes {
    /// Clicks are reported.
    pub reporting: bool,
    /// Reports have the SGR form.
    pub sgr: bool,
    /// Every motion is reported.
    pub any_event: bool,
    /// Motions with a button held down are reported.
    pub button_event: bool,
}

/// A button that went down.
#[derive(Clone, Copy, Debug, PartialEq, Eq, Structural)]
pub struct MouseDown {
    pub button: MouseButton,
    pub modifiers: Modifiers,
    /// Whether the click only brought the window to the front.
    pub first_mouse: bool,
    /// Whether the view had the focus.
    pub focused: bool,
}

/// A button that went up.
#[derive(Clone, Copy, Debug, PartialEq, Eq, Structural)]
pub struct MouseUp {
    pub button: MouseButton,
    pub modifiers: Modifiers,
}

/// A motion of the mouse.
#[derive(Clone, Copy, Debug, PartialEq, Eq, Structural)]
pub struct MouseMove {
    pub pressed_button: Option<MouseButton>,
    pub modifiers: Modifiers,
    pub dragging: bool,
}

/// What has to be known of the place of the pointer before an event can be handled.
#[derive(Clone, Copy, Debug, PartialEq, Eq, Structural)]
pub struct PointerNeeds {
    /// The cell under the pointer.
    pub cell: bool,
    /// The byte of the viewport under the pointer.
    pub index: bool,
}

/// The digit for a number below 10.
pub open spec fn digit(d: int) -> char {
    (48 + d) as char
}

/// A number in decimal digits.
pub open spec fn decimal(n: nat) -> Seq<char>
    decreases n,
{
    if n < 10 {
        seq![digit(n as int)]
    } else {
        decimal(n / 10).push(digit((n % 10) as int))
    }
}

/// The value that stands for a button and what goes with it in a report.
pub open spec fn button_value(
    base: int,
    motion: bool,
    shift: bool,
    alt: bool,
    control: bool,
) -> int {
    let sum = base + (if motion {
        32int
    } else {
        0
    }) + (if shift {
        4int
    } else {
        0
    }) + (if alt {
        8int
    } else {
        0
    }) + (if control {
        16int
    } else {
        0
    });
    if sum > 255 {
        255
    } else {
        sum
    }
}

/// A report in the SGR form: `ESC [ < value ; column ; row` and `M` for a press or `m` for a
/// release.
pub open spec fn report_text(value: int, col: int, row: int, pressed: bool) -> Seq<char> {
    seq!['\u{1b}', '[', '<'] + decimal(value as nat) + seq![';'] + decimal(col as nat) + seq![';']
        + decimal(row as nat) + seq![
        if pressed {
            'M'
        } else {
            'm'
        },
    ]
}

fn push_decimal(out: &mut String, n: u32)
    ensures
        final(out)@ == old(out)@ + decimal(n as nat),
    decreases n,
{
    if n < 10 {
        out.push((48 + n as u8) as char);
    } else {
        push_decimal(out, n / 10);
        out.push((48 + (n % 10) as u8) as char);
    }
    assert(out@ =~= old(out)@ + decimal(n as nat));
}

/// The value that stands for a button and what goes with it in a report.
pub fn sgr_mouse_button_value(
    base_button: u8,
    motion: bool,
    shift: bool,
    alt: bool,
    control: bool,
) -> (value: u8)
    ensures
        value == button_value(base_button as int, motion, shift, alt, control),
{
    let mut value = base_button;
    if motion {
        value = value.saturating_add(32);
    }
    if shift {
        value = value.saturating_add(4);
    }
    if alt {
        value = value.saturating_add(8);
    }
    if control {
        value = value.saturating_add(16);
    }
    value
}

/// A report in the SGR form.
pub fn sgr_mouse_sequence(button_value: u8, col: u16, row: u16, pressed: bool) -> (report: String)
    ensures
        report@ == report_text(button_value as int, col as int, row as int, pressed),
{
    let mut report = String::new();
    report.push('\u{1b}');
    report.push('[');
    report.push('<');
    push_decimal(&mut report, button_value as u32);
    report.push(';');
    push_decimal(&mut report, col as u32);
    report.push(';');
    push_decimal(&mut report, row as u32);
    report.push(
        if pressed {
            'M'
        } else {
            'm'
        },
    );
    assert(report@ =~= report_text(button_value as int, col as int, row as int, pressed));
    report
}

/// The cell, counted from 1, for a position that lies `index` cells past the first, on an axis of
/// `count` cells. Positions outside the grid belong to the cell next to them.
pub open spec fn cell_of_index(index: int, count: int) -> int {
    let cell = if index < 0 {
        1
    } else {
        index + 1
    };
    if cell > count {
        count
    } else {
        cell
    }
}

fn clamp_to_grid(index: i32, count: u16) -> (cell: u16)
    requires
        index < i32::MAX,
    ensures
        cell == cell_of_index(index as int, count as int),
{
    let cell: i32 = if index < 0 {
        1
    } else {
        index + 1
    };
    if cell > count as i32 {
        count
    } else {
        cell as u16
    }
}

/// The column and the row, counted from 1, of a position that lies `x_cells` cells to the right of
/// the first column and `y_cells` cells below the first row.
pub fn mouse_position_to_cell(x_cells: i32, y_cells: i32, cols: u16, rows: u16) -> (cell: (u16, u16))
    requires
        x_cells < i32::MAX,
        y_cells < i32::MAX,
    ensures
        cell.0 == cell_of_index(x_cells as int, cols as int),
        cell.1 == cell_of_index(y_cells as int, rows as int),
{
    (clamp_to_grid(x_cells, cols), clamp_to_grid(y_cells, rows))
}

/// The row, counted from 0, of a position that lies `y_cells` cells below the first row; none in a
/// grid without rows.
pub fn mouse_position_to_row(y_cells: i32, rows: u16) -> (row: Option<usize>)
    ensures
        row == if rows == 0 {
            None
        } else if y_cells < 0 {
            Some(0usize)
        } else if y_cells >= rows {
            Some((rows - 1) as usize)
        } else {
            Some(y_cells as usize)
        },
{
    if rows == 0 {
        None
    } else if y_cells < 0 {
        Some(0)
    } else if y_cells >= rows as i32 {
        Some((rows - 1) as usize)
    } else {
        Some(y_cells as usize)
    }
}

/// Whether mouse events go to the program behind the terminal. With shift they never do.
pub open spec fn reports_mouse(has_input: bool, shift: bool, modes: MouseModes) -> bool {
    !shift && has_input && modes.reporting && modes.sgr
}

/// The number that stands for a button that goes down or up; none for buttons that are not
/// reported.
pub open spec fn button_code(button: MouseButton) -> Option<u8> {
    match button {
        MouseButton::Left => Some(0),
        MouseButton::Middle => Some(1),
        MouseButton::Right => Some(2),
        MouseButton::Other => None,
    }
}

/// The number that stands for the button that is held down during a motion.
pub open spec fn motion_code(button: Option<MouseButton>) -> u8 {
    match button {
        Some(MouseButton::Left) => 0,
        Some(MouseButton::Middle) => 1,
        Some(MouseButton::Right) => 2,
        _ => 3,
    }
}

/// The report of an event at a cell.
pub open spec fn report(
    base: u8,
    motion: bool,
    modifiers: Modifiers,
    cell: (u16, u16),
    pressed: bool,
) -> EffectView {
    EffectView::Send(
        encode_utf8(
            report_text(
                button_value(base as int, motion, false, modifiers.alt, modifiers.control),
                cell.0 as int,
                cell.1 as int,
                pressed,
            ),
        ),
    )
}

/// The report of a button that went down or up; none where the position is unknown or the button
/// is not reported.
pub open spec fn button_report(
    button: MouseButton,
    modifiers: Modifiers,
    cell: Option<(u16, u16)>,
    pressed: bool,
) -> Seq<EffectView> {
    match (cell, button_code(button)) {
        (Some(cell), Some(code)) => seq![report(code, false, modifiers, cell, pressed)],
        _ => Seq::empty(),
    }
}

/// Whether a click asks for the link under the pointer.
pub open spec fn asks_for_link(event: MouseDown) -> bool {
    event.button == MouseButton::Left && event.modifiers.platform
}

/// The text of an address.
pub open spec fn url_text(bytes: Option<Seq<u8>>) -> Option<Seq<char>> {
    match bytes {
        Some(bytes) => Some(decode_utf8(bytes)),
        None => None,
    }
}

/// The row of the viewport, counted from 0, for a row of the grid, counted from 1.
pub open spec fn row_index(row: u16) -> int {
    if row > 0 {
        row - 1
    } else {
        0
    }
}

/// The link under the pointer: the hyperlink that the session has at the cell, else the address in
/// the line there, else the address at the byte there.
pub open spec fn link_under_pointer(
    lines: Seq<Seq<char>>,
    cell: Option<(u16, u16)>,
    hyperlink: Option<Seq<char>>,
    index: Option<usize>,
) -> Option<Seq<char>> {
    let at_byte = match index {
        Some(index) => url_text(viewport::url_at_byte(lines, index as int)),
        None => None,
    };
    match cell {
        Some((col, row)) => if hyperlink is Some {
            hyperlink
        } else if row_index(row) < lines.len() && url::url_at_column(
            lines[row_index(row)],
            col as int,
        ) is Some {
            url_text(url::url_at_column(lines[row_index(row)], col as int))
        } else {
            at_byte
        },
        None => at_byte,
    }
}

/// What a button that went down asks for, once the view has the focus.
pub open spec fn mouse_down_effects<F, L, K>(
    m: ViewModel<F, L, K>,
    event: MouseDown,
    modes: MouseModes,
    cell: Option<(u16, u16)>,
    hyperlink: Option<Seq<char>>,
    index: Option<usize>,
) -> Seq<EffectView> {
    let link = link_under_pointer(m.lines, cell, hyperlink, index);
    if event.first_mouse {
        Seq::empty()
    } else if asks_for_link(event) && link is Some {
        seq![EffectView::Copy(link->0)]
    } else if !reports_mouse(m.has_input, event.modifiers.shift, modes) {
        if event.button == MouseButton::Left && index is Some {
            seq![EffectView::Notify]
        } else {
            Seq::empty()
        }
    } else {
        button_report(event.button, event.modifiers, cell, true)
    }
}

/// What is selected after a button went down: a selection starts where the left button goes down
/// and the click is neither reported nor spent on a link.
pub open spec fn mouse_down_selection<F, L, K>(
    m: ViewModel<F, L, K>,
    event: MouseDown,
    modes: MouseModes,
    cell: Option<(u16, u16)>,
    hyperlink: Option<Seq<char>>,
    index: Option<usize>,
) -> Option<ByteSelection> {
    let link = link_under_pointer(m.lines, cell, hyperlink, index);
    if event.first_mouse || (asks_for_link(event) && link is Some) || reports_mouse(
        m.has_input,
        event.modifiers.shift,
        modes,
    ) || event.button != MouseButton::Left {
        m.selection
    } else {
        match index {
            Some(index) => Some(ByteSelection { anchor: index, active: index }),
            None => m.selection,
        }
    }
}

/// Whether a motion is reported.
pub open spec fn reports_motion(has_input: bool, event: MouseMove, modes: MouseModes) -> bool {
    reports_mouse(has_input, event.modifiers.shift, modes) && (modes.any_event || (
    modes.button_event && event.pressed_button is Some))
}

/// The selection after a drag to a byte of the viewport.
pub open spec fn dragged_selection(
    selection: Option<ByteSelection>,
    index: Option<usize>,
) -> Option<ByteSelection> {
    match (selection, index) {
        (Some(selection), Some(index)) => Some(
            ByteSelection { anchor: selection.anchor, active: index },
        ),
        _ => selection,
    }
}

/// What a scroll of the session asks for.
pub open spec fn scroll_effects(scroll: EffectView) -> Seq<EffectView> {
    seq![scroll, EffectView::SyncScroll, EffectView::ApplySideEffects, EffectView::Notify]
}

/// The number of wheel reports for a scroll by `delta` lines: one per line, at most 10.
pub open spec fn wheel_steps(delta: int) -> nat {
    let lines = if delta < 0 {
        -delta
    } else {
        delta
    };
    if lines > 10 {
        10
    } else {
        lines as nat
    }
}

/// The number that stands for the wheel in a report: 64 upwards, 65 downwards.
pub open spec fn wheel_code(delta: int) -> u8 {
    if delta < 0 {
        64
    } else {
        65
    }
}

/// The byte of the viewport that a pointer position selects: in a shaped line the byte that the
/// shaping finds there, otherwise the byte that the cell shows.
pub open spec fn viewport_index<F, L, K>(
    m: ViewModel<F, L, K>,
    row: int,
    x_index: Option<usize>,
    cell: Option<(u16, u16)>,
) -> Option<int> {
    if row < m.layouts.len() && m.layouts[row] is Some && x_index is Some {
        let len = text::byte_len((m.layouts[row]->0).0) as int;
        let at = if row < m.lines.len() {
            text::saturated(viewport::line_start(m.lines, row) as int)
        } else {
            0
        };
        Some(
            text::saturated(
                at + if x_index->0 < len {
                    x_index->0 as int
                } else {
                    len
                },
            ),
        )
    } else {
        match cell {
            Some((col, cell_row)) => if row_index(cell_row) < m.lines.len() {
                Some(
                    text::saturated(
                        text::saturated(
                            viewport::line_start(m.lines, row_index(cell_row)) as int,
                        ) + cells::byte_of_column(
                            cells::measured(m.lines[row_index(cell_row)]),
                            col as int,
                        ),
                    ),
                )
            } else {
                None
            },
            None => None,
        }
    }
}

/// What a button that goes down needs: the cell for a link or a report, the byte for a link or a
/// selection.
pub open spec fn mouse_down_needs(has_input: bool, event: MouseDown, modes: MouseModes) -> PointerNeeds {
    let reports = reports_mouse(has_input, event.modifiers.shift, modes);
    PointerNeeds {
        cell: !event.first_mouse && (asks_for_link(event) || reports),
        index: !event.first_mouse && (asks_for_link(event) || (!reports && event.button
            == MouseButton::Left)),
    }
}

/// What a motion needs: the cell for a report, the byte for a selection that it extends.
pub open spec fn mouse_move_needs<F, L, K>(
    m: ViewModel<F, L, K>,
    event: MouseMove,
    modes: MouseModes,
) -> PointerNeeds {
    let reports = reports_motion(m.has_input, event, modes);
    PointerNeeds { cell: reports, index: !reports && event.dragging && m.selection is Some }
}

fn code_of_button(button: MouseButton) -> (code: Option<u8>)
    ensures
        code == button_code(button),
{
    match button {
        MouseButton::Left => Some(0),
        MouseButton::Middle => Some(1),
        MouseButton::Right => Some(2),
        MouseButton::Other => None,
    }
}

fn send_report(
    base: u8,
    motion: bool,
    modifiers: Modifiers,
    cell: (u16, u16),
    pressed: bool,
) -> (e: Effect)
    ensures
        e@ == report(base, motion, modifiers, cell, pressed),
{
    let value = sgr_mouse_button_value(base, motion, false, modifiers.alt, modifiers.control);
    let sequence = sgr_mouse_sequence(value, cell.0, cell.1, pressed);
    Effect::Send(vstd::slice::slice_to_vec(sequence.as_str().as_bytes()))
}

fn send_button_report(
    button: MouseButton,
    modifiers: Modifiers,
    cell: Option<(u16, u16)>,
    pressed: bool,
    todo: &mut Vec<Effect>,
)
    ensures
        effect::effects(final(todo)@) == effect::effects(old(todo)@) + button_report(
            button,
            modifiers,
            cell,
            pressed,
        ),
{
    if let Some(cell) = cell {
        if let Some(code) = code_of_button(button) {
            todo.push(send_report(code, false, modifiers, cell, pressed));
        }
    }
}

impl MouseDown {
    /// Whether a click asks for the link under the pointer.
    pub fn asks_for_link(&self) -> (asks: bool)
        ensures
            asks == asks_for_link(*self),
    {
        self.button == MouseButton::Left && self.modifiers.platform
    }
}

impl<F, L, K> TerminalView<F, L, K> {
    fn reports_mouse(&self, shift: bool, modes: MouseModes) -> (reports: bool)
        ensures
            reports == reports_mouse(self@.has_input, shift, modes),
    {
        !shift && self.has_input && modes.reporting && modes.sgr
    }

    /// The byte of the viewport that a pointer position selects. `row` is the row of the position,
    /// `x_index` the byte that the shaped line of that row has there, and `cell` the cell there.
    pub fn mouse_position_to_viewport_index(
        &self,
        row: usize,
        x_index: Option<usize>,
        cell: Option<(u16, u16)>,
    ) -> (index: Option<usize>)
        requires
            self.wf(),
        ensures
            match viewport_index(self@, row as int, x_index, cell) {
                Some(i) => index matches Some(found) && found == i,
                None => index is None,
            },
    {
        if row < self.line_layouts.len() {
            if let Some(layout) = &self.line_layouts[row] {
                if let Some(x) = x_index {
                    let len = layout.text.as_str().as_bytes().len();
                    let byte_index: usize = if x < len {
                        x
                    } else {
                        len
                    };
                    let at: usize = if row < self.viewport_line_offsets.len() {
                        self.viewport_line_offsets[row]
                    } else {
                        0
                    };
                    return Some(at.saturating_add(byte_index));
                }
            }
        }
        match cell {
            Some((col, cell_row)) => {
                let row_index: usize = cell_row.saturating_sub(1) as usize;
                if row_index < self.viewport_lines.len() {
                    let line = self.viewport_lines[row_index].as_str();
                    let byte_index = cells::byte_index_for_column_in_line(line, col);
                    Some(self.viewport_line_offsets[row_index].saturating_add(byte_index))
                } else {
                    None
                }
            },
            None => None,
        }
    }

    /// The link under the pointer.
    pub fn link_under_pointer(
        &self,
        cell: Option<(u16, u16)>,
        hyperlink: Option<String>,
        index: Option<usize>,
    ) -> (link: Option<String>)
        requires
            self.wf(),
        ensures
            view::opt_text(link) == link_under_pointer(
                self@.lines,
                cell,
                view::opt_text(hyperlink),
                index,
            ),
    {
        if let Some((col, row)) = cell {
            if let Some(link) = hyperlink {
                return Some(link);
            }
            let row_index: usize = row.saturating_sub(1) as usize;
            if row_index < self.viewport_lines.len() {
                let found = url::url_at_column_in_line(
                    self.viewport_lines[row_index].as_str(),
                    col,
                );
                if let Some(found) = found {
                    proof {
                        encode_utf8_decode_utf8(found@);
                    }
                    return Some(found);
                }
            }
        }
        match index {
            Some(index) => {
                let found = self.url_at_viewport_index(index);
                proof {
                    if found is Some {
                        encode_utf8_decode_utf8((found->0)@);
                    }
                }
                found
            },
            None => None,
        }
    }

    /// What a button that goes down needs to know of the place of the pointer.
    pub fn mouse_down_needs(&self, event: MouseDown, modes: MouseModes) -> (needs: PointerNeeds)
        ensures
            needs == mouse_down_needs(self@.has_input, event, modes),
    {
        let reports = self.reports_mouse(event.modifiers.shift, modes);
        let link = event.asks_for_link();
        PointerNeeds {
            cell: !event.first_mouse && (link || reports),
            index: !event.first_mouse && (link || (!reports && event.button == MouseButton::Left)),
        }
    }

    /// Whether a button that goes up needs the cell under the pointer.
    pub fn mouse_up_needs_cell(&self, event: MouseUp, modes: MouseModes) -> (needs: bool)
        ensures
            needs == reports_mouse(self@.has_input, event.modifiers.shift, modes),
    {
        self.reports_mouse(event.modifiers.shift, modes)
    }

    /// What a motion needs to know of the place of the pointer.
    pub fn mouse_move_needs(&self, event: MouseMove, modes: MouseModes) -> (needs: PointerNeeds)
        ensures
            needs == mouse_move_needs(self@, event, modes),
    {
        let reports = self.reports_mouse(event.modifiers.shift, modes) && (modes.any_event || (
        modes.button_event && event.pressed_button.is_some()));
        PointerNeeds {
            cell: reports,
            index: !reports && event.dragging && self.selection.is_some(),
        }
    }

    /// Whether a turn of the wheel needs the cell under the pointer.
    pub fn scroll_wheel_needs_cell(
        &self,
        delta_lines: i32,
        modifiers: Modifiers,
        modes: MouseModes,
    ) -> (needs: bool)
        ensures
            needs == (delta_lines != 0 && reports_mouse(self@.has_input, modifiers.shift, modes)),
    {
        delta_lines != 0 && self.reports_mouse(modifiers.shift, modes)
    }

    /// A button went down. `cell` is the cell under the pointer, `hyperlink` the link that the
    /// session has there and `index` the byte of the viewport there.
    pub fn on_mouse_down(
        &mut self,
        event: MouseDown,
        modes: MouseModes,
        cell: Option<(u16, u16)>,
        hyperlink: Option<String>,
        index: Option<usize>,
    ) -> (todo: Vec<Effect>)
        requires
            old(self).wf(),
        ensures
            final(self).wf(),
            final(self)@ == (ViewModel {
                selection: mouse_down_selection(
                    old(self)@,
                    event,
                    modes,
                    cell,
                    view::opt_text(hyperlink),
                    index,
                ),
                ..old(self)@
            }),
            effect::effects(todo@) == (if event.focused {
                Seq::empty()
            } else {
                seq![EffectView::Focus]
            }) + mouse_down_effects(
                old(self)@,
                event,
                modes,
                cell,
                view::opt_text(hyperlink),
                index,
            ),
    {
        let mut todo: Vec<Effect> = Vec::new();
        if !event.focused {
            todo.push(Effect::Focus);
        }
        let ghost focus = effect::effects(todo@);
        assert(focus =~= if event.focused {
            Seq::empty()
        } else {
            seq![EffectView::Focus]
        });
        if event.first_mouse {
            return todo;
        }
        if event.asks_for_link() {
            if let Some(link) = self.link_under_pointer(cell, hyperlink, index) {
                todo.push(Effect::Copy(link));
                return todo;
            }
        }
        if !self.reports_mouse(event.modifiers.shift, modes) {
            if event.button == MouseButton::Left {
                if let Some(index) = index {
                    self.selection = Some(ByteSelection { anchor: index, active: index });
                    todo.push(Effect::Notify);
                }
            }
            return todo;
        }
        send_button_report(event.button, event.modifiers, cell, true, &mut todo);
        todo
    }

    /// A button went up. A selection that holds nothing ends.
    pub fn on_mouse_up(
        &mut self,
        event: MouseUp,
        modes: MouseModes,
        cell: Option<(u16, u16)>,
    ) -> (todo: Vec<Effect>)
        requires
            old(self).wf(),
        ensures
            final(self).wf(),
            if reports_mouse(old(self)@.has_input, event.modifiers.shift, modes) {
                &&& final(self)@ == old(self)@
                &&& effect::effects(todo@) == button_report(
                    event.button,
                    event.modifiers,
                    cell,
                    false,
                )
            } else {
                &&& final(self)@ == (ViewModel {
                    selection: match old(self)@.selection {
                        Some(s) => if s.anchor == s.active {
                            None
                        } else {
                            Some(s)
                        },
                        None => None,
                    },
                    ..old(self)@
                })
                &&& effect::effects(todo@) == if old(self)@.selection is Some {
                    seq![EffectView::Notify]
                } else {
                    Seq::empty()
                }
            },
    {
        let mut todo: Vec<Effect> = Vec::new();
        if !self.reports_mouse(event.modifiers.shift, modes) {
            if let Some(selection) = self.selection {
                let range = selection.range();
                if range.start >= range.end {
                    self.selection = None;
                }
                todo.push(Effect::Notify);
            }
            return todo;
        }
        send_button_report(event.button, event.modifiers, cell, false, &mut todo);
        assert(effect::effects(todo@) =~= button_report(
            event.button,
            event.modifiers,
            cell,
            false,
        ));
        todo
    }

    /// The mouse moved: a report where the program asks for it, otherwise a drag extends the
    /// selection.
    pub fn on_mouse_move(
        &mut self,
        event: MouseMove,
        modes: MouseModes,
        cell: Option<(u16, u16)>,
        index: Option<usize>,
    ) -> (todo: Vec<Effect>)
        requires
            old(self).wf(),
        ensures
            final(self).wf(),
            if reports_motion(old(self)@.has_input, event, modes) {
                &&& final(self)@ == old(self)@
                &&& effect::effects(todo@) == match cell {
                    Some(cell) => seq![
                        report(
                            motion_code(event.pressed_button),
                            true,
                            event.modifiers,
                            cell,
                            true,
                        ),
                    ],
                    None => Seq::empty(),
                }
            } else if !event.dragging {
                final(self)@ == old(self)@ && todo@.len() == 0
            } else {
                &&& final(self)@ == (ViewModel {
                    selection: dragged_selection(old(self)@.selection, index),
                    ..old(self)@
                })
                &&& effect::effects(todo@) == if dragged_selection(old(self)@.selection, index)
                    == old(self)@.selection {
                    Seq::empty()
                } else {
                    seq![EffectView::Notify]
                }
            },
    {
        let mut todo: Vec<Effect> = Vec::new();
        if self.reports_mouse(event.modifiers.shift, modes) {
            let send_motion = if modes.any_event {
                true
            } else if modes.button_event {
                event.pressed_button.is_some()
            } else {
                false
            };
            if send_motion {
                if let Some(cell) = cell {
                    let base: u8 = match event.pressed_button {
                        Some(MouseButton::Left) => 0,
                        Some(MouseButton::Middle) => 1,
                        Some(MouseButton::Right) => 2,
                        Some(MouseButton::Other) => 3,
                        None => 3,
                    };
                    todo.push(send_report(base, true, event.modifiers, cell, true));
                }
                return todo;
            }
        }
        if !event.dragging {
            return todo;
        }
        if let Some(selection) = self.selection {
            if let Some(index) = index {
                if selection.active != index {
                    self.selection = Some(
                        ByteSelection { anchor: selection.anchor, active: index },
                    );
                    todo.push(Effect::Notify);
                }
            }
        }
        todo
    }

    /// The wheel turned by `delta_lines` lines, downwards where that is positive.
    pub fn on_scroll_wheel(
        &mut self,
        delta_lines: i32,
        modifiers: Modifiers,
        modes: MouseModes,
        cell: Option<(u16, u16)>,
    ) -> (todo: Vec<Effect>)
        requires
            old(self).wf(),
        ensures
            final(self).wf(),
            if delta_lines == 0 {
                final(self)@ == old(self)@ && todo@.len() == 0
            } else if reports_mouse(old(self)@.has_input, modifiers.shift, modes) {
                &&& final(self)@ == old(self)@
                &&& effect::effects(todo@) == match cell {
                    Some(cell) => Seq::new(
                        wheel_steps(delta_lines as int),
                        |i: int|
                            report(wheel_code(delta_lines as int), false, modifiers, cell, true),
                    ),
                    None => Seq::empty(),
                }
            } else {
                &&& final(self)@ == (ViewModel { pending_refresh: true, ..old(self)@ })
                &&& effect::effects(todo@) == scroll_effects(
                    EffectView::Scroll(delta_lines as int),
                )
            },
    {
        let mut todo: Vec<Effect> = Vec::new();
        if delta_lines == 0 {
            return todo;
        }
        if self.reports_mouse(modifiers.shift, modes) {
            if let Some(cell) = cell {
                let code: u8 = if delta_lines < 0 {
                    64
                } else {
                    65
                };
                let steps: usize = if delta_lines > 10 || delta_lines < -10 {
                    10
                } else if delta_lines < 0 {
                    (-delta_lines) as usize
                } else {
                    delta_lines as usize
                };
                let ghost one = report(code, false, modifiers, cell, true);
                while todo.len() < steps
                    invariant
                        todo.len() <= steps,
                        one == report(code, false, modifiers, cell, true),
                        effect::effects(todo@) == Seq::new(todo@.len(), |i: int| one),
                    decreases steps - todo.len(),
                {
                    todo.push(send_report(code, false, modifiers, cell, true));
                    assert(effect::effects(todo@) =~= Seq::new(todo@.len(), |i: int| one));
                }
                assert(effect::effects(todo@) =~= Seq::new(
                    wheel_steps(delta_lines as int),
                    |i: int| report(wheel_code(delta_lines as int), false, modifiers, cell, true),
                ));
            }
            return todo;
        }
        todo.push(Effect::Scroll(delta_lines));
        todo.push(Effect::SyncScroll);
        todo.push(Effect::ApplySideEffects);
        self.pending_refresh = true;
        todo.push(Effect::Notify);
        todo
    }
}

/// A report tells the program everything: different events at different cells give different
/// reports.
pub proof fn law_reports_differ(
    value: nat,
    col: nat,
    row: nat,
    pressed: bool,
    other_value: nat,
    other_col: nat,
    other_row: nat,
    other_pressed: bool,
)
    requires
        report_text(value as int, col as int, row as int, pressed) == report_text(
            other_value as int,
            other_col as int,
            other_row as int,
            other_pressed,
        ),
    ensures
        value == other_value,
        col == other_col,
        row == other_row,
        pressed == other_pressed,
{
    lemma_decimal_digits(value);
    lemma_decimal_digits(other_value);
    lemma_decimal_digits(col);
    lemma_decimal_digits(other_col);
    lemma_report_fields(
        (decimal(value), decimal(col), decimal(row), if pressed { 'M' } else { 'm' }),
        (
            decimal(other_value),
            decimal(other_col),
            decimal(other_row),
            if other_pressed { 'M' } else { 'm' },
        ),
    );
    lemma_decimal_injective(value, other_value);
    lemma_decimal_injective(col, other_col);
    lemma_decimal_injective(row, other_row);
}

spec fn fields_text(f: (Seq<char>, Seq<char>, Seq<char>, char)) -> Seq<char> {
    seq!['\u{1b}', '[', '<'] + f.0 + seq![';'] + f.1 + seq![';'] + f.2 + seq![f.3]
}

proof fn lemma_report_fields(
    f: (Seq<char>, Seq<char>, Seq<char>, char),
    g: (Seq<char>, Seq<char>, Seq<char>, char),
)
    requires
        all_digits(f.0) && all_digits(f.1) && all_digits(g.0) && all_digits(g.1),
        fields_text(f) == fields_text(g),
    ensures
        f == g,
{
    let row_f = f.2.push(f.3);
    let row_g = g.2.push(g.3);
    let col_f = f.1 + seq![';'] + row_f;
    let col_g = g.1 + seq![';'] + row_g;
    assert(fields_text(f).skip(3) =~= f.0 + seq![';'] + col_f);
    assert(fields_text(g).skip(3) =~= g.0 + seq![';'] + col_g);
    lemma_fields(f.0, g.0, col_f, col_g);
    lemma_fields(f.1, g.1, row_f, row_g);
    assert(row_f.last() == row_g.last());
    assert(row_f.drop_last() =~= f.2);
    assert(row_g.drop_last() =~= g.2);
}

spec fn all_digits(s: Seq<char>) -> bool {
    forall|i: int| 0 <= i < s.len() ==> '0' <= #[trigger] s[i] <= '9'
}

proof fn lemma_decimal_digits(n: nat)
    ensures
        all_digits(decimal(n)),
        decimal(n).len() > 0,
    decreases n,
{
    if n >= 10 {
        lemma_decimal_digits(n / 10);
    }
}

/// Two texts that agree up to and past a separator agree in the digits before it and in the rest.
proof fn lemma_fields(a: Seq<char>, b: Seq<char>, rest_a: Seq<char>, rest_b: Seq<char>)
    requires
        all_digits(a),
        all_digits(b),
        a + seq![';'] + rest_a == b + seq![';'] + rest_b,
    ensures
        a == b,
        rest_a == rest_b,
{
    let whole_a = a + seq![';'] + rest_a;
    let whole_b = b + seq![';'] + rest_b;
    assert(whole_a[a.len() as int] == ';');
    assert(whole_b[b.len() as int] == ';');
    if a.len() < b.len() {
        assert(whole_b[a.len() as int] == b[a.len() as int]);
    }
    if b.len() < a.len() {
        assert(whole_a[b.len() as int] == a[b.len() as int]);
    }
    assert(whole_a.take(a.len() as int) =~= a);
    assert(whole_b.take(b.len() as int) =~= b);
    assert(whole_a.skip(a.len() as int + 1) =~= rest_a);
    assert(whole_b.skip(b.len() as int + 1) =~= rest_b);
}

proof fn lemma_decimal_injective(n: nat, m: nat)
    ensures
        decimal(n) == decimal(m) ==> n == m,
    decreases n,
{
    lemma_decimal_digits(n / 10);
    lemma_decimal_digits(m / 10);
    if decimal(n) == decimal(m) {
        if n < 10 {
            assert(decimal(n).len() == 1);
            if m >= 10 {
                assert(decimal(m).len() == decimal(m / 10).len() + 1);
            } else {
                assert(decimal(n)[0] == decimal(m)[0]);
            }
        } else if m < 10 {
            assert(decimal(n).len() == decimal(n / 10).len() + 1);
        } else {
            assert(decimal(n).drop_last() =~= decimal(n / 10));
            assert(decimal(m).drop_last() =~= decimal(m / 10));
            assert(decimal(n).last() == decimal(m).last());
            lemma_decimal_injective(n / 10, m / 10);
        }
    }
}

/// With shift held down, or without a program behind the terminal, no click reaches the program:
/// the left button starts a selection instead, unless it asks for a link.
pub proof fn law_shift_selects<F, L, K>(
    m: ViewModel<F, L, K>,
    event: MouseDown,
    modes: MouseModes,
    cell: Option<(u16, u16)>,
    hyperlink: Option<Seq<char>>,
    index: usize,
)
    requires
        event.modifiers.shift || !m.has_input,
    ensures
        effect::sent_bytes(
            mouse_down_effects(m, event, modes, cell, hyperlink, Some(index)),
        ).len() == 0,
        event.button == MouseButton::Left && !event.first_mouse && !event.modifiers.platform
            ==> mouse_down_selection(m, event, modes, cell, hyperlink, Some(index)) == Some(
            ByteSelection { anchor: index, active: index },
        ),
{
    reveal_with_fuel(effect::sent_bytes, 2);
}

/// The bytes of a selection do not depend on the direction in which it was drawn.
pub proof fn law_selection_direction(anchor: usize, active: usize)
    ensures
        (ByteSelection { anchor, active }).start() == (ByteSelection {
            anchor: active,
            active: anchor,
        }).start(),
        (ByteSelection { anchor, active }).end() == (ByteSelection {
            anchor: active,
            active: anchor,
        }).end(),
        (ByteSelection { anchor, active }).start() <= (ByteSelection { anchor, active }).end(),
{
}

/// A cell picks a place between two characters, so that no selection by cells splits a character.
pub proof fn law_cells_pick_characters<F, L, K>(m: ViewModel<F, L, K>, row: int, cell: (u16, u16))
    requires
        viewport::line_start(m.lines, m.lines.len() as int) <= usize::MAX,
    ensures
        viewport_index(m, row, None, Some(cell)) is Some <==> row_index(cell.1) < m.lines.len(),
        viewport_index(m, row, None, Some(cell)) matches Some(index) ==> is_char_boundary(
            encode_utf8(viewport::joined(m.lines, m.lines.len() as int)),
            index,
        ),
{
    let at = row_index(cell.1);
    if at < m.lines.len() {
        let line = m.lines[at];
        cells::lemma_chars_measured(line);
        let k = cells::lemma_column_is_prefix(cells::measured(line), cell.0 as int);
        viewport::law_line_positions(m.lines, at, k);
        viewport::lemma_line_starts(m.lines, at + 1, m.lines.len() as int);
        text::lemma_byte_len_concat(line.take(k), line.skip(k));
        assert(line.take(k) + line.skip(k) =~= line);
    }
}

/// What an event does not need does not matter: a button that goes down and a motion lead to the
/// same, whatever is passed for the places that they do not need.
pub proof fn law_only_needs_matter<F, L, K>(
    m: ViewModel<F, L, K>,
    down: MouseDown,
    motion: MouseMove,
    modes: MouseModes,
    cells: (Option<(u16, u16)>, Option<(u16, u16)>),
    hyperlink: Option<Seq<char>>,
    indices: (Option<usize>, Option<usize>),
)
    ensures
        ({
            let needs = mouse_down_needs(m.has_input, down, modes);
            let (cell, index) = (
                if needs.cell {
                    cells.0
                } else {
                    cells.1
                },
                if needs.index {
                    indices.0
                } else {
                    indices.1
                },
            );
            &&& mouse_down_effects(m, down, modes, cell, hyperlink, index) == mouse_down_effects(
                m,
                down,
                modes,
                cells.0,
                hyperlink,
                indices.0,
            )
            &&& mouse_down_selection(m, down, modes, cell, hyperlink, index)
                == mouse_down_selection(m, down, modes, cells.0, hyperlink, indices.0)
        }),
        !mouse_move_needs(m, motion, modes).index && !reports_motion(m.has_input, motion, modes)
            && motion.dragging ==> dragged_selection(m.selection, indices.0) == dragged_selection(
            m.selection,
            indices.1,
        ),
{
}

} // verus!
