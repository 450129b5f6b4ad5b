use gpui_ghostty_terminal::cells::measure;
use gpui_ghostty_terminal::effect::Effect;
use gpui_ghostty_terminal::mouse::{Modifiers, MouseButton, MouseDown, MouseModes, MouseMove};
use gpui_ghostty_terminal::paint::{BoxGlyph, CellFill, CursorMark, MarkedOverlay, SelectionSegment};
use gpui_ghostty_terminal::render::GridSize;
use gpui_ghostty_terminal::rows::RowDump;
use gpui_ghostty_terminal::spans::{spans_of_line, TextSpan};
use gpui_ghostty_terminal::style::{Rgb, Shade, StyleRun, TextRunKey};
use gpui_ghostty_terminal::view::{ByteSelection, TerminalView};

type View = TerminalView<u8, u32, (u32, u32)>;

const BLACK: Rgb = Rgb { r: 0, g: 0, b: 0 };
const WHITE: Rgb = Rgb { r: 255, g: 255, b: 255 };
const BLUE: Rgb = Rgb { r: 0, g: 0, b: 255 };

fn run(start_col: u16, end_col: u16, bg: Rgb, flags: u8) -> StyleRun {
    StyleRun { start_col, end_col, fg: BLUE, bg, flags }
}

fn key(flags: u8) -> Option<TextRunKey> {
    Some(TextRunKey { fg: BLUE, flags })
}

fn view_with(dump: &str, runs: Vec<Vec<StyleRun>>) -> View {
    TerminalView::new(0, Some(dump.to_string()), runs.into_iter().map(Some).collect())
}

fn spans(line: &str, runs: Vec<StyleRun>) -> Vec<(usize, Option<TextRunKey>)> {
    spans_of_line(&measure(line), &runs).into_iter().map(|span: TextSpan| (span.len, span.key)).collect()
}

fn select(view: &mut View, anchor: usize, active: usize) {
    let modifiers = Modifiers {
        shift: false,
        control: false,
        alt: false,
        platform: false,
        function: false,
    };
    let modes =
        MouseModes { reporting: false, sgr: false, any_event: false, button_event: false };
    let button = MouseButton::Left;
    let down = MouseDown { button, modifiers, first_mouse: false, focused: true };
    view.on_mouse_down(down, modes, None, None, Some(anchor));
    let drag = MouseMove { pressed_button: Some(button), modifiers, dragging: true };
    view.on_mouse_move(drag, modes, None, Some(active));
    assert_eq!(view.selection(), Some(ByteSelection { anchor, active }));
}

fn deselect(view: &mut View) {
    view.render(true);
    view.render(false);
    assert_eq!(view.selection(), None);
}

#[test]
fn lines_without_styles_are_one_span() {
    assert_eq!(spans("abc", vec![]), vec![(3, None)]);
    assert_eq!(spans("", vec![]), vec![(0, None)]);
    assert_eq!(spans("", vec![run(1, 4, BLACK, 2)]), vec![(0, None)]);
}

#[test]
fn styles_cut_lines_into_spans() {
    assert_eq!(
        spans("abcdef", vec![run(2, 3, BLACK, 2), run(5, 5, BLACK, 0x84)]),
        vec![(1, None), (2, key(2)), (1, None), (1, key(4)), (1, None)]
    );
    assert_eq!(spans("abc", vec![run(1, 3, BLACK, 0)]), vec![(3, key(0))]);
    assert_eq!(spans("abc", vec![run(2, u16::MAX, BLACK, 0)]), vec![(1, None), (2, key(0))]);
    assert_eq!(spans("abc", vec![run(7, 9, BLACK, 0)]), vec![(3, None)]);
}

#[test]
fn spans_are_counted_in_bytes() {
    assert_eq!(
        spans("é界x", vec![run(2, 3, BLACK, 0)]),
        vec![(2, None), (3, key(0)), (1, None)]
    );
}

#[test]
fn lines_are_shaped_once() {
    let mut view = view_with("a\nb", vec![vec![], vec![]]);
    assert_eq!(view.prepare_line_layouts((1, 2), false), vec![0, 1]);
    assert_eq!(*view.line_layout_key(), Some((1, 2)));
    view.set_line_layout(0, 10);
    assert_eq!(view.prepare_line_layouts((1, 2), true), vec![1]);
    view.set_line_layout(1, 11);
    assert_eq!(view.prepare_line_layouts((1, 2), true), Vec::<usize>::new());
    let dump = RowDump { row: 1, line: Some("c".to_string()), style_runs: None };
    assert!(view.apply_dirty_viewport_rows(vec![dump]));
    assert_eq!(view.prepare_line_layouts((1, 2), true), vec![1]);
    assert_eq!(view.prepare_line_layouts((3, 2), false), vec![0, 1]);
    assert!(view.line_layouts()[0].is_none());
}

#[test]
fn an_empty_viewport_has_no_layouts() {
    let mut view = view_with("a", vec![vec![]]);
    view.prepare_line_layouts((1, 2), false);
    view.refresh_viewport(None, vec![]);
    assert_eq!(view.prepare_line_layouts((1, 2), true), Vec::<usize>::new());
    assert!(view.line_layout_key().is_none());
    assert!(view.line_layouts().is_empty());
}

#[test]
fn scrolled_lines_keep_their_shape() {
    let mut view = view_with("a\nb\nc", vec![vec![], vec![], vec![]]);
    for row in view.prepare_line_layouts((1, 2), false) {
        view.set_line_layout(row, row as u32);
    }
    view.apply_viewport_scroll_delta(1, 3);
    assert_eq!(view.prepare_line_layouts((1, 2), true), vec![2]);
    assert_eq!(view.line_layouts()[0].as_ref().map(|l| l.shaped), Some(1));
}

#[test]
fn shapes_of_lines() {
    let view = view_with("ab\n界", vec![vec![run(1, 1, BLACK, 0)]]);
    let shape = view.line_shape(0, true);
    assert_eq!(shape.text, "ab");
    assert_eq!(
        shape.spans,
        vec![TextSpan { len: 1, key: key(0) }, TextSpan { len: 1, key: None }]
    );
    assert!(shape.fixed_width);
    assert!(!view.line_shape(0, false).fixed_width);
    let shape = view.line_shape(1, true);
    assert_eq!(shape.spans, vec![TextSpan { len: 3, key: None }]);
    assert!(!shape.fixed_width);
}

#[test]
fn backgrounds_are_filled() {
    let view = view_with(
        "a\nb",
        vec![vec![run(1, 2, BLACK, 0), run(3, 5, BLUE, 0)], vec![run(0, 0, WHITE, 0)]],
    );
    assert_eq!(
        view.background_fills(BLACK),
        vec![
            CellFill { row: 0, col: 2, width: 3, color: 0x0000ffff },
            CellFill { row: 1, col: 0, width: 1, color: 0xffffffff },
        ]
    );
    let view = view_with("a", vec![vec![run(0, u16::MAX, BLUE, 0), run(5, 2, BLUE, 0)]]);
    let fills = view.background_fills(BLACK);
    assert_eq!((fills[0].col, fills[0].width), (0, u16::MAX));
    assert_eq!((fills[1].col, fills[1].width), (4, 1));
}

#[test]
fn backgrounds_of_cells() {
    let view = view_with("a", vec![vec![run(2, 3, BLUE, 0), run(3, 4, WHITE, 0)]]);
    assert_eq!(view.background_at(1, 1, BLACK), BLACK);
    assert_eq!(view.background_at(3, 1, BLACK), BLUE);
    assert_eq!(view.background_at(4, 1, BLACK), WHITE);
    assert_eq!(view.background_at(3, 0, BLACK), BLUE);
    assert_eq!(view.background_at(3, 2, BLACK), BLACK);
}

#[test]
fn selections_are_drawn_line_by_line() {
    let mut view = view_with("one\ntwo\nx", vec![]);
    for row in view.prepare_line_layouts((1, 2), false) {
        view.set_line_layout(row, 0);
    }
    select(&mut view, 6, 1);
    assert_eq!(
        view.selection_segments(),
        vec![
            SelectionSegment { row: 0, start: 1, end: 3 },
            SelectionSegment { row: 1, start: 0, end: 2 },
        ]
    );
    select(&mut view, 3, 4);
    assert_eq!(view.selection_segments(), vec![]);
    select(&mut view, 2, 2);
    assert_eq!(view.selection_segments(), vec![]);
    deselect(&mut view);
    assert_eq!(view.selection_segments(), vec![]);
}

#[test]
fn unshaped_lines_have_no_drawn_selection() {
    let mut view = view_with("one\ntwo", vec![]);
    view.prepare_line_layouts((1, 2), false);
    view.set_line_layout(1, 0);
    select(&mut view, 0, 99);
    assert_eq!(
        view.selection_segments(),
        vec![SelectionSegment { row: 1, start: 0, end: 3 }]
    );
}

#[test]
fn boxes_are_drawn_in_their_cells() {
    let view = view_with(
        "界─x│\n\u{301}┼",
        vec![vec![run(1, 2, BLACK, 0), run(3, 3, BLACK, 0x90), run(6, 9, BLACK, 0)]],
    );
    assert_eq!(
        view.box_glyphs(),
        vec![
            BoxGlyph { row: 0, col: 2, ch: '─', key: key(0x10) },
            BoxGlyph { row: 0, col: 4, ch: '│', key: None },
            BoxGlyph { row: 1, col: 0, ch: '┼', key: None },
        ]
    );
}

#[test]
fn compositions_are_drawn_at_the_cursor() {
    let mut view = view_with("a", vec![vec![run(3, 3, BLUE, 0)]]);
    assert_eq!(view.marked_overlay(Some((3, 1)), true, BLACK), None);
    view.set_marked_text("界a".to_string(), None);
    assert_eq!(view.marked_overlay(None, true, BLACK), None);
    assert_eq!(
        view.marked_overlay(Some((3, 1)), true, BLACK),
        Some(MarkedOverlay {
            text: "界a".to_string(),
            col: 2,
            row: 0,
            cells: 3,
            background: 0x0000ffff,
            fixed_width: false,
        })
    );
    view.set_marked_text("\u{301}".to_string(), None);
    let overlay = view.marked_overlay(Some((0, 0)), true, BLACK).unwrap();
    assert_eq!(overlay.cells, 1);
    assert!(overlay.fixed_width);
    assert_eq!((overlay.col, overlay.row, overlay.background), (0, 0, 0xff));
}

#[test]
fn cursors_are_drawn_with_the_focus() {
    let mut view = view_with("界b", vec![vec![run(3, 3, WHITE, 0)]]);
    assert_eq!(view.cursor_mark(true, Some((3, 1)), BLACK), None);
    view.prepare_line_layouts((1, 2), false);
    assert_eq!(view.cursor_mark(true, Some((3, 1)), BLACK).map(|mark| mark.byte), Some(0));
    view.set_line_layout(0, 0);
    assert_eq!(
        view.cursor_mark(true, Some((3, 1)), BLACK),
        Some(CursorMark {
            row: 0,
            byte: 3,
            shade: Shade { lightness_percent: 0, alpha_percent: 72 },
        })
    );
    let mark = view.cursor_mark(true, Some((2, 1)), BLACK).unwrap();
    assert_eq!((mark.byte, mark.shade.lightness_percent), (0, 100));
    assert_eq!(view.cursor_mark(false, Some((3, 1)), BLACK), None);
    assert_eq!(view.cursor_mark(true, None, BLACK), None);
    assert_eq!(view.cursor_mark(true, Some((3, 2)), BLACK), None);
    assert_eq!(view.toggle_cursor_blink(), vec![Effect::Notify]);
    assert_eq!(view.cursor_mark(true, Some((3, 1)), BLACK), None);
}

#[test]
fn the_cursor_timer_is_started_once() {
    let mut view = view_with("a", vec![]);
    assert_eq!(view.render(false), vec![Effect::StartCursorBlink]);
    assert_eq!(view.render(false), vec![]);
}

#[test]
fn losing_the_focus_ends_compositions_and_selections() {
    let mut view = view_with("a", vec![]);
    view.prepare_line_layouts((1, 2), false);
    view.render(true);
    view.set_marked_text("x".to_string(), None);
    select(&mut view, 0, 1);
    view.toggle_cursor_blink();
    assert!(view.cursor_mark(true, Some((1, 1)), BLACK).is_none());
    assert_eq!(view.render(false), vec![Effect::Notify]);
    assert_eq!(*view.marked_text(), None);
    assert!(view.selection().is_none());
    assert!(view.cursor_mark(true, Some((1, 1)), BLACK).is_some());
    assert_eq!(view.render(false), vec![]);
}

#[test]
fn a_refresh_happens_when_the_view_is_drawn() {
    let mut view = view_with("a", vec![]);
    view.render(true);
    view.resize_terminal(10, 10);
    assert_eq!(view.render(true), vec![Effect::RefreshViewport]);
    assert!(!view.pending_refresh());
}

#[test]
fn window_titles_are_set_when_they_change() {
    let title = |s: &str| vec![Effect::SetWindowTitle(s.to_string())];
    let mut view = view_with("a", vec![]);
    assert_eq!(view.sync_window_title(false, Some("x")), vec![]);
    assert_eq!(
        view.sync_window_title(true, None),
        title("GPUI Embedded Terminal (Ghostty VT)")
    );
    assert_eq!(view.sync_window_title(true, None), vec![]);
    assert_eq!(view.sync_window_title(true, Some("x")), title("x"));
    assert_eq!(view.sync_window_title(true, Some("x")), vec![]);
    assert_eq!(view.sync_window_title(false, None), vec![]);
    assert_eq!(view.sync_window_title(true, Some("x")), vec![]);
}

#[test]
fn the_grid_follows_the_view() {
    let mut view = view_with("a", vec![]);
    let grid = GridSize { cols: 90, rows: 0, pixel_width: 900, pixel_height: 5 };
    assert_eq!(
        view.sync_grid((80, 24), Some(grid)),
        vec![Effect::Resize(90, 1), Effect::SyncScroll, Effect::Notify]
    );
    assert!(view.pending_refresh());
    assert_eq!(view.sync_grid((90, 1), Some(grid)), vec![]);
    assert_eq!(view.sync_grid((80, 24), None), vec![]);
    assert_eq!(view.take_pending_grid_resize(), Some((90, 1, 900, 5)));
    assert_eq!(view.take_pending_grid_resize(), None);
}
