use gpui_ghostty_terminal::boxes::{box_drawing_mask, box_strokes_for_char, Extent};
use gpui_ghostty_terminal::cells::{byte_index_for_column_in_line, measure};
use gpui_ghostty_terminal::effect::Effect;
use gpui_ghostty_terminal::keys::{KeyStep, Keystroke};
use gpui_ghostty_terminal::mouse::{
    sgr_mouse_sequence, Modifiers, MouseButton, MouseDown, MouseModes, MouseMove, MouseUp,
    PointerNeeds,
};
use gpui_ghostty_terminal::output::MAX_PENDING_OUTPUT_BYTES;
use gpui_ghostty_terminal::rows::{RowDump, RowsPlan};
use gpui_ghostty_terminal::spans::spans_of_line;
use gpui_ghostty_terminal::style::{cursor_color_for_background, packed_rgba, Rgb, StyleRun};
use gpui_ghostty_terminal::text::utf16_range_to_utf8;
use gpui_ghostty_terminal::url::url_at_byte_index;
use gpui_ghostty_terminal::view::{ByteSelection, TerminalView};
use gpui_ghostty_terminal::viewport::split_viewport_lines;

type View = TerminalView<u8, u32, (u32, u32)>;

const BOXES: &str = "─━═│┃║┌┏╔╭┐┓╗╮└┗╚╰┘┛╝╯├┣╠┤┫╣┬┳╦┴┻╩┼╋╬";
const TEXT: &str = "aé界\n\n😀x\nlast";
const PLAIN: Modifiers = Modifiers {
    shift: false,
    control: false,
    alt: false,
    platform: false,
    function: false,
};
const NO_MOUSE: MouseModes = MouseModes {
    reporting: false,
    sgr: false,
    any_event: false,
    button_event: false,
};

fn shown(dump: &str) -> View {
    let rows = split_viewport_lines(dump).len();
    TerminalView::new(0, Some(dump.to_string()), vec![None; rows])
}

fn run(start_col: u16, end_col: u16) -> StyleRun {
    let fg = Rgb { r: 1, g: 1, b: 1 };
    StyleRun { start_col, end_col, fg, bg: fg, flags: 0 }
}

fn read(row: u16, line: &str) -> RowDump {
    RowDump { row, line: Some(format!("{line}\n")), style_runs: Some(Vec::new()) }
}

fn fed(todo: &[Effect]) -> Vec<u8> {
    let mut bytes = Vec::new();
    for effect in todo {
        if let Effect::Feed(more) | Effect::FeedWithResponses(more) = effect {
            bytes.extend_from_slice(more);
        }
    }
    bytes
}

fn copied(todo: &[Effect]) -> String {
    match &todo[0] {
        Effect::Copy(text) => text.clone(),
        other => panic!("{other:?}"),
    }
}

fn select(view: &mut View, anchor: usize, active: usize) {
    let (modifiers, modes) = (PLAIN, NO_MOUSE);
    let button = MouseButton::Left;
    let down = MouseDown { button, modifiers, first_mouse: false, focused: true };
    view.on_mouse_down(down, modes, None, None, Some(anchor));
    let drag = MouseMove { pressed_button: Some(button), modifiers, dragging: true };
    view.on_mouse_move(drag, modes, None, Some(active));
    assert_eq!(view.selection(), Some(ByteSelection { anchor, active }));
}

#[test]
fn utf16_positions_grow_and_respect_characters() {
    let text = "a😀é界";
    let mut last = 0;
    for offset in 0..=5 {
        let at = utf16_range_to_utf8(text, offset..offset).unwrap().start;
        assert!(at >= last && text.is_char_boundary(at));
        last = at;
    }
    assert_eq!(last, text.len());
}

#[test]
fn columns_grow_and_respect_characters() {
    let line = "e\u{301}界 x😀";
    let mut last = 0;
    for col in 0..20 {
        let at = byte_index_for_column_in_line(line, col);
        assert!(at >= last && line.is_char_boundary(at));
        last = at;
    }
    assert_eq!(last, line.len());
}

#[test]
fn every_byte_of_a_url_leads_to_it() {
    let text = "go to https://example.org/a_(b), now";
    for index in 6..32 {
        assert_eq!(
            url_at_byte_index(text, index).as_deref(),
            Some("https://example.org/a_(b")
        );
    }
}

#[test]
fn queued_output_is_fed_whole_and_in_order() {
    let mut view = shown("");
    let mut expected = Vec::new();
    let mut all = Vec::new();
    let sizes = [10, MAX_PENDING_OUTPUT_BYTES, 0, 5, 2 * MAX_PENDING_OUTPUT_BYTES + 1, 7, 262140];
    for (i, size) in sizes.into_iter().enumerate() {
        let piece: Vec<u8> = (0..size).map(|n| (n + i) as u8).collect();
        expected.extend_from_slice(&piece);
        let todo = view.queue_output_bytes(&piece);
        for effect in &todo {
            if let Effect::Feed(bytes) = effect {
                assert!(bytes.len() <= MAX_PENDING_OUTPUT_BYTES);
            }
        }
        assert!(view.pending_output().len() <= MAX_PENDING_OUTPUT_BYTES);
        all.extend(fed(&todo));
    }
    all.extend(fed(&view.render(true)));
    assert!(all == expected);
}

#[test]
fn slices_are_stretches_of_the_text() {
    let view = shown(TEXT);
    let all = format!("{TEXT}\n");
    assert_eq!(view.total_len(), all.len());
    for start in (0..=all.len()).filter(|&at| all.is_char_boundary(at)) {
        for end in (start..=all.len()).filter(|&at| all.is_char_boundary(at)) {
            assert_eq!(view.viewport_slice(start..end), all[start..end]);
        }
    }
}

#[test]
fn dumps_are_rebuilt_from_their_lines() {
    for dump in ["x", "a\nb", "a\n\n\nb", "\n\nx", "é\n"] {
        let lines = split_viewport_lines(dump);
        assert!(lines.iter().all(|line| !line.contains('\n')));
        assert_eq!(lines.join("\n"), dump.strip_suffix('\n').unwrap_or(dump));
    }
}

#[test]
fn urls_of_the_viewport_are_those_of_its_lines() {
    let view = shown("http://a.b x\n\n(https://c.d)");
    for row in 0..3 {
        let line = view.lines()[row].clone();
        for at in 0..=line.len() {
            assert_eq!(
                view.url_at_viewport_index(view.line_offsets()[row] + at),
                url_at_byte_index(&line, at)
            );
        }
    }
}

#[test]
fn cells_never_split_characters() {
    let view = shown(TEXT);
    let all = format!("{TEXT}\n");
    for row in 0..4 {
        for col in 0..9 {
            let index = view
                .mouse_position_to_viewport_index(row, None, Some((col, row as u16 + 1)))
                .unwrap();
            assert!(all.is_char_boundary(index));
        }
    }
}

#[test]
fn drags_copy_what_they_cover() {
    let all = format!("{TEXT}\n");
    for (from, to) in [(1, 8), (8, 1), (0, all.len()), (12, 3)] {
        let mut view = shown(TEXT);
        select(&mut view, from, to);
        assert_eq!(copied(&view.on_copy()), all[from.min(to)..from.max(to)]);
    }
}

#[test]
fn changed_rows_bring_the_view_up_to_date() {
    let mut view = shown("a\nb\nc\nd");
    assert_eq!(view.plan_dirty_viewport_rows(&[1, 3], 4), RowsPlan::Dump(vec![1, 3]));
    assert!(view.apply_dirty_viewport_rows(vec![read(1, "B"), read(3, "D")]));
    let fresh = shown("a\nB\nc\nD");
    assert_eq!(view.lines(), fresh.lines());
    assert_eq!(view.line_offsets(), fresh.line_offsets());
    assert_eq!(view.total_len(), fresh.total_len());
}

#[test]
fn entering_rows_bring_a_scrolled_view_up_to_date() {
    let lines = ["zero", "one", "two", "three", "four", "five", "six"];
    for delta in -3i32..=3 {
        let mut view = shown(&lines[3..7].join("\n"));
        if delta > 0 {
            view = shown(&lines[0..4].join("\n"));
        }
        let top = if delta > 0 { delta as usize } else { (3 + delta) as usize };
        if let RowsPlan::Dump(rows) = view.apply_viewport_scroll_delta(delta, 4) {
            let dumps = rows.iter().map(|&row| read(row, lines[top + row as usize])).collect();
            assert!(view.apply_dirty_viewport_rows(dumps));
        }
        assert_eq!(*view.lines(), lines[top..top + 4]);
    }
}

#[test]
fn scrolling_back_restores_rows() {
    let mut view = shown("a\nb\nc\nd");
    view.apply_viewport_scroll_delta(1, 4);
    view.apply_viewport_scroll_delta(-1, 4);
    assert_eq!(*view.lines(), vec!["", "b", "c", "d"]);
}

#[test]
fn rows_that_were_read_are_shaped_again() {
    let mut view = shown("a\nb");
    for row in view.prepare_line_layouts((1, 1), false) {
        view.set_line_layout(row, 0);
    }
    assert!(view.apply_dirty_viewport_rows(vec![read(1, "b")]));
    assert_eq!(view.prepare_line_layouts((1, 1), true), vec![1]);
}

#[test]
fn reports_of_different_events_differ() {
    let mut seen = Vec::new();
    for value in [0, 1, 11] {
        for col in [1, 11, 111] {
            for row in [1, 11, 111] {
                for pressed in [false, true] {
                    let report = sgr_mouse_sequence(value, col, row, pressed);
                    assert!(!seen.contains(&report));
                    seen.push(report);
                }
            }
        }
    }
}

#[test]
fn enter_is_handled_while_composing() {
    let mut view: View = TerminalView::new_with_input(0, None, Vec::new());
    let enter = Keystroke { modifiers: PLAIN, key: "enter".to_string(), key_char: None };
    let step = view.on_key_down("enter", true, &enter, 24);
    assert!(matches!(step, KeyStep::Encode(_)));
    assert_eq!(step, view.on_key_down("enter", false, &enter, 24));
}

#[test]
fn cursors_contrast_with_every_grey() {
    for grey in 0..=255u8 {
        let cursor = cursor_color_for_background(Rgb { r: grey, g: grey, b: grey });
        let difference = i32::from(cursor.lightness_percent) * 255 - i32::from(grey) * 100;
        assert!(difference.abs() >= 40 * 255);
    }
}

#[test]
fn different_colours_are_packed_differently() {
    assert_ne!(
        packed_rgba(Rgb { r: 1, g: 2, b: 3 }),
        packed_rgba(Rgb { r: 3, g: 2, b: 1 })
    );
}

#[test]
fn lines_of_boxes_meet() {
    for ch in BOXES.chars() {
        let strokes = box_strokes_for_char(ch).unwrap();
        let half = |extent: Option<Extent>| extent.is_some() && extent != Some(Extent::Full);
        assert!(strokes.horizontal.is_some() || strokes.vertical.is_some());
        assert!(!half(strokes.horizontal) || strokes.vertical.is_some());
        assert!(!half(strokes.vertical) || strokes.horizontal.is_some());
    }
}

#[test]
fn lines_of_boxes_tell_their_directions() {
    for a in BOXES.chars() {
        for b in BOXES.chars() {
            let (x, y) = (box_strokes_for_char(a).unwrap(), box_strokes_for_char(b).unwrap());
            assert_eq!(
                x.horizontal == y.horizontal && x.vertical == y.vertical,
                box_drawing_mask(a).unwrap().0 == box_drawing_mask(b).unwrap().0
            );
        }
    }
}

#[test]
fn spans_cover_their_line() {
    for line in ["", "plain", "é界😀", "e\u{301}x界"] {
        for runs in [
            vec![],
            vec![run(1, 1)],
            vec![run(2, 3), run(5, 9)],
            vec![run(1, 2), run(3, 3), run(4, u16::MAX)],
        ] {
            let total: usize = spans_of_line(&measure(line), &runs).iter().map(|span| span.len).sum();
            assert_eq!(total, line.len());
        }
    }
}

#[test]
fn drawn_selections_are_the_selected_bytes() {
    let mut view = shown(TEXT);
    for row in view.prepare_line_layouts((1, 1), false) {
        view.set_line_layout(row, 0);
    }
    for (anchor, active) in [(0, 3), (2, 9), (11, 4), (0, 99)] {
        let selection = ByteSelection { anchor, active };
        select(&mut view, anchor, active);
        let segments = view.selection_segments();
        for row in 0..view.lines().len() {
            for at in 0..view.lines()[row].len() {
                let drawn = segments
                    .iter()
                    .any(|segment| segment.row == row && (segment.start..segment.end).contains(&at));
                let selected = selection.range().contains(&(view.line_offsets()[row] + at));
                assert_eq!(drawn, selected);
            }
        }
    }
}

#[test]
fn columns_behind_the_line_show_its_end() {
    let line = "a界e\u{301}";
    for col in 5..12 {
        assert_eq!(byte_index_for_column_in_line(line, col), line.len());
    }
    assert_eq!(byte_index_for_column_in_line(line, 4), 4);
}

#[test]
fn a_pass_shapes_every_line_with_its_text() {
    let mut view = shown("a\nb\nc");
    view.prepare_line_layouts((1, 1), false);
    view.set_line_layout(1, 50);
    for row in view.prepare_line_layouts((1, 1), true) {
        view.set_line_layout(row, row as u32);
    }
    let layouts: Vec<(&str, u32)> = view
        .line_layouts()
        .iter()
        .map(|layout| layout.as_ref().map(|l| (l.text.as_str(), l.shaped)).unwrap())
        .collect();
    assert_eq!(layouts, vec![("a", 0), ("b", 50), ("c", 2)]);
    assert!(view.prepare_line_layouts((1, 1), true).is_empty());
}

#[test]
fn commits_send_their_text_for_every_range() {
    for range in [None, Some(0..0), Some(3..9)] {
        for (text, bytes) in [("hé", "hé"), ("a\r\nb\n", "a\rb\r")] {
            let mut view: View = TerminalView::new_with_input(0, None, Vec::new());
            view.set_marked_text("draft".to_string(), None);
            let todo = view.replace_text_in_range(range.clone(), text);
            let sent: Vec<&Effect> =
                todo.iter().filter(|effect| matches!(effect, Effect::Send(_))).collect();
            assert_eq!(sent, vec![&Effect::Send(bytes.as_bytes().to_vec())]);
            assert_eq!(*view.marked_text(), None);
        }
    }
}

#[test]
fn places_that_are_not_needed_do_not_matter() {
    let view: View = TerminalView::new_with_input(0, None, Vec::new());
    let down = MouseDown {
        button: MouseButton::Left,
        modifiers: PLAIN,
        first_mouse: false,
        focused: true,
    };
    let reports = MouseModes { reporting: true, sgr: true, ..NO_MOUSE };
    assert_eq!(view.mouse_down_needs(down, reports), PointerNeeds { cell: true, index: false });
    assert_eq!(view.mouse_down_needs(down, NO_MOUSE), PointerNeeds { cell: false, index: true });
    let first = MouseDown { first_mouse: true, ..down };
    assert_eq!(view.mouse_down_needs(first, reports), PointerNeeds { cell: false, index: false });
    let link = MouseDown { modifiers: Modifiers { platform: true, ..PLAIN }, ..down };
    assert_eq!(view.mouse_down_needs(link, NO_MOUSE), PointerNeeds { cell: true, index: true });
    let drag = MouseMove {
        pressed_button: Some(MouseButton::Left),
        modifiers: PLAIN,
        dragging: true,
    };
    assert_eq!(view.mouse_move_needs(drag, NO_MOUSE), PointerNeeds { cell: false, index: false });
    let any = MouseModes { any_event: true, ..reports };
    assert_eq!(view.mouse_move_needs(drag, any), PointerNeeds { cell: true, index: false });
    let up = MouseUp { button: MouseButton::Left, modifiers: PLAIN };
    assert!(view.mouse_up_needs_cell(up, reports));
    assert!(!view.mouse_up_needs_cell(up, NO_MOUSE));
    assert!(view.scroll_wheel_needs_cell(1, PLAIN, reports));
    assert!(!view.scroll_wheel_needs_cell(0, PLAIN, reports));
    let mut view = shown("ab");
    select(&mut view, 0, 1);
    assert_eq!(view.mouse_move_needs(drag, NO_MOUSE), PointerNeeds { cell: false, index: true });
}
