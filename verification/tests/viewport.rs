use gpui_ghostty_terminal::effect::Effect;
use gpui_ghostty_terminal::mouse::{Modifiers, MouseButton, MouseDown, MouseModes, MouseMove};
use gpui_ghostty_terminal::output::MAX_PENDING_OUTPUT_BYTES;
use gpui_ghostty_terminal::rows::{RowDump, RowsPlan};
use gpui_ghostty_terminal::style::{Rgb, StyleRun};
use gpui_ghostty_terminal::view::{ByteSelection, TerminalInput, TerminalView};
use gpui_ghostty_terminal::viewport::{
    compute_viewport_line_offsets, compute_viewport_total_len, split_viewport_lines,
};
use std::sync::Mutex;

type View = TerminalView<&'static str, u32, (u32, u32)>;

const RUN: StyleRun = StyleRun {
    start_col: 1,
    end_col: 3,
    fg: Rgb { r: 1, g: 2, b: 3 },
    bg: Rgb { r: 4, g: 5, b: 6 },
    flags: 2,
};

fn shown(dump: &str, rows: usize) -> View {
    TerminalView::new("mono", Some(dump.to_string()), vec![None; rows])
}

fn given(row: u16, line: &str) -> RowDump {
    RowDump { row, line: Some(line.to_string()), style_runs: Some(vec![RUN]) }
}

fn select(view: &mut View, anchor: usize, active: usize) {
    let modifiers = Modifiers {
        shift: false,
        control: false,
        alt: false,
        platform: false,
        function: false,
    };
    let modes =
        MouseModes { reporting: false, sgr: false, any_event: false, button_event: false };
    let button = MouseButton::Left;
    let down = MouseDown { button, modifiers, first_mouse: false, focused: true };
    view.on_mouse_down(down, modes, None, None, Some(anchor));
    let drag = MouseMove { pressed_button: Some(button), modifiers, dragging: true };
    view.on_mouse_move(drag, modes, None, Some(active));
    assert_eq!(view.selection(), Some(ByteSelection { anchor, active }));
}

fn deselect(view: &mut View) {
    view.render(true);
    view.render(false);
    assert_eq!(view.selection(), None);
}

#[test]
fn dumps_are_split_at_line_feeds() {
    assert_eq!(split_viewport_lines("a\nbc\n"), vec!["a", "bc"]);
    assert_eq!(split_viewport_lines("a\nbc"), vec!["a", "bc"]);
    assert_eq!(split_viewport_lines("a\n\n"), vec!["a", ""]);
    assert_eq!(split_viewport_lines("\n\n"), vec!["", ""]);
    assert_eq!(split_viewport_lines("\n"), Vec::<String>::new());
    assert_eq!(split_viewport_lines(""), Vec::<String>::new());
}

#[test]
fn offsets_count_line_feeds() {
    let lines = vec!["ab".to_string(), String::new(), "é".to_string()];
    assert_eq!(compute_viewport_line_offsets(&lines), vec![0, 3, 4]);
    assert_eq!(compute_viewport_total_len(&lines), 7);
    assert_eq!(compute_viewport_total_len(&Vec::new()), 0);
}

#[test]
fn a_new_view_shows_the_session() {
    let mut view = shown("one\ntwo\n", 2);
    assert_eq!(*view.lines(), vec!["one", "two"]);
    assert_eq!(*view.line_offsets(), vec![0, 4]);
    assert_eq!(view.total_len(), 8);
    assert_eq!(*view.style_runs(), vec![Vec::new(), Vec::new()]);
    assert!(!view.pending_refresh());
    assert_eq!(*view.font(), "mono");
    assert!(view.selection().is_none());
    assert_eq!(view.commit_text("x")[0], Effect::Feed(b"x".to_vec()));
    let mut view: View = TerminalView::new_with_input("mono", None, vec![Some(vec![RUN])]);
    assert_eq!(view.commit_text("x"), vec![Effect::Send(b"x".to_vec())]);
    assert!(view.lines().is_empty());
    assert_eq!(*view.style_runs(), vec![vec![RUN]]);
}

#[test]
fn input_reaches_its_sender() {
    let sent: Mutex<Vec<u8>> = Mutex::new(Vec::new());
    let input = TerminalInput::new(|bytes: &[u8]| sent.lock().unwrap().extend_from_slice(bytes));
    input.send(b"ab");
    input.send(b"c");
    assert_eq!(*sent.lock().unwrap(), b"abc");
}

#[test]
fn slices_of_the_viewport() {
    let view = shown("one\ntwo\nthree", 3);
    assert_eq!(view.viewport_slice(1..6), "ne\ntw");
    assert_eq!(view.viewport_slice(0..4), "one\n");
    assert_eq!(view.viewport_slice(3..4), "\n");
    assert_eq!(view.viewport_slice(0..view.total_len()), "one\ntwo\nthree\n");
    assert_eq!(view.viewport_slice(8..999), "three\n");
    assert_eq!(view.viewport_slice(4..4), "");
    assert_eq!(view.viewport_slice(6..2), "");
    assert_eq!(shown("", 0).viewport_slice(0..9), "");
}

#[test]
fn a_slice_that_splits_a_character_leaves_the_line_out() {
    let view = shown("é\nab", 2);
    assert_eq!(view.viewport_slice(1..4), "\na");
    assert_eq!(view.viewport_slice(0..2), "é");
}

#[test]
fn urls_of_the_viewport() {
    let view = shown("x\nsee https://a.b\n", 2);
    assert_eq!(view.url_at_viewport_index(8).as_deref(), Some("https://a.b"));
    assert_eq!(view.url_at_viewport_index(999).as_deref(), Some("https://a.b"));
    assert_eq!(view.url_at_viewport_index(0), None);
    assert_eq!(shown("", 0).url_at_viewport_index(0), None);
}

#[test]
fn copies_take_the_selection() {
    let mut view = shown("one\ntwo", 2);
    select(&mut view, 5, 1);
    assert_eq!(view.on_copy(), vec![Effect::Copy("ne\nt".to_string())]);
    select(&mut view, 2, 2);
    assert_eq!(view.on_copy(), vec![Effect::Copy("one\ntwo\n".to_string())]);
    deselect(&mut view);
    assert_eq!(view.on_copy(), vec![Effect::Copy("one\ntwo\n".to_string())]);
}

#[test]
fn selecting_all_copies_all() {
    let mut view = shown("one\ntwo", 2);
    assert_eq!(
        view.on_select_all(),
        vec![Effect::Copy("one\ntwo\n".to_string()), Effect::Notify]
    );
    assert_eq!(view.selection(), Some(ByteSelection { anchor: 0, active: 8 }));
}

#[test]
fn output_waits_until_the_view_is_drawn() {
    let mut view = shown("", 0);
    assert_eq!(view.queue_output_bytes(b"ab"), vec![Effect::Notify]);
    assert_eq!(view.queue_output_bytes(b"c"), vec![Effect::Notify]);
    assert_eq!(
        view.render(true),
        vec![
            Effect::StartCursorBlink,
            Effect::Feed(b"abc".to_vec()), 
            Effect::ApplySideEffects,
            Effect::TakeScrollDelta,
            Effect::TakeDirtyRows,
        ]
    );
    assert!(view.pending_output().is_empty());
    assert_eq!(view.render(true), vec![]);
}

#[test]
fn output_that_does_not_fit_pushes_out_what_waits() {
    let mut view: View = TerminalView::new_with_input("mono", None, Vec::new());
    let half = vec![1u8; MAX_PENDING_OUTPUT_BYTES];
    assert_eq!(view.queue_output_bytes(&half), vec![Effect::Notify]);
    assert_eq!(
        view.queue_output_bytes(b"x"),
        vec![
            Effect::FeedWithResponses(half),
            Effect::ApplySideEffects,
            Effect::TakeScrollDelta,
            Effect::TakeDirtyRows,
            Effect::Notify,
        ]
    );
    assert_eq!(*view.pending_output(), b"x");
}

#[test]
fn large_output_is_fed_in_chunks() {
    let mut view = shown("", 0);
    view.queue_output_bytes(b"first");
    let large = vec![7u8; MAX_PENDING_OUTPUT_BYTES + 3];
    assert_eq!(
        view.queue_output_bytes(&large),
        vec![
            Effect::Feed(b"first".to_vec()),
            Effect::ApplySideEffects,
            Effect::TakeScrollDelta,
            Effect::TakeDirtyRows,
            Effect::Feed(vec![7u8; MAX_PENDING_OUTPUT_BYTES]),
            Effect::Feed(vec![7u8; 3]),
            Effect::ApplySideEffects,
            Effect::TakeScrollDelta,
            Effect::TakeDirtyRows,
            Effect::Notify,
        ]
    );
    assert!(view.pending_output().is_empty());
}

#[test]
fn output_can_be_fed_at_once() {
    let mut view = shown("", 0);
    assert_eq!(
        view.feed_output_bytes(b"now"),
        vec![
            Effect::Feed(b"now".to_vec()),
            Effect::RefreshViewport,
            Effect::ApplySideEffects,
            Effect::Notify,
        ]
    );
}

#[test]
fn refreshing_replaces_everything() {
    let mut view = shown("one\ntwo", 2);
    select(&mut view, 0, 2);
    view.refresh_viewport(Some("new\n".to_string()), vec![Some(vec![RUN]), None]);
    assert_eq!(*view.lines(), vec!["new"]);
    assert_eq!(*view.style_runs(), vec![vec![RUN], Vec::new()]);
    assert_eq!(*view.line_offsets(), vec![0]);
    assert_eq!(view.total_len(), 4);
    assert!(view.selection().is_none());
    view.refresh_viewport(None, Vec::new());
    assert!(view.lines().is_empty());
}

#[test]
fn scrolling_down_moves_rows_up() {
    let mut view = shown("a\nb\nc", 3);
    assert_eq!(view.apply_viewport_scroll_delta(1, 3), RowsPlan::Dump(vec![2]));
    assert_eq!(*view.lines(), vec!["b", "c", ""]);
    assert!(view.apply_dirty_viewport_rows(vec![given(2, "d\n")]));
    assert_eq!(*view.lines(), vec!["b", "c", "d"]);
    assert_eq!(view.style_runs()[2], vec![RUN]);
    assert_eq!(*view.line_offsets(), vec![0, 2, 4]);
}

#[test]
fn scrolling_up_moves_rows_down() {
    let mut view = shown("a\nb\nc", 3);
    assert_eq!(view.apply_viewport_scroll_delta(-2, 3), RowsPlan::Dump(vec![0, 1]));
    assert_eq!(*view.lines(), vec!["", "", "a"]);
}

#[test]
fn scrolling_too_far_reads_everything() {
    let mut view = shown("a\nb\nc", 3);
    assert_eq!(view.apply_viewport_scroll_delta(3, 3), RowsPlan::Refresh);
    assert_eq!(view.apply_viewport_scroll_delta(i32::MIN, 3), RowsPlan::Refresh);
    assert_eq!(view.apply_viewport_scroll_delta(1, 4), RowsPlan::Refresh);
    assert_eq!(view.apply_viewport_scroll_delta(0, 3), RowsPlan::Nothing);
    assert_eq!(view.apply_viewport_scroll_delta(1, 0), RowsPlan::Nothing);
    assert_eq!(*view.lines(), vec!["a", "b", "c"]);
}

#[test]
fn dirty_rows_are_read() {
    let mut view = shown("a\nb\nc", 3);
    assert_eq!(view.plan_dirty_viewport_rows(&[2, 7, 0], 3), RowsPlan::Dump(vec![2, 0]));
    assert_eq!(view.plan_dirty_viewport_rows(&[], 3), RowsPlan::Nothing);
    assert_eq!(view.plan_dirty_viewport_rows(&[0], 2), RowsPlan::Refresh);
    select(&mut view, 0, 2);
    assert!(view.apply_dirty_viewport_rows(vec![given(2, "cc"), given(0, "aaa\n")]));
    assert_eq!(*view.lines(), vec!["aaa", "b", "cc"]);
    assert_eq!(*view.line_offsets(), vec![0, 4, 6]);
    assert_eq!(view.total_len(), 9);
    assert!(view.selection().is_none());
}

#[test]
fn a_row_that_cannot_be_read_asks_for_everything() {
    let mut view = shown("a\nb", 2);
    let lost = RowDump { row: 0, line: None, style_runs: None };
    assert!(!view.apply_dirty_viewport_rows(vec![lost]));
    let lost = RowDump { row: 0, line: None, style_runs: None };
    assert_eq!(view.take_rows(vec![given(1, "x"), lost]), RowsPlan::Refresh);
    assert_eq!(*view.lines(), vec!["a", "b"]);
    assert_eq!(view.take_rows(vec![given(1, "x\n")]), RowsPlan::Nothing);
    assert_eq!(*view.lines(), vec!["a", "x"]);
}

#[test]
fn the_font_can_be_changed() {
    let mut view = shown("a\nb", 2);
    view.prepare_line_layouts((1, 2), false);
    view.set_line_layout(0, 5);
    assert_eq!(view.set_font("other"), vec![Effect::Notify]);
    assert_eq!(*view.font(), "other");
    assert!(view.pending_refresh());
    assert!(view.line_layout_key().is_none());
    assert_eq!(view.line_layouts().len(), 2);
    assert!(view.line_layouts()[0].is_none());
}

#[test]
fn the_terminal_can_be_resized() {
    let mut view = shown("a", 1);
    assert_eq!(
        view.resize_terminal(80, 24),
        vec![Effect::Resize(80, 24), Effect::SyncScroll, Effect::Notify]
    );
    assert!(view.pending_refresh());
    assert_eq!(view.take_pending_grid_resize(), None);
}
