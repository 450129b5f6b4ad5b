use gpui_ghostty_terminal::effect::Effect;
use gpui_ghostty_terminal::ime::{enter_for_line_ends, CellPosition};
use gpui_ghostty_terminal::keys::{
    ctrl_byte_for_keystroke, should_skip_key_down_for_ime, KeyModifiers, KeyStep, Keystroke,
};
use gpui_ghostty_terminal::mouse::{
    mouse_position_to_cell, mouse_position_to_row, sgr_mouse_button_value, sgr_mouse_sequence,
    Modifiers, MouseButton, MouseDown, MouseModes, MouseMove, MouseUp,
};
use gpui_ghostty_terminal::view::{ByteSelection, TerminalView};

type View = TerminalView<u8, u32, (u32, u32)>;

const PLAIN: Modifiers = Modifiers {
    shift: false,
    control: false,
    alt: false,
    platform: false,
    function: false,
};
const SHIFT: Modifiers = Modifiers { shift: true, ..PLAIN };
const CONTROL: Modifiers = Modifiers { control: true, ..PLAIN };
const ALT: Modifiers = Modifiers { alt: true, ..PLAIN };
const PLATFORM: Modifiers = Modifiers { platform: true, ..PLAIN };

const NO_MOUSE: MouseModes = MouseModes {
    reporting: false,
    sgr: false,
    any_event: false,
    button_event: false,
};
const CLICKS: MouseModes = MouseModes { reporting: true, sgr: true, ..NO_MOUSE };

fn alone() -> View {
    TerminalView::new(0, Some("see https://a.b\ntwo".to_string()), vec![None, None])
}

fn connected() -> View {
    TerminalView::new_with_input(0, Some("see https://a.b\ntwo".to_string()), vec![None, None])
}

fn send(bytes: &[u8]) -> Effect {
    Effect::Send(bytes.to_vec())
}

fn echo(bytes: &[u8]) -> Vec<Effect> {
    vec![Effect::Feed(bytes.to_vec()), Effect::ApplySideEffects, Effect::Notify]
}

fn key(name: &str, typed: Option<&str>, modifiers: Modifiers) -> Keystroke {
    Keystroke { modifiers, key: name.to_string(), key_char: typed.map(|s| s.to_string()) }
}

fn press(view: &mut View, k: &Keystroke) -> KeyStep {
    view.on_key_down(&k.key, false, k, 24)
}

fn scrolled(by: Effect) -> KeyStep {
    KeyStep::Done(vec![by, Effect::SyncScroll, Effect::ApplySideEffects, Effect::Notify])
}

fn down(button: MouseButton, modifiers: Modifiers) -> MouseDown {
    MouseDown { button, modifiers, first_mouse: false, focused: true }
}

#[test]
fn control_bytes() {
    let byte = |name: &str, typed: Option<&str>| ctrl_byte_for_keystroke(&key(name, typed, CONTROL));
    assert_eq!(byte("c", None), Some(3));
    assert_eq!(byte("c", Some("C")), Some(3));
    assert_eq!(byte("space", None), Some(0));
    assert_eq!(byte("@", None), Some(0));
    assert_eq!(byte("[", None), Some(0x1b));
    assert_eq!(byte("_", None), Some(0x1f));
    assert_eq!(byte("z", None), Some(0x1a));
    assert_eq!(byte("`", None), None);
    assert_eq!(byte("{", None), None);
    assert_eq!(byte("1", None), None);
    assert_eq!(byte("left", None), None);
    assert_eq!(byte("", None), None);
    assert_eq!(byte("a", Some("é")), None);
    assert_eq!(byte("a", Some("")), None);
}

#[test]
fn keys_of_an_input_method_are_left_to_it() {
    assert!(should_skip_key_down_for_ime(true, true, "a"));
    assert!(!should_skip_key_down_for_ime(true, true, "enter"));
    assert!(!should_skip_key_down_for_ime(true, true, "return"));
    assert!(!should_skip_key_down_for_ime(true, true, "kp_enter"));
    assert!(!should_skip_key_down_for_ime(true, true, "numpad_enter"));
    assert!(!should_skip_key_down_for_ime(true, false, "a"));
    assert!(!should_skip_key_down_for_ime(false, true, "a"));
    let mut view = connected();
    let k = key("a", Some("a"), PLAIN);
    assert_eq!(view.on_key_down("a", true, &k, 24), KeyStep::Done(vec![]));
}

#[test]
fn keys_for_the_program_are_sent() {
    let mut view = connected();
    assert_eq!(
        press(&mut view, &key("c", None, CONTROL)),
        KeyStep::Done(vec![send(&[3])])
    );
    assert_eq!(
        press(&mut view, &key("x", Some("x"), ALT)),
        KeyStep::Done(vec![send(&[0x1b]), send(b"x")])
    );
    assert_eq!(press(&mut view, &key("c", None, PLATFORM)), KeyStep::Done(vec![]));
    let function = Modifiers { function: true, ..PLAIN };
    assert_eq!(press(&mut view, &key("c", None, function)), KeyStep::Done(vec![]));
    assert_eq!(
        press(&mut view, &key("left", None, CONTROL)),
        KeyStep::Encode(KeyModifiers { shift: false, control: true, alt: false, super_key: false })
    );
    assert_eq!(view.on_key_encoded("left", Some(b"\x1b[D".to_vec())), vec![send(b"\x1b[D")]);
    assert_eq!(view.on_key_encoded("left", None), vec![]);
    assert_eq!(view.on_key_encoded("backspace", None), vec![]);
    assert!(!view.pending_refresh());
}

#[test]
fn scroll_keys_need_shift_with_a_program() {
    let mut view = connected();
    assert!(matches!(press(&mut view, &key("home", None, PLAIN)), KeyStep::Encode(_)));
    assert!(!view.pending_refresh());
    assert_eq!(press(&mut view, &key("home", None, SHIFT)), scrolled(Effect::ScrollTop));
    assert!(view.pending_refresh());
    assert_eq!(press(&mut view, &key("end", None, SHIFT)), scrolled(Effect::ScrollBottom));
    for name in ["pageup", "page_up", "page-up"] {
        assert_eq!(press(&mut view, &key(name, None, SHIFT)), scrolled(Effect::Scroll(-12)));
    }
    for name in ["pagedown", "page_down", "page-down"] {
        assert_eq!(press(&mut view, &key(name, None, SHIFT)), scrolled(Effect::Scroll(12)));
    }
}

#[test]
fn keys_without_a_program_go_to_the_session() {
    let mut view = alone();
    assert_eq!(press(&mut view, &key("end", None, PLAIN)), scrolled(Effect::ScrollBottom));
    let k = key("pageup", None, PLAIN);
    assert_eq!(view.on_key_down("pageup", false, &k, 1), scrolled(Effect::Scroll(-1)));
    assert_eq!(view.on_key_down("pageup", false, &k, 0), scrolled(Effect::Scroll(-1)));
    assert!(matches!(press(&mut view, &key("c", None, CONTROL)), KeyStep::Encode(_)));
    view.render(true);
    assert!(!view.pending_refresh());
    assert_eq!(view.on_key_encoded("c", Some(vec![3])), echo(&[3]));
    assert!(view.pending_refresh());
    assert_eq!(view.on_key_encoded("backspace", None), echo(&[8]));
    assert_eq!(view.on_key_encoded("f30", None), vec![]);
}

#[test]
fn tabs_go_both_ways() {
    let mut view = connected();
    assert_eq!(view.on_tab(), vec![send(b"\t")]);
    assert_eq!(view.on_tab_prev(), vec![send(b"\x1b[Z")]);
    let mut view = alone();
    assert_eq!(view.send_tab(false), echo(b"\t"));
    assert!(view.pending_refresh());
}

#[test]
fn pastes_are_bracketed_on_request() {
    let mut view = connected();
    assert_eq!(view.on_paste(Some("hi".to_string()), false), vec![send(b"hi")]);
    assert_eq!(
        view.on_paste(Some("hi".to_string()), true),
        vec![send(b"\x1b[200~"), send(b"hi"), send(b"\x1b[201~")]
    );
    assert_eq!(view.on_paste(None, true), vec![]);
    let mut view = alone();
    assert_eq!(
        view.on_paste(Some("hi".to_string()), true),
        vec![
            Effect::Feed(b"\x1b[200~".to_vec()),
            Effect::Feed(b"hi".to_vec()),
            Effect::Feed(b"\x1b[201~".to_vec()),
            Effect::ApplySideEffects,
            Effect::Notify,
        ]
    );
}

#[test]
fn input_without_pieces_does_nothing() {
    let mut view = alone();
    assert_eq!(view.send_input_parts(Vec::new()), vec![]);
    assert_eq!(view.commit_text(""), vec![]);
    assert!(!view.pending_refresh());
    assert_eq!(view.commit_text("é"), echo("é".as_bytes()));
}

#[test]
fn compositions_are_kept_with_their_selection() {
    let mut view = connected();
    assert_eq!(view.marked_text_range(), None);
    assert_eq!(view.text_for_range(0..1), None);
    assert_eq!(view.replace_and_mark_text_in_range("a😀", Some(1..9)), vec![Effect::Notify]);
    assert_eq!(view.marked_text().as_deref(), Some("a😀"));
    assert_eq!(view.marked_text_range(), Some(0..3));
    assert_eq!(view.selected_text_range(), 1..3);
    assert_eq!(view.text_for_range(0..3), Some((0..3, Some("a😀".to_string()))));
    assert_eq!(view.text_for_range(1..99), Some((1..3, Some("😀".to_string()))));
    assert_eq!(view.text_for_range(3..1), Some((3..1, None)));
    assert_eq!(view.set_marked_text("xy".to_string(), None), vec![Effect::Notify]);
    assert_eq!(view.selected_text_range(), 2..2);
    assert_eq!(view.set_marked_text(String::new(), Some(1..1)), vec![Effect::Notify]);
    assert_eq!(*view.marked_text(), None);
    assert_eq!(view.selected_text_range(), 0..0);
}

#[test]
fn commits_end_the_composition_first() {
    let mut view = connected();
    view.set_marked_text("ni".to_string(), None);
    assert_eq!(
        view.replace_text_in_range(None, "你"),
        vec![Effect::Notify, send("你".as_bytes())]
    );
    assert_eq!(*view.marked_text(), None);
    assert_eq!(view.unmark_text(), vec![Effect::Notify]);
}

#[test]
fn empty_replacements_delete_or_enter() {
    let mut view = connected();
    assert_eq!(view.replace_text_in_range(None, ""), vec![send(b"\r"), Effect::Notify]);
    let delete = || send(&[0x7f]);
    assert_eq!(
        view.replace_text_in_range(Some(2..5), ""),
        vec![delete(), delete(), delete(), Effect::Notify]
    );
    assert_eq!(view.replace_text_in_range(Some(5..2), ""), vec![delete(), Effect::Notify]);
    assert_eq!(view.replace_text_in_range(Some(4..4), ""), vec![delete(), Effect::Notify]);
    let mut view = alone();
    let mut twice = echo(&[0x7f]);
    twice.extend(echo(&[0x7f]));
    twice.push(Effect::Notify);
    assert_eq!(view.replace_text_in_range(Some(0..2), ""), twice);
}

#[test]
fn line_ends_become_enter() {
    let mut view = connected();
    assert_eq!(
        view.replace_text_in_range(None, "a\r\nb\nc"),
        vec![send(b"a\rb\rc"), Effect::Notify]
    );
    assert_eq!(enter_for_line_ends("\r\r\n\n\r"), "\r\r\r\r");
    assert_eq!(enter_for_line_ends("plain\r"), "plain\r");
    for text in ["", "\n", "\r\n", "a\r\n\nb", "\r\r\n", "\n\r", "x\r\r\n\r\ny"] {
        let expected = text.replace("\r\n", "\r").replace('\n', "\r");
        assert_eq!(enter_for_line_ends(text), expected);
    }
}

#[test]
fn compositions_are_placed_in_cells() {
    let mut view = connected();
    assert_eq!(
        view.cells_for_range(2..3, Some((5, 1))),
        Some(CellPosition { col: 4, row: 0, offset: 2 })
    );
    assert_eq!(view.cells_for_range(2..3, None), None);
    view.set_marked_text("界x".to_string(), None);
    assert_eq!(
        view.cells_for_range(1..2, Some((0, 3))),
        Some(CellPosition { col: 0, row: 2, offset: 2 })
    );
}

#[test]
fn mouse_reports() {
    assert_eq!(sgr_mouse_sequence(0, 10, 5, true), "\u{1b}[<0;10;5M");
    assert_eq!(sgr_mouse_sequence(35, 65535, 1, false), "\u{1b}[<35;65535;1m");
    assert_eq!(sgr_mouse_button_value(0, false, false, false, false), 0);
    assert_eq!(sgr_mouse_button_value(1, true, true, true, true), 61);
    assert_eq!(sgr_mouse_button_value(250, true, false, false, false), 255);
}

#[test]
fn pointer_positions_stay_in_the_grid() {
    assert_eq!(mouse_position_to_cell(0, 0, 80, 24), (1, 1));
    assert_eq!(mouse_position_to_cell(79, 23, 80, 24), (80, 24));
    assert_eq!(mouse_position_to_cell(500, 500, 80, 24), (80, 24));
    assert_eq!(mouse_position_to_cell(-5, -5, 80, 24), (1, 1));
    assert_eq!(mouse_position_to_cell(3, 3, 0, 0), (0, 0));
    assert_eq!(mouse_position_to_row(-1, 24), Some(0));
    assert_eq!(mouse_position_to_row(30, 24), Some(23));
    assert_eq!(mouse_position_to_row(3, 24), Some(3));
    assert_eq!(mouse_position_to_row(3, 0), None);
}

#[test]
fn pointer_positions_are_bytes_of_the_viewport() {
    let mut view = alone();
    assert_eq!(view.mouse_position_to_viewport_index(1, Some(2), Some((2, 2))), Some(17));
    assert_eq!(view.mouse_position_to_viewport_index(1, None, Some((9, 9))), None);
    assert_eq!(view.mouse_position_to_viewport_index(1, None, None), None);
    view.prepare_line_layouts((1, 1), false);
    view.set_line_layout(1, 7);
    assert_eq!(view.mouse_position_to_viewport_index(1, Some(2), None), Some(18));
    assert_eq!(view.mouse_position_to_viewport_index(1, Some(99), None), Some(19));
}

#[test]
fn clicks_select_without_a_report() {
    let mut view = alone();
    let click = down(MouseButton::Left, PLAIN);
    assert_eq!(
        view.on_mouse_down(click, NO_MOUSE, Some((1, 1)), None, Some(3)),
        vec![Effect::Notify]
    );
    assert_eq!(view.selection(), Some(ByteSelection { anchor: 3, active: 3 }));
    let drag = MouseMove {
        pressed_button: Some(MouseButton::Left),
        modifiers: PLAIN,
        dragging: true,
    };
    assert_eq!(view.on_mouse_move(drag, NO_MOUSE, None, Some(1)), vec![Effect::Notify]);
    assert_eq!(view.on_mouse_move(drag, NO_MOUSE, None, Some(1)), vec![]);
    assert_eq!(view.selection(), Some(ByteSelection { anchor: 3, active: 1 }));
    let release = MouseUp { button: MouseButton::Left, modifiers: PLAIN };
    assert_eq!(view.on_mouse_up(release, NO_MOUSE, None), vec![Effect::Notify]);
    assert!(view.selection().is_some());
    view.on_mouse_down(click, NO_MOUSE, Some((1, 1)), None, Some(1));
    assert_eq!(view.on_mouse_up(release, NO_MOUSE, None), vec![Effect::Notify]);
    assert!(view.selection().is_none());
    assert_eq!(view.on_mouse_up(release, NO_MOUSE, None), vec![]);
}

#[test]
fn clicks_are_reported_to_the_program() {
    let mut view = connected();
    let click = down(MouseButton::Right, ALT);
    assert_eq!(
        view.on_mouse_down(click, CLICKS, Some((4, 2)), None, Some(3)),
        vec![send(b"\x1b[<10;4;2M")]
    );
    assert!(view.selection().is_none());
    let release = MouseUp { button: MouseButton::Middle, modifiers: CONTROL };
    assert_eq!(
        view.on_mouse_up(release, CLICKS, Some((4, 2))),
        vec![send(b"\x1b[<17;4;2m")]
    );
    let other = down(MouseButton::Other, PLAIN);
    assert_eq!(view.on_mouse_down(other, CLICKS, Some((4, 2)), None, None), vec![]);
    let shifted = down(MouseButton::Left, SHIFT);
    assert_eq!(
        view.on_mouse_down(shifted, CLICKS, Some((4, 2)), None, Some(3)),
        vec![Effect::Notify]
    );
    assert!(view.selection().is_some());
}

#[test]
fn first_clicks_only_focus() {
    let mut view = alone();
    let click = MouseDown { first_mouse: true, focused: false, ..down(MouseButton::Left, PLAIN) };
    assert_eq!(
        view.on_mouse_down(click, NO_MOUSE, Some((1, 1)), None, Some(3)),
        vec![Effect::Focus]
    );
    assert!(view.selection().is_none());
}

#[test]
fn links_are_copied() {
    let mut view = connected();
    let click = down(MouseButton::Left, PLATFORM);
    assert!(click.asks_for_link());
    assert!(!down(MouseButton::Left, PLAIN).asks_for_link());
    let copied = vec![Effect::Copy("https://a.b".to_string())];
    let link = Some("https://x.y".to_string());
    assert_eq!(
        view.on_mouse_down(click, CLICKS, Some((1, 1)), link, None),
        vec![Effect::Copy("https://x.y".to_string())]
    );
    assert_eq!(view.on_mouse_down(click, CLICKS, Some((7, 1)), None, None), copied);
    assert_eq!(view.on_mouse_down(click, CLICKS, None, None, Some(7)), copied);
    assert_eq!(
        view.on_mouse_down(click, CLICKS, Some((1, 2)), None, Some(17)),
        vec![send(b"\x1b[<0;1;2M")]
    );
}

#[test]
fn motions_are_reported_on_request() {
    let mut view = connected();
    let hover = MouseMove { pressed_button: None, modifiers: PLAIN, dragging: false };
    let any = MouseModes { any_event: true, ..CLICKS };
    let held = MouseModes { button_event: true, ..CLICKS };
    assert_eq!(
        view.on_mouse_move(hover, any, Some((3, 4)), None),
        vec![send(b"\x1b[<35;3;4M")]
    );
    assert_eq!(view.on_mouse_move(hover, held, Some((3, 4)), None), vec![]);
    let drag = MouseMove {
        pressed_button: Some(MouseButton::Left),
        modifiers: CONTROL,
        dragging: true,
    };
    assert_eq!(
        view.on_mouse_move(drag, held, Some((3, 4)), None),
        vec![send(b"\x1b[<48;3;4M")]
    );
    assert_eq!(view.on_mouse_move(drag, CLICKS, Some((3, 4)), Some(2)), vec![]);
    assert_eq!(view.on_mouse_move(hover, any, None, None), vec![]);
}

#[test]
fn the_wheel_scrolls_or_reports() {
    let mut view = connected();
    assert_eq!(view.on_scroll_wheel(0, PLAIN, CLICKS, Some((1, 1))), vec![]);
    assert_eq!(
        view.on_scroll_wheel(-2, PLAIN, CLICKS, Some((1, 1))),
        vec![send(b"\x1b[<64;1;1M"), send(b"\x1b[<64;1;1M")]
    );
    assert_eq!(view.on_scroll_wheel(40, PLAIN, CLICKS, Some((1, 1))).len(), 10);
    assert_eq!(
        view.on_scroll_wheel(1, PLAIN, CLICKS, Some((1, 1))),
        vec![send(b"\x1b[<65;1;1M")]
    );
    assert_eq!(view.on_scroll_wheel(1, PLAIN, CLICKS, None), vec![]);
    assert!(!view.pending_refresh());
    assert_eq!(
        KeyStep::Done(view.on_scroll_wheel(3, SHIFT, CLICKS, Some((1, 1)))),
        scrolled(Effect::Scroll(3))
    );
    assert!(view.pending_refresh());
    assert_eq!(
        KeyStep::Done(alone().on_scroll_wheel(-3, PLAIN, CLICKS, None)),
        scrolled(Effect::Scroll(-3))
    );
}
