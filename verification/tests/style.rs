use gpui_ghostty_terminal::boxes::{
    box_drawing_mask, box_strokes_for_char, Extent, BOX_DIR_DOWN, BOX_DIR_LEFT, BOX_DIR_RIGHT,
    BOX_DIR_UP,
};
use gpui_ghostty_terminal::font::{
    default_terminal_font, default_terminal_font_features, Platform,
};
use gpui_ghostty_terminal::style::{
    cursor_color_for_background, packed_rgba, text_look, text_run_key, Rgb, StyleRun, TextRunKey,
    CELL_STYLE_FLAG_BOLD, CELL_STYLE_FLAG_FAINT, CELL_STYLE_FLAG_ITALIC,
    CELL_STYLE_FLAG_STRIKETHROUGH, CELL_STYLE_FLAG_UNDERLINE,
};

const RED: Rgb = Rgb { r: 0xff, g: 0, b: 0 };

#[test]
fn cursor_color_contrasts_with_background() {
    let cursor = cursor_color_for_background(Rgb {
        r: 0xFF,
        g: 0xFF,
        b: 0xFF,
    });
    assert!(f32::from(cursor.lightness_percent) / 100.0 < 0.2);
    assert!((f32::from(cursor.alpha_percent) / 100.0 - 0.72).abs() < f32::EPSILON);

    let cursor = cursor_color_for_background(Rgb {
        r: 0x00,
        g: 0x00,
        b: 0x00,
    });
    assert!(f32::from(cursor.lightness_percent) / 100.0 > 0.8);
    assert!((f32::from(cursor.alpha_percent) / 100.0 - 0.72).abs() < f32::EPSILON);
}

#[test]
fn cursor_turns_black_above_sixty_percent() {
    let grey = |n: u8| Rgb { r: n, g: n, b: n };
    assert_eq!(cursor_color_for_background(grey(153)).lightness_percent, 100);
    assert_eq!(cursor_color_for_background(grey(154)).lightness_percent, 0);
    let colour = Rgb { r: 51, g: 255, b: 200 };
    assert_eq!(cursor_color_for_background(colour).lightness_percent, 100);
    let colour = Rgb { r: 52, g: 255, b: 200 };
    assert_eq!(cursor_color_for_background(colour).lightness_percent, 0);
    assert_eq!(cursor_color_for_background(RED).lightness_percent, 100);
}

#[test]
fn cursor_threshold_is_that_of_the_lightness() {
    for high in 0..=255u8 {
        for low in 0..=high {
            let lightness = (f32::from(high) / 255.0 + f32::from(low) / 255.0) / 2.0;
            let cursor = cursor_color_for_background(Rgb { r: low, g: high, b: low });
            assert_eq!(cursor.lightness_percent == 0, lightness > 0.6);
        }
    }
}

#[test]
fn colours_are_packed_with_full_opacity() {
    assert_eq!(packed_rgba(Rgb { r: 0x12, g: 0x34, b: 0x56 }), 0x123456ff);
    assert_eq!(packed_rgba(Rgb { r: 0, g: 0, b: 0 }), 0xff);
}

#[test]
fn keys_keep_the_flags_of_text() {
    let run = StyleRun { start_col: 1, end_col: 2, fg: RED, bg: RED, flags: 0xff };
    assert_eq!(text_run_key(&run), TextRunKey { fg: RED, flags: 0x5e });
    let look = text_look(text_run_key(&run));
    assert!(look.bold && look.italic && look.underline && look.strikethrough);
    assert_eq!(look.alpha_percent, 65);
}

#[test]
fn each_flag_changes_one_thing() {
    let look = |flags: u8| text_look(TextRunKey { fg: RED, flags });
    assert!(!look(0).bold && !look(0).italic && !look(0).underline && !look(0).strikethrough);
    assert_eq!(look(0).alpha_percent, 100);
    assert_eq!(look(0).color, RED);
    assert!(look(CELL_STYLE_FLAG_BOLD).bold);
    assert!(look(CELL_STYLE_FLAG_ITALIC).italic);
    assert!(look(CELL_STYLE_FLAG_UNDERLINE).underline);
    assert!(look(CELL_STYLE_FLAG_STRIKETHROUGH).strikethrough);
    assert_eq!(look(CELL_STYLE_FLAG_FAINT).alpha_percent, 65);
    assert!(!look(CELL_STYLE_FLAG_FAINT).bold);
}

#[test]
fn box_characters_have_directions() {
    let all = BOX_DIR_LEFT | BOX_DIR_RIGHT | BOX_DIR_UP | BOX_DIR_DOWN;
    assert_eq!(box_drawing_mask('─'), Some((BOX_DIR_LEFT | BOX_DIR_RIGHT, 100)));
    assert_eq!(box_drawing_mask('┃'), Some((BOX_DIR_UP | BOX_DIR_DOWN, 135)));
    assert_eq!(box_drawing_mask('╔'), Some((BOX_DIR_RIGHT | BOX_DIR_DOWN, 115)));
    assert_eq!(box_drawing_mask('╮'), Some((BOX_DIR_LEFT | BOX_DIR_DOWN, 100)));
    assert_eq!(box_drawing_mask('┗'), Some((BOX_DIR_RIGHT | BOX_DIR_UP, 135)));
    assert_eq!(box_drawing_mask('╯'), Some((BOX_DIR_LEFT | BOX_DIR_UP, 100)));
    assert_eq!(
        box_drawing_mask('╠'),
        Some((BOX_DIR_RIGHT | BOX_DIR_UP | BOX_DIR_DOWN, 115))
    );
    assert_eq!(
        box_drawing_mask('┤'),
        Some((BOX_DIR_LEFT | BOX_DIR_UP | BOX_DIR_DOWN, 100))
    );
    assert_eq!(
        box_drawing_mask('┳'),
        Some((BOX_DIR_LEFT | BOX_DIR_RIGHT | BOX_DIR_DOWN, 135))
    );
    assert_eq!(
        box_drawing_mask('┴'),
        Some((BOX_DIR_LEFT | BOX_DIR_RIGHT | BOX_DIR_UP, 100))
    );
    assert_eq!(box_drawing_mask('╬'), Some((all, 115)));
    assert_eq!(box_drawing_mask('x'), None);
    assert_eq!(box_drawing_mask('┄'), None);
}

#[test]
fn box_characters_have_lines() {
    let strokes = box_strokes_for_char('┐').unwrap();
    assert_eq!(strokes.horizontal, Some(Extent::FirstHalf));
    assert_eq!(strokes.vertical, Some(Extent::SecondHalf));
    assert_eq!(strokes.thickness_percent, 100);
    let strokes = box_strokes_for_char('━').unwrap();
    assert_eq!(strokes.horizontal, Some(Extent::Full));
    assert_eq!(strokes.vertical, None);
    assert_eq!(strokes.thickness_percent, 135);
    let strokes = box_strokes_for_char('╩').unwrap();
    assert_eq!(strokes.horizontal, Some(Extent::Full));
    assert_eq!(strokes.vertical, Some(Extent::FirstHalf));
    assert_eq!(box_strokes_for_char('+'), None);
}

#[test]
fn default_fonts_of_platforms() {
    assert_eq!(default_terminal_font(Platform::Ohos).family, "HarmonyOS Sans");
    assert_eq!(default_terminal_font(Platform::MacOs).family, "Menlo");
    assert_eq!(default_terminal_font(Platform::Windows).family, "Consolas");
    let font = default_terminal_font(Platform::Other);
    assert_eq!(font.family, "DejaVu Sans Mono");
    assert_eq!(font.fallbacks.len(), 21);
    assert_eq!(font.fallbacks[0], "SF Mono");
    assert_eq!(font.fallbacks[20], "Segoe UI Emoji");
}

#[test]
fn ligatures_and_kerning_are_off() {
    assert_eq!(
        default_terminal_font_features(),
        vec![
            ("calt".to_string(), 0),
            ("liga".to_string(), 0),
            ("kern".to_string(), 0),
        ]
    );
}
