use gpui_ghostty_terminal::cells::{
    byte_index_for_column, byte_index_for_column_in_line, cell_offset_for_utf16,
    cells_before_offset, cells_of_char, count_cells, has_wide_char, measure,
};
use gpui_ghostty_terminal::text::{
    byte_slice, len_utf16, len_utf8, str_eq, utf16_len, utf16_range_to_utf8,
};

#[test]
fn lengths_of_characters() {
    for ch in ['\0', 'a', '\u{7f}', '\u{80}', 'é', '\u{7ff}', '\u{800}', '界', '\u{ffff}', '😀'] {
        assert_eq!(len_utf8(ch), ch.len_utf8());
        assert_eq!(len_utf16(ch), ch.len_utf16());
    }
}

#[test]
fn utf16_lengths_of_texts() {
    assert_eq!(utf16_len(""), 0);
    assert_eq!(utf16_len("aé界😀"), 5);
}

#[test]
fn utf16_ranges_become_byte_ranges() {
    let text = "a😀b";
    assert_eq!(utf16_range_to_utf8(text, 0..4), Some(0..6));
    assert_eq!(utf16_range_to_utf8(text, 1..3), Some(1..5));
    assert_eq!(utf16_range_to_utf8(text, 3..4), Some(5..6));
    assert_eq!(utf16_range_to_utf8("", 0..0), Some(0..0));
}

#[test]
fn utf16_offset_inside_a_character_moves_behind_it() {
    assert_eq!(utf16_range_to_utf8("a😀b", 2..2), Some(5..5));
}

#[test]
fn utf16_range_past_the_end_is_absent() {
    assert_eq!(utf16_range_to_utf8("a😀b", 0..5), None);
    assert_eq!(utf16_range_to_utf8("", 1..1), None);
}

#[test]
fn texts_are_compared_by_their_characters() {
    assert!(str_eq("", ""));
    assert!(str_eq("naïve", "naïve"));
    assert!(!str_eq("naïve", "naive"));
    assert!(!str_eq("ab", "abc"));
}

#[test]
fn byte_slices_respect_characters() {
    assert_eq!(byte_slice("aé界", 1, 3), Some("é"));
    assert_eq!(byte_slice("aé界", 2, 3), None);
    assert_eq!(byte_slice("aé界", 3, 1), None);
    assert_eq!(byte_slice("aé界", 0, 7), None);
    assert_eq!(byte_slice("aé界", 6, 6), Some(""));
}

#[test]
fn widths_of_characters() {
    assert_eq!(cells_of_char('a'), 1);
    assert_eq!(cells_of_char('界'), 2);
    assert_eq!(cells_of_char('\u{301}'), 0);
    assert_eq!(cells_of_char('\n'), 0);
    assert_eq!(cells_of_char('\u{7f}'), 0);
    assert_eq!(cells_of_char('\u{9f}'), 0);
    assert_eq!(cells_of_char('\u{a0}'), 1);
}

#[test]
fn columns_of_plain_lines_are_bytes() {
    assert_eq!(byte_index_for_column_in_line("hello", 0), 0);
    assert_eq!(byte_index_for_column_in_line("hello", 1), 0);
    assert_eq!(byte_index_for_column_in_line("hello", 3), 2);
    assert_eq!(byte_index_for_column_in_line("hello", 6), 5);
    assert_eq!(byte_index_for_column_in_line("hello", u16::MAX), 5);
}

#[test]
fn both_columns_of_a_wide_character_show_it() {
    let line = "a界b";
    assert_eq!(byte_index_for_column_in_line(line, 2), 1);
    assert_eq!(byte_index_for_column_in_line(line, 3), 1);
    assert_eq!(byte_index_for_column_in_line(line, 4), 4);
}

#[test]
fn combining_marks_fill_no_column() {
    let line = "e\u{301}x";
    assert_eq!(byte_index_for_column_in_line(line, 2), 3);
    assert_eq!(byte_index_for_column_in_line("\u{301}x", 1), 0);
    assert_eq!(byte_index_for_column_in_line("x\u{301}", 2), 3);
}

#[test]
fn cells_before_utf16_offsets() {
    let text = "a界😀b";
    assert_eq!(cell_offset_for_utf16(text, 0), 0);
    assert_eq!(cell_offset_for_utf16(text, 1), 1);
    assert_eq!(cell_offset_for_utf16(text, 2), 3);
    assert_eq!(cell_offset_for_utf16(text, 3), 3);
    assert_eq!(cell_offset_for_utf16(text, 4), 5);
    assert_eq!(cell_offset_for_utf16(text, utf16_len(text)), count_cells(&measure(text)));
    assert_eq!(cell_offset_for_utf16(text, 100), 6);
}

#[test]
fn wide_characters_are_found() {
    assert!(!has_wide_char(&measure("")));
    assert!(!has_wide_char(&measure("plain e\u{301}")));
    assert!(has_wide_char(&measure("plain 界")));
}

#[test]
fn texts_are_measured() {
    assert_eq!(measure(""), vec![]);
    assert_eq!(measure("a界\u{301}"), vec![('a', 1), ('界', 2), ('\u{301}', 0)]);
    assert_eq!(count_cells(&measure("a界\u{301}")), 3);
}

#[test]
fn columns_follow_the_given_widths() {
    let line = vec![('a', 3), ('é', 0), ('b', 2)];
    assert_eq!(byte_index_for_column(&line, 3), 0);
    assert_eq!(byte_index_for_column(&line, 4), 3);
    assert_eq!(byte_index_for_column(&line, 5), 3);
    assert_eq!(byte_index_for_column(&line, 6), 4);
    assert_eq!(cells_before_offset(&line, 2), 3);
    assert_eq!(count_cells(&vec![('a', usize::MAX), ('b', 1)]), usize::MAX);
}
