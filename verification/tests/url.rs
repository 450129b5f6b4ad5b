use gpui_ghostty_terminal::url::{url_at_byte_index, url_at_column_in_line};

#[test]
fn url_detection_finds_https_links() {
    let text = "Visit https://google.com for search";
    let idx = text.find("google").unwrap();
    assert_eq!(
        url_at_byte_index(text, idx).as_deref(),
        Some("https://google.com")
    );
}

#[test]
fn url_detection_finds_https_links_by_cell_column() {
    let line = "https://google.com";
    assert_eq!(
        url_at_column_in_line(line, 1).as_deref(),
        Some("https://google.com")
    );
    assert_eq!(
        url_at_column_in_line(line, 10).as_deref(),
        Some("https://google.com")
    );
}

#[test]
fn url_stops_at_trailing_punctuation() {
    assert_eq!(
        url_at_byte_index("(see http://a.b/c?d=1).", 10).as_deref(),
        Some("http://a.b/c?d=1")
    );
    assert_eq!(
        url_at_byte_index("https://a.b/!?..", 0).as_deref(),
        Some("https://a.b/")
    );
}

#[test]
fn url_is_found_from_the_byte_behind_it() {
    let text = "https://a.b end";
    assert_eq!(url_at_byte_index(text, 11).as_deref(), Some("https://a.b"));
    assert_eq!(url_at_byte_index(text, 12), None);
}

#[test]
fn url_index_past_the_end_is_the_last_byte() {
    assert_eq!(
        url_at_byte_index("x https://a.b", 999).as_deref(),
        Some("https://a.b")
    );
}

#[test]
fn only_web_schemes_are_urls() {
    assert_eq!(url_at_byte_index("ftp://a.b", 0), None);
    assert_eq!(url_at_byte_index("plain", 0), None);
    assert_eq!(url_at_byte_index("", 0), None);
    assert_eq!(url_at_byte_index("   ", 1), None);
    assert_eq!(url_at_byte_index("xhttps://a.b", 3), None);
}

#[test]
fn url_ends_before_a_wide_character() {
    let line = "界 https://a.b界";
    assert_eq!(url_at_column_in_line(line, 4).as_deref(), Some("https://a.b"));
    assert_eq!(url_at_column_in_line(line, 1), None);
    assert_eq!(url_at_column_in_line("", 1), None);
}
