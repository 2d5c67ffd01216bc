use flashcards::reader::process_line;

#[test]
fn bold_span_is_transformed() {
    let out = process_line("<b>bold<\\b> normal\n");
    assert_eq!(out, Some("\u{1b}[1mbold\u{1b}[0m normal\n".to_string()));
}

#[test]
fn italic_and_underline_are_transformed() {
    let out = process_line("<i>x<\\i><u>y<\\u>\n");
    assert_eq!(out, Some("\u{1b}[3mx\u{1b}[0m\u{1b}[4my\u{1b}[0m\n".to_string()));
}

#[test]
fn any_closing_token_maps_to_the_shared_reset() {
    let out = process_line("<b><i>t<\\b>\n");
    assert_eq!(out, Some("\u{1b}[1m\u{1b}[3mt\u{1b}[0m\n".to_string()));
}

#[test]
fn blank_lines_are_rejected() {
    assert_eq!(process_line(""), None);
    assert_eq!(process_line("\n"), None);
    assert_eq!(process_line("   \t \r\n"), None);
    assert_eq!(process_line("\u{a0}\u{2003}\n"), None);
}

#[test]
fn nonblank_line_passes_through() {
    assert_eq!(process_line("hi there\n"), Some("hi there\n".to_string()));
}

#[test]
fn tokens_are_case_sensitive_and_partial_brackets_stay() {
    assert_eq!(process_line("<B>not bold</b>\n"), Some("<B>not bold</b>\n".to_string()));
    assert_eq!(process_line("a < b > c\n"), Some("a < b > c\n".to_string()));
}

#[test]
fn opening_token_without_closing_still_replaced() {
    assert_eq!(process_line("<u>under\n"), Some("\u{1b}[4munder\n".to_string()));
}
