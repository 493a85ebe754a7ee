use rwc::{count_all, count_bytes, count_lines, count_words};

#[test]
fn test_count_lines_empty() {
    assert_eq!(count_lines(""), 0);
}

#[test]
fn test_count_lines_single_line_no_newline() {
    assert_eq!(count_lines("hello"), 0);
}

#[test]
fn test_count_lines_single_line_with_newline() {
    assert_eq!(count_lines("hello\n"), 1);
}

#[test]
fn test_count_lines_multiple() {
    assert_eq!(count_lines("hello\nworld\n"), 2);
}

#[test]
fn test_count_words_empty() {
    assert_eq!(count_words(""), 0);
}

#[test]
fn test_count_words_single() {
    assert_eq!(count_words("hello"), 1);
}

#[test]
fn test_count_words_multiple() {
    assert_eq!(count_words("hello world"), 2);
}

#[test]
fn test_count_words_with_newlines() {
    assert_eq!(count_words("hello\nworld\nfoo bar"), 4);
}

#[test]
fn test_count_words_extra_whitespace() {
    assert_eq!(count_words("  hello   world  "), 2);
}

#[test]
fn test_count_bytes() {
    assert_eq!(count_bytes("hello"), 5);
}

#[test]
fn test_count_all() {
    let result = count_all("hello\nworld\n");
    assert_eq!(result.lines, 2);
    assert_eq!(result.words, 2);
    assert_eq!(result.bytes, 12);
}
