use specta_swift::formatting::{escape_string, format_deprecated, format_doc_comment, indent,
    join_non_empty};

#[test]
fn test_indent_single_line() {
    assert_eq!(indent("let x = 5", 0), "let x = 5");
    assert_eq!(indent("let x = 5", 1), "    let x = 5");
    assert_eq!(indent("let x = 5", 2), "        let x = 5");
}

#[test]
fn test_indent_multiple_lines() {
    let code = "let x = 5\nlet y = 10";
    assert_eq!(indent(code, 1), "    let x = 5\n    let y = 10");
}

#[test]
fn test_indent_preserves_empty_lines() {
    let code = "let x = 5\n\nlet y = 10";
    assert_eq!(indent(code, 1), "    let x = 5\n\n    let y = 10");
}

#[test]
fn test_format_doc_comment_single_line() {
    assert_eq!(format_doc_comment("This is a doc"), "/// This is a doc\n");
}

#[test]
fn test_format_doc_comment_multiple_lines() {
    let docs = "Line 1\nLine 2\nLine 3";
    let expected = "/// Line 1\n/// Line 2\n/// Line 3\n";
    assert_eq!(format_doc_comment(docs), expected);
}

#[test]
fn test_format_doc_comment_trims_leading_whitespace() {
    let docs = "  Indented line\n    More indented";
    let expected = "/// Indented line\n/// More indented\n";
    assert_eq!(format_doc_comment(docs), expected);
}

#[test]
fn test_escape_string_quotes() {
    assert_eq!(escape_string("say \"hi\""), "say \\\"hi\\\"");
}

#[test]
fn test_escape_string_backslash() {
    assert_eq!(escape_string("path\\to\\file"), "path\\\\to\\\\file");
}

#[test]
fn test_escape_string_newline() {
    assert_eq!(escape_string("line1\nline2"), "line1\\nline2");
}

#[test]
fn test_escape_string_tab() {
    assert_eq!(escape_string("col1\tcol2"), "col1\\tcol2");
}

#[test]
fn test_escape_string_carriage_return() {
    assert_eq!(escape_string("line1\rline2"), "line1\\rline2");
}

#[test]
fn test_escape_string_combined() {
    assert_eq!(
        escape_string("path\\to\\\"file\"\nline2"),
        "path\\\\to\\\\\\\"file\\\"\\nline2"
    );
}

#[test]
fn test_join_non_empty_basic() {
    let items = vec!["a".to_string(), "b".to_string(), "c".to_string()];
    assert_eq!(join_non_empty(&items, ", "), "a, b, c");
}

#[test]
fn test_join_non_empty_filters_empty() {
    let items = vec![
        "a".to_string(),
        "".to_string(),
        "b".to_string(),
        "".to_string(),
        "c".to_string(),
    ];
    assert_eq!(join_non_empty(&items, ", "), "a, b, c");
}

#[test]
fn test_join_non_empty_all_empty() {
    let items = vec!["".to_string(), "".to_string(), "".to_string()];
    assert_eq!(join_non_empty(&items, ", "), "");
}

#[test]
fn test_join_non_empty_single_item() {
    let items = vec!["a".to_string()];
    assert_eq!(join_non_empty(&items, ", "), "a");
}

#[test]
fn test_format_deprecated() {
    let result = format_deprecated("Use NewType instead");
    assert_eq!(
        result,
        "@available(*, deprecated, message: \"Use NewType instead\")\n"
    );
}

#[test]
fn test_format_deprecated_empty() {
    let result = format_deprecated("");
    assert_eq!(result, "@available(*, deprecated, message: \"\")\n");
}
