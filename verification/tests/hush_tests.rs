use kettu::diagnostics::Span;
use kettu::hush::{
    byte_offset_to_col, byte_offset_to_line, check_hush_comment, compute_line_offsets,
    extract_hush_comments, HushComment,
};

#[test]
fn line_offsets_count_bytes_and_line_endings() {
    assert_eq!(compute_line_offsets("ab\ncde\n\nf"), vec![0, 3, 7, 8]);
    assert_eq!(compute_line_offsets(""), Vec::<usize>::new());
    // A final line ending does not start a line; "é" takes two bytes.
    assert_eq!(compute_line_offsets("é\nx\n"), vec![0, 3]);
}

#[test]
fn crlf_lines_lose_their_carriage_return() {
    // `lines` drops the '\r', so the offsets count one byte per line ending.
    assert_eq!(compute_line_offsets("a\r\nb"), vec![0, 2]);
}

#[test]
fn offsets_map_to_lines_and_columns() {
    let offsets = vec![0, 3, 7, 8];
    assert_eq!(byte_offset_to_line(&offsets, 0), 0);
    assert_eq!(byte_offset_to_line(&offsets, 2), 0);
    assert_eq!(byte_offset_to_line(&offsets, 3), 1);
    assert_eq!(byte_offset_to_line(&offsets, 6), 1);
    assert_eq!(byte_offset_to_line(&offsets, 100), 3);
    assert_eq!(byte_offset_to_col(&offsets, 5), 2);
    assert_eq!(byte_offset_to_col(&offsets, 8), 0);
    assert_eq!(byte_offset_to_line(&[], 5), 0);
    assert_eq!(byte_offset_to_col(&[], 5), 0);
}

#[test]
fn hush_comments_are_read_with_byte_columns() {
    let source = "call(x);\n  ///   ^ some message  \n/// no caret\nlet a = 1; /// ^tail";
    let comments = extract_hush_comments(source);
    assert_eq!(comments.len(), 2);
    assert_eq!(comments[0].line, 1);
    assert_eq!(comments[0].col, 8);
    assert_eq!(comments[0].text, "some message");
    assert_eq!(comments[1].line, 3);
    assert_eq!(comments[1].col, 15);
    assert_eq!(comments[1].text, "tail");
}

#[test]
fn only_the_first_comment_marker_counts() {
    let comments = extract_hush_comments("x /// y /// ^ z");
    assert!(comments.is_empty());
}

fn hush(line: usize, col: usize, text: &str) -> HushComment {
    HushComment { line, col, text: text.to_string() }
}

#[test]
fn hush_needs_text_line_and_column_to_match() {
    // Line 0 holds the call at bytes 4..14; the comment is on line 1.
    let source = "    bounded(a);\n    ///    ^ msg\n";
    let offsets = compute_line_offsets(source);
    let span = Span { start: 4, end: 14 };
    let comments = extract_hush_comments(source);
    assert_eq!(comments.len(), 1);
    assert!(check_hush_comment(&comments, &offsets, span, "msg"));
    assert!(!check_hush_comment(&comments, &offsets, span, "other"));

    // Wrong line.
    assert!(!check_hush_comment(&[hush(2, 11, "msg")], &offsets, span, "msg"));
    // Column within the span, give or take two.
    assert!(check_hush_comment(&[hush(1, 2, "msg")], &offsets, span, "msg"));
    assert!(!check_hush_comment(&[hush(1, 1, "msg")], &offsets, span, "msg"));
    assert!(check_hush_comment(&[hush(1, 15, "msg")], &offsets, span, "msg"));
    assert!(!check_hush_comment(&[hush(1, 16, "msg")], &offsets, span, "msg"));
}
