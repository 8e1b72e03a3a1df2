use kettu::position::{
    captures_reference, decode_scope_reference, locals_reference, offset_to_line,
    offset_to_line_col, offset_to_position, BreakpointLocation, RuntimePauseMode,
    ScopeReferenceKind, SourcePosition,
};

#[test]
fn offset_to_line_col_tracks_columns() {
    let source = "first\n  second\nthird";

    assert_eq!(offset_to_line_col(source, 0), (1, 1));
    assert_eq!(offset_to_line_col(source, 6), (2, 1));
    assert_eq!(offset_to_line_col(source, 8), (2, 3));
    assert_eq!(offset_to_line_col(source, source.len()), (3, 6));
}

#[test]
fn columns_count_characters_not_bytes() {
    // "é" takes two bytes but is one column.
    let source = "é=1\nx";
    assert_eq!(offset_to_line_col(source, 2), (1, 2));
    assert_eq!(offset_to_line_col(source, 5), (2, 1));
}

#[test]
fn offset_to_line_counts_from_one() {
    let source = "a\nb\nc";
    assert_eq!(offset_to_line(source, 0), 1);
    assert_eq!(offset_to_line(source, 2), 2);
    assert_eq!(offset_to_line(source, 4), 3);
}

#[test]
fn offset_to_position_matches_line_col() {
    let p = offset_to_position("ab\ncd", 4);
    assert_eq!(p, SourcePosition { line: 2, column: 2 });
}

#[test]
fn source_position_new_clamps_to_one() {
    assert_eq!(SourcePosition::new(0, -5), SourcePosition { line: 1, column: 1 });
    assert_eq!(SourcePosition::new(7, 3), SourcePosition { line: 7, column: 3 });
}

#[test]
fn breakpoint_new_clamps_line_and_column() {
    let b = BreakpointLocation::new(-3, Some(0));
    assert_eq!(b, BreakpointLocation { line: 1, column: Some(1) });
    let b = BreakpointLocation::new(4, None);
    assert_eq!(b, BreakpointLocation { line: 4, column: None });
}

#[test]
fn breakpoint_matches_line_and_optional_column() {
    let line_only = BreakpointLocation::new(5, None);
    let pinned = BreakpointLocation::new(5, Some(9));
    assert!(line_only.matches(&SourcePosition::new(5, 42)));
    assert!(!line_only.matches(&SourcePosition::new(6, 1)));
    assert!(pinned.matches(&SourcePosition::new(5, 9)));
    assert!(!pinned.matches(&SourcePosition::new(5, 8)));
}

#[test]
fn pause_mode_follows_breakpoints() {
    let run = RuntimePauseMode::ContinueToEnd;
    assert!(!run.should_pause(&SourcePosition::new(1, 1)));
    let stop = RuntimePauseMode::Breakpoints(vec![
        BreakpointLocation::new(3, None),
        BreakpointLocation::new(8, Some(2)),
    ]);
    assert!(stop.should_pause(&SourcePosition::new(3, 7)));
    assert!(stop.should_pause(&SourcePosition::new(8, 2)));
    assert!(!stop.should_pause(&SourcePosition::new(8, 3)));
}

#[test]
fn scope_references_round_trip() {
    assert_eq!(locals_reference(7), 71);
    assert_eq!(captures_reference(7), 72);
    assert_eq!(decode_scope_reference(71), Some((7, ScopeReferenceKind::Locals)));
    assert_eq!(decode_scope_reference(72), Some((7, ScopeReferenceKind::Captures)));
    assert_eq!(decode_scope_reference(73), None);
    assert_eq!(decode_scope_reference(0), None);
    assert_eq!(decode_scope_reference(-11), None);
}
