use kettu::position::{BreakpointLocation, SourcePosition};
use kettu::stepping::{
    active_closure_indices, active_test, advance_one_line, breakpoint_hit,
    can_continue_with_runtime, first_trace_line_at_or_after, invoked_closure,
    matched_breakpoint_position, snapped_breakpoint_position, step_once_or_end,
    step_out_of_closure, sync_active_closures, sync_trace_cursor_to_current_position,
    ClosureSpan, Cursor, EnteredClosure, StepAction, StopOutcome, StopReason, TestTrace,
};

fn cursor_at(line: i64) -> Cursor<()> {
    Cursor {
        current_test: 0,
        current_trace_index: None,
        current_line: line,
        current_column: 1,
        active_closures: Vec::new(),
    }
}

fn closure(name: &str, start_line: i64, start_column: i64, end_line: i64, inline: Option<i64>) -> ClosureSpan {
    ClosureSpan {
        debug_key: start_line * 100 + start_column,
        name: name.to_string(),
        start_line,
        start_column,
        end_line,
        inline_invocation_line: inline,
    }
}

fn entered(closure_index: usize) -> EnteredClosure<()> {
    EnteredClosure { closure_index, resume_line: None, resume_trace_index: None, bindings: () }
}

fn test_span(line: i64, end_line: i64, trace: Vec<SourcePosition>) -> TestTrace {
    TestTrace { line, end_line, trace }
}

#[test]
fn stepping_always_progresses_or_ends() {
    let tests = vec![test_span(10, 12, Vec::new())];
    let mut session = cursor_at(9);

    assert!(advance_one_line(&tests, &[], &mut session));
    assert_eq!(session.current_line, 10);
    assert!(advance_one_line(&tests, &[], &mut session));
    assert_eq!(session.current_line, 11);
    assert!(advance_one_line(&tests, &[], &mut session));
    assert_eq!(session.current_line, 12);
    assert!(!advance_one_line(&tests, &[], &mut session));
}

#[test]
fn stepping_moves_on_to_the_next_test() {
    let tests = vec![test_span(3, 3, Vec::new()), test_span(8, 9, Vec::new())];
    let mut c = cursor_at(3);
    assert!(advance_one_line(&tests, &[], &mut c));
    assert_eq!((c.current_test, c.current_line), (1, 8));
    assert!(advance_one_line(&tests, &[], &mut c));
    assert_eq!(c.current_line, 9);
    assert!(!advance_one_line(&tests, &[], &mut c));
    assert_eq!(c.current_test, 2);
    assert!(!advance_one_line(&[], &[], &mut cursor_at(1)));
}

#[test]
fn stepping_follows_the_trace() {
    let trace = vec![SourcePosition::new(5, 3), SourcePosition::new(7, 9), SourcePosition::new(5, 4)];
    let tests = vec![test_span(4, 10, trace), test_span(20, 21, Vec::new())];
    let mut c = cursor_at(1);
    assert!(advance_one_line(&tests, &[], &mut c));
    assert_eq!((c.current_trace_index, c.current_line, c.current_column), (Some(0), 5, 3));
    assert!(advance_one_line(&tests, &[], &mut c));
    assert_eq!((c.current_trace_index, c.current_line, c.current_column), (Some(1), 7, 9));
    assert!(advance_one_line(&tests, &[], &mut c));
    assert_eq!((c.current_trace_index, c.current_line, c.current_column), (Some(2), 5, 4));
    // The trace is done: the next test starts.
    assert!(advance_one_line(&tests, &[], &mut c));
    assert_eq!((c.current_test, c.current_trace_index, c.current_line), (1, None, 20));
}

#[test]
fn leaving_a_closure_drops_it() {
    let closures = vec![closure("f", 2, 5, 6, None), closure("g", 3, 9, 4, None)];
    let mut c = cursor_at(5);
    c.active_closures = vec![entered(0), entered(1)];
    sync_active_closures(&closures, &mut c);
    assert_eq!(c.active_closures.len(), 1);
    assert_eq!(c.active_closures[0].closure_index, 0);
    c.current_line = 9;
    sync_active_closures(&closures, &mut c);
    assert!(c.active_closures.is_empty());
}

fn inline_closure(line: i64, column: i64) -> ClosureSpan {
    closure("inline", line, column, line, Some(line))
}

#[test]
fn column_breakpoints_snap_to_the_nearest_inline_closure() {
    let closures = vec![
        inline_closure(4, 20),
        inline_closure(4, 10),
        closure("h", 4, 13, 4, None),
        inline_closure(5, 12),
    ];
    let bp = BreakpointLocation::new(4, Some(13));
    assert_eq!(snapped_breakpoint_position(&closures, &bp), Some(SourcePosition::new(4, 10)));
    // Equal distances go to the smaller column.
    let bp = BreakpointLocation::new(4, Some(15));
    assert_eq!(snapped_breakpoint_position(&closures, &bp), Some(SourcePosition::new(4, 10)));
    assert_eq!(snapped_breakpoint_position(&closures, &BreakpointLocation::new(4, None)), None);
    assert_eq!(snapped_breakpoint_position(&closures, &BreakpointLocation::new(6, Some(1))), None);
}

#[test]
fn breakpoints_fire_or_snap() {
    let closures = vec![inline_closure(4, 10)];
    let bps = vec![BreakpointLocation::new(2, None), BreakpointLocation::new(4, Some(30))];
    let here = SourcePosition::new(2, 7);
    assert_eq!(matched_breakpoint_position(&bps, &closures, &here), Some(here));
    let on_closure_line = SourcePosition::new(4, 1);
    assert_eq!(
        matched_breakpoint_position(&bps, &closures, &on_closure_line),
        Some(SourcePosition::new(4, 10))
    );
    assert_eq!(matched_breakpoint_position(&bps, &closures, &SourcePosition::new(3, 1)), None);

    let mut c = cursor_at(4);
    assert!(breakpoint_hit(&bps, &closures, &mut c));
    assert_eq!((c.current_line, c.current_column), (4, 10));
    let mut c = cursor_at(3);
    assert!(!breakpoint_hit(&bps, &closures, &mut c));
    assert_eq!((c.current_line, c.current_column), (3, 1));
}

#[test]
fn trace_cursor_finds_lines_and_columns() {
    let trace = vec![
        SourcePosition::new(5, 3),
        SourcePosition::new(7, 9),
        SourcePosition::new(7, 2),
        SourcePosition::new(9, 1),
    ];
    let tests = vec![test_span(4, 10, trace)];
    let mut c = cursor_at(1);
    assert_eq!(first_trace_line_at_or_after(&tests, &mut c, 6), Some(7));
    assert_eq!(c.current_trace_index, Some(1));
    assert_eq!(first_trace_line_at_or_after(&tests, &mut c, 10), None);
    assert_eq!(c.current_trace_index, None);

    let mut c = cursor_at(7);
    c.current_column = 4;
    sync_trace_cursor_to_current_position(&tests, &[], &mut c);
    assert_eq!((c.current_trace_index, c.current_column), (Some(2), 2));
    let mut c = cursor_at(8);
    c.current_trace_index = Some(0);
    sync_trace_cursor_to_current_position(&tests, &[], &mut c);
    assert_eq!((c.current_trace_index, c.current_column), (None, 1));
}

#[test]
fn active_test_and_runtime_continuation() {
    let tests = vec![test_span(3, 5, Vec::new()), test_span(8, 9, Vec::new())];
    let mut c = cursor_at(8);
    assert_eq!(active_test(&tests, &c), Some(1));
    c.current_line = 6;
    assert_eq!(active_test(&tests, &c), Some(0));
    c.current_test = 4;
    assert_eq!(active_test(&tests, &c), None);

    let c = cursor_at(1);
    assert!(can_continue_with_runtime(&tests, &[BreakpointLocation::new(4, None)], &c));
    assert!(!can_continue_with_runtime(&tests, &[BreakpointLocation::new(4, Some(2))], &c));
    assert!(!can_continue_with_runtime(&tests, &[], &cursor_at(3)));
}

use kettu::stepping::align_runtime_trace;

#[test]
fn runtime_steps_match_simulated_steps_in_order() {
    let simulated = [3, 4, 3, 5];
    assert_eq!(
        align_runtime_trace(&[3, 3, 3, 9, 5, 4], &simulated),
        vec![Some(0), Some(2), Some(0), None, Some(3), Some(1)]
    );
    assert_eq!(align_runtime_trace(&[], &simulated), vec![]);
    assert_eq!(align_runtime_trace(&[1], &[]), vec![None]);
}

#[test]
fn closures_in_force_come_from_the_runtime_then_the_entered_ones() {
    let closures = vec![closure("a", 2, 1, 9, None), closure("b", 3, 5, 5, None), closure("c", 3, 1, 8, None)];
    let mut c = cursor_at(4);
    // Runtime keys first (unknown keys skipped), then entered closures, each once.
    c.active_closures = vec![entered(1), entered(0)];
    assert_eq!(active_closure_indices(&closures, &[999, 305, 305], &c), vec![1, 0]);
    // Without either, the closures enclosing the line, outermost first.
    let c = cursor_at(4);
    assert_eq!(active_closure_indices(&closures, &[], &c), vec![0, 2, 1]);
    // A closure does not enclose the line it starts on.
    let c = cursor_at(3);
    assert_eq!(active_closure_indices(&closures, &[], &c), vec![0]);
    let c = cursor_at(20);
    assert_eq!(active_closure_indices(&closures, &[], &c), Vec::<usize>::new());
}

#[test]
fn stepping_out_resumes_after_the_closure() {
    let trace = vec![SourcePosition::new(2, 1), SourcePosition::new(6, 1), SourcePosition::new(8, 3)];
    let tests = vec![test_span(1, 10, trace)];
    let closures = vec![closure("f", 3, 5, 5, None)];

    // An entered closure with a resume step goes back to that step.
    let mut c = cursor_at(4);
    c.active_closures = vec![EnteredClosure { closure_index: 0, resume_line: Some(9), resume_trace_index: Some(2), bindings: () }];
    assert!(step_out_of_closure(&tests, &closures, &[], &mut c));
    assert_eq!((c.current_trace_index, c.current_line), (Some(2), 8));
    assert!(c.active_closures.is_empty());

    // Otherwise to the first traced step at or after its resume line.
    let mut c = cursor_at(4);
    c.active_closures = vec![EnteredClosure { closure_index: 0, resume_line: Some(6), resume_trace_index: None, bindings: () }];
    assert!(step_out_of_closure(&tests, &closures, &[], &mut c));
    assert_eq!((c.current_trace_index, c.current_line), (Some(1), 6));

    // With nothing entered, past the end of the enclosing closure.
    let mut c = cursor_at(4);
    assert!(step_out_of_closure(&tests, &closures, &[], &mut c));
    assert_eq!((c.current_trace_index, c.current_line), (Some(1), 6));

    // Nothing to step out of.
    let mut c = cursor_at(9);
    assert!(!step_out_of_closure(&tests, &closures, &[], &mut c));
    assert_eq!(c.current_line, 9);
}

#[test]
fn stepping_in_finds_the_called_or_inline_closure() {
    let lines: Vec<String> = vec![
        "let add = |x| x + 1;".to_string(),
        "let y = add(2);".to_string(),
        "list.map(|a| a * 2).filter(|b| b > 1);".to_string(),
    ];
    let closures = vec![
        closure("add", 1, 11, 1, None),
        closure("inline", 3, 28, 3, Some(3)),
        closure("inline", 3, 10, 3, Some(3)),
    ];
    let mut c = cursor_at(2);
    assert_eq!(invoked_closure(&lines, &closures, &c), Some((0, 3)));
    c.current_line = 3;
    c.current_column = 1;
    assert_eq!(invoked_closure(&lines, &closures, &c), Some((2, 4)));
    c.current_column = 20;
    assert_eq!(invoked_closure(&lines, &closures, &c), Some((1, 4)));
    c.current_line = 1;
    assert_eq!(invoked_closure(&lines, &closures, &c), None);
    c.current_line = 0;
    assert_eq!(invoked_closure(&lines, &closures, &c), None);
}

#[test]
fn step_requests_move_the_cursor() {
    let lines: Vec<String> = (1..=6).map(|i| if i == 2 { "let y = f(1);".to_string() } else { format!("line {}", i) }).collect();
    let tests = vec![test_span(1, 6, Vec::new())];
    let closures = vec![closure("f", 4, 3, 5, None)];
    let bps = vec![BreakpointLocation::new(3, None)];

    // Next: one line on; the breakpoint on line 3 fires.
    let mut c: Cursor<u32> = Cursor { current_test: 0, current_trace_index: None, current_line: 2, current_column: 1, active_closures: vec![] };
    let r = step_once_or_end(StepAction::Next, &tests, &closures, &bps, &[], &lines, &mut c, |i| i as u32 + 7);
    assert_eq!(r, StopOutcome::Stopped(StopReason::Breakpoint));
    assert_eq!(c.current_line, 3);

    // Step in on line 2 enters `f` (not in place) and takes the next step.
    let mut c: Cursor<u32> = Cursor { current_test: 0, current_trace_index: None, current_line: 2, current_column: 1, active_closures: vec![] };
    let r = step_once_or_end(StepAction::StepIn, &tests, &closures, &[], &[], &lines, &mut c, |i| i as u32 + 7);
    assert_eq!(r, StopOutcome::Stopped(StopReason::Step));
    assert_eq!(c.current_line, 3);
    assert_eq!(c.active_closures.len(), 1);
    assert_eq!(c.active_closures[0].closure_index, 0);
    assert_eq!(c.active_closures[0].resume_line, Some(3));
    assert_eq!(c.active_closures[0].bindings, 7);

    // Step out with nothing to leave just steps on; at the end the run terminates.
    let mut c: Cursor<u32> = Cursor { current_test: 0, current_trace_index: None, current_line: 6, current_column: 1, active_closures: vec![] };
    let r = step_once_or_end(StepAction::StepOut, &tests, &closures, &[], &[], &lines, &mut c, |i| i as u32);
    assert_eq!(r, StopOutcome::Terminated);
}
