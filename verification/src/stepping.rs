//! The debugger's stepping decisions: where one step leads, which closures
//! stay entered, and where breakpoints fire (snapping column breakpoints to
//! closures that are invoked inline).
use vstd::prelude::*;
use crate::call_syntax::{call_name_spec, extract_call_name};
use crate::position::{at_least_one, BreakpointLocation, SourcePosition};
use crate::text::str_eq;

verus! {

/// A test: its first and last source lines and, where it ran, the
/// positions its run passed through, in order.
pub struct TestTrace {
    pub line: i64,
    pub end_line: i64,
    pub trace: Vec<SourcePosition>,
}

/// A test as a value.
pub struct TestView {
    pub line: i64,
    pub end_line: i64,
    pub trace: Seq<SourcePosition>,
}

impl View for TestTrace {
    type V = TestView;

    open spec fn view(&self) -> TestView {
        TestView { line: self.line, end_line: self.end_line, trace: self.trace@ }
    }
}

/// The views of a sequence of tests.
pub open spec fn test_views(s: Seq<TestTrace>) -> Seq<TestView> {
    s.map_values(|t: TestTrace| t@)
}

/// A closure of the program: its key in the runtime's debug data, the name
/// it is bound to, where it stands in the source, and the line on which it
/// is invoked where that happens on the line that defines it.
#[derive(Debug)]
pub struct ClosureSpan {
    pub debug_key: i64,
    pub name: String,
    pub start_line: i64,
    pub start_column: i64,
    pub end_line: i64,
    pub inline_invocation_line: Option<i64>,
}

/// A closure that stepping has entered: which closure, where stepping
/// resumes when it leaves (a line, or a step of the trace), and the values
/// its variables were bound to on entry.
pub struct EnteredClosure<T> {
    pub closure_index: usize,
    pub resume_line: Option<i64>,
    pub resume_trace_index: Option<usize>,
    pub bindings: T,
}

/// Where the debugger stands: the test, the step of its trace, the
/// position, and the closures entered (innermost last).
pub struct Cursor<T> {
    pub current_test: usize,
    pub current_trace_index: Option<usize>,
    pub current_line: i64,
    pub current_column: i64,
    pub active_closures: Vec<EnteredClosure<T>>,
}

/// A cursor as a value.
pub struct CursorView<T> {
    pub test: int,
    pub trace_index: Option<int>,
    pub line: i64,
    pub column: i64,
    pub active: Seq<EnteredClosure<T>>,
}

impl<T> View for Cursor<T> {
    type V = CursorView<T>;

    open spec fn view(&self) -> CursorView<T> {
        CursorView {
            test: self.current_test as int,
            trace_index: match self.current_trace_index {
                Some(i) => Some(i as int),
                None => None,
            },
            line: self.current_line,
            column: self.current_column,
            active: self.active_closures@,
        }
    }
}

// ---------------------------------------------------------------------------
// Entered closures
// ---------------------------------------------------------------------------

/// Line `line` lies within closure `c`.
pub open spec fn within(c: ClosureSpan, line: i64) -> bool {
    c.start_line <= line <= c.end_line
}

/// The entered closures that remain once those that `line` has left are
/// dropped, innermost first, until one still holds `line`.
pub open spec fn synced<T>(active: Seq<EnteredClosure<T>>, closures: Seq<ClosureSpan>, line: i64) -> Seq<
    EnteredClosure<T>,
>
    decreases active.len(),
{
    if active.len() == 0 {
        active
    } else if !within(closures[active.last().closure_index as int], line) {
        synced(active.drop_last(), closures, line)
    } else {
        active
    }
}

/// Every entered closure is one of `closures`.
pub open spec fn active_ok<T>(active: Seq<EnteredClosure<T>>, closures: Seq<ClosureSpan>) -> bool {
    forall|k: int| 0 <= k < active.len() ==> #[trigger] active[k].closure_index < closures.len()
}

proof fn lemma_synced_prefix<T>(active: Seq<EnteredClosure<T>>, closures: Seq<ClosureSpan>, line: i64)
    requires
        active_ok(active, closures),
    ensures
        active_ok(synced(active, closures, line), closures),
        synced(active, closures, line).len() <= active.len(),
    decreases active.len(),
{
    if active.len() > 0 && !within(closures[active.last().closure_index as int], line) {
        assert(active_ok(active.drop_last(), closures));
        lemma_synced_prefix(active.drop_last(), closures, line);
    }
}

/// The innermost entered closure does not hold `line`.
fn innermost_left<T>(closures: &[ClosureSpan], active: &Vec<EnteredClosure<T>>, line: i64) -> (b: bool)
    requires
        active_ok(active@, closures@),
    ensures
        b == (active@.len() > 0 && !within(closures@[active@.last().closure_index as int], line)),
{
    let n = active.len();
    if n == 0 {
        return false;
    }
    let c = &closures[active[n - 1].closure_index];
    line < c.start_line || line > c.end_line
}

/// Drops the entered closures that the current line has left.
pub fn sync_active_closures<T>(closures: &[ClosureSpan], cursor: &mut Cursor<T>)
    requires
        active_ok(old(cursor).active_closures@, closures@),
    ensures
        final(cursor)@ == (CursorView {
            active: synced(old(cursor)@.active, closures@, old(cursor)@.line),
            ..old(cursor)@
        }),
        active_ok(final(cursor).active_closures@, closures@),
{
    proof {
        lemma_synced_prefix(cursor.active_closures@, closures@, cursor.current_line);
    }
    while innermost_left(closures, &cursor.active_closures, cursor.current_line)
        invariant
            active_ok(cursor.active_closures@, closures@),
            cursor.current_test == old(cursor).current_test,
            cursor.current_trace_index == old(cursor).current_trace_index,
            cursor.current_line == old(cursor).current_line,
            cursor.current_column == old(cursor).current_column,
            synced(cursor.active_closures@, closures@, cursor.current_line) == synced(
                old(cursor).active_closures@,
                closures@,
                old(cursor).current_line,
            ),
        decreases cursor.active_closures@.len(),
    {
        let ghost before = cursor.active_closures@;
        cursor.active_closures.pop();
        assert(cursor.active_closures@ =~= before.drop_last());
    }
    proof {
        lemma_synced_prefix(cursor.active_closures@, closures@, cursor.current_line);
    }
}


// ---------------------------------------------------------------------------
// One step
// ---------------------------------------------------------------------------

/// Steps can be taken from `c` without overflow: the trace step can be
/// advanced, and every test starts after the least line.
pub open spec fn steppable<T>(tests: Seq<TestView>, c: CursorView<T>) -> bool {
    &&& c.trace_index matches Some(i) ==> i < usize::MAX
    &&& forall|k: int| 0 <= k < tests.len() ==> #[trigger] tests[k].line > i64::MIN
}

/// Where one step from `c` leads, and whether there was a step to take.
/// In a test with a trace the next traced position is taken (entered
/// closures that it leaves are dropped); in one without, the next line
/// from the test's first to its last. A test that is done hands over to
/// the next, whose first step is taken in turn.
pub open spec fn advance<T>(tests: Seq<TestView>, closures: Seq<ClosureSpan>, c: CursorView<T>) -> (
    bool,
    CursorView<T>,
)
    decreases tests.len() - c.test,
{
    if c.test < 0 || c.test >= tests.len() {
        (false, c)
    } else {
        let t = tests[c.test];
        let next = match c.trace_index {
            Some(i) => i + 1,
            None => 0,
        };
        if t.trace.len() > 0 && next < t.trace.len() {
            let e = t.trace[next];
            (
                true,
                CursorView {
                    trace_index: Some(next),
                    line: e.line,
                    column: e.column,
                    active: synced(c.active, closures, e.line),
                    ..c
                },
            )
        } else if t.trace.len() == 0 && c.line < t.line {
            (true, CursorView { line: t.line, column: 1, ..c })
        } else if t.trace.len() == 0 && c.line < t.end_line {
            (true, CursorView { line: (c.line + 1) as i64, column: 1, ..c })
        } else {
            let moved = CursorView {
                test: c.test + 1,
                trace_index: if t.trace.len() > 0 {
                    None
                } else {
                    c.trace_index
                },
                ..c
            };
            if moved.test >= tests.len() {
                (false, moved)
            } else {
                advance(
                    tests,
                    closures,
                    CursorView {
                        line: (tests[moved.test].line - 1) as i64,
                        column: 1,
                        ..moved
                    },
                )
            }
        }
    }
}

/// Takes one step; `false` when the last test is done.
pub fn advance_one_line<T>(tests: &[TestTrace], closures: &[ClosureSpan], cursor: &mut Cursor<T>) -> (b: bool)
    requires
        steppable(test_views(tests@), old(cursor)@),
        active_ok(old(cursor).active_closures@, closures@),
    ensures
        (b, final(cursor)@) == advance(test_views(tests@), closures@, old(cursor)@),
        active_ok(final(cursor).active_closures@, closures@),
{
    let ghost tv = test_views(tests@);
    let n = tests.len();
    if n == 0 {
        return false;
    }
    loop
        invariant
            n == tests@.len(),
            tv == test_views(tests@),
            steppable(tv, cursor@),
            active_ok(cursor.active_closures@, closures@),
            advance(tv, closures@, cursor@) == advance(tv, closures@, old(cursor)@),
        decreases n - cursor.current_test,
    {
        if cursor.current_test >= n {
            return false;
        }
        let t = &tests[cursor.current_test];
        assert(tv[cursor.current_test as int] == t@);
        let has_trace = t.trace.len() > 0;
        if has_trace {
            let next = match cursor.current_trace_index {
                Some(i) => i + 1,
                None => 0,
            };
            if next < t.trace.len() {
                let e = t.trace[next];
                cursor.current_trace_index = Some(next);
                cursor.current_line = e.line;
                cursor.current_column = e.column;
                sync_active_closures(closures, cursor);
                return true;
            }
            cursor.current_test = cursor.current_test + 1;
            cursor.current_trace_index = None;
        } else {
            if cursor.current_line < t.line {
                cursor.current_line = t.line;
                cursor.current_column = 1;
                return true;
            }
            if cursor.current_line < t.end_line {
                cursor.current_line = cursor.current_line + 1;
                cursor.current_column = 1;
                return true;
            }
            cursor.current_test = cursor.current_test + 1;
        }
        if cursor.current_test >= n {
            return false;
        }
        assert(tv[cursor.current_test as int].line > i64::MIN);
        cursor.current_line = tests[cursor.current_test].line - 1;
        cursor.current_column = 1;
    }
}


/// `b` lies after `a` in the run: in a later test, or in the same test at
/// a later step of its trace, or (without a trace) on a later line.
pub open spec fn later<T>(tests: Seq<TestView>, a: CursorView<T>, b: CursorView<T>) -> bool {
    ||| b.test > a.test
    ||| b.test == a.test && if tests[a.test].trace.len() > 0 {
        b.trace_index matches Some(j) && (a.trace_index matches Some(i) ==> j > i)
    } else {
        b.line > a.line
    }
}

/// Stepping always progresses or ends: a step that is taken leads to a
/// later place in the run, and when no step is left the cursor is past the
/// last test.
pub proof fn step_progresses<T>(tests: Seq<TestView>, closures: Seq<ClosureSpan>, c: CursorView<T>)
    requires
        0 <= c.test,
    ensures
        advance(tests, closures, c).1.test >= c.test,
        advance(tests, closures, c).0 ==> later(tests, c, advance(tests, closures, c).1),
        !advance(tests, closures, c).0 ==> advance(tests, closures, c).1.test >= tests.len(),
    decreases tests.len() - c.test,
{
    if c.test < tests.len() {
        let t = tests[c.test];
        let next = match c.trace_index {
            Some(i) => i + 1,
            None => 0,
        };
        if !(t.trace.len() > 0 && next < t.trace.len()) && !(t.trace.len() == 0 && c.line < t.line)
            && !(t.trace.len() == 0 && c.line < t.end_line) {
            let moved = CursorView {
                test: c.test + 1,
                trace_index: if t.trace.len() > 0 {
                    None
                } else {
                    c.trace_index
                },
                ..c
            };
            if moved.test < tests.len() {
                step_progresses(
                    tests,
                    closures,
                    CursorView { line: (tests[moved.test].line - 1) as i64, column: 1, ..moved },
                );
            }
        }
    }
}


// ---------------------------------------------------------------------------
// Breakpoints
// ---------------------------------------------------------------------------

/// Closure `c` can take a column breakpoint `bp`: it starts on the
/// breakpoint's line and is invoked on that same line.
pub open spec fn snap_candidate(c: ClosureSpan, bp: BreakpointLocation) -> bool {
    c.start_line == bp.line && c.inline_invocation_line == Some(bp.line)
}

/// The distance between two columns.
pub open spec fn distance(a: i64, b: i64) -> int {
    if a >= b {
        a - b
    } else {
        b - a
    }
}

/// `a` starts at least as near to column `col` as `b` does, ties going to
/// the smaller column.
pub open spec fn nearer_or_same(a: ClosureSpan, b: ClosureSpan, col: i64) -> bool {
    ||| distance(a.start_column, col) < distance(b.start_column, col)
    ||| distance(a.start_column, col) == distance(b.start_column, col) && a.start_column
        <= b.start_column
}

/// The nearest candidate closure for `bp` is at index `k`.
pub open spec fn nearest_candidate(closures: Seq<ClosureSpan>, bp: BreakpointLocation, col: i64, k: int) -> bool {
    &&& 0 <= k < closures.len()
    &&& snap_candidate(closures[k], bp)
    &&& forall|j: int|
        0 <= j < closures.len() && #[trigger] snap_candidate(closures[j], bp) ==> nearer_or_same(
            closures[k],
            closures[j],
            col,
        )
}

/// Where a column breakpoint snaps to: the start of the nearest closure
/// invoked inline on its line, if there is one.
pub open spec fn snapped(closures: Seq<ClosureSpan>, bp: BreakpointLocation) -> Option<SourcePosition> {
    match bp.column {
        None => None,
        Some(col) => if exists|k: int| 0 <= k < closures.len() && snap_candidate(closures[k], bp) {
            let k = choose|k: int| nearest_candidate(closures, bp, col, k);
            Some(
                SourcePosition {
                    line: at_least_one(closures[k].start_line),
                    column: at_least_one(closures[k].start_column),
                },
            )
        } else {
            None
        },
    }
}

/// Measuring distances to `bp`'s column stays in the `i64` range.
pub open spec fn snap_safe(closures: Seq<ClosureSpan>, bp: BreakpointLocation) -> bool {
    bp.column matches Some(col) ==> forall|k: int|
        0 <= k < closures.len() && #[trigger] snap_candidate(closures[k], bp) ==> i64::MIN
            < closures[k].start_column - col <= i64::MAX
}

/// Where breakpoint `bp` snaps to.
pub fn snapped_breakpoint_position(closures: &[ClosureSpan], bp: &BreakpointLocation) -> (r: Option<
    SourcePosition,
>)
    requires
        snap_safe(closures@, *bp),
    ensures
        r == snapped(closures@, *bp),
{
    let col = match bp.column {
        Some(c) => c,
        None => {
            return None;
        },
    };
    let mut best: Option<usize> = None;
    let mut best_dist: i64 = 0;
    let mut i: usize = 0;
    while i < closures.len()
        invariant
            i <= closures@.len(),
            bp.column == Some(col),
            snap_safe(closures@, *bp),
            match best {
                Some(b) => b < i && snap_candidate(closures@[b as int], *bp) && best_dist as int
                    == distance(closures@[b as int].start_column, col) && forall|j: int|
                    0 <= j < i && #[trigger] snap_candidate(closures@[j], *bp) ==> nearer_or_same(
                        closures@[b as int],
                        closures@[j],
                        col,
                    ),
                None => forall|j: int| 0 <= j < i ==> !#[trigger] snap_candidate(closures@[j], *bp),
            },
        decreases closures@.len() - i,
    {
        let c = &closures[i];
        if c.start_line == bp.line && c.inline_invocation_line == Some(bp.line) {
            assert(snap_candidate(closures@[i as int], *bp));
            let d = if c.start_column >= col {
                c.start_column - col
            } else {
                col - c.start_column
            };
            let better = match best {
                None => true,
                Some(b) => d < best_dist || (d == best_dist && c.start_column
                    < closures[b].start_column),
            };
            if better {
                best = Some(i);
                best_dist = d;
            }
        }
        i = i + 1;
    }
    match best {
        None => None,
        Some(b) => {
            proof {
                assert(nearest_candidate(closures@, *bp, col, b as int));
                let k = choose|k: int| nearest_candidate(closures@, *bp, col, k);
                assert(nearer_or_same(closures@[k], closures@[b as int], col));
                assert(nearer_or_same(closures@[b as int], closures@[k], col));
            }
            let c = &closures[b];
            Some(SourcePosition::new(c.start_line, c.start_column))
        },
    }
}

/// Where a stop at `pos` lands, given the breakpoints in the order they
/// are kept: at `pos` for the first breakpoint that fires there, or where
/// a column breakpoint on the same line snaps to.
pub open spec fn matched(bps: Seq<BreakpointLocation>, closures: Seq<ClosureSpan>, pos: SourcePosition) -> Option<
    SourcePosition,
>
    decreases bps.len(),
{
    if bps.len() == 0 {
        None
    } else {
        let b = bps[0];
        let r = if b.hits(pos) {
            Some(pos)
        } else if b.line == pos.line {
            snapped(closures, b)
        } else {
            None
        };
        if r is Some {
            r
        } else {
            matched(bps.drop_first(), closures, pos)
        }
    }
}

/// Where a stop at `position` lands, if a breakpoint fires there.
pub fn matched_breakpoint_position(
    bps: &[BreakpointLocation],
    closures: &[ClosureSpan],
    position: &SourcePosition,
) -> (r: Option<SourcePosition>)
    requires
        forall|k: int| 0 <= k < bps@.len() ==> snap_safe(closures@, #[trigger] bps@[k]),
    ensures
        r == matched(bps@, closures@, *position),
{
    let mut i: usize = 0;
    assert(bps@.skip(0) =~= bps@);
    while i < bps.len()
        invariant
            i <= bps@.len(),
            forall|k: int| 0 <= k < bps@.len() ==> snap_safe(closures@, #[trigger] bps@[k]),
            matched(bps@, closures@, *position) == matched(bps@.skip(i as int), closures@, *position),
        decreases bps@.len() - i,
    {
        let b = &bps[i];
        assert(bps@.skip(i as int)[0] == bps@[i as int]);
        assert(bps@.skip(i as int).drop_first() =~= bps@.skip(i + 1));
        if b.matches(position) {
            return Some(*position);
        }
        if b.line == position.line {
            let r = snapped_breakpoint_position(closures, b);
            if r.is_some() {
                return r;
            }
        }
        i = i + 1;
    }
    None
}

/// Whether a breakpoint fires at the cursor's position; when one does, the
/// cursor moves to where the stop lands.
pub fn breakpoint_hit<T>(bps: &[BreakpointLocation], closures: &[ClosureSpan], cursor: &mut Cursor<T>) -> (b: bool)
    requires
        forall|k: int| 0 <= k < bps@.len() ==> snap_safe(closures@, #[trigger] bps@[k]),
    ensures
        ({
            let here = SourcePosition { line: old(cursor).current_line, column: old(cursor).current_column };
            match matched(bps@, closures@, here) {
                Some(p) => b && final(cursor)@ == (CursorView { line: p.line, column: p.column, ..old(cursor)@ }),
                None => !b && final(cursor)@ == old(cursor)@,
            }
        }),
{
    let here = SourcePosition { line: cursor.current_line, column: cursor.current_column };
    match matched_breakpoint_position(bps, closures, &here) {
        Some(p) => {
            cursor.current_line = p.line;
            cursor.current_column = p.column;
            true
        },
        None => false,
    }
}


// ---------------------------------------------------------------------------
// The trace cursor
// ---------------------------------------------------------------------------

/// The first step of `trace` on line `line` or later.
pub open spec fn first_step_at_or_after(trace: Seq<SourcePosition>, line: i64, k: int) -> bool {
    &&& 0 <= k < trace.len()
    &&& trace[k].line >= line
    &&& forall|j: int| 0 <= j < k ==> #[trigger] trace[j].line < line
}

/// Moves the trace cursor to the first step of the current test's trace
/// on line `line` or later, and gives that step's line; with no such step
/// (or no current test) the trace cursor is cleared.
pub fn first_trace_line_at_or_after<T>(tests: &[TestTrace], cursor: &mut Cursor<T>, line: i64) -> (r: Option<i64>)
    ensures
        ({
            let c = old(cursor)@;
            if 0 <= c.test < tests@.len() && exists|k: int|
                first_step_at_or_after(tests@[c.test].trace@, line, k) {
                let k = choose|k: int| first_step_at_or_after(tests@[c.test].trace@, line, k);
                r == Some(tests@[c.test].trace@[k].line) && final(cursor)@ == (CursorView {
                    trace_index: Some(k),
                    ..c
                })
            } else {
                r is None && final(cursor)@ == (CursorView { trace_index: None, ..c })
            }
        }),
{
    if cursor.current_test >= tests.len() {
        cursor.current_trace_index = None;
        return None;
    }
    let trace = &tests[cursor.current_test].trace;
    assert(trace@ == tests@[cursor.current_test as int].trace@);
    let mut k: usize = 0;
    while k < trace.len()
        invariant
            k <= trace@.len(),
            cursor.current_test < tests@.len(),
            cursor@ == old(cursor)@,
            trace@ == tests@[cursor.current_test as int].trace@,
            forall|j: int| 0 <= j < k ==> #[trigger] trace@[j].line < line,
        decreases trace@.len() - k,
    {
        if trace[k].line >= line {
            proof {
                let c = choose|c: int| first_step_at_or_after(trace@, line, c);
                assert(first_step_at_or_after(trace@, line, k as int));
                if c < k {
                    assert(trace@[c].line < line);
                } else if c > k {
                    assert(trace@[k as int].line < line);
                }
            }
            cursor.current_trace_index = Some(k);
            return Some(trace[k].line);
        }
        k = k + 1;
    }
    assert forall|c: int| !first_step_at_or_after(trace@, line, c) by {
        if 0 <= c < trace@.len() {
            assert(trace@[c].line < line);
        }
    }
    cursor.current_trace_index = None;
    None
}

/// The nearer of two steps on the same line to column `col`, ties going to
/// the smaller column, then to the earlier step.
pub open spec fn step_before(trace: Seq<SourcePosition>, a: int, b: int, col: i64) -> bool {
    ||| distance(trace[a].column, col) < distance(trace[b].column, col)
    ||| distance(trace[a].column, col) == distance(trace[b].column, col) && trace[a].column
        < trace[b].column
    ||| trace[a].column == trace[b].column && a <= b
}

/// Step `k` is the step of `trace` on `line` nearest to column `col`.
pub open spec fn nearest_step(trace: Seq<SourcePosition>, line: i64, col: i64, k: int) -> bool {
    &&& 0 <= k < trace.len()
    &&& trace[k].line == line
    &&& forall|j: int| 0 <= j < trace.len() && #[trigger] trace[j].line == line ==> step_before(trace, k, j, col)
}

/// Measuring distances to `col` on `line` stays in the `i64` range.
pub open spec fn steps_safe(trace: Seq<SourcePosition>, line: i64, col: i64) -> bool {
    forall|k: int|
        0 <= k < trace.len() && #[trigger] trace[k].line == line ==> i64::MIN < trace[k].column - col
            <= i64::MAX
}

/// Puts the trace cursor on the current test's step that is on the
/// current line nearest the current column, and takes that step's column;
/// with none the trace cursor is cleared. Entered closures that the line
/// has left are dropped.
pub fn sync_trace_cursor_to_current_position<T>(
    tests: &[TestTrace],
    closures: &[ClosureSpan],
    cursor: &mut Cursor<T>,
)
    requires
        active_ok(old(cursor).active_closures@, closures@),
        0 <= old(cursor)@.test < tests@.len() ==> steps_safe(
            tests@[old(cursor)@.test].trace@,
            old(cursor)@.line,
            old(cursor)@.column,
        ),
    ensures
        active_ok(final(cursor).active_closures@, closures@),
        ({
            let c = old(cursor)@;
            let synced_active = synced(c.active, closures@, c.line);
            if 0 <= c.test < tests@.len() && exists|k: int|
                nearest_step(tests@[c.test].trace@, c.line, c.column, k) {
                let k = choose|k: int| nearest_step(tests@[c.test].trace@, c.line, c.column, k);
                final(cursor)@ == (CursorView {
                    trace_index: Some(k),
                    column: tests@[c.test].trace@[k].column,
                    active: synced_active,
                    ..c
                })
            } else {
                final(cursor)@ == (CursorView { trace_index: None, active: synced_active, ..c })
            }
        }),
{
    let line = cursor.current_line;
    let col = cursor.current_column;
    let mut best: Option<usize> = None;
    if cursor.current_test < tests.len() {
        let trace = &tests[cursor.current_test].trace;
        let mut best_dist: i64 = 0;
        let mut i: usize = 0;
        while i < trace.len()
            invariant
                i <= trace@.len(),
                steps_safe(trace@, line, col),
                match best {
                    Some(b) => b < i && trace@[b as int].line == line && best_dist as int
                        == distance(trace@[b as int].column, col) && forall|j: int|
                        0 <= j < i && #[trigger] trace@[j].line == line ==> step_before(
                            trace@,
                            b as int,
                            j,
                            col,
                        ),
                    None => forall|j: int| 0 <= j < i ==> #[trigger] trace@[j].line != line,
                },
            decreases trace@.len() - i,
        {
            let e = trace[i];
            if e.line == line {
                let d = if e.column >= col {
                    e.column - col
                } else {
                    col - e.column
                };
                let better = match best {
                    None => true,
                    Some(b) => d < best_dist || (d == best_dist && e.column < trace[b].column),
                };
                if better {
                    best = Some(i);
                    best_dist = d;
                }
            }
            i = i + 1;
        }
        match best {
            Some(b) => {
                proof {
                    assert(nearest_step(trace@, line, col, b as int));
                    let k = choose|k: int| nearest_step(trace@, line, col, k);
                    assert(step_before(trace@, k, b as int, col));
                    assert(step_before(trace@, b as int, k, col));
                }
                cursor.current_trace_index = Some(b);
                cursor.current_column = trace[b].column;
            },
            None => {
                cursor.current_trace_index = None;
            },
        }
    } else {
        cursor.current_trace_index = None;
    }
    sync_active_closures(closures, cursor);
}

/// The test that holds the current line, else the current test.
pub fn active_test<T>(tests: &[TestTrace], cursor: &Cursor<T>) -> (r: Option<usize>)
    ensures
        match r {
            Some(i) => i < tests@.len() && ((tests@[i as int].line <= cursor.current_line
                <= tests@[i as int].end_line && forall|j: int|
                0 <= j < i ==> !(#[trigger] tests@[j].line <= cursor.current_line
                <= tests@[j].end_line)) || (i == cursor.current_test && forall|j: int|
                0 <= j < tests@.len() ==> !(#[trigger] tests@[j].line <= cursor.current_line
                <= tests@[j].end_line))),
            None => cursor.current_test >= tests@.len() && forall|j: int|
                0 <= j < tests@.len() ==> !(#[trigger] tests@[j].line <= cursor.current_line
                <= tests@[j].end_line),
        },
{
    let mut i: usize = 0;
    while i < tests.len()
        invariant
            i <= tests@.len(),
            forall|j: int|
                0 <= j < i ==> !(#[trigger] tests@[j].line <= cursor.current_line
                    <= tests@[j].end_line),
        decreases tests@.len() - i,
    {
        if tests[i].line <= cursor.current_line && cursor.current_line <= tests[i].end_line {
            return Some(i);
        }
        i = i + 1;
    }
    if cursor.current_test < tests.len() {
        Some(cursor.current_test)
    } else {
        None
    }
}

/// Whether a run can go on at full speed in the runtime: the current test
/// has not begun and no breakpoint of the file is pinned to a column.
pub fn can_continue_with_runtime<T>(tests: &[TestTrace], bps: &[BreakpointLocation], cursor: &Cursor<T>) -> (b: bool)
    ensures
        b == (cursor.current_test < tests@.len() && cursor.current_trace_index is None
            && cursor.current_line < tests@[cursor.current_test as int].line && forall|k: int|
            0 <= k < bps@.len() ==> (#[trigger] bps@[k]).column is None),
{
    if cursor.current_test >= tests.len() {
        return false;
    }
    let mut k: usize = 0;
    while k < bps.len()
        invariant
            k <= bps@.len(),
            forall|j: int| 0 <= j < k ==> (#[trigger] bps@[j]).column is None,
        decreases bps@.len() - k,
    {
        if bps[k].column.is_some() {
            return false;
        }
        k = k + 1;
    }
    cursor.current_trace_index.is_none() && cursor.current_line < tests[cursor.current_test].line
}


// ---------------------------------------------------------------------------
// Matching a runtime trace with the simulated one
// ---------------------------------------------------------------------------

/// The first index from `start` on at which `lines` holds `line`.
pub open spec fn first_on_line_from(lines: Seq<i64>, start: int, line: i64) -> Option<int>
    decreases lines.len() - start,
{
    if start < 0 || start >= lines.len() {
        None
    } else if lines[start] == line {
        Some(start)
    } else {
        first_on_line_from(lines, start + 1, line)
    }
}

/// The simulated step that each runtime step (by line) is matched with:
/// the next simulated step on the same line after the last one matched,
/// else the first simulated step on that line anywhere, else none.
pub open spec fn align_from(events: Seq<i64>, sim: Seq<i64>, start: int) -> Seq<Option<int>>
    decreases events.len(),
{
    if events.len() == 0 {
        Seq::empty()
    } else {
        match first_on_line_from(sim, start, events[0]) {
            Some(k) => seq![Some(k)] + align_from(events.drop_first(), sim, k + 1),
            None => seq![first_on_line_from(sim, 0, events[0])] + align_from(
                events.drop_first(),
                sim,
                start,
            ),
        }
    }
}

/// An optional index as an integer.
pub open spec fn opt_index(o: Option<usize>) -> Option<int> {
    match o {
        Some(i) => Some(i as int),
        None => None,
    }
}

proof fn lemma_first_on_line_bounds(lines: Seq<i64>, start: int, line: i64)
    requires
        0 <= start,
    ensures
        first_on_line_from(lines, start, line) matches Some(k) ==> start <= k < lines.len()
            && lines[k] == line,
    decreases lines.len() - start,
{
    if start < lines.len() && lines[start] != line {
        lemma_first_on_line_bounds(lines, start + 1, line);
    }
}

fn first_on_line(lines: &[i64], start: usize, line: i64) -> (r: Option<usize>)
    ensures
        opt_index(r) == first_on_line_from(lines@, start as int, line),
{
    let mut k = start;
    while k < lines.len() && lines[k] != line
        invariant
            start <= k,
            first_on_line_from(lines@, start as int, line) == first_on_line_from(
                lines@,
                k as int,
                line,
            ),
        decreases lines@.len() - k,
    {
        k = k + 1;
    }
    if k < lines.len() {
        Some(k)
    } else {
        None
    }
}

/// Matches each step of a runtime trace (given by its line) with a step of
/// the simulated trace (given by their lines), in order.
pub fn align_runtime_trace(event_lines: &[i64], simulated_lines: &[i64]) -> (r: Vec<Option<usize>>)
    ensures
        r@.map_values(|o: Option<usize>| opt_index(o)) == align_from(
            event_lines@,
            simulated_lines@,
            0,
        ),
{
    let n_sim = simulated_lines.len();
    let mut out: Vec<Option<usize>> = Vec::new();
    let mut search_start: usize = 0;
    let mut i: usize = 0;
    assert(event_lines@.skip(0) =~= event_lines@);
    assert(out@.map_values(|o: Option<usize>| opt_index(o)) + align_from(event_lines@, simulated_lines@, 0)
        =~= align_from(event_lines@, simulated_lines@, 0));
    while i < event_lines.len()
        invariant
            i <= event_lines@.len(),
            n_sim == simulated_lines@.len(),
            search_start <= simulated_lines@.len(),
            out@.map_values(|o: Option<usize>| opt_index(o)) + align_from(
                event_lines@.skip(i as int),
                simulated_lines@,
                search_start as int,
            ) == align_from(event_lines@, simulated_lines@, 0),
        decreases event_lines@.len() - i,
    {
        let line = event_lines[i];
        let ghost rest = event_lines@.skip(i as int);
        assert(rest[0] == line);
        assert(rest.drop_first() =~= event_lines@.skip(i + 1));
        let ghost before = out@.map_values(|o: Option<usize>| opt_index(o));
        let ghost s0 = search_start as int;
        proof {
            lemma_first_on_line_bounds(simulated_lines@, search_start as int, line);
        }
        match first_on_line(simulated_lines, search_start, line) {
            Some(k) => {
                out.push(Some(k));
                search_start = k + 1;
            },
            None => {
                let any = first_on_line(simulated_lines, 0, line);
                out.push(any);
            },
        }
        i = i + 1;
        let ghost x = opt_index(out@[out@.len() - 1]);
        assert(out@.map_values(|o: Option<usize>| opt_index(o)) =~= before.push(x));
        assert(align_from(rest, simulated_lines@, s0) == seq![x] + align_from(
            rest.drop_first(),
            simulated_lines@,
            search_start as int,
        ));
        assert(before.push(x) + align_from(rest.drop_first(), simulated_lines@, search_start as int)
            =~= before + (seq![x] + align_from(
            rest.drop_first(),
            simulated_lines@,
            search_start as int,
        )));
    }
    assert(event_lines@.skip(i as int) =~= Seq::<i64>::empty());
    assert(out@.map_values(|o: Option<usize>| opt_index(o)) + Seq::<Option<int>>::empty()
        =~= out@.map_values(|o: Option<usize>| opt_index(o)));
    out
}


/// After syncing, the innermost entered closure (if any is left) holds the
/// line, and syncing again changes nothing.
pub proof fn synced_holds_line<T>(active: Seq<EnteredClosure<T>>, closures: Seq<ClosureSpan>, line: i64)
    ensures
        synced(active, closures, line).len() > 0 ==> within(
            closures[synced(active, closures, line).last().closure_index as int],
            line,
        ),
        synced(synced(active, closures, line), closures, line) == synced(active, closures, line),
    decreases active.len(),
{
    if active.len() > 0 && !within(closures[active.last().closure_index as int], line) {
        synced_holds_line(active.drop_last(), closures, line);
    }
}


// ---------------------------------------------------------------------------
// Closures in force
// ---------------------------------------------------------------------------

/// The first closure whose runtime key is `key`.
pub open spec fn first_with_key(closures: Seq<ClosureSpan>, key: i64, from: int) -> Option<int>
    decreases closures.len() - from,
{
    if from < 0 || from >= closures.len() {
        None
    } else if closures[from].debug_key == key {
        Some(from)
    } else {
        first_with_key(closures, key, from + 1)
    }
}

/// `s` with `x` added at its end unless it is already there.
pub open spec fn add_unique(s: Seq<usize>, x: usize) -> Seq<usize> {
    if s.contains(x) {
        s
    } else {
        s.push(x)
    }
}

/// The closures named by the runtime keys `keys`, in order, each once.
pub open spec fn keyed_indices(closures: Seq<ClosureSpan>, keys: Seq<i64>) -> Seq<usize>
    decreases keys.len(),
{
    if keys.len() == 0 {
        Seq::empty()
    } else {
        let prev = keyed_indices(closures, keys.drop_last());
        match first_with_key(closures, keys.last(), 0) {
            Some(i) => add_unique(prev, i as usize),
            None => prev,
        }
    }
}

/// `s` followed by the entered closures that it does not hold yet.
pub open spec fn with_entered<T>(s: Seq<usize>, active: Seq<EnteredClosure<T>>) -> Seq<usize>
    decreases active.len(),
{
    if active.len() == 0 {
        s
    } else {
        add_unique(with_entered(s, active.drop_last()), active.last().closure_index)
    }
}

/// Line `line` lies inside closure `c`, after the line it starts on.
pub open spec fn encloses(c: ClosureSpan, line: i64) -> bool {
    c.start_line < line <= c.end_line
}

/// Closure `a` comes before closure `b` from the outside in: it starts on
/// an earlier line, or on the same line and ends later; ties go by index.
pub open spec fn outer_first(closures: Seq<ClosureSpan>, a: int, b: int) -> bool {
    let ca = closures[a];
    let cb = closures[b];
    ||| ca.start_line < cb.start_line
    ||| ca.start_line == cb.start_line && ca.end_line > cb.end_line
    ||| ca.start_line == cb.start_line && ca.end_line == cb.end_line && a < b
}

/// `r` lists the closures that enclose `line`, each once, from the outside
/// in.
pub open spec fn enclosing_order(closures: Seq<ClosureSpan>, line: i64, r: Seq<usize>) -> bool {
    &&& forall|k: int| 0 <= k < r.len() ==> #[trigger] r[k] < closures.len() && encloses(closures[r[k] as int], line)
    &&& forall|j: int| 0 <= j < closures.len() && #[trigger] encloses(closures[j], line) ==> r.contains(j as usize)
    &&& forall|k: int, l: int| 0 <= k < l < r.len() ==> outer_first(closures, #[trigger] r[k] as int, #[trigger] r[l] as int)
}

/// The closures in force at the cursor, innermost last: those the runtime
/// reports (by key) and those stepping has entered; if there are none, the
/// closures that enclose the current line, from the outside in.
pub open spec fn active_indices_ok<T>(
    closures: Seq<ClosureSpan>,
    keys: Seq<i64>,
    c: CursorView<T>,
    r: Seq<usize>,
) -> bool {
    let base = with_entered(keyed_indices(closures, keys), c.active);
    if base.len() > 0 {
        r == base
    } else {
        enclosing_order(closures, c.line, r)
    }
}

fn first_key_index(closures: &[ClosureSpan], key: i64) -> (r: Option<usize>)
    ensures
        opt_index(r) == first_with_key(closures@, key, 0),
        r matches Some(i) ==> i < closures@.len(),
{
    let mut k: usize = 0;
    while k < closures.len() && closures[k].debug_key != key
        invariant
            first_with_key(closures@, key, 0) == first_with_key(closures@, key, k as int),
        decreases closures@.len() - k,
    {
        k = k + 1;
    }
    if k < closures.len() {
        Some(k)
    } else {
        None
    }
}

fn push_unique(v: &mut Vec<usize>, x: usize)
    ensures
        final(v)@ == add_unique(old(v)@, x),
{
    let mut k: usize = 0;
    while k < v.len()
        invariant
            k <= v@.len(),
            v@ == old(v)@,
            forall|j: int| 0 <= j < k ==> v@[j] != x,
        decreases v@.len() - k,
    {
        if v[k] == x {
            assert(v@.contains(x));
            return;
        }
        k = k + 1;
    }
    assert(!v@.contains(x));
    v.push(x);
}

fn outer_before(closures: &[ClosureSpan], a: usize, b: usize) -> (r: bool)
    requires
        a < closures@.len(),
        b < closures@.len(),
    ensures
        r == outer_first(closures@, a as int, b as int),
{
    let ca = &closures[a];
    let cb = &closures[b];
    ca.start_line < cb.start_line || (ca.start_line == cb.start_line && (ca.end_line > cb.end_line
        || (ca.end_line == cb.end_line && a < b)))
}

proof fn lemma_outer_first_total(closures: Seq<ClosureSpan>, a: int, b: int)
    requires
        a != b,
    ensures
        outer_first(closures, a, b) || outer_first(closures, b, a),
        !(outer_first(closures, a, b) && outer_first(closures, b, a)),
{
}

proof fn lemma_outer_first_transitive(closures: Seq<ClosureSpan>, a: int, b: int, c: int)
    requires
        outer_first(closures, a, b),
        outer_first(closures, b, c),
    ensures
        outer_first(closures, a, c),
{
}

/// The closures in force at the cursor, innermost last.
pub fn active_closure_indices<T>(closures: &[ClosureSpan], keys: &[i64], cursor: &Cursor<T>) -> (r: Vec<usize>)
    requires
        active_ok(cursor.active_closures@, closures@),
    ensures
        active_indices_ok(closures@, keys@, cursor@, r@),
{
    let mut indices: Vec<usize> = Vec::new();
    let mut k: usize = 0;
    while k < keys.len()
        invariant
            k <= keys@.len(),
            indices@ == keyed_indices(closures@, keys@.take(k as int)),
        decreases keys@.len() - k,
    {
        assert(keys@.take(k + 1).drop_last() =~= keys@.take(k as int));
        match first_key_index(closures, keys[k]) {
            Some(i) => push_unique(&mut indices, i),
            None => {},
        }
        k = k + 1;
    }
    assert(keys@.take(keys@.len() as int) =~= keys@);
    let ghost keyed = indices@;
    let mut e: usize = 0;
    while e < cursor.active_closures.len()
        invariant
            e <= cursor.active_closures@.len(),
            indices@ == with_entered(keyed, cursor.active_closures@.take(e as int)),
        decreases cursor.active_closures@.len() - e,
    {
        assert(cursor.active_closures@.take(e + 1).drop_last() =~= cursor.active_closures@.take(
            e as int,
        ));
        push_unique(&mut indices, cursor.active_closures[e].closure_index);
        e = e + 1;
    }
    assert(cursor.active_closures@.take(cursor.active_closures@.len() as int)
        =~= cursor.active_closures@);
    if indices.len() > 0 {
        return indices;
    }
    let line = cursor.current_line;
    let mut derived: Vec<usize> = Vec::new();
    let mut j: usize = 0;
    while j < closures.len()
        invariant
            j <= closures@.len(),
            forall|k: int| 0 <= k < derived@.len() ==> #[trigger] derived@[k] < j && encloses(
                closures@[derived@[k] as int],
                line,
            ),
            forall|i: int| 0 <= i < j && #[trigger] encloses(closures@[i], line) ==> derived@.contains(
                i as usize,
            ),
            forall|k: int, l: int|
                0 <= k < l < derived@.len() ==> outer_first(
                    closures@,
                    #[trigger] derived@[k] as int,
                    #[trigger] derived@[l] as int,
                ),
        decreases closures@.len() - j,
    {
        let c = &closures[j];
        if line > c.start_line && line <= c.end_line {
            let mut pos: usize = 0;
            while pos < derived.len() && !outer_before(closures, j, derived[pos])
                invariant
                    pos <= derived@.len(),
                    j < closures@.len(),
                    forall|k: int| 0 <= k < derived@.len() ==> #[trigger] derived@[k] < j,
                    forall|k: int| 0 <= k < pos ==> outer_first(closures@, #[trigger] derived@[k] as int, j as int),
                decreases derived@.len() - pos,
            {
                proof {
                    lemma_outer_first_total(closures@, j as int, derived@[pos as int] as int);
                }
                pos = pos + 1;
            }
            let ghost before = derived@;
            derived.insert(pos, j);
            proof {
                assert forall|k: int, l: int|
                    0 <= k < l < derived@.len() implies outer_first(
                        closures@,
                        #[trigger] derived@[k] as int,
                        #[trigger] derived@[l] as int,
                    ) by {
                    if l < pos {
                        assert(derived@[k] == before[k] && derived@[l] == before[l]);
                    } else if l == pos {
                        assert(derived@[k] == before[k]);
                    } else if k == pos {
                        assert(derived@[l] == before[l - 1]);
                        if pos < before.len() {
                            assert(outer_first(closures@, j as int, before[pos as int] as int));
                            if l - 1 > pos {
                                lemma_outer_first_transitive(
                                    closures@,
                                    j as int,
                                    before[pos as int] as int,
                                    before[l - 1] as int,
                                );
                            }
                        }
                    } else if k < pos {
                        assert(derived@[k] == before[k] && derived@[l] == before[l - 1]);
                    } else {
                        assert(derived@[k] == before[k - 1] && derived@[l] == before[l - 1]);
                    }
                }
                assert forall|i: int| 0 <= i < j + 1 && #[trigger] encloses(closures@[i], line) implies derived@.contains(
                    i as usize,
                ) by {
                    if i < j {
                        let w = choose|w: int| 0 <= w < before.len() && before[w] == i as usize;
                        if w < pos {
                            assert(derived@[w] == i as usize);
                        } else {
                            assert(derived@[w + 1] == i as usize);
                        }
                    } else {
                        assert(derived@[pos as int] == j);
                    }
                }
            }
        }
        j = j + 1;
    }
    derived
}


// ---------------------------------------------------------------------------
// Stepping out of a closure
// ---------------------------------------------------------------------------

/// The innermost closure in force: the last one the runtime reports or
/// stepping has entered; if there are none, the innermost closure that
/// encloses the current line.
pub open spec fn innermost_active<T>(closures: Seq<ClosureSpan>, keys: Seq<i64>, c: CursorView<T>) -> Option<
    int,
> {
    let base = with_entered(keyed_indices(closures, keys), c.active);
    if base.len() > 0 {
        Some(base.last() as int)
    } else if exists|j: int| 0 <= j < closures.len() && encloses(closures[j], c.line) {
        Some(
            choose|j: int|
                0 <= j < closures.len() && encloses(closures[j], c.line) && forall|i: int|
                    0 <= i < closures.len() && i != j && #[trigger] encloses(closures[i], c.line)
                        ==> outer_first(closures, i, j),
        )
    } else {
        None
    }
}

/// The step of the current test's trace that a jump to `line` lands on:
/// the first on that line or later.
pub open spec fn landing_step<T>(tests: Seq<TestView>, c: CursorView<T>, line: i64) -> Option<int> {
    if 0 <= c.test < tests.len() && exists|k: int| first_step_at_or_after(tests[c.test].trace, line, k) {
        Some(choose|k: int| first_step_at_or_after(tests[c.test].trace, line, k))
    } else {
        None
    }
}

/// The cursor after a jump to line `line`: onto the first traced step on
/// that line or later if there is one, else onto the line itself; entered
/// closures that the new line has left are dropped.
pub open spec fn jump_to<T>(tests: Seq<TestView>, closures: Seq<ClosureSpan>, c: CursorView<T>, line: i64) -> CursorView<
    T,
> {
    let (index, to) = match landing_step(tests, c, line) {
        Some(k) => (Some(k), tests[c.test].trace[k].line),
        None => (None, line),
    };
    CursorView { trace_index: index, line: to, active: synced(c.active, closures, to), ..c }
}

/// Where stepping out leads. Out of an entered closure: back to the step
/// of the trace it resumes at, else to its resume line (by default the
/// next line). With no entered closure: past the end of the innermost
/// closure in force. With neither there is nothing to step out of.
pub open spec fn step_out<T>(tests: Seq<TestView>, closures: Seq<ClosureSpan>, keys: Seq<i64>, c: CursorView<T>) -> (
    bool,
    CursorView<T>,
) {
    if c.active.len() > 0 {
        let top = c.active.last();
        let popped = CursorView { active: c.active.drop_last(), ..c };
        let ri = match top.resume_trace_index {
            Some(i) => i as int,
            None => -1,
        };
        if 0 <= ri && 0 <= c.test < tests.len() && ri < tests[c.test].trace.len() {
            let e = tests[c.test].trace[ri];
            (
                true,
                CursorView {
                    trace_index: Some(ri),
                    line: e.line,
                    active: synced(popped.active, closures, e.line),
                    ..popped
                },
            )
        } else {
            let resume = match top.resume_line {
                Some(l) => l,
                None => (c.line + 1) as i64,
            };
            (true, jump_to(tests, closures, popped, resume))
        }
    } else {
        match innermost_active(closures, keys, c) {
            Some(ci) => (true, jump_to(tests, closures, c, (closures[ci].end_line + 1) as i64)),
            None => (false, c),
        }
    }
}

/// Stepping out can be computed without overflow.
pub open spec fn step_out_safe<T>(closures: Seq<ClosureSpan>, c: CursorView<T>) -> bool {
    &&& c.line < i64::MAX
    &&& forall|k: int| 0 <= k < closures.len() ==> #[trigger] closures[k].end_line < i64::MAX
}

proof fn lemma_innermost(closures: Seq<ClosureSpan>, line: i64, r: Seq<usize>)
    requires
        closures.len() <= usize::MAX,
        enclosing_order(closures, line, r),
        r.len() > 0,
    ensures
        ({
            let j = r.last() as int;
            0 <= j < closures.len() && encloses(closures[j], line) && forall|i: int|
                0 <= i < closures.len() && i != j && #[trigger] encloses(closures[i], line)
                    ==> outer_first(closures, i, j)
        }),
        forall|j: int, k: int|
            0 <= j < closures.len() && encloses(closures[j], line) && (forall|i: int|
                0 <= i < closures.len() && i != j && #[trigger] encloses(closures[i], line)
                    ==> outer_first(closures, i, j)) && 0 <= k < closures.len() && encloses(
                closures[k],
                line,
            ) && (forall|i: int|
                0 <= i < closures.len() && i != k && #[trigger] encloses(closures[i], line)
                    ==> outer_first(closures, i, k)) ==> j == k,
{
    let j = r.last() as int;
    assert(r[r.len() - 1] < closures.len());
    assert forall|i: int|
        0 <= i < closures.len() && i != j && #[trigger] encloses(closures[i], line) implies outer_first(
        closures,
        i,
        j,
    ) by {
        assert(r.contains(i as usize));
        let w = choose|w: int| 0 <= w < r.len() && r[w] == i as usize;
        assert(r[w] as int == i);
        assert(w != r.len() - 1);
        assert(outer_first(closures, r[w] as int, r[r.len() - 1] as int));
    }
    assert forall|a: int, b: int|
        0 <= a < closures.len() && encloses(closures[a], line) && (forall|i: int|
            0 <= i < closures.len() && i != a && #[trigger] encloses(closures[i], line)
                ==> outer_first(closures, i, a)) && 0 <= b < closures.len() && encloses(
            closures[b],
            line,
        ) && (forall|i: int|
            0 <= i < closures.len() && i != b && #[trigger] encloses(closures[i], line)
                ==> outer_first(closures, i, b)) implies a == b by {
        if a != b {
            assert(encloses(closures[b], line));
            assert(encloses(closures[a], line));
            assert(outer_first(closures, b, a));
            assert(outer_first(closures, a, b));
            lemma_outer_first_total(closures, a, b);
        }
    }
}

proof fn lemma_first_with_key_range(closures: Seq<ClosureSpan>, key: i64, from: int)
    requires
        0 <= from,
    ensures
        first_with_key(closures, key, from) matches Some(i) ==> from <= i < closures.len(),
    decreases closures.len() - from,
{
    if from < closures.len() && closures[from].debug_key != key {
        lemma_first_with_key_range(closures, key, from + 1);
    }
}

proof fn lemma_keyed_in_range(closures: Seq<ClosureSpan>, keys: Seq<i64>)
    ensures
        forall|k: int|
            0 <= k < keyed_indices(closures, keys).len() ==> #[trigger] keyed_indices(closures, keys)[k]
                < closures.len(),
    decreases keys.len(),
{
    if keys.len() > 0 {
        lemma_keyed_in_range(closures, keys.drop_last());
        lemma_first_with_key_range(closures, keys.last(), 0);
        let prev = keyed_indices(closures, keys.drop_last());
        match first_with_key(closures, keys.last(), 0) {
            Some(i) => {
                if !prev.contains(i as usize) {
                    assert forall|k: int| 0 <= k < prev.push(i as usize).len() implies #[trigger] prev.push(
                        i as usize,
                    )[k] < closures.len() by {
                        if k < prev.len() {
                            assert(prev.push(i as usize)[k] == prev[k]);
                        }
                    }
                }
            },
            None => {},
        }
    }
}

/// Moves the cursor to the line it should jump to.
fn jump_exec<T>(tests: &[TestTrace], closures: &[ClosureSpan], cursor: &mut Cursor<T>, line: i64)
    requires
        active_ok(old(cursor).active_closures@, closures@),
    ensures
        final(cursor)@ == jump_to(test_views(tests@), closures@, old(cursor)@, line),
        active_ok(final(cursor).active_closures@, closures@),
{
    let ghost c = cursor@;
    let found = first_trace_line_at_or_after(tests, cursor, line);
    proof {
        if 0 <= c.test < tests@.len() {
            assert(test_views(tests@)[c.test] == tests@[c.test]@);
            assert(test_views(tests@)[c.test].trace == tests@[c.test].trace@);
            assert(landing_step(test_views(tests@), c, line) == if exists|k: int|
                first_step_at_or_after(tests@[c.test].trace@, line, k) {
                Some(choose|k: int| first_step_at_or_after(tests@[c.test].trace@, line, k))
            } else {
                None
            });
        }
    }
    match found {
        Some(l) => {
            cursor.current_line = l;
        },
        None => {
            cursor.current_line = line;
        },
    }
    sync_active_closures(closures, cursor);
}

/// Steps out of the innermost closure; `false` when there is none.
#[verifier::spinoff_prover]
#[verifier::rlimit(40)]
pub fn step_out_of_closure<T>(
    tests: &[TestTrace],
    closures: &[ClosureSpan],
    keys: &[i64],
    cursor: &mut Cursor<T>,
) -> (b: bool)
    requires
        active_ok(old(cursor).active_closures@, closures@),
        step_out_safe(closures@, old(cursor)@),
    ensures
        (b, final(cursor)@) == step_out(test_views(tests@), closures@, keys@, old(cursor)@),
        active_ok(final(cursor).active_closures@, closures@),
{
    let ghost c = cursor@;
    let ghost tv = test_views(tests@);
    match cursor.active_closures.pop() {
        Some(active) => {
            assert(active_ok(cursor.active_closures@, closures@));
            match active.resume_trace_index {
                Some(ri) => {
                    if cursor.current_test < tests.len() {
                        let t = &tests[cursor.current_test];
                        assert(tv[cursor.current_test as int] == t@);
                        if ri < t.trace.len() {
                            let e = t.trace[ri];
                            cursor.current_trace_index = Some(ri);
                            cursor.current_line = e.line;
                            sync_active_closures(closures, cursor);
                            return true;
                        }
                    }
                },
                None => {},
            }
            let resume = match active.resume_line {
                Some(l) => l,
                None => cursor.current_line + 1,
            };
            jump_exec(tests, closures, cursor, resume);
            true
        },
        None => {
            let nc = closures.len();
            let indices = active_closure_indices(closures, keys, cursor);
            let n = indices.len();
            if n == 0 {
                proof {
                    let base = with_entered(keyed_indices(closures@, keys@), c.active);
                    assert forall|j: int| 0 <= j < closures@.len() implies !encloses(closures@[j], c.line) by {
                        if encloses(closures@[j], c.line) {
                            assert(indices@.contains(j as usize));
                        }
                    }
                }
                return false;
            }
            let ci = indices[n - 1];
            proof {
                let base = with_entered(keyed_indices(closures@, keys@), c.active);
                if base.len() == 0 {
                    lemma_innermost(closures@, c.line, indices@);
                    let j = indices@.last() as int;
                    assert(0 <= j < closures@.len() && encloses(closures@[j], c.line));
                } else {
                    lemma_keyed_in_range(closures@, keys@);
                    assert(base == keyed_indices(closures@, keys@));
                    assert(indices@[n - 1] < closures@.len());
                }
            }
            let target = closures[ci].end_line + 1;
            jump_exec(tests, closures, cursor, target);
            true
        },
    }
}


// ---------------------------------------------------------------------------
// Stepping into a closure
// ---------------------------------------------------------------------------

/// The first closure from `from` on that is bound to `name`.
pub open spec fn closure_named(closures: Seq<ClosureSpan>, name: Seq<char>, from: int) -> Option<int>
    decreases closures.len() - from,
{
    if from < 0 || from >= closures.len() {
        None
    } else if closures[from].name@ == name {
        Some(from)
    } else {
        closure_named(closures, name, from + 1)
    }
}

/// The views of the source's lines.
pub open spec fn line_views(v: Seq<String>) -> Seq<Seq<char>> {
    v.map_values(|l: String| l@)
}

/// Closure `c` is invoked inline on line `line`.
pub open spec fn invoked_on(c: ClosureSpan, line: i64) -> bool {
    c.inline_invocation_line == Some(line)
}

/// How far the cursor at `(line, col)` is from closure `c`: nothing when it
/// stands at its start, the columns to go when the closure starts later on
/// the line, and far otherwise.
pub open spec fn invoke_distance(c: ClosureSpan, line: i64, col: i64) -> int {
    if c.start_line == line && col == c.start_column {
        0
    } else if c.start_line == line && c.start_column >= col {
        c.start_column - col
    } else {
        i64::MAX / 4 + c.start_column
    }
}

/// Closure `a` is at least as near as closure `b` (distance, then start
/// column), ties going to the earlier closure.
pub open spec fn invoke_before(closures: Seq<ClosureSpan>, a: int, b: int, line: i64, col: i64) -> bool {
    let da = invoke_distance(closures[a], line, col);
    let db = invoke_distance(closures[b], line, col);
    ||| da < db
    ||| da == db && closures[a].start_column < closures[b].start_column
    ||| da == db && closures[a].start_column == closures[b].start_column && a <= b
}

/// Closure `k` is the nearest of those invoked inline on `line`.
pub open spec fn nearest_inline(closures: Seq<ClosureSpan>, line: i64, col: i64, k: int) -> bool {
    &&& 0 <= k < closures.len()
    &&& invoked_on(closures[k], line)
    &&& forall|j: int|
        0 <= j < closures.len() && #[trigger] invoked_on(closures[j], line) ==> invoke_before(
            closures,
            k,
            j,
            line,
            col,
        )
}

/// The closure that stepping in at the cursor enters, and the line that
/// stepping resumes at after it: the closure bound to the name called on
/// the current line, else the nearest closure invoked inline on it.
pub open spec fn invoked<T>(lines: Seq<Seq<char>>, closures: Seq<ClosureSpan>, c: CursorView<T>) -> Option<
    (int, i64),
> {
    if c.line <= 0 || c.line > lines.len() {
        None
    } else {
        let col = if c.column < 1 {
            1
        } else {
            c.column
        };
        let named = match call_name_spec(lines[c.line - 1]) {
            Some(n) => closure_named(closures, n, 0),
            None => None,
        };
        match named {
            Some(i) => Some((i, (c.line + 1) as i64)),
            None => if exists|k: int| 0 <= k < closures.len() && invoked_on(closures[k], c.line) {
                Some((choose|k: int| nearest_inline(closures, c.line, col, k), (c.line + 1) as i64))
            } else {
                None
            },
        }
    }
}

/// Looking for the invoked closure stays in the `i64` range.
pub open spec fn invoke_safe<T>(closures: Seq<ClosureSpan>, c: CursorView<T>) -> bool {
    &&& c.line < i64::MAX
    &&& forall|k: int|
        0 <= k < closures.len() && #[trigger] invoked_on(closures[k], c.line) ==> closures[k].start_column
            <= i64::MAX - i64::MAX / 4
}

fn closure_by_name(closures: &[ClosureSpan], name: &str) -> (r: Option<usize>)
    ensures
        opt_index(r) == closure_named(closures@, name@, 0),
        r matches Some(i) ==> i < closures@.len(),
{
    let mut k: usize = 0;
    while k < closures.len() && !str_eq(closures[k].name.as_str(), name)
        invariant
            closure_named(closures@, name@, 0) == closure_named(closures@, name@, k as int),
        decreases closures@.len() - k,
    {
        k = k + 1;
    }
    if k < closures.len() {
        Some(k)
    } else {
        None
    }
}

/// The closure that stepping in at the cursor enters, with the line that
/// stepping resumes at after it.
pub fn invoked_closure<T>(source_lines: &[String], closures: &[ClosureSpan], cursor: &Cursor<T>) -> (r:
    Option<(usize, i64)>)
    requires
        invoke_safe(closures@, cursor@),
    ensures
        match r {
            Some((i, resume)) => invoked(
                line_views(source_lines@),
                closures@,
                cursor@,
            ) == Some((i as int, resume)),
            None => invoked(line_views(source_lines@), closures@, cursor@) is None,
        },
        r matches Some((i, _)) ==> i < closures@.len(),
{
    let ghost lv = line_views(source_lines@);
    let line = cursor.current_line;
    let nl = source_lines.len();
    if line <= 0 || (line - 1) as u64 >= nl as u64 {
        return None;
    }
    let text = &source_lines[(line - 1) as usize];
    assert(lv[line - 1] == text@);
    let col = if cursor.current_column < 1 {
        1
    } else {
        cursor.current_column
    };
    match extract_call_name(text.as_str()) {
        Some(n) => match closure_by_name(closures, n.as_str()) {
            Some(i) => {
                return Some((i, line + 1));
            },
            None => {},
        },
        None => {},
    }
    let mut best: Option<usize> = None;
    let mut best_dist: i64 = 0;
    let mut k: usize = 0;
    while k < closures.len()
        invariant
            k <= closures@.len(),
            invoke_safe(closures@, cursor@),
            line == cursor.current_line,
            1 <= col,
            match best {
                Some(b) => b < k && invoked_on(closures@[b as int], line) && best_dist as int
                    == invoke_distance(closures@[b as int], line, col) && forall|j: int|
                    0 <= j < k && #[trigger] invoked_on(closures@[j], line) ==> invoke_before(
                        closures@,
                        b as int,
                        j,
                        line,
                        col,
                    ),
                None => forall|j: int| 0 <= j < k ==> !#[trigger] invoked_on(closures@[j], line),
            },
        decreases closures@.len() - k,
    {
        let c = &closures[k];
        if c.inline_invocation_line == Some(line) {
            assert(invoked_on(closures@[k as int], line));
            let d = if c.start_line == line && col == c.start_column {
                0
            } else if c.start_line == line && c.start_column >= col {
                c.start_column - col
            } else {
                i64::MAX / 4 + c.start_column
            };
            let better = match best {
                None => true,
                Some(b) => d < best_dist || (d == best_dist && c.start_column
                    < closures[b].start_column),
            };
            if better {
                best = Some(k);
                best_dist = d;
            }
        }
        k = k + 1;
    }
    match best {
        Some(b) => {
            proof {
                assert(nearest_inline(closures@, line, col, b as int));
                let w = choose|w: int| nearest_inline(closures@, line, col, w);
                assert(invoke_before(closures@, w, b as int, line, col));
                assert(invoke_before(closures@, b as int, w, line, col));
            }
            Some((b, line + 1))
        },
        None => None,
    }
}


// ---------------------------------------------------------------------------
// One stepping request
// ---------------------------------------------------------------------------

/// A stepping request of the client.
#[derive(Clone, Copy, Debug, PartialEq, Eq)]
pub enum StepAction {
    /// Step out of the current closure.
    StepOut,
    /// Step into the closure invoked on the current line.
    StepIn,
    /// Go to the next line.
    Next,
}

/// Why the debugger stopped.
#[derive(Clone, Copy, Debug, PartialEq, Eq)]
pub enum StopReason {
    Breakpoint,
    Step,
}

/// How a stepping request ends.
#[derive(Clone, Copy, Debug, PartialEq, Eq)]
pub enum StopOutcome {
    Stopped(StopReason),
    Terminated,
}

/// The stop after a move to `c`: at a breakpoint (the cursor moving where
/// the stop lands) if one fires there, else a plain step.
pub open spec fn stop_at<T>(bps: Seq<BreakpointLocation>, closures: Seq<ClosureSpan>, c: CursorView<T>) -> (
    StopOutcome,
    CursorView<T>,
) {
    match matched(bps, closures, SourcePosition { line: c.line, column: c.column }) {
        Some(p) => (StopOutcome::Stopped(StopReason::Breakpoint), CursorView { line: p.line, column: p.column, ..c }),
        None => (StopOutcome::Stopped(StopReason::Step), c),
    }
}

/// The outcome of a step to the next line from `c`.
pub open spec fn step_next<T>(
    tests: Seq<TestView>,
    closures: Seq<ClosureSpan>,
    bps: Seq<BreakpointLocation>,
    c: CursorView<T>,
) -> (StopOutcome, CursorView<T>) {
    let (moved, c2) = advance(tests, closures, c);
    if moved {
        stop_at(bps, closures, c2)
    } else {
        (StopOutcome::Terminated, c2)
    }
}

/// The outcome of a stepping request at `c`, where `bindings` are the
/// values bound on entering a closure. Stepping out leaves the innermost
/// closure (when there is one to leave). Stepping in enters the invoked
/// closure: in place when the current line lies within it (resuming at
/// the next traced step), else by taking the next step. Anything else, or
/// a request that cannot be met, takes the next step.
pub open spec fn step_request<T>(
    action: StepAction,
    tests: Seq<TestView>,
    closures: Seq<ClosureSpan>,
    bps: Seq<BreakpointLocation>,
    keys: Seq<i64>,
    lines: Seq<Seq<char>>,
    c: CursorView<T>,
    bindings: T,
) -> (StopOutcome, CursorView<T>) {
    let (left, c_out) = step_out(tests, closures, keys, c);
    if action == StepAction::StepOut && left {
        stop_at(bps, closures, c_out)
    } else if action == StepAction::StepIn && invoked(lines, closures, c) is Some {
        let (ci, resume) = invoked(lines, closures, c).unwrap();
        let cl = closures[ci];
        let in_place = cl.start_line <= c.line <= cl.end_line;
        let entry = EnteredClosure {
            closure_index: ci as usize,
            resume_line: Some(resume),
            resume_trace_index: if in_place {
                match c.trace_index {
                    Some(i) => Some((i + 1) as usize),
                    None => None,
                }
            } else {
                None
            },
            bindings,
        };
        let entered = CursorView { active: c.active.push(entry), ..c };
        if in_place {
            (StopOutcome::Stopped(StopReason::Step), CursorView { column: cl.start_column, ..entered })
        } else {
            step_next(tests, closures, bps, entered)
        }
    } else {
        step_next(tests, closures, bps, c)
    }
}

/// Carries out a stepping request; `bindings_for` gives the values bound
/// on entering the closure with the given index.
pub fn step_once_or_end<T, F: Fn(usize) -> T>(
    action: StepAction,
    tests: &[TestTrace],
    closures: &[ClosureSpan],
    bps: &[BreakpointLocation],
    keys: &[i64],
    source_lines: &[String],
    cursor: &mut Cursor<T>,
    bindings_for: F,
) -> (r: StopOutcome)
    requires
        steppable(test_views(tests@), old(cursor)@),
        active_ok(old(cursor).active_closures@, closures@),
        step_out_safe(closures@, old(cursor)@),
        invoke_safe(closures@, old(cursor)@),
        forall|k: int| 0 <= k < bps@.len() ==> snap_safe(closures@, #[trigger] bps@[k]),
        forall|i: usize| call_requires(bindings_for, (i,)),
    ensures
        exists|b: T|
            (r, final(cursor)@) == #[trigger] step_request(
                action,
                test_views(tests@),
                closures@,
                bps@,
                keys@,
                line_views(source_lines@),
                old(cursor)@,
                b,
            ) && ((action == StepAction::StepIn && invoked(
                line_views(source_lines@),
                closures@,
                old(cursor)@,
            ) is Some) ==> call_ensures(
                bindings_for,
                (invoked(line_views(source_lines@), closures@, old(cursor)@).unwrap().0 as usize,),
                b,
            )),
        active_ok(final(cursor).active_closures@, closures@),
{
    let ghost c = cursor@;
    let ghost tv = test_views(tests@);
    let ghost lv = line_views(source_lines@);
    let is_out = match action {
        StepAction::StepOut => true,
        _ => false,
    };
    let is_in = match action {
        StepAction::StepIn => true,
        _ => false,
    };
    if is_out {
        if step_out_of_closure(tests, closures, keys, cursor) {
            let hit = breakpoint_hit(bps, closures, cursor);
            let r = if hit {
                StopOutcome::Stopped(StopReason::Breakpoint)
            } else {
                StopOutcome::Stopped(StopReason::Step)
            };
            proof {
                let b: T = arbitrary();
                assert((r, cursor@) == step_request(action, tv, closures@, bps@, keys@, lv, c, b));
            }
            return r;
        }
    }
    if is_in {
        match invoked_closure(source_lines, closures, cursor) {
            Some((ci, resume)) => {
                let b = bindings_for(ci);
                let cl = &closures[ci];
                let in_place = cl.start_line <= cursor.current_line && cursor.current_line
                    <= cl.end_line;
                let resume_trace_index = if in_place {
                    match cursor.current_trace_index {
                        Some(i) => Some(i + 1),
                        None => None,
                    }
                } else {
                    None
                };
                let ghost bg = b;
                cursor.active_closures.push(
                    EnteredClosure {
                        closure_index: ci,
                        resume_line: Some(resume),
                        resume_trace_index,
                        bindings: b,
                    },
                );
                assert(active_ok(cursor.active_closures@, closures@));
                if in_place {
                    cursor.current_column = cl.start_column;
                    assert((StopOutcome::Stopped(StopReason::Step), cursor@) == step_request(
                        action,
                        tv,
                        closures@,
                        bps@,
                        keys@,
                        lv,
                        c,
                        bg,
                    ));
                    return StopOutcome::Stopped(StopReason::Step);
                }
                let r = if advance_one_line(tests, closures, cursor) {
                    if breakpoint_hit(bps, closures, cursor) {
                        StopOutcome::Stopped(StopReason::Breakpoint)
                    } else {
                        StopOutcome::Stopped(StopReason::Step)
                    }
                } else {
                    StopOutcome::Terminated
                };
                assert((r, cursor@) == step_request(action, tv, closures@, bps@, keys@, lv, c, bg));
                return r;
            },
            None => {},
        }
    }
    let r = if advance_one_line(tests, closures, cursor) {
        if breakpoint_hit(bps, closures, cursor) {
            StopOutcome::Stopped(StopReason::Breakpoint)
        } else {
            StopOutcome::Stopped(StopReason::Step)
        }
    } else {
        StopOutcome::Terminated
    };
    proof {
        let b: T = arbitrary();
        assert((r, cursor@) == step_request(action, tv, closures@, bps@, keys@, lv, c, b));
    }
    r
}

} // verus!
