//! Source positions for the debugger: byte offsets to lines and columns,
//! breakpoints, pause modes and scope references.
use vstd::prelude::*;
use vstd::utf8::{
    decode_utf8, decode_utf8_encode_utf8, decode_utf8_split, encode_utf8, encode_utf8_decode_utf8,
    encode_utf8_valid_utf8, is_char_boundary, is_continuation_byte, is_leading_byte_width_1,
    length_of_first_scalar, pop_first_scalar, valid_utf8,
};
use vstd::string::StringSliceAdditionalSpecFns;
use crate::text::{chars_of, count_char};

verus! {

// ---------------------------------------------------------------------------
// Byte offsets and characters
// ---------------------------------------------------------------------------

/// Number of bytes of `b` that start a character (are not UTF-8
/// continuation bytes).
pub open spec fn leading_byte_count(b: Seq<u8>) -> nat
    decreases b.len(),
{
    if b.len() == 0 {
        0
    } else {
        leading_byte_count(b.drop_first()) + if is_continuation_byte(b[0]) {
            0nat
        } else {
            1nat
        }
    }
}

proof fn lemma_leading_byte_count_split(b: Seq<u8>, k: int)
    requires
        0 <= k <= b.len(),
    ensures
        leading_byte_count(b) == leading_byte_count(b.take(k)) + leading_byte_count(b.skip(k)),
    decreases k,
{
    if k == 0 {
        assert(b.skip(0) =~= b);
        assert(b.take(0).len() == 0);
    } else {
        lemma_leading_byte_count_split(b.drop_first(), k - 1);
        assert(b.take(k).drop_first() =~= b.drop_first().take(k - 1));
        assert(b.drop_first().skip(k - 1) =~= b.skip(k));
        assert(b.take(k)[0] == b[0]);
    }
}

proof fn lemma_decode_len(b: Seq<u8>)
    requires
        valid_utf8(b),
    ensures
        decode_utf8(b).len() == leading_byte_count(b),
    decreases b.len(),
{
    if b.len() > 0 {
        let n = length_of_first_scalar(b);
        assert(1 <= n <= 4);
        assert(pop_first_scalar(b) =~= b.skip(n));
        lemma_decode_len(pop_first_scalar(b));
        lemma_leading_byte_count_split(b, n);
        let t = b.take(n);
        assert(!is_continuation_byte(t[0]));
        if n >= 2 {
            assert(is_continuation_byte(t[1]));
        }
        if n >= 3 {
            assert(is_continuation_byte(t[2]));
        }
        if n >= 4 {
            assert(is_continuation_byte(t[3]));
        }
        reveal_with_fuel(leading_byte_count, 5);
        assert(t.drop_first().len() == n - 1);
        if n >= 2 {
            assert(t.drop_first().drop_first().len() == n - 2);
        }
        if n >= 3 {
            assert(t.drop_first().drop_first().drop_first().len() == n - 3);
        }
        assert(leading_byte_count(t) == 1);
    }
}

/// The characters of `s` that lie before byte `off` of its UTF-8 encoding.
pub open spec fn chars_before_byte(s: Seq<char>, off: int) -> Seq<char> {
    decode_utf8(encode_utf8(s).take(off))
}

proof fn lemma_chars_before_byte(s: Seq<char>, off: int)
    requires
        0 <= off <= encode_utf8(s).len(),
        is_char_boundary(encode_utf8(s), off),
    ensures
        chars_before_byte(s, off) == s.take(leading_byte_count(encode_utf8(s).take(off)) as int),
{
    let b = encode_utf8(s);
    encode_utf8_valid_utf8(s);
    encode_utf8_decode_utf8(s);
    decode_utf8_split(b, off);
    assert(b.take(off) =~= b.subrange(0, off));
    vstd::utf8::valid_utf8_split(b, off);
    lemma_decode_len(b.take(off));
    let pre = decode_utf8(b.take(off));
    assert(s == pre + decode_utf8(b.subrange(off, b.len() as int)));
    assert(pre =~= s.take(pre.len() as int));
}

/// Number of characters after the last `'\n'` of `s` (all of `s` when it has none).
pub open spec fn last_line_len(s: Seq<char>) -> nat
    decreases s.len(),
{
    if s.len() == 0 {
        0
    } else if s.last() == '\n' {
        0
    } else {
        last_line_len(s.drop_last()) + 1
    }
}

/// The source offset clamped to the end of the source.
pub open spec fn clamp_offset(source: &str, offset: usize) -> int {
    if offset <= source.spec_bytes().len() {
        offset as int
    } else {
        source.spec_bytes().len() as int
    }
}

/// The characters of `source` before the (clamped) byte `offset`.
pub open spec fn prefix_before(source: &str, offset: usize) -> Seq<char> {
    chars_before_byte(source@, clamp_offset(source, offset))
}

/// Whether slicing `source` at the clamped `offset` is allowed, i.e. the
/// offset lies on a character boundary.
pub open spec fn offset_on_boundary(source: &str, offset: usize) -> bool {
    is_char_boundary(source.spec_bytes(), clamp_offset(source, offset))
}

/// The 1-based line of `prefix`'s end: one more than its number of newlines.
pub open spec fn line_of(prefix: Seq<char>) -> int {
    count_char(prefix, '\n') as int + 1
}

/// The 1-based column of `prefix`'s end, counted in characters.
pub open spec fn column_of(prefix: Seq<char>) -> int {
    last_line_len(prefix) as int + 1
}

/// Number of characters of `source` before the clamped byte `offset`.
fn char_index_of_offset(source: &str, offset: usize) -> (k: usize)
    requires
        offset_on_boundary(source, offset),
    ensures
        k <= source@.len(),
        prefix_before(source, offset) == source@.take(k as int),
{
    let b = source.as_bytes();
    let c = if offset < b.len() {
        offset
    } else {
        b.len()
    };
    proof {
        vstd::string::axiom_str_literal_len(source);
    }
    let mut k: usize = 0;
    let mut i: usize = 0;
    while i < c
        invariant
            i <= c <= b@.len(),
            b@ == source.spec_bytes(),
            k as nat == leading_byte_count(b@.take(i as int)),
            k <= i,
        decreases c - i,
    {
        proof {
            lemma_leading_byte_count_split(b@.take(i + 1), i as int);
            assert(b@.take(i + 1).take(i as int) =~= b@.take(i as int));
            assert(b@.take(i + 1).skip(i as int) =~= seq![b@[i as int]]);
            reveal_with_fuel(leading_byte_count, 2);
        }
        if !(0x80u8 <= b[i] && b[i] <= 0xbfu8) {
            k = k + 1;
        }
        i = i + 1;
    }
    proof {
        lemma_chars_before_byte(source@, c as int);
        encode_utf8_valid_utf8(source@);
        encode_utf8_decode_utf8(source@);
        vstd::utf8::valid_utf8_split(b@, c as int);
        assert(b@.take(c as int) =~= b@.subrange(0, c as int));
        decode_utf8_split(b@, c as int);
        lemma_decode_len(b@.take(c as int));
    }
    k
}

/// Newline count and last-line length of `s[..k]`.
fn scan_prefix(s: &[char], k: usize) -> (r: (usize, usize))
    requires
        k <= s@.len(),
    ensures
        r.0 as nat == count_char(s@.take(k as int), '\n'),
        r.1 as nat == last_line_len(s@.take(k as int)),
        r.0 <= k,
        r.1 <= k,
{
    let mut lines: usize = 0;
    let mut tail: usize = 0;
    let mut i: usize = 0;
    while i < k
        invariant
            i <= k <= s@.len(),
            lines as nat == count_char(s@.take(i as int), '\n'),
            tail as nat == last_line_len(s@.take(i as int)),
            lines <= i,
            tail <= i,
        decreases k - i,
    {
        assert(s@.take(i + 1).drop_last() =~= s@.take(i as int));
        if s[i] == '\n' {
            lines = lines + 1;
            tail = 0;
        } else {
            tail = tail + 1;
        }
        i = i + 1;
    }
    (lines, tail)
}

/// The 1-based line holding byte `offset` of `source` (clamped to its end).
pub fn offset_to_line(source: &str, offset: usize) -> (line: usize)
    requires
        offset_on_boundary(source, offset),
        source@.len() < usize::MAX,
    ensures
        line as int == line_of(prefix_before(source, offset)),
{
    let k = char_index_of_offset(source, offset);
    let cs = chars_of(source);
    let (n, _) = scan_prefix(cs.as_slice(), k);
    n + 1
}

/// The 1-based line and character column of byte `offset` of `source`
/// (clamped to its end).
pub fn offset_to_line_col(source: &str, offset: usize) -> (r: (usize, usize))
    requires
        offset_on_boundary(source, offset),
        source@.len() < usize::MAX,
    ensures
        r.0 as int == line_of(prefix_before(source, offset)),
        r.1 as int == column_of(prefix_before(source, offset)),
{
    let k = char_index_of_offset(source, offset);
    let cs = chars_of(source);
    let (n, t) = scan_prefix(cs.as_slice(), k);
    (n + 1, t + 1)
}

// ---------------------------------------------------------------------------
// Positions and breakpoints
// ---------------------------------------------------------------------------

/// A 1-based line and column in a source file.
#[derive(Clone, Copy, Debug, PartialEq, Eq)]
pub struct SourcePosition {
    pub line: i64,
    pub column: i64,
}

pub open spec fn at_least_one(v: i64) -> i64 {
    if v < 1 {
        1
    } else {
        v
    }
}

impl SourcePosition {
    /// A position with both coordinates raised to at least 1.
    pub fn new(line: i64, column: i64) -> (p: Self)
        ensures
            p.line == at_least_one(line),
            p.column == at_least_one(column),
    {
        SourcePosition {
            line: if line < 1 {
                1
            } else {
                line
            },
            column: if column < 1 {
                1
            } else {
                column
            },
        }
    }
}

/// The position of byte `offset` of `source`.
pub fn offset_to_position(source: &str, offset: usize) -> (p: SourcePosition)
    requires
        offset_on_boundary(source, offset),
        source@.len() < usize::MAX,
        line_of(prefix_before(source, offset)) <= i64::MAX,
        column_of(prefix_before(source, offset)) <= i64::MAX,
    ensures
        p.line == line_of(prefix_before(source, offset)),
        p.column == column_of(prefix_before(source, offset)),
{
    let (line, column) = offset_to_line_col(source, offset);
    SourcePosition::new(line as i64, column as i64)
}

proof fn lemma_line_col_bounded(p: Seq<char>)
    ensures
        count_char(p, '\n') <= p.len(),
        last_line_len(p) <= p.len(),
    decreases p.len(),
{
    if p.len() > 0 {
        lemma_line_col_bounded(p.drop_last());
    }
}

/// The position of byte `offset` of a source of fewer than `i64::MAX`
/// characters, whose line and column always fit.
pub fn source_position(source: &str, offset: usize) -> (p: SourcePosition)
    requires
        offset_on_boundary(source, offset),
        source@.len() < usize::MAX,
        source@.len() < i64::MAX,
    ensures
        p.line == line_of(prefix_before(source, offset)),
        p.column == column_of(prefix_before(source, offset)),
{
    let k = char_index_of_offset(source, offset);
    proof {
        lemma_line_col_bounded(source@.take(k as int));
    }
    offset_to_position(source, offset)
}

/// A breakpoint on a line, optionally pinned to a column.
#[derive(Clone, Copy, Debug, PartialEq, Eq)]
pub struct BreakpointLocation {
    pub line: i64,
    pub column: Option<i64>,
}

impl BreakpointLocation {
    /// A breakpoint with its coordinates raised to at least 1.
    pub fn new(line: i64, column: Option<i64>) -> (b: Self)
        ensures
            b.line == at_least_one(line),
            b.column == (match column {
                Some(c) => Some(at_least_one(c)),
                None => None,
            }),
    {
        let column = match column {
            Some(c) => Some(
                if c < 1 {
                    1
                } else {
                    c
                },
            ),
            None => None,
        };
        BreakpointLocation {
            line: if line < 1 {
                1
            } else {
                line
            },
            column,
        }
    }

    /// Whether this breakpoint fires at `p`.
    pub open spec fn hits(self, p: SourcePosition) -> bool {
        self.line == p.line && match self.column {
            Some(c) => c == p.column,
            None => true,
        }
    }

    /// Whether this breakpoint fires at `position`: same line, and same
    /// column when the breakpoint has one.
    pub fn matches(&self, position: &SourcePosition) -> (b: bool)
        ensures
            b == self.hits(*position),
    {
        self.line == position.line && match self.column {
            Some(c) => c == position.column,
            None => true,
        }
    }
}

/// When a running test stops.
pub enum RuntimePauseMode {
    /// Never stop.
    ContinueToEnd,
    /// Stop wherever one of these breakpoints fires.
    Breakpoints(Vec<BreakpointLocation>),
}

impl RuntimePauseMode {
    /// Whether this mode stops at `p`: some breakpoint fires there.
    pub open spec fn pauses_at(self, p: SourcePosition) -> bool {
        match self {
            RuntimePauseMode::ContinueToEnd => false,
            RuntimePauseMode::Breakpoints(bps) => exists|i: int|
                0 <= i < bps@.len() && (#[trigger] bps@[i]).hits(p),
        }
    }

    /// Whether execution stops at `position`.
    pub fn should_pause(&self, position: &SourcePosition) -> (b: bool)
        ensures
            b == self.pauses_at(*position),
    {
        match self {
            RuntimePauseMode::ContinueToEnd => false,
            RuntimePauseMode::Breakpoints(bps) => any_hits(bps.as_slice(), position),
        }
    }
}

/// Whether one of `bps` fires at `p`.
fn any_hits(bps: &[BreakpointLocation], p: &SourcePosition) -> (b: bool)
    ensures
        b == exists|i: int| 0 <= i < bps@.len() && (#[trigger] bps@[i]).hits(*p),
{
    let mut i: usize = 0;
    while i < bps.len()
        invariant
            i <= bps@.len(),
            forall|j: int| 0 <= j < i ==> !(#[trigger] bps@[j]).hits(*p),
        decreases bps@.len() - i,
    {
        if bps[i].matches(p) {
            assert(bps@[i as int].hits(*p));
            return true;
        }
        i = i + 1;
    }
    false
}

// ---------------------------------------------------------------------------
// Scope references
// ---------------------------------------------------------------------------

/// Which scope of a frame a variables reference names.
#[derive(Clone, Copy, Debug, PartialEq, Eq)]
pub enum ScopeReferenceKind {
    Locals,
    Captures,
}

/// The variables reference of frame `frame_id`'s locals.
pub fn locals_reference(frame_id: i64) -> (r: i64)
    requires
        i64::MIN <= frame_id * 10,
        frame_id * 10 + 1 <= i64::MAX,
    ensures
        r == frame_id * 10 + 1,
{
    frame_id * 10 + 1
}

/// The variables reference of frame `frame_id`'s captures.
pub fn captures_reference(frame_id: i64) -> (r: i64)
    requires
        i64::MIN <= frame_id * 10,
        frame_id * 10 + 2 <= i64::MAX,
    ensures
        r == frame_id * 10 + 2,
{
    frame_id * 10 + 2
}

/// The frame and scope named by a variables reference, if it names one.
pub open spec fn scope_of_reference(reference: int) -> Option<(int, ScopeReferenceKind)> {
    if reference <= 0 {
        None
    } else if reference % 10 == 1 {
        Some((reference / 10, ScopeReferenceKind::Locals))
    } else if reference % 10 == 2 {
        Some((reference / 10, ScopeReferenceKind::Captures))
    } else {
        None
    }
}

/// Splits a variables reference into its frame and scope: positive
/// references ending in digit 1 name locals, in digit 2 captures.
pub fn decode_scope_reference(reference: i64) -> (r: Option<(i64, ScopeReferenceKind)>)
    ensures
        r matches Some((f, k)) ==> scope_of_reference(reference as int) == Some((f as int, k)),
        r is None ==> scope_of_reference(reference as int) is None,
{
    if reference <= 0 {
        return None;
    }
    let frame_id = reference / 10;
    let digit = reference % 10;
    if digit == 1 {
        Some((frame_id, ScopeReferenceKind::Locals))
    } else if digit == 2 {
        Some((frame_id, ScopeReferenceKind::Captures))
    } else {
        None
    }
}

/// A locals reference decodes back to its frame's locals.
pub proof fn locals_reference_roundtrip(frame_id: int)
    requires
        frame_id >= 0,
    ensures
        scope_of_reference(frame_id * 10 + 1) == Some((frame_id, ScopeReferenceKind::Locals)),
{
    assert((frame_id * 10 + 1) % 10 == 1) by (nonlinear_arith)
        requires
            frame_id >= 0,
    ;
    assert((frame_id * 10 + 1) / 10 == frame_id) by (nonlinear_arith)
        requires
            frame_id >= 0,
    ;
}

/// A captures reference decodes back to its frame's captures.
pub proof fn captures_reference_roundtrip(frame_id: int)
    requires
        frame_id >= 0,
    ensures
        scope_of_reference(frame_id * 10 + 2) == Some((frame_id, ScopeReferenceKind::Captures)),
{
    assert((frame_id * 10 + 2) % 10 == 2) by (nonlinear_arith)
        requires
            frame_id >= 0,
    ;
    assert((frame_id * 10 + 2) / 10 == frame_id) by (nonlinear_arith)
        requires
            frame_id >= 0,
    ;
}

} // verus!
