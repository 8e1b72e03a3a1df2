//! Hush comments: a `/// ^ message` line under a test's call acknowledges
//! the constraint diagnostic `message` reported at the caret, which then
//! becomes informational. Positions are byte offsets into the source.
use vstd::prelude::*;
use crate::call_syntax::{lemma_utf8_len_prefix, utf8_len, utf8_width, utf8_width_of};
use crate::diagnostics::Span;
use crate::text::{
    chars_of, contains, copy_range, find_str, first_occurrence, lines, lines_of, occurs_at,
    split_char, str_eq, string_of, strip_cr, trim, trim_range, trim_start, views,
};

verus! {

// ---------------------------------------------------------------------------
// Line offsets
// ---------------------------------------------------------------------------

/// Bytes taken by the lines `ls`, each with its line ending counted as one.
pub open spec fn line_bytes(ls: Seq<Seq<char>>) -> nat
    decreases ls.len(),
{
    if ls.len() == 0 {
        0
    } else {
        line_bytes(ls.drop_last()) + utf8_len(ls.last()) + 1
    }
}

/// The byte offset at which each of the lines `ls` starts.
pub open spec fn line_offsets(ls: Seq<Seq<char>>) -> Seq<int> {
    Seq::new(ls.len(), |k: int| line_bytes(ls.take(k)) as int)
}

proof fn lemma_utf8_len_push(s: Seq<char>, c: char)
    ensures
        utf8_len(s.push(c)) == utf8_len(s) + utf8_width(c),
{
    assert(s.push(c).drop_last() =~= s);
}

proof fn lemma_split_bytes(s: Seq<char>)
    ensures
        split_char(s, '\n').len() >= 1,
        line_bytes(split_char(s, '\n').drop_last()) + utf8_len(split_char(s, '\n').last())
            == utf8_len(s),
    decreases s.len(),
{
    if s.len() > 0 {
        let prev = split_char(s.drop_last(), '\n');
        lemma_split_bytes(s.drop_last());
        let p = split_char(s, '\n');
        if s.last() == '\n' {
            assert(p.drop_last() =~= prev);
            assert(prev.drop_last() =~= p.drop_last().drop_last());
        } else {
            assert(p.drop_last() =~= prev.drop_last());
            lemma_utf8_len_push(prev.last(), s.last());
        }
    }
}

proof fn lemma_line_bytes_strip(ls: Seq<Seq<char>>)
    ensures
        line_bytes(ls.map_values(|l: Seq<char>| strip_cr(l))) <= line_bytes(ls),
    decreases ls.len(),
{
    if ls.len() > 0 {
        let m = ls.map_values(|l: Seq<char>| strip_cr(l));
        assert(m.drop_last() =~= ls.drop_last().map_values(|l: Seq<char>| strip_cr(l)));
        lemma_line_bytes_strip(ls.drop_last());
        let l = ls.last();
        if l.len() > 0 && l.last() == '\r' {
            assert(l =~= l.drop_last().push('\r'));
            lemma_utf8_len_push(l.drop_last(), '\r');
        }
    }
}

proof fn lemma_line_bytes_push(ls: Seq<Seq<char>>, l: Seq<char>)
    ensures
        line_bytes(ls.push(l)) == line_bytes(ls) + utf8_len(l) + 1,
{
    assert(ls.push(l).drop_last() =~= ls);
}

/// The lines of a source take at most one byte more than the source.
proof fn lemma_lines_bytes(s: Seq<char>)
    ensures
        line_bytes(lines(s)) <= utf8_len(s) + 1,
{
    lemma_split_bytes(s);
    let p = split_char(s, '\n');
    lemma_line_bytes_strip(p.drop_last());
    let ended = p.drop_last().map_values(|l: Seq<char>| strip_cr(l));
    if !(s.len() == 0 || s.last() == '\n') {
        lemma_line_bytes_push(ended, p.last());
    }
}

proof fn lemma_line_bytes_prefix(ls: Seq<Seq<char>>, k: int)
    requires
        0 <= k <= ls.len(),
    ensures
        line_bytes(ls.take(k)) <= line_bytes(ls),
    decreases ls.len(),
{
    if k < ls.len() {
        assert(ls.drop_last().take(k) =~= ls.take(k));
        lemma_line_bytes_prefix(ls.drop_last(), k);
    } else {
        assert(ls.take(k) =~= ls);
    }
}

/// Number of bytes in the UTF-8 encoding of `cs[lo..hi]`.
fn utf8_len_range(cs: &[char], lo: usize, hi: usize) -> (n: usize)
    requires
        lo <= hi <= cs@.len(),
        utf8_len(cs@.subrange(lo as int, hi as int)) <= usize::MAX,
    ensures
        n as nat == utf8_len(cs@.subrange(lo as int, hi as int)),
{
    let ghost whole = cs@.subrange(lo as int, hi as int);
    let mut n: usize = 0;
    let mut k: usize = lo;
    while k < hi
        invariant
            lo <= k <= hi <= cs@.len(),
            whole == cs@.subrange(lo as int, hi as int),
            utf8_len(whole) <= usize::MAX,
            n as nat == utf8_len(whole.take(k - lo)),
        decreases hi - k,
    {
        assert(whole.take(k - lo + 1).drop_last() =~= whole.take(k - lo));
        proof {
            lemma_utf8_len_prefix(whole, k - lo + 1);
        }
        n = n + utf8_width_of(cs[k]);
        k = k + 1;
    }
    assert(whole.take(hi - lo) =~= whole);
    n
}

/// The byte offset at which each line of `source` starts (lines as
/// `str::lines` yields them, each followed by one line-ending byte).
pub fn compute_line_offsets(source: &str) -> (r: Vec<usize>)
    requires
        utf8_len(source@) < usize::MAX,
    ensures
        r@.len() == lines(source@).len(),
        forall|k: int| 0 <= k < r@.len() ==> r@[k] as int == line_offsets(lines(source@))[k],
{
    let chars = chars_of(source);
    let ls = lines_of(chars.as_slice());
    let ghost lv = lines(source@);
    proof {
        lemma_lines_bytes(source@);
    }
    let mut offsets: Vec<usize> = Vec::new();
    let mut pos: usize = 0;
    let mut k: usize = 0;
    while k < ls.len()
        invariant
            k <= ls@.len(),
            views(ls@) == lv,
            lv == lines(source@),
            line_bytes(lv) <= utf8_len(source@) + 1,
            utf8_len(source@) < usize::MAX,
            pos as nat == line_bytes(lv.take(k as int)),
            offsets@.len() == k,
            forall|j: int| 0 <= j < k ==> offsets@[j] as int == line_offsets(lv)[j],
        decreases ls@.len() - k,
    {
        offsets.push(pos);
        assert(views(ls@)[k as int] == ls@[k as int]@);
        assert(lv.take(k + 1).drop_last() =~= lv.take(k as int));
        proof {
            lemma_line_bytes_prefix(lv, k + 1);
            lemma_line_bytes_push(lv.take(k as int), lv[k as int]);
            assert(lv.take(k as int).push(lv[k as int]) =~= lv.take(k + 1));
        }
        let line = &ls[k];
        assert(line@.subrange(0, line@.len() as int) =~= line@);
        let n = utf8_len_range(line.as_slice(), 0, line.len());
        pos = pos + n + 1;
        k = k + 1;
    }
    offsets
}


// ---------------------------------------------------------------------------
// Reading hush comments
// ---------------------------------------------------------------------------

/// A hush comment: on line `line` (counted from 0), a caret at byte column
/// `col`, followed by the message it acknowledges.
pub struct HushComment {
    pub line: usize,
    pub col: usize,
    pub text: String,
}

impl View for HushComment {
    type V = (int, int, Seq<char>);

    open spec fn view(&self) -> (int, int, Seq<char>) {
        (self.line as int, self.col as int, self.text@)
    }
}

/// Where `"///"` first occurs in `l`, if it does.
pub open spec fn comment_start(l: Seq<char>) -> int {
    choose|i: int| first_occurrence(l, "///"@, i)
}

/// The caret column and the message of the hush comment on line `l`: the
/// first `"///"` is followed, after white space, by `'^'`; the message is
/// the rest of the line, trimmed.
pub open spec fn hush_of_line(l: Seq<char>) -> Option<(int, Seq<char>)> {
    if contains(l, "///"@) {
        let i = comment_start(l);
        let after = l.skip(i + 3);
        let rest = trim_start(after);
        if rest.len() > 0 && rest[0] == '^' {
            let ws = after.len() - rest.len();
            Some(
                (
                    utf8_len(l.take(i)) + 3 + utf8_len(after.take(ws)) as int,
                    trim(rest.drop_first()),
                ),
            )
        } else {
            None
        }
    } else {
        None
    }
}

/// The hush comments of the lines `ls`, in line order.
pub open spec fn hush_list(ls: Seq<Seq<char>>) -> Seq<(int, int, Seq<char>)>
    decreases ls.len(),
{
    if ls.len() == 0 {
        Seq::empty()
    } else {
        let prev = hush_list(ls.drop_last());
        match hush_of_line(ls.last()) {
            Some((col, text)) => prev.push(((ls.len() - 1) as int, col, text)),
            None => prev,
        }
    }
}

/// The views of a sequence of hush comments.
pub open spec fn hush_views(s: Seq<HushComment>) -> Seq<(int, int, Seq<char>)> {
    s.map_values(|h: HushComment| h@)
}

proof fn lemma_first_occurrence_unique(s: Seq<char>, p: Seq<char>, i: int, j: int)
    requires
        first_occurrence(s, p, i),
        first_occurrence(s, p, j),
    ensures
        i == j,
{
    if i < j {
        assert(!occurs_at(s, p, i));
    } else if j < i {
        assert(!occurs_at(s, p, j));
    }
}

proof fn lemma_trim_start_suffix(s: Seq<char>)
    ensures
        trim_start(s).len() <= s.len(),
        trim_start(s) =~= s.skip(s.len() - trim_start(s).len()),
    decreases s.len(),
{
    if s.len() > 0 && crate::text::is_ws(s[0]) {
        lemma_trim_start_suffix(s.drop_first());
        assert(s.drop_first().skip(s.drop_first().len() - trim_start(s).len()) =~= s.skip(
            s.len() - trim_start(s).len(),
        ));
    } else {
        assert(s.skip(0) =~= s);
    }
}

/// The hush comment on one line, if there is one.
fn hush_on_line(l: &[char]) -> (r: Option<(usize, Vec<char>)>)
    requires
        utf8_len(l@) < usize::MAX,
    ensures
        match r {
            Some((col, text)) => hush_of_line(l@) == Some((col as int, text@)),
            None => hush_of_line(l@) is None,
        },
{
    let i = match find_str(l, "///") {
        Some(i) => i,
        None => {
            return None;
        },
    };
    proof {
        reveal_strlit("///");
        assert(contains(l@, "///"@));
        lemma_first_occurrence_unique(l@, "///"@, i as int, comment_start(l@));
    }
    let n = l.len();
    let ghost after = l@.skip(i + 3);
    let (a, b) = trim_range(l, i + 3, n);
    assert(l@.subrange(i + 3, n as int) =~= after);
    proof {
        lemma_trim_start_suffix(after);
        assert(l@.subrange(a as int, n as int) =~= trim_start(after));
    }
    if !(a < n && l[a] == '^') {
        return None;
    }
    assert(trim_start(after)[0] == l@[a as int]);
    let (c, d) = trim_range(l, a + 1, n);
    assert(l@.subrange(a + 1, n as int) =~= trim_start(after).drop_first());
    proof {
        lemma_utf8_len_prefix(l@, i as int);
        lemma_utf8_len_prefix(l@, a as int);
        assert(l@.subrange(0, i as int) =~= l@.take(i as int));
        assert(l@.subrange(i + 3, a as int) =~= after.take(a - (i + 3)));
        lemma_utf8_len_split(l@, i as int, a as int);
    }
    let before = utf8_len_range(l, 0, i);
    let gap = utf8_len_range(l, i + 3, a);
    let text = copy_range(l, c, d);
    Some((before + 3 + gap, text))
}

proof fn lemma_utf8_len_split(s: Seq<char>, i: int, a: int)
    requires
        0 <= i,
        i + 3 <= a <= s.len(),
        occurs_at(s, "///"@, i),
    ensures
        utf8_len(s.subrange(0, i)) + 3 + utf8_len(s.subrange(i + 3, a)) <= utf8_len(s),
{
    reveal_strlit("///");
    lemma_utf8_len_concat(s.subrange(0, i), s.subrange(i, i + 3));
    lemma_utf8_len_concat(s.subrange(0, i + 3), s.subrange(i + 3, a));
    assert(s.subrange(0, i) + s.subrange(i, i + 3) =~= s.subrange(0, i + 3));
    assert(s.subrange(0, i + 3) + s.subrange(i + 3, a) =~= s.take(a));
    assert(s.subrange(i, i + 3) =~= seq!['/', '/', '/']);
    assert(seq!['/', '/', '/'].drop_last() =~= seq!['/', '/']);
    assert(seq!['/', '/'].drop_last() =~= seq!['/']);
    assert(seq!['/'].drop_last() =~= Seq::<char>::empty());
    assert(('/' as u32) == 47);
    assert(utf8_width('/') == 1);
    assert(seq!['/'].last() == '/');
    assert(utf8_len(Seq::<char>::empty()) == 0);
    assert(utf8_len(seq!['/']) == 1);
    assert(utf8_len(seq!['/', '/']) == 2);
    assert(utf8_len(seq!['/', '/', '/']) == 3);
    lemma_utf8_len_prefix(s, a);
}

proof fn lemma_utf8_len_concat(a: Seq<char>, b: Seq<char>)
    ensures
        utf8_len(a + b) == utf8_len(a) + utf8_len(b),
    decreases b.len(),
{
    if b.len() == 0 {
        assert(a + b =~= a);
    } else {
        lemma_utf8_len_concat(a, b.drop_last());
        assert((a + b).drop_last() =~= a + b.drop_last());
    }
}

/// The hush comments of `source`, in line order.
pub fn extract_hush_comments(source: &str) -> (r: Vec<HushComment>)
    requires
        utf8_len(source@) < usize::MAX,
    ensures
        hush_views(r@) == hush_list(lines(source@)),
{
    let chars = chars_of(source);
    let ls = lines_of(chars.as_slice());
    let ghost lv = lines(source@);
    proof {
        lemma_lines_bytes(source@);
    }
    let mut comments: Vec<HushComment> = Vec::new();
    let mut k: usize = 0;
    while k < ls.len()
        invariant
            k <= ls@.len(),
            views(ls@) == lv,
            lv == lines(source@),
            line_bytes(lv) <= utf8_len(source@) + 1,
            utf8_len(source@) < usize::MAX,
            hush_views(comments@) == hush_list(lv.take(k as int)),
        decreases ls@.len() - k,
    {
        assert(views(ls@)[k as int] == ls@[k as int]@);
        assert(lv.take(k + 1).drop_last() =~= lv.take(k as int));
        assert(lv.take(k + 1).last() == lv[k as int]);
        proof {
            lemma_line_bytes_prefix(lv, k + 1);
            lemma_line_bytes_push(lv.take(k as int), lv[k as int]);
            assert(lv.take(k as int).push(lv[k as int]) =~= lv.take(k + 1));
        }
        let ghost before = hush_views(comments@);
        match hush_on_line(ls[k].as_slice()) {
            Some((col, text)) => {
                comments.push(HushComment { line: k, col, text: string_of(text.as_slice()) });
                assert(hush_views(comments@) =~= before.push((k as int, col as int, text@)));
            },
            None => {},
        }
        k = k + 1;
    }
    assert(lv.take(ls@.len() as int) =~= lv);
    comments
}


// ---------------------------------------------------------------------------
// Matching a diagnostic against the hush comments
// ---------------------------------------------------------------------------

/// The last index `k` with `offsets[k] <= offset`, or -1.
pub open spec fn last_at_most(offsets: Seq<usize>, offset: int) -> int
    decreases offsets.len(),
{
    if offsets.len() == 0 {
        -1
    } else if offsets.last() <= offset {
        offsets.len() - 1
    } else {
        last_at_most(offsets.drop_last(), offset)
    }
}

/// The line (counted from 0) that byte `offset` lies on, given the
/// increasing start offsets of the lines; 0 before the first line.
pub open spec fn line_at(offsets: Seq<usize>, offset: int) -> int {
    let k = last_at_most(offsets, offset);
    if k < 0 {
        0
    } else {
        k
    }
}

/// The byte column of `offset` on its line; 0 where there are no lines.
pub open spec fn col_at(offsets: Seq<usize>, offset: int) -> int {
    let line = line_at(offsets, offset);
    if line < offsets.len() {
        offset - offsets[line]
    } else {
        0
    }
}

proof fn lemma_last_at_most(offsets: Seq<usize>, offset: int)
    ensures
        -1 <= last_at_most(offsets, offset) < offsets.len(),
        last_at_most(offsets, offset) >= 0 ==> offsets[last_at_most(offsets, offset)] <= offset,
    decreases offsets.len(),
{
    if offsets.len() > 0 && offsets.last() > offset {
        lemma_last_at_most(offsets.drop_last(), offset);
    }
}

/// The line that byte `offset` lies on (the lines starting at the
/// increasing `offsets`).
pub fn byte_offset_to_line(offsets: &[usize], offset: usize) -> (line: usize)
    ensures
        line as int == line_at(offsets@, offset as int),
{
    let mut k = offsets.len();
    assert(offsets@.take(k as int) =~= offsets@);
    while k > 0 && offsets[k - 1] > offset
        invariant
            k <= offsets@.len(),
            last_at_most(offsets@, offset as int) == last_at_most(
                offsets@.take(k as int),
                offset as int,
            ),
        decreases k,
    {
        assert(offsets@.take(k as int).drop_last() =~= offsets@.take(k - 1));
        k = k - 1;
    }
    if k == 0 {
        0
    } else {
        k - 1
    }
}

/// The byte column of `offset` on its line.
pub fn byte_offset_to_col(offsets: &[usize], offset: usize) -> (col: usize)
    requires
        offsets@.len() > 0 ==> offsets@[0] <= offset,
    ensures
        col as int == col_at(offsets@, offset as int),
{
    let line = byte_offset_to_line(offsets, offset);
    proof {
        lemma_last_at_most(offsets@, offset as int);
    }
    if line < offsets.len() {
        offset - offsets[line]
    } else {
        0
    }
}

/// `n - m`, or 0 where `m` exceeds `n`.
pub open spec fn sat_sub(n: int, m: int) -> int {
    if n >= m {
        n - m
    } else {
        0
    }
}

/// Whether hush comment `h` acknowledges `message` reported at `span`: its
/// text is the message, it stands on the line after the span's start, and
/// its caret lies within the span's columns, give or take two.
pub open spec fn hushes(
    h: (int, int, Seq<char>),
    offsets: Seq<usize>,
    span: Span,
    message: Seq<char>,
) -> bool {
    let line = line_at(offsets, span.start as int);
    let col_start = col_at(offsets, span.start as int);
    let col_end = col_at(offsets, sat_sub(span.end as int, 1));
    &&& h.2 == message
    &&& h.0 == line + 1
    &&& h.1 >= sat_sub(col_start, 2)
    &&& h.1 <= col_end + 2
}

/// Whether one of `comments` acknowledges `error_msg` reported at `span`
/// (given the start offsets of the source's lines, beginning at 0).
pub fn check_hush_comment(
    comments: &[HushComment],
    offsets: &[usize],
    span: Span,
    error_msg: &str,
) -> (b: bool)
    requires
        offsets@.len() > 0 ==> offsets@[0] == 0,
        span.end < usize::MAX,
    ensures
        b == exists|k: int|
            0 <= k < comments@.len() && #[trigger] hushes(
                comments@[k]@,
                offsets@,
                span,
                error_msg@,
            ),
{
    let n_off = offsets.len();
    let span_line = byte_offset_to_line(offsets, span.start);
    let span_col_start = byte_offset_to_col(offsets, span.start);
    let end_offset = if span.end >= 1 {
        span.end - 1
    } else {
        0
    };
    let span_col_end = byte_offset_to_col(offsets, end_offset);
    proof {
        lemma_last_at_most(offsets@, span.start as int);
        lemma_last_at_most(offsets@, end_offset as int);
    }
    let low = if span_col_start >= 2 {
        span_col_start - 2
    } else {
        0
    };
    let mut k: usize = 0;
    while k < comments.len()
        invariant
            k <= comments@.len(),
            span_line as int == line_at(offsets@, span.start as int),
            span_line < usize::MAX,
            span_col_start as int == col_at(offsets@, span.start as int),
            span_col_end as int == col_at(offsets@, sat_sub(span.end as int, 1)),
            span_col_end <= end_offset,
            end_offset < usize::MAX - 1 || span.end == 0,
            low as int == sat_sub(span_col_start as int, 2),
            forall|j: int|
                0 <= j < k ==> !#[trigger] hushes(comments@[j]@, offsets@, span, error_msg@),
        decreases comments@.len() - k,
    {
        let c = &comments[k];
        if str_eq(c.text.as_str(), error_msg) && c.line == span_line + 1 && c.col >= low
            && c.col <= span_col_end + 2 {
            assert(hushes(comments@[k as int]@, offsets@, span, error_msg@));
            return true;
        }
        k = k + 1;
    }
    false
}


// ---------------------------------------------------------------------------
// Laws
// ---------------------------------------------------------------------------

proof fn lemma_line_bytes_increasing(ls: Seq<Seq<char>>, j: int, k: int)
    requires
        0 <= j < k <= ls.len(),
    ensures
        line_bytes(ls.take(j)) < line_bytes(ls.take(k)),
    decreases k - j,
{
    assert(ls.take(k).drop_last() =~= ls.take(k - 1));
    if j < k - 1 {
        lemma_line_bytes_increasing(ls, j, k - 1);
    }
}

proof fn lemma_last_at_most_increasing(offs: Seq<usize>, k: int)
    requires
        0 <= k < offs.len(),
        forall|a: int, b: int| 0 <= a < b < offs.len() ==> offs[a] < offs[b],
    ensures
        last_at_most(offs, offs[k] as int) == k,
    decreases offs.len(),
{
    if k < offs.len() - 1 {
        assert(offs[k] < offs[offs.len() - 1]);
        lemma_last_at_most_increasing(offs.drop_last(), k);
    }
}

/// The line offsets of a source start at 0 and strictly increase, and the
/// start offset of each line maps back to that line, at column 0.
pub proof fn line_start_roundtrip(ls: Seq<Seq<char>>, offs: Seq<usize>, k: int)
    requires
        offs.len() == ls.len(),
        forall|j: int| 0 <= j < offs.len() ==> offs[j] as int == line_offsets(ls)[j],
        0 <= k < ls.len(),
    ensures
        offs[0] == 0,
        forall|a: int, b: int| 0 <= a < b < offs.len() ==> offs[a] < offs[b],
        line_at(offs, offs[k] as int) == k,
        col_at(offs, offs[k] as int) == 0,
{
    assert(ls.take(0) =~= Seq::<Seq<char>>::empty());
    assert forall|a: int, b: int| 0 <= a < b < offs.len() implies offs[a] < offs[b] by {
        lemma_line_bytes_increasing(ls, a, b);
    }
    lemma_last_at_most_increasing(offs, k);
}

} // verus!
