//! Light-weight reading of call and assignment syntax from source lines,
//! used by the debugger to guess values without a full parse.
use vstd::prelude::*;
use vstd::string::StrSliceExecFns;
use crate::text::{
    chars_of, copy_range, find_char_from, is_ascii_alnum, is_ascii_alnum_spec, is_ascii_alpha,
    is_ascii_alpha_spec, string_of, trim, trim_end_char, trim_range,
};

verus! {

// ---------------------------------------------------------------------------
// Identifiers and call names
// ---------------------------------------------------------------------------

/// A character that may continue a name: ASCII letter or digit, `_` or `-`.
pub open spec fn is_name_char(c: char) -> bool {
    is_ascii_alnum_spec(c) || c == '_' || c == '-'
}

/// `name` is an identifier: it starts with `_` or an ASCII letter and
/// continues with name characters.
pub open spec fn is_identifier_spec(name: Seq<char>) -> bool {
    &&& name.len() > 0
    &&& (name[0] == '_' || is_ascii_alpha_spec(name[0]))
    &&& forall|i: int| 1 <= i < name.len() ==> is_name_char(#[trigger] name[i])
}

/// Whether `name` is an identifier.
pub fn is_identifier(name: &str) -> (b: bool)
    ensures
        b == is_identifier_spec(name@),
{
    let cs = chars_of(name);
    if cs.len() == 0 {
        return false;
    }
    if !(cs[0] == '_' || is_ascii_alpha(cs[0])) {
        return false;
    }
    let mut i: usize = 1;
    while i < cs.len()
        invariant
            1 <= i <= cs@.len(),
            cs@ == name@,
            forall|j: int| 1 <= j < i ==> is_name_char(#[trigger] cs@[j]),
        decreases cs@.len() - i,
    {
        let c = cs[i];
        if !(c == '_' || c == '-' || is_ascii_alnum(c)) {
            assert(!is_name_char(cs@[i as int]));
            return false;
        }
        i = i + 1;
    }
    true
}

/// Start of the run of name characters that ends just before index `p`.
pub open spec fn name_run_start(s: Seq<char>, p: int) -> int
    decreases p,
{
    if p <= 0 || !is_name_char(s[p - 1]) {
        p
    } else {
        name_run_start(s, p - 1)
    }
}

proof fn lemma_name_run_start(s: Seq<char>, p: int)
    requires
        0 <= p <= s.len(),
    ensures
        0 <= name_run_start(s, p) <= p,
        forall|j: int| name_run_start(s, p) <= j < p ==> is_name_char(#[trigger] s[j]),
    decreases p,
{
    if p > 0 && is_name_char(s[p - 1]) {
        lemma_name_run_start(s, p - 1);
    }
}

/// The name called on a line: the name characters right before the line's
/// first `'('`, if there are any.
pub open spec fn call_name_spec(s: Seq<char>) -> Option<Seq<char>> {
    if exists|p: int| 0 <= p < s.len() && s[p] == '(' {
        let p = choose|p: int|
            0 <= p < s.len() && s[p] == '(' && forall|q: int| 0 <= q < p ==> s[q] != '(';
        let start = name_run_start(s, p);
        if start == p {
            None
        } else {
            Some(s.subrange(start, p))
        }
    } else {
        None
    }
}

/// The name of the function called on `line`, read backwards from its
/// first `'('`.
pub fn extract_call_name(line: &str) -> (r: Option<String>)
    ensures
        r matches Some(n) ==> call_name_spec(line@) == Some(n@),
        r is None ==> call_name_spec(line@) is None,
{
    let cs = chars_of(line);
    let idx = match find_char_from(cs.as_slice(), 0, '(') {
        Some(i) => i,
        None => {
            return None;
        },
    };
    let mut start = idx;
    while start > 0 && (is_ascii_alnum(cs[start - 1]) || cs[start - 1] == '_' || cs[start - 1]
        == '-')
        invariant
            start <= idx < cs@.len(),
            cs@ == line@,
            cs@[idx as int] == '(',
            forall|q: int| 0 <= q < idx ==> cs@[q] != '(',
            name_run_start(cs@, idx as int) == name_run_start(cs@, start as int),
        decreases start,
    {
        start = start - 1;
    }
    proof {
        assert(name_run_start(cs@, start as int) == start as int);
        let p = choose|p: int|
            0 <= p < cs@.len() && cs@[p] == '(' && forall|q: int| 0 <= q < p ==> cs@[q] != '(';
        assert(p == idx as int) by {
            if p < idx {
                assert(cs@[p] != '(');
            }
            if p > idx {
                assert(cs@[idx as int] != '(');
            }
        }
    }
    if start == idx {
        return None;
    }
    let name = copy_range(cs.as_slice(), start, idx);
    Some(string_of(name.as_slice()))
}

// ---------------------------------------------------------------------------
// Assignments
// ---------------------------------------------------------------------------

/// The two sides of `name = value`, split at the first `'='`: the left side
/// trimmed, the right side trimmed with trailing `;` removed; `None` when
/// there is no `'='` or either side is empty.
pub open spec fn assignment_spec(s: Seq<char>) -> Option<(Seq<char>, Seq<char>)> {
    if exists|p: int| 0 <= p < s.len() && s[p] == '=' {
        let p = choose|p: int|
            0 <= p < s.len() && s[p] == '=' && forall|q: int| 0 <= q < p ==> s[q] != '=';
        let left = trim(s.subrange(0, p));
        let right = trim(trim_end_char(trim(s.subrange(p + 1, s.len() as int)), ';'));
        if left.len() == 0 || right.len() == 0 {
            None
        } else {
            Some((left, right))
        }
    } else {
        None
    }
}

/// Splits `input` as an assignment.
pub fn split_assignment(input: &str) -> (r: Option<(&str, &str)>)
    ensures
        r matches Some((l, v)) ==> assignment_spec(input@) == Some((l@, v@)),
        r is None ==> assignment_spec(input@) is None,
{
    let cs = chars_of(input);
    let eq = match find_char_from(cs.as_slice(), 0, '=') {
        Some(i) => i,
        None => {
            return None;
        },
    };
    proof {
        let p = choose|p: int|
            0 <= p < cs@.len() && cs@[p] == '=' && forall|q: int| 0 <= q < p ==> cs@[q] != '=';
        assert(p == eq as int) by {
            if p < eq {
                assert(cs@[p] != '=');
            }
            if p > eq {
                assert(cs@[eq as int] != '=');
            }
        }
    }
    let (la, lb) = trim_range(cs.as_slice(), 0, eq);
    let (ra, rb) = trim_range(cs.as_slice(), eq + 1, cs.len());
    let mut rb2 = rb;
    while rb2 > ra && cs[rb2 - 1] == ';'
        invariant
            eq < ra <= rb2 <= rb <= cs@.len(),
            trim_end_char(cs@.subrange(ra as int, rb as int), ';') == trim_end_char(
                cs@.subrange(ra as int, rb2 as int),
                ';',
            ),
        decreases rb2 - ra,
    {
        assert(cs@.subrange(ra as int, rb2 as int).drop_last() =~= cs@.subrange(
            ra as int,
            rb2 - 1,
        ));
        rb2 = rb2 - 1;
    }
    let (ra3, rb3) = trim_range(cs.as_slice(), ra, rb2);
    if la == lb || ra3 == rb3 {
        return None;
    }
    let left = input.substring_char(la, lb);
    let right = input.substring_char(ra3, rb3);
    Some((left, right))
}

// ---------------------------------------------------------------------------
// Call arguments
// ---------------------------------------------------------------------------

/// Number of bytes in the UTF-8 encoding of `c`.
pub open spec fn utf8_width(c: char) -> nat {
    let u = c as u32;
    if u <= 0x7f {
        1
    } else if u <= 0x7ff {
        2
    } else if u <= 0xffff {
        3
    } else {
        4
    }
}

/// Number of bytes in the UTF-8 encoding of `s`.
pub open spec fn utf8_len(s: Seq<char>) -> nat
    decreases s.len(),
{
    if s.len() == 0 {
        0
    } else {
        utf8_len(s.drop_last()) + utf8_width(s.last())
    }
}

/// Scanner state while looking for a closing parenthesis: nesting depth,
/// inside a string literal, after a backslash inside a string.
pub open spec fn paren_step(st: (int, bool, bool), ch: char) -> (int, bool, bool) {
    let (depth, in_string, escape) = st;
    if in_string {
        if escape {
            (depth, true, false)
        } else if ch == '\\' {
            (depth, true, true)
        } else if ch == '"' {
            (depth, false, false)
        } else {
            (depth, true, false)
        }
    } else if ch == '"' {
        (depth, true, escape)
    } else if ch == '(' {
        (depth + 1, false, escape)
    } else if ch == ')' {
        (depth - 1, false, escape)
    } else {
        (depth, false, escape)
    }
}

/// The scanner state after reading `s[from..i]` from a fresh state.
pub open spec fn paren_state(s: Seq<char>, from: int, i: int) -> (int, bool, bool)
    decreases i - from,
{
    if i <= from {
        (0, false, false)
    } else {
        paren_step(paren_state(s, from, i - 1), s[i - 1])
    }
}

/// Scanning from `from`, index `e` holds the parenthesis that closes the
/// first opened one.
pub open spec fn closes_at(s: Seq<char>, from: int, e: int) -> bool {
    let st = paren_state(s, from, e);
    from <= e < s.len() && !st.1 && s[e] == ')' && st.0 == 1
}

/// The arguments of the call on `line`, read as the debugger reads them: the
/// first `'('` gives a byte offset `b`; scanning then starts at the `b`-th
/// character, and the first parenthesis that closes there ends the argument
/// list, which begins just after the first `'('`.
pub open spec fn call_arguments_spec(s: Seq<char>) -> Option<Seq<Seq<char>>> {
    if exists|p: int| 0 <= p < s.len() && s[p] == '(' {
        let p = choose|p: int|
            0 <= p < s.len() && s[p] == '(' && forall|q: int| 0 <= q < p ==> s[q] != '(';
        let from = utf8_len(s.take(p)) as int;
        if exists|e: int| closes_at(s, from, e) {
            let e = choose|e: int|
                closes_at(s, from, e) && forall|f: int| from <= f < e ==> !closes_at(s, from, f);
            Some(top_level_arguments(s.subrange(p + 1, e)))
        } else {
            None
        }
    } else {
        None
    }
}

pub fn utf8_width_of(c: char) -> (w: usize)
    ensures
        w as nat == utf8_width(c),
{
    let u = c as u32;
    if u <= 0x7f {
        1
    } else if u <= 0x7ff {
        2
    } else if u <= 0xffff {
        3
    } else {
        4
    }
}

/// The arguments of the first call on `line`, split at top-level commas.
pub fn extract_call_arguments(line: &str) -> (r: Option<Vec<String>>)
    requires
        utf8_len(line@) <= usize::MAX,
        line@.len() < i64::MAX,
    ensures
        r matches Some(a) ==> call_arguments_spec(line@) == Some(a@.map_values(|x: String| x@)),
        r is None ==> call_arguments_spec(line@) is None,
{
    let cs = chars_of(line);
    let p = match find_char_from(cs.as_slice(), 0, '(') {
        Some(i) => i,
        None => {
            return None;
        },
    };
    proof {
        let q = choose|q: int|
            0 <= q < cs@.len() && cs@[q] == '(' && forall|k: int| 0 <= k < q ==> cs@[k] != '(';
        assert(q == p as int) by {
            if q < p {
                assert(cs@[q] != '(');
            }
            if q > p {
                assert(cs@[p as int] != '(');
            }
        }
    }
    // byte offset of the '('
    let mut from: usize = 0;
    let mut k: usize = 0;
    while k < p
        invariant
            k <= p < cs@.len(),
            cs@ == line@,
            utf8_len(line@) <= usize::MAX,
            from as nat == utf8_len(cs@.take(k as int)),
        decreases p - k,
    {
        assert(cs@.take(k + 1).drop_last() =~= cs@.take(k as int));
        proof {
            lemma_utf8_len_prefix(cs@, k + 1);
        }
        from = from + utf8_width_of(cs[k]);
        k = k + 1;
    }
    if from >= cs.len() {
        proof {
            assert forall|f: int| closes_at(cs@, from as int, f) implies false by {}
            let q = choose|q: int|
                0 <= q < cs@.len() && cs@[q] == '(' && forall|k: int| 0 <= k < q ==> cs@[k] != '(';
            assert(q == p as int) by {
                if q < p {
                    assert(cs@[q] != '(');
                }
                if q > p {
                    assert(cs@[p as int] != '(');
                }
            }
        }
        return None;
    }
    let mut depth: i64 = 0;
    let mut in_string = false;
    let mut escape = false;
    let mut i: usize = from;
    let mut end: Option<usize> = None;
    while i < cs.len()
        invariant_except_break
            from <= i <= cs@.len(),
            cs@ == line@,
            (depth as int, in_string, escape) == paren_state(cs@, from as int, i as int),
            -(i - from) <= depth <= i - from,
            cs@.len() < i64::MAX,
            end is None,
            forall|f: int| from <= f < i ==> !closes_at(cs@, from as int, f),
        ensures
            end matches Some(e) ==> closes_at(cs@, from as int, e as int) && forall|f: int|
                from <= f < e ==> !closes_at(cs@, from as int, f),
            end is None ==> forall|f: int| from <= f ==> !closes_at(cs@, from as int, f),
        decreases cs@.len() - i,
    {
        let ch = cs[i];
        if in_string {
            if escape {
                escape = false;
            } else if ch == '\\' {
                escape = true;
            } else if ch == '"' {
                in_string = false;
            }
        } else if ch == '"' {
            in_string = true;
        } else if ch == '(' {
            depth = depth + 1;
        } else if ch == ')' {
            depth = depth - 1;
            if depth == 0 {
                end = Some(i);
                break;
            }
        }
        i = i + 1;
    }
    let e = match end {
        Some(e) => e,
        None => {
            return None;
        },
    };
    proof {
        let q = choose|q: int|
            0 <= q < cs@.len() && cs@[q] == '(' && forall|k: int| 0 <= k < q ==> cs@[k] != '(';
        assert(q == p as int) by {
            if q < p {
                assert(cs@[q] != '(');
            }
            if q > p {
                assert(cs@[p as int] != '(');
            }
        }
        let e2 = choose|f: int|
            closes_at(cs@, from as int, f) && forall|g: int|
                from <= g < f ==> !closes_at(cs@, from as int, g);
        assert(e2 == e as int) by {
            if e2 < e {
                assert(!closes_at(cs@, from as int, e2));
            }
            if e2 > e {
                assert(!closes_at(cs@, from as int, e as int));
            }
        }
        lemma_utf8_len_ge(cs@.take(p as int));
        assert(from >= p);
    }
    let inner = copy_range(cs.as_slice(), p + 1, e);
    let args = split_arguments_chars(inner.as_slice());
    Some(args)
}

pub proof fn lemma_utf8_len_prefix(s: Seq<char>, k: int)
    requires
        0 <= k <= s.len(),
    ensures
        utf8_len(s.take(k)) <= utf8_len(s),
    decreases s.len(),
{
    if k < s.len() {
        assert(s.drop_last().take(k) =~= s.take(k));
        lemma_utf8_len_prefix(s.drop_last(), k);
    } else {
        assert(s.take(k) =~= s);
    }
}

proof fn lemma_utf8_len_ge(s: Seq<char>)
    ensures
        utf8_len(s) >= s.len(),
    decreases s.len(),
{
    if s.len() > 0 {
        lemma_utf8_len_ge(s.drop_last());
    }
}

/// Scanner state while splitting arguments: parenthesis, bracket and brace
/// depths, inside a string literal, after a backslash inside a string.
pub open spec fn arg_step(st: (int, int, int, bool, bool), ch: char) -> (int, int, int, bool, bool) {
    let (p, b, c, in_string, escape) = st;
    if in_string {
        if escape {
            (p, b, c, true, false)
        } else if ch == '\\' {
            (p, b, c, true, true)
        } else if ch == '"' {
            (p, b, c, false, false)
        } else {
            (p, b, c, true, false)
        }
    } else if ch == '"' {
        (p, b, c, true, escape)
    } else if ch == '(' {
        (p + 1, b, c, false, escape)
    } else if ch == ')' {
        (p - 1, b, c, false, escape)
    } else if ch == '[' {
        (p, b + 1, c, false, escape)
    } else if ch == ']' {
        (p, b - 1, c, false, escape)
    } else if ch == '{' {
        (p, b, c + 1, false, escape)
    } else if ch == '}' {
        (p, b, c - 1, false, escape)
    } else {
        (p, b, c, false, escape)
    }
}

/// The splitter's state after reading `s[..i]`.
pub open spec fn arg_state(s: Seq<char>, i: int) -> (int, int, int, bool, bool)
    decreases i,
{
    if i <= 0 {
        (0, 0, 0, false, false)
    } else {
        arg_step(arg_state(s, i - 1), s[i - 1])
    }
}

/// Index `i` of `s` holds a comma at the top level: outside strings and
/// with all three depths zero.
pub open spec fn is_top_level_comma(s: Seq<char>, i: int) -> bool {
    let st = arg_state(s, i);
    s[i] == ',' && !st.3 && st.0 == 0 && st.1 == 0 && st.2 == 0
}

/// The pieces of `s[..i]` between top-level commas.
pub open spec fn arg_pieces(s: Seq<char>, i: int) -> Seq<Seq<char>>
    decreases i,
{
    if i <= 0 {
        seq![Seq::<char>::empty()]
    } else {
        let prev = arg_pieces(s, i - 1);
        if is_top_level_comma(s, i - 1) {
            prev.push(Seq::<char>::empty())
        } else {
            prev.update(prev.len() - 1, prev.last().push(s[i - 1]))
        }
    }
}

/// The trimmed pieces that are not empty, in order.
pub open spec fn nonblank_trimmed(pieces: Seq<Seq<char>>) -> Seq<Seq<char>>
    decreases pieces.len(),
{
    if pieces.len() == 0 {
        Seq::empty()
    } else {
        let rest = nonblank_trimmed(pieces.drop_last());
        let t = trim(pieces.last());
        if t.len() > 0 {
            rest.push(t)
        } else {
            rest
        }
    }
}

/// The arguments of an argument list: split at top-level commas, trimmed,
/// empty ones dropped.
pub open spec fn top_level_arguments(s: Seq<char>) -> Seq<Seq<char>> {
    nonblank_trimmed(arg_pieces(s, s.len() as int))
}

proof fn lemma_arg_pieces_nonempty(s: Seq<char>, i: int)
    ensures
        arg_pieces(s, i).len() >= 1,
    decreases i,
{
    if i > 0 {
        lemma_arg_pieces_nonempty(s, i - 1);
    }
}

fn split_arguments_chars(s: &[char]) -> (r: Vec<String>)
    requires
        s@.len() < i64::MAX,
    ensures
        r@.map_values(|x: String| x@) == top_level_arguments(s@),
{
    let mut args: Vec<String> = Vec::new();
    let mut start: usize = 0;
    let mut pd: i64 = 0;
    let mut bd: i64 = 0;
    let mut cd: i64 = 0;
    let mut in_string = false;
    let mut escape = false;
    let mut i: usize = 0;
    while i < s.len()
        invariant
            start <= i <= s@.len(),
            (pd as int, bd as int, cd as int, in_string, escape) == arg_state(s@, i as int),
            -(i as int) <= pd <= i as int,
            -(i as int) <= bd <= i as int,
            -(i as int) <= cd <= i as int,
            s@.len() < i64::MAX,
            arg_pieces(s@, i as int).last() == s@.subrange(start as int, i as int),
            args@.map_values(|x: String| x@) == nonblank_trimmed(
                arg_pieces(s@, i as int).drop_last(),
            ),
        decreases s@.len() - i,
    {
        proof {
            lemma_arg_pieces_nonempty(s@, i as int);
        }
        let ch = s[i];
        let ghost prev = arg_pieces(s@, i as int);
        if in_string {
            if escape {
                escape = false;
            } else if ch == '\\' {
                escape = true;
            } else if ch == '"' {
                in_string = false;
            }
        } else if ch == '"' {
            in_string = true;
        } else if ch == '(' {
            pd = pd + 1;
        } else if ch == ')' {
            pd = pd - 1;
        } else if ch == '[' {
            bd = bd + 1;
        } else if ch == ']' {
            bd = bd - 1;
        } else if ch == '{' {
            cd = cd + 1;
        } else if ch == '}' {
            cd = cd - 1;
        } else if ch == ',' && pd == 0 && bd == 0 && cd == 0 {
            assert(is_top_level_comma(s@, i as int));
            let (a, b) = trim_range(s, start, i);
            let ghost before = args@.map_values(|x: String| x@);
            if a < b {
                let piece = copy_range(s, a, b);
                args.push(string_of(piece.as_slice()));
            }
            assert(args@.map_values(|x: String| x@) =~= nonblank_trimmed(prev));
            start = i + 1;
            i = i + 1;
            assert(arg_pieces(s@, i as int).drop_last() =~= prev);
            assert(arg_pieces(s@, i as int).last() =~= s@.subrange(start as int, i as int));
            continue;
        }
        assert(!is_top_level_comma(s@, i as int));
        i = i + 1;
        assert(arg_pieces(s@, i as int).drop_last() =~= prev.drop_last());
        assert(arg_pieces(s@, i as int).last() =~= s@.subrange(start as int, i as int));
    }
    proof {
        lemma_arg_pieces_nonempty(s@, i as int);
    }
    let ghost all = arg_pieces(s@, i as int);
    let (a, b) = trim_range(s, start, i);
    if a < b {
        let piece = copy_range(s, a, b);
        args.push(string_of(piece.as_slice()));
    }
    assert(all.drop_last().push(all.last()) =~= all);
    assert(args@.map_values(|x: String| x@) =~= nonblank_trimmed(all));
    args
}

/// The arguments in `input`, split at commas that are outside strings and
/// all brackets, trimmed, with empty ones dropped.
pub fn split_top_level_arguments(input: &str) -> (r: Vec<String>)
    requires
        input@.len() < i64::MAX,
    ensures
        r@.map_values(|x: String| x@) == top_level_arguments(input@),
{
    let cs = chars_of(input);
    split_arguments_chars(cs.as_slice())
}

} // verus!
