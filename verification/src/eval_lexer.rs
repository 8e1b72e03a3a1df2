//! The lexer of the debugger's `evaluate` expressions: operators, literals
//! and identifiers, with the errors it reports.
use vstd::prelude::*;
use crate::numbers::{all_digits, decimal, decimal_roundtrip, parse_unsigned, parse_unsigned_range, push_decimal};
use crate::text::{
    chars_eq, chars_of, copy_range, is_ascii_alnum, is_ascii_alnum_spec, is_ascii_alpha, is_ascii_alpha_spec,
    is_ascii_digit, is_ascii_digit_spec, is_whitespace, is_ws, push_range, push_str, string_of,
};

verus! {

/// A token of an `evaluate` expression. A literal with a decimal point is
/// kept as it was written; its numeric value is read where it is used.
#[derive(Debug, PartialEq)]
pub enum EvalToken {
    LParen,
    RParen,
    Plus,
    Minus,
    Star,
    Slash,
    EqEq,
    NotEq,
    Lt,
    Le,
    Gt,
    Ge,
    AndAnd,
    OrOr,
    Bool(bool),
    Int(i64),
    Float(String),
    String(String),
    Ident(String),
}

/// A token as a mathematical value.
pub enum TokenView {
    LParen,
    RParen,
    Plus,
    Minus,
    Star,
    Slash,
    EqEq,
    NotEq,
    Lt,
    Le,
    Gt,
    Ge,
    AndAnd,
    OrOr,
    Bool(bool),
    Int(i64),
    Float(Seq<char>),
    Str(Seq<char>),
    Ident(Seq<char>),
}

impl View for EvalToken {
    type V = TokenView;

    open spec fn view(&self) -> TokenView {
        match self {
            EvalToken::LParen => TokenView::LParen,
            EvalToken::RParen => TokenView::RParen,
            EvalToken::Plus => TokenView::Plus,
            EvalToken::Minus => TokenView::Minus,
            EvalToken::Star => TokenView::Star,
            EvalToken::Slash => TokenView::Slash,
            EvalToken::EqEq => TokenView::EqEq,
            EvalToken::NotEq => TokenView::NotEq,
            EvalToken::Lt => TokenView::Lt,
            EvalToken::Le => TokenView::Le,
            EvalToken::Gt => TokenView::Gt,
            EvalToken::Ge => TokenView::Ge,
            EvalToken::AndAnd => TokenView::AndAnd,
            EvalToken::OrOr => TokenView::OrOr,
            EvalToken::Bool(b) => TokenView::Bool(*b),
            EvalToken::Int(n) => TokenView::Int(*n),
            EvalToken::Float(s) => TokenView::Float(s@),
            EvalToken::String(s) => TokenView::Str(s@),
            EvalToken::Ident(s) => TokenView::Ident(s@),
        }
    }
}

/// The views of a sequence of tokens.
pub open spec fn token_views(s: Seq<EvalToken>) -> Seq<TokenView> {
    s.map_values(|t: EvalToken| t@)
}

// ---------------------------------------------------------------------------
// The lexical grammar
// ---------------------------------------------------------------------------

/// The body of a string literal whose opening quote precedes `k`: where the
/// scan stops (at the closing quote, or at the end of the input) and the
/// characters it keeps; a backslash keeps the character after it as it is.
pub open spec fn scan_string(cs: Seq<char>, k: int, escaped: bool) -> (int, Seq<char>)
    decreases cs.len() - k,
{
    if k < 0 || k >= cs.len() {
        (k, Seq::empty())
    } else if escaped {
        let rest = scan_string(cs, k + 1, false);
        (rest.0, seq![cs[k]] + rest.1)
    } else if cs[k] == '\\' {
        scan_string(cs, k + 1, true)
    } else if cs[k] == '"' {
        (k, Seq::empty())
    } else {
        let rest = scan_string(cs, k + 1, false);
        (rest.0, seq![cs[k]] + rest.1)
    }
}

/// The end of a number that continues at `k`: digits, and one decimal
/// point at most; and whether a point was seen.
pub open spec fn scan_number(cs: Seq<char>, k: int, is_float: bool) -> (int, bool)
    decreases cs.len() - k,
{
    if 0 <= k < cs.len() && (is_ascii_digit_spec(cs[k]) || (!is_float && cs[k] == '.')) {
        scan_number(cs, k + 1, is_float || cs[k] == '.')
    } else {
        (k, is_float)
    }
}

/// A character that may continue an identifier.
pub open spec fn ident_char(c: char) -> bool {
    c == '_' || c == '-' || is_ascii_alnum_spec(c)
}

/// The end of an identifier that continues at `k`.
pub open spec fn scan_ident(cs: Seq<char>, k: int) -> int
    decreases cs.len() - k,
{
    if 0 <= k < cs.len() && ident_char(cs[k]) {
        scan_ident(cs, k + 1)
    } else {
        k
    }
}

/// The character at `i + 1` is `c`.
pub open spec fn next_is(cs: Seq<char>, i: int, c: char) -> bool {
    i + 1 < cs.len() && cs[i + 1] == c
}

/// The operator that starts at `i`, with its length, if one does.
pub open spec fn operator_at(cs: Seq<char>, i: int) -> Option<(TokenView, int)> {
    let c = cs[i];
    if c == '(' {
        Some((TokenView::LParen, 1))
    } else if c == ')' {
        Some((TokenView::RParen, 1))
    } else if c == '+' {
        Some((TokenView::Plus, 1))
    } else if c == '-' {
        Some((TokenView::Minus, 1))
    } else if c == '*' {
        Some((TokenView::Star, 1))
    } else if c == '/' {
        Some((TokenView::Slash, 1))
    } else if c == '&' && next_is(cs, i, '&') {
        Some((TokenView::AndAnd, 2))
    } else if c == '|' && next_is(cs, i, '|') {
        Some((TokenView::OrOr, 2))
    } else if c == '=' && next_is(cs, i, '=') {
        Some((TokenView::EqEq, 2))
    } else if c == '!' && next_is(cs, i, '=') {
        Some((TokenView::NotEq, 2))
    } else if c == '<' && next_is(cs, i, '=') {
        Some((TokenView::Le, 2))
    } else if c == '>' && next_is(cs, i, '=') {
        Some((TokenView::Ge, 2))
    } else if c == '<' {
        Some((TokenView::Lt, 1))
    } else if c == '>' {
        Some((TokenView::Gt, 1))
    } else {
        None
    }
}

/// The token that starts at `i` (not white space) and the position after
/// it, or the error message.
pub open spec fn lexeme(cs: Seq<char>, i: int) -> Result<(TokenView, int), Seq<char>> {
    let c = cs[i];
    if operator_at(cs, i) is Some {
        let (t, n) = operator_at(cs, i).unwrap();
        Ok((t, i + n))
    } else if c == '"' {
        let body = scan_string(cs, i + 1, false);
        if body.0 >= cs.len() {
            Err("Unterminated string starting at "@ + decimal((i + 1) as nat))
        } else {
            Ok((TokenView::Str(body.1), body.0 + 1))
        }
    } else if is_ascii_digit_spec(c) {
        let num = scan_number(cs, i + 1, false);
        let text = cs.subrange(i, num.0);
        if num.1 {
            Ok((TokenView::Float(text), num.0))
        } else {
            match parse_unsigned(text, i64::MAX as nat) {
                Some(v) => Ok((TokenView::Int(v as i64), num.0)),
                None => Err("Invalid integer literal: "@ + text),
            }
        }
    } else if c == '_' || is_ascii_alpha_spec(c) {
        let end = scan_ident(cs, i + 1);
        let text = cs.subrange(i, end);
        if text == "true"@ {
            Ok((TokenView::Bool(true), end))
        } else if text == "false"@ {
            Ok((TokenView::Bool(false), end))
        } else {
            Ok((TokenView::Ident(text), end))
        }
    } else {
        Err("Unsupported token in expression: "@ + seq![c])
    }
}

/// `r` with `p` put before its tokens; an error stays as it is.
pub open spec fn prepend(p: Seq<TokenView>, r: Result<Seq<TokenView>, Seq<char>>) -> Result<
    Seq<TokenView>,
    Seq<char>,
> {
    match r {
        Ok(ts) => Ok(p + ts),
        Err(m) => Err(m),
    }
}

/// The tokens of `cs` from position `i` on, or the first error met:
/// white space separates tokens and is dropped.
pub open spec fn lex_from(cs: Seq<char>, i: int) -> Result<Seq<TokenView>, Seq<char>>
    decreases cs.len() - i,
{
    if i < 0 || i >= cs.len() {
        Ok(Seq::empty())
    } else if is_ws(cs[i]) {
        lex_from(cs, i + 1)
    } else {
        match lexeme(cs, i) {
            Err(m) => Err(m),
            Ok((t, j)) => if i < j <= cs.len() {
                prepend(seq![t], lex_from(cs, j))
            } else {
                Err(Seq::empty())
            },
        }
    }
}

/// The tokens of an expression, or the first error met.
pub open spec fn lex(s: Seq<char>) -> Result<Seq<TokenView>, Seq<char>> {
    lex_from(s, 0)
}

// ---------------------------------------------------------------------------
// Scanners
// ---------------------------------------------------------------------------

fn scan_string_exec(cs: &Vec<char>, k0: usize) -> (r: (usize, Vec<char>))
    requires
        k0 <= cs@.len(),
    ensures
        r.0 as int == scan_string(cs@, k0 as int, false).0,
        r.1@ == scan_string(cs@, k0 as int, false).1,
{
    let mut index = k0;
    let mut escaped = false;
    let mut value: Vec<char> = Vec::new();
    while index < cs.len() && (escaped || cs[index] != '"')
        invariant
            k0 <= index <= cs@.len(),
            scan_string(cs@, k0 as int, false).0 == scan_string(cs@, index as int, escaped).0,
            scan_string(cs@, k0 as int, false).1 == value@ + scan_string(
                cs@,
                index as int,
                escaped,
            ).1,
        decreases cs@.len() - index,
    {
        let current = cs[index];
        let ghost rest = scan_string(cs@, index + 1, false).1;
        if escaped {
            value.push(current);
            escaped = false;
            assert(value@ + rest =~= old_value_plus(value@.drop_last(), current, rest));
        } else if current == '\\' {
            escaped = true;
        } else {
            value.push(current);
            assert(value@ + rest =~= old_value_plus(value@.drop_last(), current, rest));
        }
        index = index + 1;
    }
    (index, value)
}

/// `v + [c] + rest`, grouped as the scanners build it.
spec fn old_value_plus(v: Seq<char>, c: char, rest: Seq<char>) -> Seq<char> {
    v + (seq![c] + rest)
}

fn scan_number_exec(cs: &Vec<char>, k0: usize) -> (r: (usize, bool))
    requires
        k0 <= cs@.len(),
    ensures
        r.0 as int == scan_number(cs@, k0 as int, false).0,
        r.1 == scan_number(cs@, k0 as int, false).1,
        k0 <= r.0 <= cs@.len(),
{
    let mut index = k0;
    let mut is_float = false;
    while index < cs.len() && (is_ascii_digit(cs[index]) || (!is_float && cs[index] == '.'))
        invariant
            k0 <= index <= cs@.len(),
            scan_number(cs@, k0 as int, false) == scan_number(cs@, index as int, is_float),
        decreases cs@.len() - index,
    {
        if cs[index] == '.' {
            is_float = true;
        }
        index = index + 1;
    }
    (index, is_float)
}

fn scan_ident_exec(cs: &Vec<char>, k0: usize) -> (r: usize)
    requires
        k0 <= cs@.len(),
    ensures
        r as int == scan_ident(cs@, k0 as int),
        k0 <= r <= cs@.len(),
{
    let mut index = k0;
    while index < cs.len() && (cs[index] == '_' || cs[index] == '-' || is_ascii_alnum(cs[index]))
        invariant
            k0 <= index <= cs@.len(),
            scan_ident(cs@, k0 as int) == scan_ident(cs@, index as int),
        decreases cs@.len() - index,
    {
        index = index + 1;
    }
    index
}


// ---------------------------------------------------------------------------
// The lexer
// ---------------------------------------------------------------------------

fn message_with(prefix: &str, tail: &[char]) -> (m: String)
    ensures
        m@ == prefix@ + tail@,
{
    let mut v: Vec<char> = Vec::new();
    push_str(&mut v, prefix);
    push_range(&mut v, tail, 0, tail.len());
    assert(tail@.subrange(0, tail@.len() as int) =~= tail@);
    string_of(&v)
}

/// The token that starts at `i`, which is not white space.
fn lex_one(cs: &Vec<char>, i: usize) -> (r: Result<(EvalToken, usize), String>)
    requires
        i < cs@.len(),
    ensures
        match r {
            Ok((t, j)) => lexeme(cs@, i as int) == Ok::<(TokenView, int), Seq<char>>((t@, j as int)) && i < j
                <= cs@.len(),
            Err(m) => lexeme(cs@, i as int) == Err::<(TokenView, int), Seq<char>>(m@),
        },
{
    let n = cs.len();
    let c = cs[i];
    let two = i + 1 < n;
    let follows_eq = two && cs[i + 1] == '=';
    if c == '(' {
        return Ok((EvalToken::LParen, i + 1));
    } else if c == ')' {
        return Ok((EvalToken::RParen, i + 1));
    } else if c == '+' {
        return Ok((EvalToken::Plus, i + 1));
    } else if c == '-' {
        return Ok((EvalToken::Minus, i + 1));
    } else if c == '*' {
        return Ok((EvalToken::Star, i + 1));
    } else if c == '/' {
        return Ok((EvalToken::Slash, i + 1));
    } else if c == '&' && two && cs[i + 1] == '&' {
        return Ok((EvalToken::AndAnd, i + 2));
    } else if c == '|' && two && cs[i + 1] == '|' {
        return Ok((EvalToken::OrOr, i + 2));
    } else if c == '=' && follows_eq {
        return Ok((EvalToken::EqEq, i + 2));
    } else if c == '!' && follows_eq {
        return Ok((EvalToken::NotEq, i + 2));
    } else if c == '<' && follows_eq {
        return Ok((EvalToken::Le, i + 2));
    } else if c == '>' && follows_eq {
        return Ok((EvalToken::Ge, i + 2));
    } else if c == '<' {
        return Ok((EvalToken::Lt, i + 1));
    } else if c == '>' {
        return Ok((EvalToken::Gt, i + 1));
    }
    assert(operator_at(cs@, i as int) is None);
    if c == '"' {
        let (end, body) = scan_string_exec(cs, i + 1);
        proof {
            lemma_scan_string_bounds(cs@, i + 1, false);
        }
        if end >= n {
            let mut v: Vec<char> = Vec::new();
            push_str(&mut v, "Unterminated string starting at ");
            push_decimal(&mut v, (i + 1) as u64);
            return Err(string_of(&v));
        }
        return Ok((EvalToken::String(string_of(&body)), end + 1));
    }
    if is_ascii_digit(c) {
        let (end, is_float) = scan_number_exec(cs, i + 1);
        let text = copy_range(cs.as_slice(), i, end);
        if is_float {
            return Ok((EvalToken::Float(string_of(&text)), end));
        }
        return match parse_unsigned_range(cs.as_slice(), i, end, i64::MAX as u64) {
            Some(v) => Ok((EvalToken::Int(v as i64), end)),
            None => Err(message_with("Invalid integer literal: ", text.as_slice())),
        };
    }
    if c == '_' || is_ascii_alpha(c) {
        let end = scan_ident_exec(cs, i + 1);
        let text = copy_range(cs.as_slice(), i, end);
        if chars_eq(text.as_slice(), "true") {
            return Ok((EvalToken::Bool(true), end));
        } else if chars_eq(text.as_slice(), "false") {
            return Ok((EvalToken::Bool(false), end));
        }
        return Ok((EvalToken::Ident(string_of(&text)), end));
    }
    let mut one: Vec<char> = Vec::new();
    one.push(c);
    assert(one@ =~= seq![c]);
    let m = message_with("Unsupported token in expression: ", one.as_slice());
    assert(lexeme(cs@, i as int) == Err::<(TokenView, int), Seq<char>>(m@));
    Err(m)
}

proof fn lemma_scan_string_bounds(cs: Seq<char>, k: int, escaped: bool)
    requires
        0 <= k <= cs.len(),
    ensures
        k <= scan_string(cs, k, escaped).0 <= cs.len(),
    decreases cs.len() - k,
{
    if k < cs.len() {
        lemma_scan_string_bounds(cs, k + 1, false);
        lemma_scan_string_bounds(cs, k + 1, true);
    }
}

proof fn lemma_prepend_push(p: Seq<TokenView>, t: TokenView, r: Result<Seq<TokenView>, Seq<char>>)
    ensures
        prepend(p, prepend(seq![t], r)) == prepend(p.push(t), r),
{
    if let Ok(ts) = r {
        assert(p + (seq![t] + ts) =~= p.push(t) + ts);
    }
}

/// Splits an `evaluate` expression into tokens: the first error met ends
/// the scan.
pub fn tokenize_expression(expression: &str) -> (r: Result<Vec<EvalToken>, String>)
    ensures
        match r {
            Ok(ts) => lex(expression@) == Ok::<Seq<TokenView>, Seq<char>>(token_views(ts@)),
            Err(m) => lex(expression@) == Err::<Seq<TokenView>, Seq<char>>(m@),
        },
{
    let chars = chars_of(expression);
    let n = chars.len();
    let mut index: usize = 0;
    let mut tokens: Vec<EvalToken> = Vec::new();
    assert(token_views(tokens@) =~= Seq::<TokenView>::empty());
    assert(prepend(Seq::empty(), lex_from(chars@, 0)) == lex_from(chars@, 0)) by {
        if let Ok(ts) = lex_from(chars@, 0) {
            assert(Seq::<TokenView>::empty() + ts =~= ts);
        }
    }
    while index < n
        invariant
            index <= n,
            n == chars@.len(),
            chars@ == expression@,
            lex(chars@) == prepend(token_views(tokens@), lex_from(chars@, index as int)),
        decreases n - index,
    {
        if is_whitespace(chars[index]) {
            index = index + 1;
        } else {
            match lex_one(&chars, index) {
                Err(m) => {
                    return Err(m);
                },
                Ok((t, j)) => {
                    let ghost before = token_views(tokens@);
                    proof {
                        lemma_prepend_push(before, t@, lex_from(chars@, j as int));
                    }
                    tokens.push(t);
                    assert(token_views(tokens@) =~= before.push(t@));
                    index = j;
                },
            }
        }
    }
    assert(token_views(tokens@) + Seq::<TokenView>::empty() =~= token_views(tokens@));
    Ok(tokens)
}


// ---------------------------------------------------------------------------
// Laws
// ---------------------------------------------------------------------------

proof fn lemma_scan_digits(cs: Seq<char>, k: int)
    requires
        0 <= k <= cs.len(),
        all_digits(cs),
    ensures
        scan_number(cs, k, false) == (cs.len() as int, false),
    decreases cs.len() - k,
{
    if k < cs.len() {
        assert(is_ascii_digit_spec(cs[k]));
        lemma_scan_digits(cs, k + 1);
    }
}

/// The decimal rendering of a number that fits in an `i64` lexes to that
/// number and nothing else.
pub proof fn decimal_lexes_to_int(n: i64)
    requires
        n >= 0,
    ensures
        lex(decimal(n as nat)) == Ok::<Seq<TokenView>, Seq<char>>(seq![TokenView::Int(n)]),
{
    let cs = decimal(n as nat);
    decimal_roundtrip(n as nat, i64::MAX as nat);
    crate::numbers::lemma_decimal_digits(n as nat);
    assert(is_ascii_digit_spec(cs[0]));
    lemma_scan_digits(cs, 1);
    assert(cs.subrange(0, cs.len() as int) =~= cs);
    assert(!is_ws(cs[0]));
    assert(operator_at(cs, 0) is None);
    assert(lexeme(cs, 0) == Ok::<(TokenView, int), Seq<char>>((TokenView::Int(n), cs.len() as int)));
    assert(lex_from(cs, cs.len() as int) == Ok::<Seq<TokenView>, Seq<char>>(Seq::empty()));
    assert(seq![TokenView::Int(n)] + Seq::<TokenView>::empty() =~= seq![TokenView::Int(n)]);
}

} // verus!
