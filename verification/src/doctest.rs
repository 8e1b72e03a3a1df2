//! Doc-testing: finding `kettu` code blocks in markdown and wrapping
//! partial snippets into complete files.
//!
//! A fenced block's info string selects the mode: `check` (the default)
//! parses and type-checks the snippet, `parse` only parses it, `nocheck`
//! skips it.
use vstd::prelude::*;
use crate::text::{
    chars_eq, chars_of, contains, contains_str, copy_range, has_prefix, is_blank, is_whitespace, is_ws,
    join, join_parts, lines, lines_of, push_range, push_str, starts_with, string_of, trim, trim_range,
    trimmed, views,
};

verus! {

/// How a code block is tested.
#[derive(Clone, Copy, Debug, PartialEq, Eq)]
pub enum Mode {
    Check,
    Parse,
    NoCheck,
}

/// A fenced code block taken from a markdown document.
pub struct CodeBlock {
    /// 1-based line number of the opening fence.
    pub line: usize,
    /// How the block is tested.
    pub mode: Mode,
    /// Whether the block is a complete file (declares a package, interface
    /// or world).
    pub standalone: bool,
    /// The lines between the fences, joined with newlines.
    pub code: String,
}

/// The contents of a code block.
pub struct BlockView {
    pub line: usize,
    pub mode: Mode,
    pub standalone: bool,
    pub code: Seq<char>,
}

impl View for CodeBlock {
    type V = BlockView;

    open spec fn view(&self) -> BlockView {
        BlockView { line: self.line, mode: self.mode, standalone: self.standalone, code: self.code@ }
    }
}

// ---------------------------------------------------------------------------
// Info strings
// ---------------------------------------------------------------------------

/// The white-space separated words of `s` (`split_whitespace`).
pub open spec fn words(s: Seq<char>) -> Seq<Seq<char>>
    decreases s.len(),
{
    if s.len() == 0 {
        Seq::empty()
    } else {
        let w = words(s.drop_last());
        let c = s.last();
        if is_ws(c) {
            w
        } else if s.len() >= 2 && !is_ws(s[s.len() - 2]) {
            w.update(w.len() - 1, w.last().push(c))
        } else {
            w.push(seq![c])
        }
    }
}

proof fn lemma_words_nonempty(s: Seq<char>)
    ensures
        s.len() > 0 && !is_ws(s.last()) ==> words(s).len() > 0,
    decreases s.len(),
{
    if s.len() > 0 {
        lemma_words_nonempty(s.drop_last());
    }
}

/// The words of `s`.
pub fn split_whitespace(s: &[char]) -> (r: Vec<Vec<char>>)
    ensures
        views(r@) == words(s@),
{
    let mut r: Vec<Vec<char>> = Vec::new();
    let mut cur: Vec<char> = Vec::new();
    let mut i: usize = 0;
    while i < s.len()
        invariant
            i <= s@.len(),
            i > 0 && !is_ws(s@[i - 1]) ==> cur@.len() > 0 && views(r@).push(cur@) == words(
                s@.take(i as int),
            ),
            !(i > 0 && !is_ws(s@[i - 1])) ==> cur@.len() == 0 && views(r@) == words(
                s@.take(i as int),
            ),
        decreases s@.len() - i,
    {
        let c = s[i];
        assert(s@.take(i + 1).drop_last() =~= s@.take(i as int));
        assert(s@.take(i + 1).last() == c);
        proof {
            lemma_words_nonempty(s@.take(i as int));
            if i > 0 {
                assert(s@.take(i as int).last() == s@[i - 1]);
                assert(s@.take(i + 1)[i - 1] == s@[i - 1]);
            }
        }
        if is_whitespace(c) {
            if cur.len() > 0 {
                let ghost before = views(r@);
                let ghost cv = cur@;
                r.push(cur);
                cur = Vec::new();
                assert(views(r@) =~= before.push(cv));
            }
        } else {
            let ghost was = cur@;
            cur.push(c);
            proof {
                if i > 0 && !is_ws(s@[i - 1]) {
                    let w = words(s@.take(i as int));
                    assert(views(r@).push(cur@) =~= w.update(w.len() - 1, w.last().push(c)));
                } else {
                    assert(was.len() == 0);
                    assert(cur@ =~= seq![c]);
                }
            }
        }
        i = i + 1;
    }
    assert(s@.take(i as int) =~= s@);
    if cur.len() > 0 {
        let ghost before = views(r@);
        let ghost cv = cur@;
        r.push(cur);
        assert(views(r@) =~= before.push(cv));
    }
    r
}

/// The mode an info string such as `kettu nocheck` selects: by its second
/// word, `nocheck` and `parse` select those modes; anything else, or no
/// second word, selects checking.
pub open spec fn mode_spec(info: Seq<char>) -> Mode {
    let ws = words(info);
    if ws.len() >= 2 {
        if ws[1] == "nocheck"@ {
            Mode::NoCheck
        } else if ws[1] == "parse"@ {
            Mode::Parse
        } else {
            Mode::Check
        }
    } else {
        Mode::Check
    }
}

fn mode_of_chars(info: &[char]) -> (m: Mode)
    ensures
        m == mode_spec(info@),
{
    let parts = split_whitespace(info);
    if parts.len() >= 2 {
        assert(views(parts@)[1] == parts@[1]@);
        if chars_eq(parts[1].as_slice(), "nocheck") {
            Mode::NoCheck
        } else if chars_eq(parts[1].as_slice(), "parse") {
            Mode::Parse
        } else {
            Mode::Check
        }
    } else {
        Mode::Check
    }
}

/// The mode selected by a fence's info string.
pub fn parse_mode(info: &str) -> (m: Mode)
    ensures
        m == mode_spec(info@),
{
    let cs = chars_of(info);
    mode_of_chars(cs.as_slice())
}

// ---------------------------------------------------------------------------
// Extracting blocks
// ---------------------------------------------------------------------------

/// A trimmed line that opens a `kettu` block.
pub open spec fn is_opening_fence(t: Seq<char>) -> bool {
    starts_with(t, "```kettu"@) && !starts_with(t, "````"@)
}

/// A line that closes a block.
pub open spec fn is_closing_fence(l: Seq<char>) -> bool {
    trim(l) == "```"@
}

/// The first closing fence at or after line `j`, or the number of lines.
pub open spec fn closing_fence(ls: Seq<Seq<char>>, j: int) -> int
    decreases ls.len() - j,
{
    if j >= ls.len() {
        ls.len() as int
    } else if is_closing_fence(ls[j]) {
        j
    } else {
        closing_fence(ls, j + 1)
    }
}

pub proof fn lemma_closing_fence(ls: Seq<Seq<char>>, j: int)
    requires
        0 <= j <= ls.len(),
    ensures
        j <= closing_fence(ls, j) <= ls.len(),
    decreases ls.len() - j,
{
    if j < ls.len() && !is_closing_fence(ls[j]) {
        lemma_closing_fence(ls, j + 1);
    }
}

/// Code that declares a package, interface or world is a complete file.
pub open spec fn is_standalone(code: Seq<char>) -> bool {
    contains(code, "package "@) || contains(code, "interface "@) || contains(code, "world "@)
}

/// The blocks found from line `i` on: an opening fence starts a block whose
/// code is every following line up to the next closing fence (or the end);
/// scanning resumes after that fence.
pub open spec fn blocks_from(ls: Seq<Seq<char>>, i: int) -> Seq<BlockView>
    decreases ls.len() + 1 - i,
{
    if i < 0 || i >= ls.len() {
        Seq::empty()
    } else if is_opening_fence(trim(ls[i])) {
        proof {
            lemma_closing_fence(ls, i + 1);
        }
        let close = closing_fence(ls, i + 1);
        let code = join(ls.subrange(i + 1, close), "\n"@);
        seq![
            BlockView {
                line: (i + 1) as usize,
                mode: mode_spec(trim(ls[i]).skip(3)),
                standalone: is_standalone(code),
                code,
            },
        ] + blocks_from(ls, close + 1)
    } else {
        blocks_from(ls, i + 1)
    }
}

/// The views of a list of blocks.
pub open spec fn block_views(bs: Seq<CodeBlock>) -> Seq<BlockView> {
    bs.map_values(|b: CodeBlock| b@)
}

/// All `kettu` code blocks of a markdown text, in order.
pub fn extract_blocks(source: &str) -> (r: Vec<CodeBlock>)
    ensures
        block_views(r@) == blocks_from(lines(source@), 0),
{
    let cs = chars_of(source);
    let ls = lines_of(cs.as_slice());
    let ghost vl = views(ls@);
    let n = ls.len();
    let mut blocks: Vec<CodeBlock> = Vec::new();
    let mut i: usize = 0;
    while i < n
        invariant
            i <= n == ls@.len() == vl.len(),
            vl == views(ls@),
            block_views(blocks@) + blocks_from(vl, i as int) == blocks_from(vl, 0),
        decreases n - i,
    {
        assert(vl[i as int] == ls@[i as int]@);
        let t = trimmed(ls[i].as_slice());
        if has_prefix(t.as_slice(), "```kettu") && !has_prefix(t.as_slice(), "````") {
            proof {
                reveal_strlit("```kettu");
            }
            let info = copy_range(t.as_slice(), 3, t.len());
            assert(info@ =~= t@.skip(3));
            let mode = mode_of_chars(info.as_slice());
            let mut j: usize = i + 1;
            proof {
                lemma_closing_fence(vl, (i + 1) as int);
            }
            while j < n && !is_closing_line(ls[j].as_slice())
                invariant
                    i < j <= n == ls@.len() == vl.len(),
                    vl == views(ls@),
                    closing_fence(vl, i + 1) == closing_fence(vl, j as int),
                decreases n - j,
            {
                assert(vl[j as int] == ls@[j as int]@);
                j = j + 1;
            }
            proof {
                if j < n {
                    assert(vl[j as int] == ls@[j as int]@);
                }
            }
            let mut code_lines: Vec<Vec<char>> = Vec::new();
            let mut k: usize = i + 1;
            while k < j
                invariant
                    i < k <= j <= n == ls@.len() == vl.len(),
                    vl == views(ls@),
                    views(code_lines@) == vl.subrange(i + 1, k as int),
                decreases j - k,
            {
                let ghost before = views(code_lines@);
                let l = copy_range(ls[k].as_slice(), 0, ls[k].len());
                assert(vl[k as int] == ls@[k as int]@);
                assert(l@ =~= vl[k as int]);
                let ghost lv = l@;
                code_lines.push(l);
                assert(views(code_lines@) =~= before.push(lv));
                k = k + 1;
                assert(views(code_lines@) =~= vl.subrange(i + 1, k as int));
            }
            let code = join_parts(&code_lines, "\n");
            let standalone = contains_str(code.as_slice(), "package ") || contains_str(
                code.as_slice(),
                "interface ",
            ) || contains_str(code.as_slice(), "world ");
            let block = CodeBlock {
                line: i + 1,
                mode,
                standalone,
                code: string_of(code.as_slice()),
            };
            let ghost before = block_views(blocks@);
            let ghost bv = block@;
            blocks.push(block);
            assert(block_views(blocks@) =~= before.push(bv));
            proof {
                assert(blocks_from(vl, i as int) =~= seq![bv] + blocks_from(vl, j + 1));
                assert(blocks_from(vl, j + 1) =~= blocks_from(vl, if j < n { j + 1 } else { n as int }));
            }
            i = if j < n {
                j + 1
            } else {
                n
            };
        } else {
            i = i + 1;
        }
    }
    proof {
        assert(blocks_from(vl, i as int) =~= Seq::<BlockView>::empty());
    }
    assert(block_views(blocks@) =~= blocks_from(vl, 0));
    blocks
}

fn is_closing_line(l: &[char]) -> (b: bool)
    ensures
        b == is_closing_fence(l@),
{
    let t = trimmed(l);
    chars_eq(t.as_slice(), "```")
}

// ---------------------------------------------------------------------------
// Wrapping snippets
// ---------------------------------------------------------------------------

/// `n` spaces.
pub open spec fn spaces(n: nat) -> Seq<char> {
    Seq::new(n, |i: int| ' ')
}

/// `l` indented by `n` spaces, or empty when `l` is blank.
pub open spec fn indent_line(l: Seq<char>, n: nat) -> Seq<char> {
    if is_blank(l) {
        Seq::empty()
    } else {
        spaces(n) + l
    }
}

/// Every line of `text` indented by `n` spaces (blank lines emptied), joined
/// with newlines.
pub open spec fn indent_spec(text: Seq<char>, n: nat) -> Seq<char> {
    join(lines(text).map_values(|l: Seq<char>| indent_line(l, n)), "\n"@)
}

fn indent_chars(text: &[char], n: usize) -> (r: Vec<char>)
    ensures
        r@ == indent_spec(text@, n as nat),
{
    let ls = lines_of(text);
    let mut out_lines: Vec<Vec<char>> = Vec::new();
    let mut k: usize = 0;
    while k < ls.len()
        invariant
            k <= ls@.len(),
            views(out_lines@) == views(ls@).take(k as int).map_values(
                |l: Seq<char>| indent_line(l, n as nat),
            ),
        decreases ls@.len() - k,
    {
        let t = trimmed(ls[k].as_slice());
        let mut line: Vec<char> = Vec::new();
        if t.len() > 0 {
            let mut m: usize = 0;
            while m < n
                invariant
                    m <= n,
                    line@ == spaces(m as nat),
                decreases n - m,
            {
                line.push(' ');
                m = m + 1;
                assert(line@ =~= spaces(m as nat));
            }
            push_range(&mut line, ls[k].as_slice(), 0, ls[k].len());
            assert(ls@[k as int]@.subrange(0, ls@[k as int]@.len() as int) =~= ls@[k as int]@);
        }
        assert(views(ls@)[k as int] == ls@[k as int]@);
        assert(line@ =~= indent_line(ls@[k as int]@, n as nat));
        let ghost before = views(out_lines@);
        let ghost lv = line@;
        out_lines.push(line);
        assert(views(out_lines@) =~= before.push(lv));
        k = k + 1;
        assert(views(out_lines@) =~= views(ls@).take(k as int).map_values(
            |l: Seq<char>| indent_line(l, n as nat),
        ));
    }
    assert(views(ls@).take(k as int) =~= views(ls@));
    join_parts(&out_lines, "\n")
}

/// Every line of `text` indented by `n` spaces.
pub fn indent(text: &str, n: usize) -> (r: String)
    ensures
        r@ == indent_spec(text@, n as nat),
{
    let cs = chars_of(text);
    let r = indent_chars(cs.as_slice(), n);
    string_of(r.as_slice())
}

/// A line that may appear in a list of bare function signatures.
pub open spec fn is_signature_line(l: Seq<char>) -> bool {
    let t = trim(l);
    ||| t.len() == 0
    ||| starts_with(t, "//"@)
    ||| contains(t, ": func("@)
    ||| contains(t, ": async func("@)
    ||| contains(t, ": static func("@)
}

/// Code made only of bare function signatures, comments and blank lines.
pub open spec fn is_func_signature_spec(code: Seq<char>) -> bool {
    forall|i: int| 0 <= i < lines(code).len() ==> is_signature_line(#[trigger] lines(code)[i])
}

fn signature_chars(code: &[char]) -> (b: bool)
    ensures
        b == is_func_signature_spec(code@),
{
    let ls = lines_of(code);
    let mut k: usize = 0;
    while k < ls.len()
        invariant
            k <= ls@.len(),
            views(ls@) == lines(code@),
            forall|i: int| 0 <= i < k ==> is_signature_line(#[trigger] lines(code@)[i]),
        decreases ls@.len() - k,
    {
        assert(views(ls@)[k as int] == ls@[k as int]@);
        let t = trimmed(ls[k].as_slice());
        let ok = t.len() == 0 || has_prefix(t.as_slice(), "//") || contains_str(
            t.as_slice(),
            ": func(",
        ) || contains_str(t.as_slice(), ": async func(") || contains_str(
            t.as_slice(),
            ": static func(",
        );
        if !ok {
            return false;
        }
        k = k + 1;
    }
    true
}

/// Whether `code` looks like bare function signatures.
pub fn is_func_signature(code: &str) -> (b: bool)
    ensures
        b == is_func_signature_spec(code@),
{
    let cs = chars_of(code);
    signature_chars(cs.as_slice())
}

/// A snippet that only declares a type.
pub open spec fn is_type_decl(t: Seq<char>) -> bool {
    ||| starts_with(t, "record "@)
    ||| starts_with(t, "variant "@)
    ||| starts_with(t, "enum "@)
    ||| starts_with(t, "flags "@)
    ||| starts_with(t, "type "@) && contains(t, "="@)
}

/// The start of every wrapped snippet but worlds.
pub open spec fn snippet_head() -> Seq<char> {
    "package local:doctest;\n\ninterface snippet {\n"@
}

/// The complete file a partial snippet is wrapped into: type declarations,
/// bare signatures and annotated items go directly into an interface,
/// constructors into a resource, worlds stay top-level, and anything else
/// becomes the body of a function `run`, after the preamble if one is given.
pub open spec fn wrap_spec(code: Seq<char>, preamble: Seq<char>) -> Seq<char> {
    let t = trim(code);
    if is_type_decl(t) || is_func_signature_spec(t) || starts_with(t, "@"@) {
        snippet_head() + indent_spec(t, 4) + "\n}\n"@
    } else if starts_with(t, "constructor("@) {
        snippet_head() + "    resource r {\n"@ + indent_spec(t, 8) + "\n    }\n}\n"@
    } else if starts_with(t, "world "@) {
        "package local:doctest;\n\n"@ + t + "\n"@
    } else if preamble.len() == 0 {
        snippet_head() + "    run: func() {\n"@ + indent_spec(t, 8) + "\n    }\n}\n"@
    } else {
        snippet_head() + "    run: func() {\n"@ + indent_spec(preamble, 8) + "\n"@ + indent_spec(
            t,
            8,
        ) + "\n    }\n}\n"@
    }
}

/// A snippet that declares a type (`record`, `variant`, `enum`, `flags`,
/// or a `type` alias with `=`) is placed directly inside the snippet
/// interface, indented by four spaces, whatever the preamble.
pub proof fn type_declarations_stand_in_the_interface(code: Seq<char>, preamble: Seq<char>)
    requires
        starts_with(trim(code), "record "@) || starts_with(trim(code), "variant "@) || starts_with(
            trim(code),
            "enum "@,
        ) || starts_with(trim(code), "flags "@) || (starts_with(trim(code), "type "@) && contains(
            trim(code),
            "="@,
        )),
    ensures
        wrap_spec(code, preamble) == "package local:doctest;\n\ninterface snippet {\n"@ + indent_spec(
            trim(code),
            4,
        ) + "\n}\n"@,
{
}

/// A `world` snippet stays at the top level of the file, after the
/// package line.
pub proof fn worlds_stand_at_the_top_level(code: Seq<char>, preamble: Seq<char>)
    requires
        starts_with(trim(code), "world "@),
        !is_func_signature_spec(trim(code)),
    ensures
        wrap_spec(code, preamble) == "package local:doctest;\n\n"@ + trim(code) + "\n"@,
{
    reveal_strlit("world ");
    reveal_strlit("record ");
    reveal_strlit("variant ");
    reveal_strlit("enum ");
    reveal_strlit("flags ");
    reveal_strlit("type ");
    reveal_strlit("@");
    reveal_strlit("constructor(");
    let t = trim(code);
    assert(t.subrange(0, 6) == "world "@);
    assert(t[0] == 'w') by {
        assert(t.subrange(0, 6)[0] == t[0]);
    }
    assert(!starts_with(t, "record "@)) by {
        if t.len() >= 7 {
            assert(t.subrange(0, 7)[0] == t[0]);
        }
    }
    assert(!starts_with(t, "variant "@)) by {
        if t.len() >= 8 {
            assert(t.subrange(0, 8)[0] == t[0]);
        }
    }
    assert(!starts_with(t, "enum "@)) by {
        assert(t.subrange(0, 5)[0] == t[0]);
    }
    assert(!starts_with(t, "flags "@)) by {
        assert(t.subrange(0, 6)[0] == t[0]);
    }
    assert(!starts_with(t, "type "@)) by {
        assert(t.subrange(0, 5)[0] == t[0]);
    }
    assert(!starts_with(t, "@"@)) by {
        assert(t.subrange(0, 1)[0] == t[0]);
    }
    assert(!starts_with(t, "constructor("@)) by {
        if t.len() >= 12 {
            assert(t.subrange(0, 12)[0] == t[0]);
        }
    }
}

/// Wraps a partial snippet into a complete file; `preamble` supplies
/// declarations that statement snippets need.
pub fn wrap_snippet(code: &str, preamble: Option<&str>) -> (r: String)
    ensures
        r@ == wrap_spec(
            code@,
            match preamble {
                Some(p) => p@,
                None => Seq::<char>::empty(),
            },
        ),
{
    let cs = chars_of(code);
    let t = trimmed(cs.as_slice());
    let ts = t.as_slice();
    let pre: Vec<char> = match preamble {
        Some(p) => chars_of(p),
        None => Vec::new(),
    };
    let mut out: Vec<char> = Vec::new();
    let type_decl = has_prefix(ts, "record ") || has_prefix(ts, "variant ") || has_prefix(
        ts,
        "enum ",
    ) || has_prefix(ts, "flags ") || (has_prefix(ts, "type ") && contains_str(ts, "="));
    if type_decl || signature_chars(ts) || has_prefix(ts, "@") {
        push_str(&mut out, "package local:doctest;\n\ninterface snippet {\n");
        let body = indent_chars(ts, 4);
        push_range(&mut out, body.as_slice(), 0, body.len());
        push_str(&mut out, "\n}\n");
        assert(body@.subrange(0, body@.len() as int) =~= body@);
        assert(out@ =~= wrap_spec(cs@, pre@));
    } else if has_prefix(ts, "constructor(") {
        push_str(&mut out, "package local:doctest;\n\ninterface snippet {\n");
        push_str(&mut out, "    resource r {\n");
        let body = indent_chars(ts, 8);
        push_range(&mut out, body.as_slice(), 0, body.len());
        push_str(&mut out, "\n    }\n}\n");
        assert(body@.subrange(0, body@.len() as int) =~= body@);
        assert(out@ =~= wrap_spec(cs@, pre@));
    } else if has_prefix(ts, "world ") {
        push_str(&mut out, "package local:doctest;\n\n");
        push_range(&mut out, ts, 0, t.len());
        push_str(&mut out, "\n");
        assert(t@.subrange(0, t@.len() as int) =~= t@);
        assert(out@ =~= wrap_spec(cs@, pre@));
    } else if pre.len() == 0 {
        push_str(&mut out, "package local:doctest;\n\ninterface snippet {\n");
        push_str(&mut out, "    run: func() {\n");
        let body = indent_chars(ts, 8);
        push_range(&mut out, body.as_slice(), 0, body.len());
        push_str(&mut out, "\n    }\n}\n");
        assert(body@.subrange(0, body@.len() as int) =~= body@);
        assert(out@ =~= wrap_spec(cs@, pre@));
    } else {
        push_str(&mut out, "package local:doctest;\n\ninterface snippet {\n");
        push_str(&mut out, "    run: func() {\n");
        let pb = indent_chars(pre.as_slice(), 8);
        push_range(&mut out, pb.as_slice(), 0, pb.len());
        push_str(&mut out, "\n");
        let body = indent_chars(ts, 8);
        push_range(&mut out, body.as_slice(), 0, body.len());
        push_str(&mut out, "\n    }\n}\n");
        assert(pb@.subrange(0, pb@.len() as int) =~= pb@);
        assert(body@.subrange(0, body@.len() as int) =~= body@);
        assert(out@ =~= wrap_spec(cs@, pre@));
    }
    string_of(out.as_slice())
}


// ---------------------------------------------------------------------------
// Running doc-tests
// ---------------------------------------------------------------------------

/// The source a block is tested as: none for a `nocheck` block; a complete
/// block as it is; any other block wrapped with the page's preamble.
pub fn block_source(block: &CodeBlock, preamble: Option<&str>) -> (r: Option<String>)
    ensures
        match r {
            None => block.mode == Mode::NoCheck,
            Some(s) => block.mode != Mode::NoCheck && s@ == if block.standalone {
                block.code@
            } else {
                wrap_spec(
                    block.code@,
                    match preamble {
                        Some(p) => p@,
                        None => Seq::<char>::empty(),
                    },
                )
            },
        },
{
    match block.mode {
        Mode::NoCheck => None,
        _ => if block.standalone {
            Some(block.code.clone())
        } else {
            Some(wrap_snippet(block.code.as_str(), preamble))
        },
    }
}

/// Number of blocks of `blocks` in mode `m`.
pub open spec fn count_mode(blocks: Seq<CodeBlock>, m: Mode) -> nat
    decreases blocks.len(),
{
    if blocks.len() == 0 {
        0
    } else {
        count_mode(blocks.drop_last(), m) + if blocks.last().mode == m {
            1nat
        } else {
            0nat
        }
    }
}

/// Number of `true` among `outcomes`.
pub open spec fn count_true(outcomes: Seq<bool>) -> nat
    decreases outcomes.len(),
{
    if outcomes.len() == 0 {
        0
    } else {
        count_true(outcomes.drop_last()) + if outcomes.last() {
            1nat
        } else {
            0nat
        }
    }
}

/// What a page adds to the doc-test counts, given its blocks and the
/// outcome (passed or not) of each block that was tested, in order: a page
/// with no tested block adds nothing; otherwise its `nocheck` blocks count
/// as skipped and the others as passed or failed.
pub open spec fn page_tally(blocks: Seq<CodeBlock>, outcomes: Seq<bool>) -> (nat, nat, nat) {
    let skipped = count_mode(blocks, Mode::NoCheck);
    if skipped == blocks.len() {
        (0, 0, 0)
    } else {
        (count_true(outcomes), (outcomes.len() - count_true(outcomes)) as nat, skipped)
    }
}

proof fn lemma_count_mode_bound(blocks: Seq<CodeBlock>, m: Mode)
    ensures
        count_mode(blocks, m) <= blocks.len(),
    decreases blocks.len(),
{
    if blocks.len() > 0 {
        lemma_count_mode_bound(blocks.drop_last(), m);
    }
}

proof fn lemma_count_true_bound(outcomes: Seq<bool>)
    ensures
        count_true(outcomes) <= outcomes.len(),
    decreases outcomes.len(),
{
    if outcomes.len() > 0 {
        lemma_count_true_bound(outcomes.drop_last());
    }
}

/// The passed, failed and skipped counts that a page adds.
pub fn tally_page(blocks: &[CodeBlock], outcomes: &[bool]) -> (r: (usize, usize, usize))
    ensures
        (r.0 as nat, r.1 as nat, r.2 as nat) == page_tally(blocks@, outcomes@),
{
    let nb = blocks.len();
    let mut skipped: usize = 0;
    let mut i: usize = 0;
    while i < nb
        invariant
            nb == blocks@.len(),
            i <= nb,
            skipped as nat == count_mode(blocks@.take(i as int), Mode::NoCheck),
            skipped <= i,
        decreases nb - i,
    {
        assert(blocks@.take(i + 1).drop_last() =~= blocks@.take(i as int));
        if matches!(blocks[i].mode, Mode::NoCheck) {
            skipped = skipped + 1;
        }
        i = i + 1;
    }
    assert(blocks@.take(nb as int) =~= blocks@);
    if skipped == nb {
        return (0, 0, 0);
    }
    let no = outcomes.len();
    let mut passed: usize = 0;
    let mut k: usize = 0;
    while k < no
        invariant
            no == outcomes@.len(),
            k <= no,
            passed as nat == count_true(outcomes@.take(k as int)),
            passed <= k,
        decreases no - k,
    {
        assert(outcomes@.take(k + 1).drop_last() =~= outcomes@.take(k as int));
        if outcomes[k] {
            passed = passed + 1;
        }
        k = k + 1;
    }
    assert(outcomes@.take(no as int) =~= outcomes@);
    (passed, no - passed, skipped)
}

} // verus!
