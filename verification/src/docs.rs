//! The embedded language guide: pages with `//`-comment frontmatter, their
//! order, their grouping into numbered sections, and the rewriting of
//! links between pages into `kettu docs X.Y` references.
use vstd::prelude::*;
use vstd::string::StrSliceExecFns;
use crate::text::{
    alphanumeric, chars_of, copy_range, find_from, is_alphanumeric, lines, lines_of, lowercase_of,
    matches_at, occurs_at, starts_with, string_of, to_lowercase, trim, trim_char, trim_char_range,
    trim_range, trim_start_char, trim_start_seq, trim_start_seq_range, views, ends_with, contains,
    index_of, after_last, trim_end_seq, lemma_index_of, index_of_char, after_last_char,
    trim_end_seq_range, push_range, push_str, split_char, split_on,
};
use crate::numbers::{decimal, parse_unsigned, parse_unsigned_range, push_decimal};
use crate::name_map::NameMap;

verus! {

/// A page of the guide.
pub struct DocPage {
    pub section: String,
    pub order: u32,
    pub title: String,
    /// The markdown body without its frontmatter.
    pub content: String,
    /// The page's file stem, used to resolve links to it.
    pub filename: String,
}

/// The contents of a page.
pub struct PageView {
    pub section: Seq<char>,
    pub order: u32,
    pub title: Seq<char>,
    pub content: Seq<char>,
    pub filename: Seq<char>,
}

impl View for DocPage {
    type V = PageView;

    open spec fn view(&self) -> PageView {
        PageView {
            section: self.section@,
            order: self.order,
            title: self.title@,
            content: self.content@,
            filename: self.filename@,
        }
    }
}

// ---------------------------------------------------------------------------
// Frontmatter
// ---------------------------------------------------------------------------

/// The value of a `// key: "value"` frontmatter line: the line trimmed,
/// stripped of leading `//`s and trimmed again must start with `key`; the
/// rest, stripped of leading `:`s and trimmed, loses surrounding quotes.
pub open spec fn meta_value(line: Seq<char>, key: Seq<char>) -> Option<Seq<char>> {
    let t = trim(trim_start_seq(trim(line), "//"@));
    if starts_with(t, key) {
        let rest = trim(trim_start_char(t.skip(key.len() as int), ':'));
        Some(trim_char(rest, '"'))
    } else {
        None
    }
}

/// Reads `key`'s value from a frontmatter line.
pub fn parse_meta(line: &str, key: &str) -> (r: Option<String>)
    ensures
        r matches Some(v) ==> meta_value(line@, key@) == Some(v@),
        r is None ==> meta_value(line@, key@) is None,
{
    let cs = chars_of(line);
    meta_of_chars(cs.as_slice(), key)
}

fn meta_of_chars(cs: &[char], key: &str) -> (r: Option<String>)
    ensures
        r matches Some(v) ==> meta_value(cs@, key@) == Some(v@),
        r is None ==> meta_value(cs@, key@) is None,
{
    let n = cs.len();
    let (a, b) = trim_range(cs, 0, n);
    assert(cs@.subrange(0, n as int) =~= cs@);
    let a2 = trim_start_seq_range(cs, a, b, "//");
    let (a3, b3) = trim_range(cs, a2, b);
    let ghost t = cs@.subrange(a3 as int, b3 as int);
    let kc = chars_of(key);
    if kc.len() > b3 - a3 || !matches_at(cs, a3, kc.as_slice()) {
        proof {
            if starts_with(t, key@) {
                assert(t.subrange(0, kc@.len() as int) =~= cs@.subrange(
                    a3 as int,
                    a3 + kc@.len(),
                ));
            }
        }
        return None;
    }
    assert(t.subrange(0, kc@.len() as int) =~= cs@.subrange(a3 as int, a3 + kc@.len()));
    let mut a4: usize = a3 + kc.len();
    assert(t.skip(kc@.len() as int) =~= cs@.subrange(a4 as int, b3 as int));
    while a4 < b3 && cs[a4] == ':'
        invariant
            a3 + kc@.len() <= a4 <= b3 <= cs@.len(),
            trim_start_char(t.skip(kc@.len() as int), ':') == trim_start_char(
                cs@.subrange(a4 as int, b3 as int),
                ':',
            ),
        decreases b3 - a4,
    {
        assert(cs@.subrange(a4 as int, b3 as int).drop_first() =~= cs@.subrange(
            a4 + 1,
            b3 as int,
        ));
        a4 = a4 + 1;
    }
    let (a5, b5) = trim_range(cs, a4, b3);
    let (a6, b6) = trim_char_range(cs, a5, b5, '"');
    let v = copy_range(cs, a6, b6);
    Some(string_of(v.as_slice()))
}

/// The body of a page: when the text starts with `---` and a later line
/// starts with `---` (found as `"\n---"` after the first three
/// characters), whatever follows that marker, without leading newlines
/// (empty when nothing follows it); otherwise the whole text.
pub open spec fn body_spec(s: Seq<char>) -> Seq<char> {
    if starts_with(s, "---"@) && exists|i: int| occurs_at(s.skip(3), "\n---"@, i) {
        let e = choose|i: int|
            occurs_at(s.skip(3), "\n---"@, i) && forall|j: int|
                0 <= j < i ==> !occurs_at(s.skip(3), "\n---"@, j);
        trim_start_char(s.skip(e + 7), '\n')
    } else {
        s
    }
}

/// The first occurrence of `"\n---"` in `cs[3..]`, relative to index 3.
fn find_marker(cs: &[char]) -> (r: Option<usize>)
    requires
        cs@.len() >= 3,
    ensures
        r matches Some(e) ==> occurs_at(cs@.skip(3), "\n---"@, e as int) && forall|j: int|
            0 <= j < e ==> !occurs_at(cs@.skip(3), "\n---"@, j),
        r is None ==> forall|j: int| !occurs_at(cs@.skip(3), "\n---"@, j),
{
    let mc = chars_of("\n---");
    let r = find_from(cs, 3, mc.as_slice());
    proof {
        assert forall|j: int| j >= 0 implies (occurs_at(cs@.skip(3), mc@, j) <==> occurs_at(cs@, mc@, j + 3)) by {
            if 0 <= j && j + mc@.len() <= cs@.len() - 3 {
                assert(cs@.skip(3).subrange(j, j + mc@.len()) =~= cs@.subrange(
                    j + 3,
                    j + 3 + mc@.len(),
                ));
            }
        }
    }
    match r {
        Some(i) => {
            assert(occurs_at(cs@.skip(3), mc@, i - 3));
            assert forall|j: int| 0 <= j < i - 3 implies !occurs_at(cs@.skip(3), "\n---"@, j) by {
                assert(!occurs_at(cs@, mc@, j + 3));
            }
            Some(i - 3)
        },
        None => {
            assert forall|j: int| !occurs_at(cs@.skip(3), "\n---"@, j) by {
                if j >= 0 {
                    assert(!occurs_at(cs@, mc@, j + 3));
                }
            }
            None
        },
    }
}

/// Whether `cs` starts with `---`.
fn starts_with_dashes(cs: &[char]) -> (b: bool)
    ensures
        b == starts_with(cs@, "---"@),
{
    let d = chars_of("---");
    matches_at(cs, 0, d.as_slice())
}

/// The characters of `s` after its frontmatter.
fn body_range(cs: &[char]) -> (a: usize)
    ensures
        a <= cs@.len(),
        cs@.skip(a as int) == body_spec(cs@),
{
    if !starts_with_dashes(cs) {
        assert(cs@.skip(0) =~= cs@);
        return 0;
    }
    proof {
        reveal_strlit("---");
    }
    match find_marker(cs) {
        Some(e) => {
            proof {
                reveal_strlit("\n---");
                assert(cs@.skip(3).len() == cs@.len() - 3);
                assert(e + 4 <= cs@.len() - 3);
            }
            let n = cs.len();
            assert(e + 7 <= n);
            let after = e + 7;
            if after < cs.len() {
                let mut a = after;
                while a < cs.len() && cs[a] == '\n'
                    invariant
                        after <= a <= cs@.len(),
                        trim_start_char(cs@.skip(after as int), '\n') == trim_start_char(
                            cs@.skip(a as int),
                            '\n',
                        ),
                    decreases cs@.len() - a,
                {
                    assert(cs@.skip(a as int).drop_first() =~= cs@.skip(a + 1));
                    a = a + 1;
                }
                a
            } else {
                assert(cs@.skip(after as int) =~= Seq::<char>::empty());
                after
            }
        },
        None => {
            assert(cs@.skip(0) =~= cs@);
            0
        },
    }
}

/// The markdown body of `source`, without its frontmatter.
pub fn strip_frontmatter(source: &str) -> (r: &str)
    ensures
        r@ == body_spec(source@),
{
    let cs = chars_of(source);
    let a = body_range(cs.as_slice());
    source.substring_char(a, cs.len())
}

// ---------------------------------------------------------------------------
// Pages
// ---------------------------------------------------------------------------

/// The value of the first line that has `key`.
pub open spec fn first_meta(ls: Seq<Seq<char>>, key: Seq<char>) -> Option<Seq<char>>
    decreases ls.len(),
{
    if ls.len() == 0 {
        None
    } else if meta_value(ls[0], key) is Some {
        meta_value(ls[0], key)
    } else {
        first_meta(ls.drop_first(), key)
    }
}

/// The value of the last line that has `key`.
pub open spec fn last_meta(ls: Seq<Seq<char>>, key: Seq<char>) -> Option<Seq<char>>
    decreases ls.len(),
{
    if ls.len() == 0 {
        None
    } else if meta_value(ls.last(), key) is Some {
        meta_value(ls.last(), key)
    } else {
        last_meta(ls.drop_last(), key)
    }
}

/// A slug of `s`: every character that is not alphanumeric becomes `-`, and
/// leading and trailing `-` go.
pub open spec fn slug(s: Seq<char>) -> Seq<char> {
    trim_char(s.map_values(|c: char| if alphanumeric(c) { c } else { '-' }), '-')
}

/// A page's file stem: the `file` entry of its frontmatter if it has one,
/// else a slug of its lowercased title.
pub open spec fn filename_spec(front: Seq<char>, title: Seq<char>) -> Seq<char> {
    match first_meta(lines(front), "file"@) {
        Some(v) => v,
        None => slug(lowercase_of(title)),
    }
}

fn filename_of_lines(ls: &Vec<Vec<char>>, title: &str) -> (r: String)
    ensures
        r@ == match first_meta(views(ls@), "file"@) {
            Some(v) => v,
            None => slug(lowercase_of(title@)),
        },
{
    let mut k: usize = 0;
    assert(views(ls@).skip(0) =~= views(ls@));
    while k < ls.len()
        invariant
            k <= ls@.len(),
            first_meta(views(ls@), "file"@) == first_meta(views(ls@).skip(k as int), "file"@),
        decreases ls@.len() - k,
    {
        assert(views(ls@).skip(k as int)[0] == ls@[k as int]@);
        assert(views(ls@).skip(k as int).drop_first() =~= views(ls@).skip(k + 1));
        match meta_of_chars(ls[k].as_slice(), "file") {
            Some(v) => {
                return v;
            },
            None => {},
        }
        k = k + 1;
    }
    assert(views(ls@).skip(k as int).len() == 0);
    let lower = to_lowercase(title);
    let lc = chars_of(lower.as_str());
    let mut m: Vec<char> = Vec::new();
    let mut i: usize = 0;
    while i < lc.len()
        invariant
            i <= lc@.len(),
            lc@ == lowercase_of(title@),
            m@ == lc@.take(i as int).map_values(|c: char| if alphanumeric(c) { c } else { '-' }),
        decreases lc@.len() - i,
    {
        let c = lc[i];
        m.push(if is_alphanumeric(c) { c } else { '-' });
        i = i + 1;
        assert(m@ =~= lc@.take(i as int).map_values(
            |c: char|
                if alphanumeric(c) {
                    c
                } else {
                    '-'
                },
        ));
    }
    assert(lc@.take(lc@.len() as int) =~= lc@);
    let (a, b) = trim_char_range(m.as_slice(), 0, m.len(), '-');
    assert(m@.subrange(0, m@.len() as int) =~= m@);
    let out = copy_range(m.as_slice(), a, b);
    string_of(out.as_slice())
}

/// The file stem of a page with frontmatter `front` and title `title`.
pub fn extract_filename(front: &str, title: &str) -> (r: String)
    ensures
        r@ == filename_spec(front@, title@),
{
    let fc = chars_of(front);
    let ls = lines_of(fc.as_slice());
    filename_of_lines(&ls, title)
}

/// The page a source text describes: it must start with `---` and have a
/// closing `---` line; the frontmatter between them must not mark the page
/// as an index, and must give a section, a title and an order that parses
/// as a `u32` (for each key the last line that has it counts).
#[verifier::opaque]
pub open spec fn page_spec(s: Seq<char>) -> Option<PageView> {
    if starts_with(s, "---"@) && exists|i: int| occurs_at(s.skip(3), "\n---"@, i) {
        let e = choose|i: int|
            occurs_at(s.skip(3), "\n---"@, i) && forall|j: int|
                0 <= j < i ==> !occurs_at(s.skip(3), "\n---"@, j);
        let front = s.subrange(3, 3 + e);
        let ls = lines(front);
        if exists|i: int| 0 <= i < ls.len() && meta_value(ls[i], "index"@) == Some("true"@) {
            None
        } else {
            match (last_meta(ls, "title"@), last_meta(ls, "section"@), last_meta(ls, "order"@)) {
                (Some(t), Some(sec), Some(o)) => match parse_unsigned(o, u32::MAX as nat) {
                    Some(n) => Some(
                        PageView {
                            section: sec,
                            order: n as u32,
                            title: t,
                            content: body_spec(s),
                            filename: filename_spec(front, t),
                        },
                    ),
                    None => None,
                },
                _ => None,
            }
        }
    } else {
        None
    }
}

/// Parses a value as a `u32`, as `str::parse::<u32>` does.
fn parse_u32(v: &String) -> (r: Option<u32>)
    ensures
        r matches Some(n) ==> parse_unsigned(v@, u32::MAX as nat) == Some(n as nat),
        r is None ==> parse_unsigned(v@, u32::MAX as nat) is None,
{
    let vc = chars_of(v.as_str());
    assert(vc@.subrange(0, vc@.len() as int) =~= vc@);
    match parse_unsigned_range(vc.as_slice(), 0, vc.len(), u32::MAX as u64) {
        Some(n) => Some(n as u32),
        None => None,
    }
}

/// Parses one embedded page.
pub fn parse_page(source: &str) -> (r: Option<DocPage>)
    ensures
        r matches Some(p) ==> page_spec(source@) == Some(p@),
        r is None ==> page_spec(source@) is None,
{
    reveal(page_spec);
    let cs = chars_of(source);
    if !starts_with_dashes(cs.as_slice()) {
        return None;
    }
    proof {
        reveal_strlit("---");
        reveal_strlit("\n---");
    }
    let e = match find_marker(cs.as_slice()) {
        Some(e) => e,
        None => {
            return None;
        },
    };
    let n = cs.len();
    assert(cs@.skip(3).len() == cs@.len() - 3);
    assert(e + 3 <= n);
    let front = copy_range(cs.as_slice(), 3, 3 + e);
    let ls = lines_of(front.as_slice());
    let ghost vls = views(ls@);
    let mut section: Option<String> = None;
    let mut order: Option<u32> = None;
    let mut title: Option<String> = None;
    let mut is_index = false;
    let mut k: usize = 0;
    while k < ls.len()
        invariant
            k <= ls@.len(),
            vls == views(ls@),
            section matches Some(v) ==> last_meta(vls.take(k as int), "section"@) == Some(v@),
            section is None ==> last_meta(vls.take(k as int), "section"@) is None,
            title matches Some(v) ==> last_meta(vls.take(k as int), "title"@) == Some(v@),
            title is None ==> last_meta(vls.take(k as int), "title"@) is None,
            order == (match last_meta(vls.take(k as int), "order"@) {
                Some(o) => match parse_unsigned(o, u32::MAX as nat) {
                    Some(m) => Some(m as u32),
                    None => None,
                },
                None => None,
            }),
            is_index == exists|i: int|
                0 <= i < k && meta_value(vls[i], "index"@) == Some("true"@),
        decreases ls@.len() - k,
    {
        assert(vls.take(k + 1).drop_last() =~= vls.take(k as int));
        assert(vls.take(k + 1).last() == ls@[k as int]@);
        let line = ls[k].as_slice();
        match meta_of_chars(line, "section") {
            Some(v) => {
                section = Some(v);
            },
            None => {},
        }
        match meta_of_chars(line, "order") {
            Some(v) => {
                order = parse_u32(&v);
            },
            None => {},
        }
        match meta_of_chars(line, "title") {
            Some(v) => {
                title = Some(v);
            },
            None => {},
        }
        match meta_of_chars(line, "index") {
            Some(v) => {
                let vc = chars_of(v.as_str());
                if crate::text::chars_eq(vc.as_slice(), "true") {
                    is_index = true;
                }
            },
            None => {},
        }
        k = k + 1;
    }
    assert(vls.take(k as int) =~= vls);
    if is_index {
        return None;
    }
    let title_str = match title {
        Some(t) => t,
        None => {
            return None;
        },
    };
    let filename = filename_of_lines(&ls, title_str.as_str());
    let section = match section {
        Some(s) => s,
        None => {
            return None;
        },
    };
    let order = match order {
        Some(o) => o,
        None => {
            proof {
                if let Some(o) = last_meta(vls, "order"@) {
                    assert(parse_unsigned(o, u32::MAX as nat) is None);
                }
            }
            return None;
        },
    };
    let a = body_range(cs.as_slice());
    let body = copy_range(cs.as_slice(), a, n);
    assert(body@ =~= cs@.skip(a as int));
    Some(DocPage { section, order, title: title_str, content: string_of(body.as_slice()), filename })
}

// ---------------------------------------------------------------------------
// Ordering pages
// ---------------------------------------------------------------------------

/// Sections are shown in this order: "Language Topics", then "Advanced
/// Topics", then all others.
pub open spec fn section_rank(section: Seq<char>) -> nat {
    if section == "Language Topics"@ {
        1
    } else if section == "Advanced Topics"@ {
        2
    } else {
        99
    }
}

/// The sort key of a page: its section's rank, then its order. As one
/// number: `rank * 2^32 + order`, which compares the same way since orders
/// are below `2^32`.
pub open spec fn page_key(p: PageView) -> int {
    section_rank(p.section) * 0x1_0000_0000 + p.order as int
}

/// `perm` lists the indices of `input` so that keys never decrease, and
/// pages with equal keys keep their input order.
pub open spec fn stable_order(input: Seq<PageView>, perm: Seq<int>) -> bool {
    &&& perm.len() == input.len()
    &&& forall|k: int| 0 <= k < perm.len() ==> 0 <= #[trigger] perm[k] < input.len()
    &&& forall|k: int, l: int| 0 <= k < l < perm.len() ==> perm[k] != perm[l]
    &&& forall|k: int, l: int|
        0 <= k < l < perm.len() ==> page_key(input[perm[k]]) <= page_key(input[perm[l]])
    &&& forall|k: int, l: int|
        0 <= k < l < perm.len() && page_key(input[perm[k]]) == page_key(input[perm[l]])
            ==> perm[k] < perm[l]
}

/// `out` is `input` sorted stably by page key.
pub open spec fn stably_sorted(out: Seq<PageView>, input: Seq<PageView>) -> bool {
    exists|perm: Seq<int>|
        stable_order(input, perm) && out.len() == input.len() && forall|k: int|
            0 <= k < out.len() ==> out[k] == input[#[trigger] perm[k]]
}

/// The pages that the sources describe, in source order.
pub open spec fn parsed_pages(sources: Seq<Seq<char>>) -> Seq<PageView>
    decreases sources.len(),
{
    if sources.len() == 0 {
        Seq::empty()
    } else {
        let rest = parsed_pages(sources.drop_last());
        match page_spec(sources.last()) {
            Some(p) => rest.push(p),
            None => rest,
        }
    }
}

/// The texts of a list of string slices.
pub open spec fn texts(sources: Seq<&str>) -> Seq<Seq<char>> {
    sources.map_values(|s: &str| s@)
}

/// The views of a list of pages.
pub open spec fn page_views(pages: Seq<DocPage>) -> Seq<PageView> {
    pages.map_values(|p: DocPage| p@)
}

fn section_rank_of(section: &String) -> (r: u64)
    ensures
        r as nat == section_rank(section@),
{
    if crate::text::str_eq(section.as_str(), "Language Topics") {
        1
    } else if crate::text::str_eq(section.as_str(), "Advanced Topics") {
        2
    } else {
        99
    }
}

fn page_key_of(p: &DocPage) -> (k: u64)
    ensures
        k as int == page_key(p@),
{
    section_rank_of(&p.section) * 0x1_0000_0000u64 + p.order as u64
}

fn copy_page(p: &DocPage) -> (r: DocPage)
    ensures
        r@ == p@,
{
    DocPage {
        section: p.section.clone(),
        order: p.order,
        title: p.title.clone(),
        content: p.content.clone(),
        filename: p.filename.clone(),
    }
}

/// Stable insertion sort of the indices of `keys`.
fn stable_sort_indices(keys: &Vec<u64>, ghost_pages: Ghost<Seq<PageView>>) -> (perm: Vec<usize>)
    requires
        keys@.len() == ghost_pages@.len(),
        forall|i: int| 0 <= i < keys@.len() ==> keys@[i] as int == page_key(ghost_pages@[i]),
    ensures
        stable_order(ghost_pages@, perm@.map_values(|x: usize| x as int)),
{
    let ghost input = ghost_pages@;
    let mut perm: Vec<usize> = Vec::new();
    let mut i: usize = 0;
    while i < keys.len()
        invariant
            i <= keys@.len() == input.len(),
            forall|q: int| 0 <= q < keys@.len() ==> keys@[q] as int == page_key(input[q]),
            perm@.len() == i,
            forall|k: int| 0 <= k < perm@.len() ==> 0 <= #[trigger] perm@[k] < i,
            forall|k: int, l: int| 0 <= k < l < perm@.len() ==> perm@[k] != perm@[l],
            forall|k: int, l: int|
                0 <= k < l < perm@.len() ==> keys@[perm@[k] as int] <= keys@[perm@[l] as int],
            forall|k: int, l: int|
                0 <= k < l < perm@.len() && keys@[perm@[k] as int] == keys@[perm@[l] as int]
                    ==> perm@[k] < perm@[l],
        decreases keys@.len() - i,
    {
        let ki = keys[i];
        let mut j: usize = perm.len();
        while j > 0 && keys[perm[j - 1]] > ki
            invariant
                j <= perm@.len() == i < keys@.len(),
                ki == keys@[i as int],
                forall|k: int| 0 <= k < perm@.len() ==> 0 <= #[trigger] perm@[k] < i,
                forall|k: int| j <= k < perm@.len() ==> keys@[#[trigger] perm@[k] as int] > ki,
            decreases j,
        {
            j = j - 1;
        }
        proof {
            assert forall|k: int| 0 <= k < j implies keys@[#[trigger] perm@[k] as int] <= ki by {
                if j > 0 {
                    assert(keys@[perm@[j - 1] as int] <= ki);
                    if k < j - 1 {
                        assert(keys@[perm@[k] as int] <= keys@[perm@[j - 1] as int]);
                    }
                }
            }
        }
        let ghost old_perm = perm@;
        perm.insert(j, i);
        assert(perm@ == old_perm.insert(j as int, i));
        proof {
            assert forall|k: int| 0 <= k < perm@.len() implies 0 <= #[trigger] perm@[k] < i + 1 by {
                if k < j {
                    assert(perm@[k] == old_perm[k]);
                } else if k > j {
                    assert(perm@[k] == old_perm[k - 1]);
                }
            }
            assert forall|k: int, l: int| 0 <= k < l < perm@.len() implies perm@[k] != perm@[l] by {
                if k < j && l < j {
                    assert(perm@[k] == old_perm[k] && perm@[l] == old_perm[l]);
                } else if k < j && l == j {
                    assert(old_perm[k] < i);
                } else if k < j && l > j {
                    assert(perm@[l] == old_perm[l - 1]);
                } else if k == j {
                    assert(old_perm[l - 1] < i);
                } else {
                    assert(perm@[k] == old_perm[k - 1] && perm@[l] == old_perm[l - 1]);
                }
            }
            assert forall|k: int, l: int| 0 <= k < l < perm@.len() implies keys@[perm@[k] as int]
                <= keys@[perm@[l] as int] by {
                if k < j && l < j {
                    assert(perm@[k] == old_perm[k] && perm@[l] == old_perm[l]);
                } else if k < j && l == j {
                    assert(perm@[k] == old_perm[k]);
                } else if k < j && l > j {
                    assert(perm@[k] == old_perm[k] && perm@[l] == old_perm[l - 1]);
                } else if k == j {
                    assert(perm@[l] == old_perm[l - 1]);
                } else {
                    assert(perm@[k] == old_perm[k - 1] && perm@[l] == old_perm[l - 1]);
                }
            }
            assert forall|k: int, l: int|
                0 <= k < l < perm@.len() && keys@[perm@[k] as int] == keys@[perm@[l] as int]
                    implies perm@[k] < perm@[l] by {
                if k < j && l < j {
                    assert(perm@[k] == old_perm[k] && perm@[l] == old_perm[l]);
                } else if k < j && l == j {
                    assert(perm@[k] == old_perm[k]);
                } else if k < j && l > j {
                    assert(perm@[k] == old_perm[k] && perm@[l] == old_perm[l - 1]);
                } else if k == j {
                    assert(perm@[l] == old_perm[l - 1]);
                    assert(keys@[old_perm[l - 1] as int] > ki);
                } else {
                    assert(perm@[k] == old_perm[k - 1] && perm@[l] == old_perm[l - 1]);
                }
            }
        }
        i = i + 1;
    }
    let ghost p = perm@.map_values(|x: usize| x as int);
    assert forall|k: int, l: int| 0 <= k < l < p.len() implies page_key(input[p[k]]) <= page_key(
        input[p[l]],
    ) by {
        assert(keys@[perm@[k] as int] <= keys@[perm@[l] as int]);
    }
    assert forall|k: int, l: int|
        0 <= k < l < p.len() && page_key(input[p[k]]) == page_key(input[p[l]]) implies p[k]
        < p[l] by {
        assert(keys@[perm@[k] as int] == keys@[perm@[l] as int]);
    }
    assert forall|k: int, l: int| 0 <= k < l < p.len() implies p[k] != p[l] by {
        assert(perm@[k] != perm@[l]);
    }
    assert forall|k: int| 0 <= k < p.len() implies 0 <= #[trigger] p[k] < input.len() by {
        assert(perm@[k] < i);
    }
    perm
}

/// Parses the embedded page sources and orders the pages by section rank,
/// then by their `order`, keeping source order among equals.
pub fn load_docs(sources: &[&str]) -> (pages: Vec<DocPage>)
    ensures
        stably_sorted(page_views(pages@), parsed_pages(texts(sources@))),
{
    let mut parsed: Vec<DocPage> = Vec::new();
    let mut i: usize = 0;
    while i < sources.len()
        invariant
            i <= sources@.len(),
            page_views(parsed@) == parsed_pages(texts(sources@).take(i as int)),
        decreases sources@.len() - i,
    {
        assert(texts(sources@).take(i + 1).drop_last() =~= texts(sources@).take(i as int));
        assert(texts(sources@).take(i + 1).last() == sources@[i as int]@);
        let ghost before = page_views(parsed@);
        match parse_page(sources[i]) {
            Some(p) => {
                let ghost pv = p@;
                parsed.push(p);
                assert(page_views(parsed@) =~= before.push(pv));
            },
            None => {},
        }
        i = i + 1;
    }
    assert(texts(sources@).take(i as int) =~= texts(sources@));
    let ghost input = page_views(parsed@);
    let mut keys: Vec<u64> = Vec::new();
    let mut k: usize = 0;
    while k < parsed.len()
        invariant
            k <= parsed@.len(),
            input == page_views(parsed@),
            keys@.len() == k,
            forall|q: int| 0 <= q < k ==> keys@[q] as int == page_key(input[q]),
        decreases parsed@.len() - k,
    {
        keys.push(page_key_of(&parsed[k]));
        k = k + 1;
    }
    let perm = stable_sort_indices(&keys, Ghost(input));
    assert forall|q: int| 0 <= q < perm@.len() implies 0 <= #[trigger] perm@[q] < input.len() by {
        assert(perm@.map_values(|x: usize| x as int)[q] == perm@[q] as int);
    }
    let mut out: Vec<DocPage> = Vec::new();
    let mut m: usize = 0;
    while m < perm.len()
        invariant
            m <= perm@.len() == input.len() == parsed@.len(),
            input == page_views(parsed@),
            forall|q: int| 0 <= q < perm@.len() ==> 0 <= #[trigger] perm@[q] < input.len(),
            out@.len() == m,
            forall|q: int| 0 <= q < m ==> out@[q]@ == input[#[trigger] perm@[q] as int],
        decreases perm@.len() - m,
    {
        let pg = copy_page(&parsed[perm[m]]);
        out.push(pg);
        m = m + 1;
    }
    let ghost pm = perm@.map_values(|x: usize| x as int);
    assert forall|q: int| 0 <= q < page_views(out@).len() implies page_views(out@)[q]
        == input[#[trigger] pm[q]] by {
        assert(out@[q]@ == input[perm@[q] as int]);
    }
    out
}

// ---------------------------------------------------------------------------
// Sections
// ---------------------------------------------------------------------------

/// The groups' members, one after another.
pub open spec fn flatten(gs: Seq<Seq<PageView>>) -> Seq<PageView>
    decreases gs.len(),
{
    if gs.len() == 0 {
        Seq::empty()
    } else {
        flatten(gs.drop_last()) + gs.last()
    }
}

/// The names of a grouping.
pub open spec fn group_names(gs: Seq<(&str, Vec<&DocPage>)>) -> Seq<Seq<char>> {
    gs.map_values(|g: (&str, Vec<&DocPage>)| g.0@)
}

/// The members of a grouping.
pub open spec fn group_members(gs: Seq<(&str, Vec<&DocPage>)>) -> Seq<Seq<PageView>> {
    gs.map_values(|g: (&str, Vec<&DocPage>)| g.1@.map_values(|p: &DocPage| p@))
}

/// `names`/`members` group `pages` into runs of one section: read in order
/// the members are the pages, no group is empty, every member is of its
/// group's section, and neighbouring groups have different sections.
pub open spec fn is_grouping(
    names: Seq<Seq<char>>,
    members: Seq<Seq<PageView>>,
    pages: Seq<PageView>,
) -> bool {
    &&& names.len() == members.len()
    &&& flatten(members) == pages
    &&& forall|g: int| 0 <= g < members.len() ==> (#[trigger] members[g]).len() > 0
    &&& forall|g: int, t: int|
        0 <= g < members.len() && 0 <= t < members[g].len() ==> (#[trigger] members[g][t]).section
            == names[g]
    &&& forall|g: int| 0 <= g < names.len() - 1 ==> #[trigger] names[g] != names[g + 1]
}

/// The pages grouped by section, consecutive pages of one section forming
/// one group.
pub fn grouped<'a>(pages: &'a [DocPage]) -> (r: Vec<(&'a str, Vec<&'a DocPage>)>)
    ensures
        is_grouping(group_names(r@), group_members(r@), page_views(pages@)),
{
    let mut done: Vec<(&'a str, Vec<&'a DocPage>)> = Vec::new();
    if pages.len() == 0 {
        proof {
            assert(flatten(group_members(done@)) =~= page_views(pages@));
        }
        return done;
    }
    let mut cur_name: &'a str = pages[0].section.as_str();
    let mut cur: Vec<&'a DocPage> = Vec::new();
    cur.push(&pages[0]);
    let mut k: usize = 1;
    proof {
        let m = group_members(done@).push(cur@.map_values(|p: &DocPage| p@));
        assert(cur@.map_values(|p: &DocPage| p@) =~= seq![pages@[0]@]);
        assert(m.drop_last() =~= Seq::<Seq<PageView>>::empty());
        assert(flatten(m.drop_last()) =~= Seq::<PageView>::empty());
        assert(page_views(pages@).take(1) =~= seq![pages@[0]@]);
        assert(flatten(m) =~= page_views(pages@).take(1));
    }
    while k < pages.len()
        invariant
            1 <= k <= pages@.len(),
            cur@.len() > 0,
            forall|t: int| 0 <= t < cur@.len() ==> (#[trigger] cur@[t]).section@ == cur_name@,
            cur_name@ == pages@[k - 1].section@,
            is_grouping(
                group_names(done@).push(cur_name@),
                group_members(done@).push(cur@.map_values(|p: &DocPage| p@)),
                page_views(pages@).take(k as int),
            ),
        decreases pages@.len() - k,
    {
        let ghost names0 = group_names(done@);
        let ghost mem0 = group_members(done@);
        let ghost curv = cur@.map_values(|p: &DocPage| p@);
        let ghost pv = pages@[k as int]@;
        assert(page_views(pages@).take(k + 1) =~= page_views(pages@).take(k as int).push(pv));
        let same = crate::text::str_eq(cur_name, pages[k].section.as_str());
        if same {
            cur.push(&pages[k]);
            proof {
                let m1 = mem0.push(curv);
                let m2 = mem0.push(curv.push(pv));
                assert(cur@.map_values(|p: &DocPage| p@) =~= curv.push(pv));
                assert(m2.drop_last() =~= m1.drop_last());
                assert(flatten(m2) =~= flatten(m1) + seq![pv]);
                assert forall|g: int, t: int|
                    0 <= g < m2.len() && 0 <= t < m2[g].len() implies (#[trigger] m2[g][t]).section
                    == names0.push(cur_name@)[g] by {
                    if g < m2.len() - 1 {
                        assert(m2[g] == m1[g]);
                    } else if t < curv.len() {
                        assert(m2[g][t] == m1[g][t]);
                    }
                }
                assert forall|g: int| 0 <= g < m2.len() implies (#[trigger] m2[g]).len() > 0 by {
                    if g < m2.len() - 1 {
                        assert(m2[g] == m1[g]);
                    }
                }
                assert(group_members(done@).push(cur@.map_values(|p: &DocPage| p@)) == m2);
                assert(flatten(m2) == page_views(pages@).take(k + 1));
                assert(is_grouping(names0.push(cur_name@), m2, page_views(pages@).take(k + 1)));
            }
        } else {
            let ghost old_name = cur_name@;
            done.push((cur_name, cur));
            cur_name = pages[k].section.as_str();
            cur = Vec::new();
            cur.push(&pages[k]);
            proof {
                assert(group_names(done@) =~= names0.push(old_name));
                assert(group_members(done@) =~= mem0.push(curv));
                let n2 = group_names(done@).push(cur_name@);
                let m2 = group_members(done@).push(seq![pv]);
                assert(m2.drop_last() =~= mem0.push(curv));
                assert(cur@.map_values(|p: &DocPage| p@) =~= seq![pv]);
                assert(flatten(m2) =~= flatten(mem0.push(curv)) + seq![pv]);
                assert forall|g: int, t: int|
                    0 <= g < m2.len() && 0 <= t < m2[g].len() implies (#[trigger] m2[g][t]).section
                    == n2[g] by {
                    if g < m2.len() - 1 {
                        assert(m2[g] == mem0.push(curv)[g]);
                        assert(n2[g] == names0.push(old_name)[g]);
                    }
                }
                assert forall|g: int| 0 <= g < n2.len() - 1 implies #[trigger] n2[g] != n2[g + 1] by {
                    if g < n2.len() - 2 {
                        assert(n2[g] == names0.push(old_name)[g]);
                        assert(n2[g + 1] == names0.push(old_name)[g + 1]);
                    }
                }
                assert forall|g: int| 0 <= g < m2.len() implies (#[trigger] m2[g]).len() > 0 by {
                    if g < m2.len() - 1 {
                        assert(m2[g] == mem0.push(curv)[g]);
                    }
                }
                assert(group_members(done@).push(cur@.map_values(|p: &DocPage| p@)) == m2);
                assert(flatten(m2) == page_views(pages@).take(k + 1));
                assert(is_grouping(n2, m2, page_views(pages@).take(k + 1)));
            }
        }
        k = k + 1;
    }
    let ghost old_done = done@;
    let ghost curv = cur@.map_values(|p: &DocPage| p@);
    done.push((cur_name, cur));
    proof {
        assert(group_names(done@) =~= group_names(old_done).push(cur_name@));
        assert(group_members(done@) =~= group_members(old_done).push(curv));
        assert(page_views(pages@).take(k as int) =~= page_views(pages@));
    }
    done
}

// ---------------------------------------------------------------------------
// Links between pages
// ---------------------------------------------------------------------------

/// The 1-based number of the section group that page `k` falls in.
pub open spec fn group_number(pages: Seq<PageView>, k: int) -> nat
    decreases k,
{
    if k <= 0 {
        1
    } else if pages[k].section == pages[k - 1].section {
        group_number(pages, k - 1)
    } else {
        group_number(pages, k - 1) + 1
    }
}

/// The 1-based position of page `k` within its group.
pub open spec fn topic_number(pages: Seq<PageView>, k: int) -> nat
    decreases k,
{
    if k <= 0 {
        1
    } else if pages[k].section == pages[k - 1].section {
        topic_number(pages, k - 1) + 1
    } else {
        1
    }
}

/// The selector `X.Y` of topic `Y` in section `X`.
pub open spec fn selector(g: nat, t: nat) -> Seq<char> {
    decimal(g) + "."@ + decimal(t)
}

/// The link table after the first `k` pages: each page's file stem is bound
/// to its selector, a later page taking over a stem from an earlier one.
pub open spec fn link_table(pages: Seq<PageView>, k: int) -> Map<Seq<char>, Seq<char>>
    decreases k,
{
    if k <= 0 {
        Map::empty()
    } else {
        link_table(pages, k - 1).insert(
            pages[k - 1].filename,
            selector(group_number(pages, k - 1), topic_number(pages, k - 1)),
        )
    }
}

/// The views of a map's string values.
pub open spec fn string_values(m: Map<Seq<char>, String>) -> Map<Seq<char>, Seq<char>> {
    m.map_values(|v: String| v@)
}

proof fn lemma_numbers_bounded(pages: Seq<PageView>, k: int)
    requires
        0 <= k,
    ensures
        group_number(pages, k) <= k + 1,
        topic_number(pages, k) <= k + 1,
    decreases k,
{
    if k > 0 {
        lemma_numbers_bounded(pages, k - 1);
    }
}

/// The link table: file stem of every page to its `X.Y` selector.
pub fn build_link_map(pages: &[DocPage]) -> (m: NameMap<String>)
    requires
        pages@.len() < usize::MAX,
    ensures
        m.wf(),
        string_values(m@) == link_table(page_views(pages@), pages@.len() as int),
{
    let ghost pv = page_views(pages@);
    let mut map: NameMap<String> = NameMap::new();
    let mut g: usize = 1;
    let mut t: usize = 1;
    let mut k: usize = 0;
    assert(string_values(map@) =~= link_table(pv, 0));
    while k < pages.len()
        invariant
            k <= pages@.len() < usize::MAX,
            pv == page_views(pages@),
            map.wf(),
            string_values(map@) == link_table(pv, k as int),
            k > 0 ==> g as nat == group_number(pv, k - 1) && t as nat == topic_number(pv, k - 1),
            k == 0 ==> g == 1 && t == 1,
        decreases pages@.len() - k,
    {
        proof {
            lemma_numbers_bounded(pv, k as int);
        }
        if k > 0 {
            let same = crate::text::str_eq(
                pages[k].section.as_str(),
                pages[k - 1].section.as_str(),
            );
            if same {
                t = t + 1;
            } else {
                g = g + 1;
                t = 1;
            }
        }
        assert(g as nat == group_number(pv, k as int) && t as nat == topic_number(pv, k as int));
        let mut sel: Vec<char> = Vec::new();
        push_decimal(&mut sel, g as u64);
        sel.push('.');
        push_decimal(&mut sel, t as u64);
        proof {
            reveal_strlit(".");
            assert(sel@ =~= selector(g as nat, t as nat));
        }
        let ghost before = map@;
        let value = string_of(sel.as_slice());
        let key = pages[k].filename.clone();
        map.insert(key, value);
        proof {
            assert(string_values(map@) =~= string_values(before).insert(pv[k as int].filename, sel@));
        }
        k = k + 1;
    }
    map
}

/// Whether a link target is a local markdown page.
pub open spec fn is_local_md(url: Seq<char>) -> bool {
    ends_with(url, ".md"@) || contains(url, ".md#"@)
}

/// The page stem a link target names: up to the first `#`, after the last
/// `/`, without trailing `.md`s.
pub open spec fn md_stem(url: Seq<char>) -> Seq<char> {
    let md = url.take(index_of(url, '#'));
    trim_end_seq(md.skip(after_last(md, '/')), ".md"@)
}

/// `text` with every link `[t](u)` whose target `u` is a local page of the
/// table rewritten to `t (→ kettu docs X.Y)`; other bracketed text is kept.
#[verifier::opaque]
pub open spec fn rewrite_spec(text: Seq<char>, table: Map<Seq<char>, Seq<char>>) -> Seq<char>
    decreases text.len(),
{
    let b = index_of(text, '[');
    if b >= text.len() {
        text
    } else {
        proof {
            lemma_index_of(text, '[');
        }
        let before = text.take(b);
        let ab = text.skip(b + 1);
        let e = index_of(ab, ']');
        proof {
            lemma_index_of(ab, ']');
        }
        if e >= ab.len() {
            before + seq!['['] + rewrite_spec(ab, table)
        } else {
            let label = ab.take(e);
            let ac = ab.skip(e + 1);
            let q = index_of(ac, ')');
            proof {
                lemma_index_of(ac, ')');
            }
            if ac.len() > 0 && ac[0] == '(' && q < ac.len() {
                let url = ac.subrange(1, q);
                let rest = ac.skip(q + 1);
                if is_local_md(url) && table.contains_key(md_stem(url)) {
                    before + label + " (\u{2192} kettu docs "@ + table[md_stem(url)] + ")"@
                        + rewrite_spec(rest, table)
                } else {
                    before + seq!['['] + label + "]("@ + url + seq![')'] + rewrite_spec(rest, table)
                }
            } else {
                before + seq!['['] + rewrite_spec(ab, table)
            }
        }
    }
}

fn local_md_stem(url: &[char]) -> (r: Option<Vec<char>>)
    ensures
        r matches Some(st) ==> is_local_md(url@) && st@ == md_stem(url@),
        r is None ==> !is_local_md(url@),
{
    if !(crate::text::has_suffix(url, ".md") || crate::text::contains_str(url, ".md#")) {
        return None;
    }
    let n = url.len();
    let h = index_of_char(url, 0, n, '#');
    assert(url@.subrange(0, n as int) =~= url@);
    let sl = after_last_char(url, 0, h, '/');
    assert(url@.take(h as int) =~= url@.subrange(0, h as int));
    assert(url@.take(h as int).skip(sl as int) =~= url@.subrange(sl as int, h as int));
    let end = trim_end_seq_range(url, sl, h, ".md");
    Some(copy_range(url, sl, end))
}

/// One step of link rewriting from `pos`: appends to `out` and returns the
/// position reading continues from.
#[verifier::rlimit(40)]
fn rewrite_step(cs: &Vec<char>, pos: usize, link_map: &NameMap<String>, out: &mut Vec<char>) -> (next: usize)
    requires
        pos < cs@.len(),
        link_map.wf(),
    ensures
        pos < next <= cs@.len(),
        final(out)@ + rewrite_spec(cs@.skip(next as int), string_values(link_map@)) == old(out)@
            + rewrite_spec(cs@.skip(pos as int), string_values(link_map@)),
{
    reveal_with_fuel(rewrite_spec, 1);
    let ghost table = string_values(link_map@);
    let n = cs.len();
    let ghost rem = cs@.skip(pos as int);
    assert(rem =~= cs@.subrange(pos as int, n as int));
    let ghost before_out = out@;
    let b = index_of_char(cs.as_slice(), pos, n, '[');
    if b == n - pos {
        push_range(out, cs.as_slice(), pos, n);
        proof {
            assert(cs@.skip(n as int) =~= Seq::<char>::empty());
            assert(out@ + rewrite_spec(cs@.skip(n as int), table) =~= before_out + rewrite_spec(
                rem,
                table,
            ));
        }
        return n;
    }
    let bs = pos + b;
    push_range(out, cs.as_slice(), pos, bs);
    proof {
        lemma_index_of(rem, '[');
        assert(rem.take(b as int) =~= cs@.subrange(pos as int, bs as int));
        assert(rem.skip(b + 1) =~= cs@.subrange(bs + 1, n as int));
    }
    let ghost ab = rem.skip(b + 1);
    let e = index_of_char(cs.as_slice(), bs + 1, n, ']');
    if e == n - (bs + 1) {
        out.push('[');
        proof {
            assert(cs@.skip(bs + 1) =~= ab);
            assert(out@ + rewrite_spec(cs@.skip(bs + 1), table) =~= before_out + rewrite_spec(
                rem,
                table,
            ));
        }
        return bs + 1;
    }
    let es = bs + 1 + e;
    proof {
        lemma_index_of(ab, ']');
        assert(ab.take(e as int) =~= cs@.subrange(bs + 1, es as int));
        assert(ab.skip(e + 1) =~= cs@.subrange(es + 1, n as int));
    }
    let ghost ac = ab.skip(e + 1);
    if es + 1 < n && cs[es + 1] == '(' {
        let q = index_of_char(cs.as_slice(), es + 1, n, ')');
        if q < n - (es + 1) {
            let qs = es + 1 + q;
            proof {
                lemma_index_of(ac, ')');
                assert(ac.subrange(1, q as int) =~= cs@.subrange(es + 2, qs as int));
                assert(ac.skip(q + 1) =~= cs@.skip(qs + 1));
            }
            let url = copy_range(cs.as_slice(), es + 2, qs);
            let stem = local_md_stem(url.as_slice());
            if let Some(st) = stem {
                if let Some(sel) = link_map.get(st.as_slice()) {
                    push_range(out, cs.as_slice(), bs + 1, es);
                    push_str(out, " (\u{2192} kettu docs ");
                    push_str(out, sel.as_str());
                    push_str(out, ")");
                    proof {
                        assert(table[md_stem(url@)] == sel@);
                        assert(out@ + rewrite_spec(cs@.skip(qs + 1), table) =~= before_out
                            + rewrite_spec(rem, table));
                    }
                    return qs + 1;
                }
            }
            proof {
                if is_local_md(url@) {
                    assert(!table.contains_key(md_stem(url@)));
                }
            }
            out.push('[');
            push_range(out, cs.as_slice(), bs + 1, es);
            push_str(out, "](");
            push_range(out, cs.as_slice(), es + 2, qs);
            out.push(')');
            proof {
                assert(out@ + rewrite_spec(cs@.skip(qs + 1), table) =~= before_out + rewrite_spec(
                    rem,
                    table,
                ));
            }
            return qs + 1;
        }
    }
    out.push('[');
    proof {
        assert(cs@.skip(bs + 1) =~= ab);
        assert(out@ + rewrite_spec(cs@.skip(bs + 1), table) =~= before_out + rewrite_spec(
            rem,
            table,
        ));
    }
    bs + 1
}

/// Rewrites links to other guide pages into `kettu docs X.Y` references.
pub fn rewrite_links(content: &str, link_map: &NameMap<String>) -> (r: String)
    requires
        link_map.wf(),
    ensures
        r@ == rewrite_spec(content@, string_values(link_map@)),
{
    let ghost table = string_values(link_map@);
    let cs = chars_of(content);
    let n = cs.len();
    let mut out: Vec<char> = Vec::new();
    let mut pos: usize = 0;
    assert(cs@.skip(0) =~= cs@);
    assert(out@ + rewrite_spec(cs@.skip(0), table) =~= rewrite_spec(cs@, table));
    while pos < n
        invariant
            pos <= n == cs@.len(),
            cs@ == content@,
            table == string_values(link_map@),
            link_map.wf(),
            out@ + rewrite_spec(cs@.skip(pos as int), table) == rewrite_spec(cs@, table),
        decreases n - pos,
    {
        pos = rewrite_step(&cs, pos, link_map, &mut out);
    }
    proof {
        reveal_with_fuel(rewrite_spec, 1);
        assert(cs@.skip(n as int) =~= Seq::<char>::empty());
        assert(rewrite_spec(Seq::<char>::empty(), table) =~= Seq::<char>::empty());
        assert(out@ =~= rewrite_spec(cs@, table));
    }
    string_of(out.as_slice())
}

// ---------------------------------------------------------------------------
// Topic selectors
// ---------------------------------------------------------------------------

/// What a `kettu docs` selector such as `2` or `1.3` picks.
#[derive(Clone, Copy, Debug, PartialEq, Eq)]
pub enum TopicSelection {
    /// A part of the selector is not a number of at least 1.
    InvalidNumber,
    /// The section number exceeds the number of sections.
    MissingSection { section: usize, sections: usize },
    /// A whole section (1-based).
    Section { section: usize },
    /// The topic number exceeds the section's number of topics.
    MissingTopic { section: usize, topic: usize, topics: usize },
    /// One topic (both 1-based).
    Topic { section: usize, topic: usize },
}

/// The selection `selector` makes among sections that have `counts[i]`
/// topics each: the parts between dots are a section number and, if
/// present, a topic number; later parts are ignored.
pub open spec fn selection_spec(selector: Seq<char>, counts: Seq<usize>) -> TopicSelection {
    let parts = split_char(selector, '.');
    match parse_unsigned(parts[0], usize::MAX as nat) {
        Some(sec) if sec >= 1 => if sec > counts.len() {
            TopicSelection::MissingSection { section: sec as usize, sections: counts.len() as usize }
        } else if parts.len() == 1 {
            TopicSelection::Section { section: sec as usize }
        } else {
            match parse_unsigned(parts[1], usize::MAX as nat) {
                Some(t) if t >= 1 => if t > counts[sec - 1] {
                    TopicSelection::MissingTopic {
                        section: sec as usize,
                        topic: t as usize,
                        topics: counts[sec - 1],
                    }
                } else {
                    TopicSelection::Topic { section: sec as usize, topic: t as usize }
                },
                _ => TopicSelection::InvalidNumber,
            }
        },
        _ => TopicSelection::InvalidNumber,
    }
}

fn parse_usize_chars(v: &Vec<char>) -> (r: Option<usize>)
    ensures
        r matches Some(n) ==> parse_unsigned(v@, usize::MAX as nat) == Some(n as nat),
        r is None ==> parse_unsigned(v@, usize::MAX as nat) is None,
{
    assert(v@.subrange(0, v@.len() as int) =~= v@);
    match parse_unsigned_range(v.as_slice(), 0, v.len(), usize::MAX as u64) {
        Some(n) => Some(n as usize),
        None => None,
    }
}

/// Resolves a topic selector against the topic counts of the sections.
pub fn select_topic(selector: &str, counts: &[usize]) -> (r: TopicSelection)
    ensures
        r == selection_spec(selector@, counts@),
{
    let cs = chars_of(selector);
    let parts = split_on(cs.as_slice(), '.');
    proof {
        crate::text::lemma_split_char_nonempty(cs@, '.');
    }
    assert(views(parts@)[0] == parts@[0]@);
    let sec = match parse_usize_chars(&parts[0]) {
        Some(n) => n,
        None => {
            return TopicSelection::InvalidNumber;
        },
    };
    if sec < 1 {
        return TopicSelection::InvalidNumber;
    }
    if sec > counts.len() {
        return TopicSelection::MissingSection { section: sec, sections: counts.len() };
    }
    if parts.len() == 1 {
        return TopicSelection::Section { section: sec };
    }
    assert(views(parts@)[1] == parts@[1]@);
    let topic = match parse_usize_chars(&parts[1]) {
        Some(n) => n,
        None => {
            return TopicSelection::InvalidNumber;
        },
    };
    if topic < 1 {
        return TopicSelection::InvalidNumber;
    }
    if topic > counts[sec - 1] {
        return TopicSelection::MissingTopic { section: sec, topic, topics: counts[sec - 1] };
    }
    TopicSelection::Topic { section: sec, topic }
}


/// A selector names an existing section or topic, or says why it cannot:
/// a picked section is among the sections and a picked topic among its
/// section's topics, while a missing section or topic exceeds the count.
pub proof fn selection_in_range(selector: Seq<char>, counts: Seq<usize>)
    ensures
        match selection_spec(selector, counts) {
            TopicSelection::Section { section } => 1 <= section <= counts.len(),
            TopicSelection::Topic { section, topic } => 1 <= section <= counts.len() && 1 <= topic
                <= counts[section - 1],
            TopicSelection::MissingSection { section, sections } => section > sections
                && sections == counts.len(),
            TopicSelection::MissingTopic { section, topic, topics } => 1 <= section
                <= counts.len() && topic > topics && topics == counts[section - 1],
            TopicSelection::InvalidNumber => true,
        },
{
    crate::text::lemma_split_char_nonempty(selector, '.');
}


/// The targets `u` of the links `[t](u)` in `text`, in order, read the way
/// link rewriting reads them.
pub open spec fn link_targets(text: Seq<char>) -> Seq<Seq<char>>
    decreases text.len(),
{
    let b = index_of(text, '[');
    if b >= text.len() {
        Seq::empty()
    } else {
        proof {
            lemma_index_of(text, '[');
        }
        let ab = text.skip(b + 1);
        let e = index_of(ab, ']');
        proof {
            lemma_index_of(ab, ']');
        }
        if e >= ab.len() {
            link_targets(ab)
        } else {
            let ac = ab.skip(e + 1);
            let q = index_of(ac, ')');
            proof {
                lemma_index_of(ac, ')');
            }
            if ac.len() > 0 && ac[0] == '(' && q < ac.len() {
                seq![ac.subrange(1, q)] + link_targets(ac.skip(q + 1))
            } else {
                link_targets(ab)
            }
        }
    }
}

/// No local page target among `targets` names a page of `table`.
pub open spec fn names_no_page(targets: Seq<Seq<char>>, table: Map<Seq<char>, Seq<char>>) -> bool {
    forall|i: int|
        0 <= i < targets.len() && #[trigger] is_local_md(targets[i]) ==> !table.contains_key(
            md_stem(targets[i]),
        )
}

/// Rewriting leaves the text as it is when no link `[t](u)` in it has a
/// local page target `u` whose stem names a page of the table: other
/// links, stray brackets and plain text are copied unchanged. An empty
/// table is one such case.
pub proof fn rewrite_keeps_text_without_known_pages(
    text: Seq<char>,
    table: Map<Seq<char>, Seq<char>>,
)
    requires
        names_no_page(link_targets(text), table),
    ensures
        rewrite_spec(text, table) == text,
    decreases text.len(),
{
    reveal(rewrite_spec);
    lemma_index_of(text, '[');
    let b = index_of(text, '[');
    if b < text.len() {
        let before = text.take(b);
        let ab = text.skip(b + 1);
        lemma_index_of(ab, ']');
        let e = index_of(ab, ']');
        assert(text =~= before + seq!['['] + ab);
        if e >= ab.len() {
            rewrite_keeps_text_without_known_pages(ab, table);
        } else {
            let label = ab.take(e);
            let ac = ab.skip(e + 1);
            lemma_index_of(ac, ')');
            let q = index_of(ac, ')');
            if ac.len() > 0 && ac[0] == '(' && q < ac.len() {
                let url = ac.subrange(1, q);
                let rest = ac.skip(q + 1);
                let ts = link_targets(text);
                assert(ts == seq![url] + link_targets(rest));
                assert(ts[0] == url);
                assert forall|i: int|
                    0 <= i < link_targets(rest).len() && #[trigger] is_local_md(link_targets(rest)[i])
                        implies !table.contains_key(md_stem(link_targets(rest)[i])) by {
                    assert(ts[i + 1] == link_targets(rest)[i]);
                }
                rewrite_keeps_text_without_known_pages(rest, table);
                assert(ab =~= label + seq![']'] + ac);
                assert(ac =~= seq!['('] + url + seq![')'] + rest);
                reveal_strlit("](");
                assert(before + seq!['['] + label + "]("@ + url + seq![')'] + rest =~= text);
            } else {
                rewrite_keeps_text_without_known_pages(ab, table);
            }
        }
    }
}

/// Rewriting with no pages in the table leaves any text as it is: only
/// links to known pages change.
pub proof fn rewrite_without_pages_keeps_text(text: Seq<char>)
    ensures
        rewrite_spec(text, Map::<Seq<char>, Seq<char>>::empty()) == text,
{
    rewrite_keeps_text_without_known_pages(text, Map::<Seq<char>, Seq<char>>::empty());
}

} // verus!
