//! Debug-symbol bookkeeping for the debugger: variant discriminants, line
//! tables, symbol registration and binding visibility.
use vstd::prelude::*;
use vstd::utf8::encode_utf8;
use vstd::string::StringSliceAdditionalSpecFns;
use crate::name_map::NameMap;
use crate::numbers::{push_signed_decimal, signed_decimal};
use crate::text::{chars_of, has_prefix, push_str, starts_with, str_eq, string_of};

verus! {

// ---------------------------------------------------------------------------
// Variant discriminants
// ---------------------------------------------------------------------------

/// Sum of the bytes of `b`.
pub open spec fn byte_sum(b: Seq<u8>) -> nat
    decreases b.len(),
{
    if b.len() == 0 {
        0
    } else {
        byte_sum(b.drop_last()) + b.last() as nat
    }
}

/// `n` reduced to 32 bits and read as a two's complement `i32`.
pub open spec fn wrap_i32(n: nat) -> int {
    let m = n % 0x1_0000_0000;
    if m < 0x8000_0000 {
        m as int
    } else {
        m - 0x1_0000_0000
    }
}

/// The discriminant of a variant case: the wrapping 32-bit sum of the bytes
/// of the case name's UTF-8 encoding, read as an `i32`.
pub open spec fn discriminant_of(name: Seq<char>) -> int {
    wrap_i32(byte_sum(encode_utf8(name)))
}

/// The discriminant of the variant case named `case_name`.
pub fn variant_discriminant(case_name: &str) -> (d: i32)
    ensures
        d as int == discriminant_of(case_name@),
{
    let b = case_name.as_bytes();
    let mut acc: u32 = 0;
    let mut i: usize = 0;
    while i < b.len()
        invariant
            i <= b@.len(),
            b@ == encode_utf8(case_name@),
            acc as nat == byte_sum(b@.take(i as int)) % 0x1_0000_0000,
        decreases b@.len() - i,
    {
        assert(b@.take(i + 1).drop_last() =~= b@.take(i as int));
        let sum: u64 = acc as u64 + b[i] as u64;
        proof {
            vstd::arithmetic::div_mod::lemma_add_mod_noop(
                byte_sum(b@.take(i as int)) as int,
                b@[i as int] as int,
                0x1_0000_0000,
            );
            vstd::arithmetic::div_mod::lemma_small_mod(b@[i as int] as nat, 0x1_0000_0000);
            vstd::arithmetic::div_mod::lemma_mod_twice(
                (byte_sum(b@.take(i as int)) + b@[i as int]) as int,
                0x1_0000_0000,
            );
        }
        if sum >= 0x1_0000_0000u64 {
            acc = (sum - 0x1_0000_0000u64) as u32;
            proof {
                vstd::arithmetic::div_mod::lemma_mod_sub_multiples_vanish(sum as int, 0x1_0000_0000);
                vstd::arithmetic::div_mod::lemma_small_mod((sum - 0x1_0000_0000) as nat, 0x1_0000_0000);
            }
        } else {
            acc = sum as u32;
            proof {
                vstd::arithmetic::div_mod::lemma_small_mod(sum as nat, 0x1_0000_0000);
            }
        }
        i = i + 1;
    }
    assert(b@.take(b@.len() as int) =~= b@);
    if acc < 0x8000_0000u32 {
        acc as i32
    } else {
        ((acc - 0x8000_0000u32) as i32) + i32::MIN
    }
}

/// The name shown for a variant discriminant: one of the known case names
/// `ok`, `err`, `some`, `none` (checked in that order), or `variant#<d>`.
pub open spec fn case_name_of(d: int) -> Seq<char> {
    if d == discriminant_of("ok"@) {
        "ok"@
    } else if d == discriminant_of("err"@) {
        "err"@
    } else if d == discriminant_of("some"@) {
        "some"@
    } else if d == discriminant_of("none"@) {
        "none"@
    } else {
        "variant#"@ + signed_decimal(d)
    }
}

/// Sum of the code points of `s`.
pub open spec fn ascii_sum(s: Seq<char>) -> nat
    decreases s.len(),
{
    if s.len() == 0 {
        0
    } else {
        (s[0] as u32) as nat + ascii_sum(s.drop_first())
    }
}

proof fn byte_sum_append(a: Seq<u8>, b: Seq<u8>)
    ensures
        byte_sum(a + b) == byte_sum(a) + byte_sum(b),
    decreases b.len(),
{
    if b.len() == 0 {
        assert(a + b =~= a);
    } else {
        assert((a + b).drop_last() =~= a + b.drop_last());
        byte_sum_append(a, b.drop_last());
    }
}

/// A text of ASCII characters encodes to one byte per character, so its
/// byte sum is the sum of its code points.
proof fn ascii_bytes(s: Seq<char>)
    requires
        forall|i: int| 0 <= i < s.len() ==> (s[i] as u32) < 128,
    ensures
        byte_sum(encode_utf8(s)) == ascii_sum(s),
    decreases s.len(),
{
    if s.len() > 0 {
        let v = s[0] as u32;
        assert(v & 0x7F == v) by (bit_vector)
            requires
                v < 128,
        ;
        assert(encode_utf8(s) == vstd::utf8::encode_scalar(v) + encode_utf8(s.drop_first()));
        assert(vstd::utf8::encode_scalar(v) == seq![v as u8]);
        ascii_bytes(s.drop_first());
        byte_sum_append(seq![v as u8], encode_utf8(s.drop_first()));
        assert(seq![v as u8].drop_last() =~= Seq::<u8>::empty());
        assert((v as u8) as u32 == v) by (bit_vector)
            requires
                v < 128,
        ;
        assert(byte_sum(Seq::<u8>::empty()) == 0);
        assert(byte_sum(seq![v as u8]) == v);
    }
}

/// The discriminant of a short ASCII case name is its code-point sum.
proof fn ascii_discriminant(s: Seq<char>)
    requires
        forall|i: int| 0 <= i < s.len() ==> (s[i] as u32) < 128,
        s.len() <= 8,
    ensures
        discriminant_of(s) == ascii_sum(s),
{
    ascii_bytes(s);
    ascii_sum_bound(s);
    vstd::arithmetic::div_mod::lemma_small_mod(ascii_sum(s), 0x1_0000_0000);
}

proof fn ascii_sum_bound(s: Seq<char>)
    requires
        forall|i: int| 0 <= i < s.len() ==> (s[i] as u32) < 128,
    ensures
        ascii_sum(s) <= 128 * s.len(),
    decreases s.len(),
{
    if s.len() > 0 {
        ascii_sum_bound(s.drop_first());
    }
}

/// The known case names have the discriminants 218 (`ok`), 329 (`err`),
/// 436 (`some`) and 432 (`none`); each name comes back from its
/// discriminant, and any other discriminant is shown as `variant#<d>`.
pub proof fn case_names_round_trip(d: int)
    ensures
        discriminant_of("ok"@) == 218,
        discriminant_of("err"@) == 329,
        discriminant_of("some"@) == 436,
        discriminant_of("none"@) == 432,
        case_name_of(discriminant_of("ok"@)) == "ok"@,
        case_name_of(discriminant_of("err"@)) == "err"@,
        case_name_of(discriminant_of("some"@)) == "some"@,
        case_name_of(discriminant_of("none"@)) == "none"@,
        d != 218 && d != 329 && d != 436 && d != 432 ==> case_name_of(d) == "variant#"@
            + signed_decimal(d),
{
    reveal_strlit("ok");
    reveal_strlit("err");
    reveal_strlit("some");
    reveal_strlit("none");
    ascii_discriminant("ok"@);
    ascii_discriminant("err"@);
    ascii_discriminant("some"@);
    ascii_discriminant("none"@);
    assert("ok"@ =~= seq!['o', 'k']);
    assert("err"@ =~= seq!['e', 'r', 'r']);
    assert("some"@ =~= seq!['s', 'o', 'm', 'e']);
    assert("none"@ =~= seq!['n', 'o', 'n', 'e']);
    assert(ascii_sum(seq!['o', 'k']) == 218) by {
        reveal_with_fuel(ascii_sum, 3);
    }
    assert(ascii_sum(seq!['e', 'r', 'r']) == 329) by {
        reveal_with_fuel(ascii_sum, 4);
    }
    assert(ascii_sum(seq!['s', 'o', 'm', 'e']) == 436) by {
        reveal_with_fuel(ascii_sum, 5);
    }
    assert(ascii_sum(seq!['n', 'o', 'n', 'e']) == 432) by {
        reveal_with_fuel(ascii_sum, 5);
    }
}

/// The case name for a discriminant.
pub fn variant_case_name(discriminant: i32) -> (name: String)
    ensures
        name@ == case_name_of(discriminant as int),
{
    if discriminant == variant_discriminant("ok") {
        return "ok".to_string();
    }
    if discriminant == variant_discriminant("err") {
        return "err".to_string();
    }
    if discriminant == variant_discriminant("some") {
        return "some".to_string();
    }
    if discriminant == variant_discriminant("none") {
        return "none".to_string();
    }
    let mut v: Vec<char> = Vec::new();
    push_str(&mut v, "variant#");
    push_signed_decimal(&mut v, discriminant as i64);
    string_of(v.as_slice())
}

// ---------------------------------------------------------------------------
// Line tables
// ---------------------------------------------------------------------------

/// A row of a DWARF line table: an address and its source line.
#[derive(Clone, Copy, Debug, PartialEq, Eq)]
pub struct DwarfLineRow {
    pub address: u64,
    pub line: i64,
}

/// The row lies in `[low, high)`, a missing bound being no bound.
pub open spec fn row_in_range(row: DwarfLineRow, low: Option<u64>, high: Option<u64>) -> bool {
    (match low {
        Some(l) => row.address >= l,
        None => true,
    }) && (match high {
        Some(h) => row.address < h,
        None => true,
    })
}

/// The largest line among the rows whose address lies in `[low, high)`.
pub fn max_line_for_range(line_rows: &[DwarfLineRow], low_pc: Option<u64>, high_pc: Option<u64>) -> (r:
    Option<i64>)
    ensures
        r is None <==> forall|i: int|
            0 <= i < line_rows@.len() ==> !row_in_range(#[trigger] line_rows@[i], low_pc, high_pc),
        r matches Some(m) ==> (exists|i: int|
            0 <= i < line_rows@.len() && row_in_range(#[trigger] line_rows@[i], low_pc, high_pc)
                && line_rows@[i].line == m) && (forall|i: int|
            0 <= i < line_rows@.len() && row_in_range(#[trigger] line_rows@[i], low_pc, high_pc)
                ==> line_rows@[i].line <= m),
{
    let mut best: Option<i64> = None;
    let mut i: usize = 0;
    while i < line_rows.len()
        invariant
            i <= line_rows@.len(),
            best is None <==> forall|j: int|
                0 <= j < i ==> !row_in_range(#[trigger] line_rows@[j], low_pc, high_pc),
            best matches Some(m) ==> (exists|j: int|
                0 <= j < i && row_in_range(#[trigger] line_rows@[j], low_pc, high_pc)
                    && line_rows@[j].line == m) && (forall|j: int|
                0 <= j < i && row_in_range(#[trigger] line_rows@[j], low_pc, high_pc)
                    ==> line_rows@[j].line <= m),
        decreases line_rows@.len() - i,
    {
        let row = line_rows[i];
        let after_start = match low_pc {
            Some(l) => row.address >= l,
            None => true,
        };
        let before_end = match high_pc {
            Some(h) => row.address < h,
            None => true,
        };
        if after_start && before_end {
            assert(row_in_range(line_rows@[i as int], low_pc, high_pc));
            best = match best {
                Some(m) => if row.line > m {
                    Some(row.line)
                } else {
                    Some(m)
                },
                None => Some(row.line),
            };
        }
        i = i + 1;
    }
    best
}

// ---------------------------------------------------------------------------
// Symbols
// ---------------------------------------------------------------------------

/// The lines a function or lambda spans.
#[derive(Clone, Copy, Debug, PartialEq, Eq)]
pub struct DebugSymbol {
    pub start_line: i64,
    pub end_line: i64,
}

/// How a DWARF variable entered scope.
#[derive(Clone, Copy, Debug, PartialEq, Eq)]
pub enum DwarfBindingKind {
    Parameter,
    Variable,
}

/// A variable or parameter recorded in the debug information.
pub struct DwarfBinding {
    pub name: String,
    pub kind: DwarfBindingKind,
    pub decl_line: i64,
    pub local_index: Option<u32>,
}

/// A function recorded in the debug information.
pub struct DwarfSubprogram {
    pub name: String,
    pub start_line: i64,
    pub end_line: i64,
    pub bindings: Vec<DwarfBinding>,
}

/// Symbols gathered from a debug build: named functions, lambdas in order,
/// and subprograms.
pub struct DebugSymbols {
    pub functions: NameMap<DebugSymbol>,
    pub lambdas: Vec<DebugSymbol>,
    pub subprograms: Vec<DwarfSubprogram>,
}

impl DebugSymbols {
    /// The function table has no repeated name.
    pub open spec fn wf(&self) -> bool {
        self.functions.wf()
    }

    /// No symbols.
    pub fn new() -> (s: Self)
        ensures
            s.wf(),
            s.functions@ == Map::<Seq<char>, DebugSymbol>::empty(),
            s.lambdas@.len() == 0,
            s.subprograms@.len() == 0,
    {
        DebugSymbols { functions: NameMap::new(), lambdas: Vec::new(), subprograms: Vec::new() }
    }
}

/// Records a symbol spanning `start_line..=end_line`: names starting with
/// `lambda#` are appended to the lambdas, other names are (re)bound in the
/// function table.
pub fn register_debug_symbol(symbols: &mut DebugSymbols, name: String, start_line: i64, end_line: i64)
    requires
        old(symbols).wf(),
    ensures
        final(symbols).wf(),
        final(symbols).subprograms@ == old(symbols).subprograms@,
        ({
            let sym = DebugSymbol { start_line, end_line };
            if starts_with(name@, "lambda#"@) {
                &&& final(symbols).lambdas@ == old(symbols).lambdas@.push(sym)
                &&& final(symbols).functions@ == old(symbols).functions@
            } else {
                &&& final(symbols).lambdas@ == old(symbols).lambdas@
                &&& final(symbols).functions@ == old(symbols).functions@.insert(name@, sym)
            }
        }),
{
    let symbol = DebugSymbol { start_line, end_line };
    let nc = chars_of(name.as_str());
    if has_prefix(nc.as_slice(), "lambda#") {
        symbols.lambdas.push(symbol);
    } else {
        symbols.functions.insert(name, symbol);
    }
}

// ---------------------------------------------------------------------------
// Bindings
// ---------------------------------------------------------------------------

/// A binding described by the runtime's resume metadata.
pub struct DebugResumeBindingMetadata {
    pub name: String,
    pub local_index: u32,
    pub decl_line: i64,
    pub kind: String,
}

/// Bindings of kind `parameter` are parameters; all others are variables.
pub fn runtime_binding_kind(binding: &DebugResumeBindingMetadata) -> (k: DwarfBindingKind)
    ensures
        k == (if binding.kind@ == "parameter"@ {
            DwarfBindingKind::Parameter
        } else {
            DwarfBindingKind::Variable
        }),
{
    if str_eq(binding.kind.as_str(), "parameter") {
        DwarfBindingKind::Parameter
    } else {
        DwarfBindingKind::Variable
    }
}

/// `names` holds `n`.
pub open spec fn has_name(names: Seq<String>, n: Seq<char>) -> bool {
    exists|i: int| 0 <= i < names.len() && (#[trigger] names[i])@ == n
}

/// Whether a binding is in scope at `line`: parameters always are; a
/// variable captured by the current closure is from its declaration line
/// on, any other variable only after it.
pub open spec fn visible_at(binding: &DwarfBinding, line: i64, captures: Option<Seq<String>>) -> bool {
    match binding.kind {
        DwarfBindingKind::Parameter => true,
        DwarfBindingKind::Variable => match captures {
            Some(c) => if has_name(c, binding.name@) {
                binding.decl_line <= line
            } else {
                binding.decl_line < line
            },
            None => binding.decl_line < line,
        },
    }
}

fn names_contain(names: &Vec<String>, n: &str) -> (b: bool)
    ensures
        b == has_name(names@, n@),
{
    let mut i: usize = 0;
    while i < names.len()
        invariant
            i <= names@.len(),
            forall|j: int| 0 <= j < i ==> (#[trigger] names@[j])@ != n@,
        decreases names@.len() - i,
    {
        if str_eq(names[i].as_str(), n) {
            return true;
        }
        i = i + 1;
    }
    false
}

/// Whether `binding` is visible at `line`, given the names captured by the
/// closure being inspected, if any.
pub fn binding_visible_at_line(binding: &DwarfBinding, line: i64, capture_names: Option<&Vec<String>>) -> (b:
    bool)
    ensures
        b == visible_at(
            binding,
            line,
            match capture_names {
                Some(c) => Some(c@),
                None => None,
            },
        ),
{
    match binding.kind {
        DwarfBindingKind::Parameter => true,
        DwarfBindingKind::Variable => match capture_names {
            Some(c) => if names_contain(c, binding.name.as_str()) {
                binding.decl_line <= line
            } else {
                binding.decl_line < line
            },
            None => binding.decl_line < line,
        },
    }
}

// ---------------------------------------------------------------------------
// Paths
// ---------------------------------------------------------------------------

/// `path` with every backslash turned into a slash.
pub open spec fn slash_path(path: Seq<char>) -> Seq<char> {
    path.map_values(|c: char| if c == '\\' { '/' } else { c })
}

/// The key under which breakpoints for `path` are kept: backslashes become
/// slashes.
pub fn normalize_path_key(path: &str) -> (k: String)
    ensures
        k@ == slash_path(path@),
{
    let cs = chars_of(path);
    let mut out: Vec<char> = Vec::new();
    let mut i: usize = 0;
    while i < cs.len()
        invariant
            i <= cs@.len(),
            cs@ == path@,
            out@ == slash_path(cs@.take(i as int)),
        decreases cs@.len() - i,
    {
        let c = cs[i];
        out.push(if c == '\\' { '/' } else { c });
        i = i + 1;
        assert(out@ =~= slash_path(cs@.take(i as int)));
    }
    assert(cs@.take(cs@.len() as int) =~= cs@);
    string_of(out.as_slice())
}

} // verus!
