//! The type checker's view of types: type syntax, how it prints, the
//! checked types that expressions get, and the resolution of type names.
use vstd::prelude::*;
use crate::constraints::{copy_expr, Expr};
use crate::call_check::{diag_view, DiagView};
use crate::name_map::NameMap;
use crate::diagnostics::{Diagnostic, DiagnosticCode, Severity, Span};
use crate::text::{push_str, str_eq, string_of};

verus! {

/// The primitive types.
#[derive(Clone, Copy, Debug, PartialEq, Eq)]
pub enum PrimitiveTy {
    Bool,
    S8,
    S16,
    S32,
    S64,
    U8,
    U16,
    U32,
    U64,
    F32,
    F64,
    Char,
    String,
}

/// A name as written in the source, with where it was written.
pub struct Id {
    pub name: String,
    pub span: Span,
}

/// Type syntax.
pub enum Ty {
    Primitive(PrimitiveTy),
    Named(Id),
    List(Box<Ty>),
    Option(Box<Ty>),
    Result { ok: Option<Box<Ty>>, err: Option<Box<Ty>> },
    Future(Option<Box<Ty>>),
    Stream(Option<Box<Ty>>),
    Tuple(Vec<Ty>),
    Borrow(Id),
    Own(Id),
    Generic { name: Id, args: Vec<Ty> },
}

/// The type an expression is checked to have.
pub enum CheckedType {
    Bool,
    I32,
    I64,
    F32,
    F64,
    String,
    Named(String),
    Interface(String),
    List(Box<CheckedType>),
    Option(Box<CheckedType>),
    Result { ok: Option<Box<CheckedType>>, err: Option<Box<CheckedType>> },
    Future(Option<Box<CheckedType>>),
    /// The opaque identifier of a spawned thread; no arithmetic applies.
    ThreadId,
    /// An opaque shared variable, used inside `atomic` blocks.
    Shared,
    /// A 128-bit SIMD vector.
    V128,
    Unknown,
}

// ---------------------------------------------------------------------------
// Printing types
// ---------------------------------------------------------------------------

/// How a primitive type is written.
pub open spec fn primitive_name(p: PrimitiveTy) -> Seq<char> {
    match p {
        PrimitiveTy::Bool => "bool"@,
        PrimitiveTy::S8 => "s8"@,
        PrimitiveTy::S16 => "s16"@,
        PrimitiveTy::S32 => "s32"@,
        PrimitiveTy::S64 => "s64"@,
        PrimitiveTy::U8 => "u8"@,
        PrimitiveTy::U16 => "u16"@,
        PrimitiveTy::U32 => "u32"@,
        PrimitiveTy::U64 => "u64"@,
        PrimitiveTy::F32 => "f32"@,
        PrimitiveTy::F64 => "f64"@,
        PrimitiveTy::Char => "char"@,
        PrimitiveTy::String => "string"@,
    }
}

/// How a type is written: primitives by name, named types by their name,
/// parameterised types with their arguments in angle brackets (an absent
/// `result` side as `()`), tuples in parentheses.
pub open spec fn ty_text(t: Ty) -> Seq<char>
    decreases t, 0int,
{
    match t {
        Ty::Primitive(p) => primitive_name(p),
        Ty::Named(id) => id.name@,
        Ty::List(e) => "list<"@ + ty_text(*e) + ">"@,
        Ty::Option(i) => "option<"@ + ty_text(*i) + ">"@,
        Ty::Result { ok, err } => "result<"@ + match ok {
            Some(o) => ty_text(*o),
            None => "()"@,
        } + ", "@ + match err {
            Some(e) => ty_text(*e),
            None => "()"@,
        } + ">"@,
        Ty::Future(i) => match i {
            Some(x) => "future<"@ + ty_text(*x) + ">"@,
            None => "future"@,
        },
        Ty::Stream(i) => match i {
            Some(x) => "stream<"@ + ty_text(*x) + ">"@,
            None => "stream"@,
        },
        Ty::Tuple(es) => {
            proof {
                vstd::std_specs::vec::axiom_vec_decreases_to_view(es);
            }
            "("@ + tys_text(es@, es@.len() as int) + ")"@
        },
        Ty::Borrow(r) => "borrow<"@ + r.name@ + ">"@,
        Ty::Own(r) => "own<"@ + r.name@ + ">"@,
        Ty::Generic { name, args } => {
            proof {
                vstd::std_specs::vec::axiom_vec_decreases_to_view(args);
            }
            name.name@ + "<"@ + tys_text(args@, args@.len() as int) + ">"@
        },
    }
}

/// The first `k` of `ts` written and joined with `", "`.
pub open spec fn tys_text(ts: Seq<Ty>, k: int) -> Seq<char>
    decreases ts, k,
{
    if k <= 0 || k > ts.len() {
        Seq::empty()
    } else if k == 1 {
        ty_text(ts[0])
    } else {
        tys_text(ts, k - 1) + ", "@ + ty_text(ts[k - 1])
    }
}

fn push_string(out: &mut Vec<char>, s: &String)
    ensures
        final(out)@ == old(out)@ + s@,
{
    push_str(out, s.as_str());
}

fn primitive_text(p: PrimitiveTy) -> (r: &'static str)
    ensures
        r@ == primitive_name(p),
{
    match p {
        PrimitiveTy::Bool => "bool",
        PrimitiveTy::S8 => "s8",
        PrimitiveTy::S16 => "s16",
        PrimitiveTy::S32 => "s32",
        PrimitiveTy::S64 => "s64",
        PrimitiveTy::U8 => "u8",
        PrimitiveTy::U16 => "u16",
        PrimitiveTy::U32 => "u32",
        PrimitiveTy::U64 => "u64",
        PrimitiveTy::F32 => "f32",
        PrimitiveTy::F64 => "f64",
        PrimitiveTy::Char => "char",
        PrimitiveTy::String => "string",
    }
}

fn push_ty(out: &mut Vec<char>, t: &Ty)
    ensures
        final(out)@ == old(out)@ + ty_text(*t),
    decreases t, 0int,
{
    match t {
        Ty::Primitive(p) => push_str(out, primitive_text(*p)),
        Ty::Named(id) => push_string(out, &id.name),
        Ty::List(e) => {
            push_str(out, "list<");
            push_ty(out, e);
            push_str(out, ">");
        },
        Ty::Option(i) => {
            push_str(out, "option<");
            push_ty(out, i);
            push_str(out, ">");
        },
        Ty::Result { ok, err } => {
            push_str(out, "result<");
            match ok {
                Some(o) => push_ty(out, o),
                None => push_str(out, "()"),
            }
            push_str(out, ", ");
            match err {
                Some(e) => push_ty(out, e),
                None => push_str(out, "()"),
            }
            push_str(out, ">");
        },
        Ty::Future(i) => match i {
            Some(x) => {
                push_str(out, "future<");
                push_ty(out, x);
                push_str(out, ">");
            },
            None => push_str(out, "future"),
        },
        Ty::Stream(i) => match i {
            Some(x) => {
                push_str(out, "stream<");
                push_ty(out, x);
                push_str(out, ">");
            },
            None => push_str(out, "stream"),
        },
        Ty::Tuple(es) => {
            push_str(out, "(");
            push_tys(out, es);
            push_str(out, ")");
        },
        Ty::Borrow(r) => {
            push_str(out, "borrow<");
            push_string(out, &r.name);
            push_str(out, ">");
        },
        Ty::Own(r) => {
            push_str(out, "own<");
            push_string(out, &r.name);
            push_str(out, ">");
        },
        Ty::Generic { name, args } => {
            push_string(out, &name.name);
            push_str(out, "<");
            push_tys(out, args);
            push_str(out, ">");
        },
    }
}

fn push_tys(out: &mut Vec<char>, ts: &Vec<Ty>)
    ensures
        final(out)@ == old(out)@ + tys_text(ts@, ts@.len() as int),
    decreases ts, 1int,
{
    let mut k: usize = 0;
    while k < ts.len()
        invariant
            k <= ts@.len(),
            out@ == old(out)@ + tys_text(ts@, k as int),
        decreases ts@.len() - k,
    {
        if k > 0 {
            push_str(out, ", ");
        }
        push_ty(out, &ts[k]);
        k = k + 1;
    }
}

/// How a type is written.
pub fn fmt_ty(t: &Ty) -> (s: String)
    ensures
        s@ == ty_text(*t),
{
    let mut out: Vec<char> = Vec::new();
    push_ty(&mut out, t);
    string_of(out.as_slice())
}


// ---------------------------------------------------------------------------
// Checked types
// ---------------------------------------------------------------------------

/// The checked type of a type: 32-bit integers as `I32`, 64-bit ones as
/// `I64`, characters and strings as `String`; smaller integers, streams,
/// tuples, handles and generic instances are not tracked (`Unknown`).
pub open spec fn checked_of(t: Ty) -> CheckedType
    decreases t,
{
    match t {
        Ty::Primitive(p) => match p {
            PrimitiveTy::Bool => CheckedType::Bool,
            PrimitiveTy::S32 | PrimitiveTy::U32 => CheckedType::I32,
            PrimitiveTy::S64 | PrimitiveTy::U64 => CheckedType::I64,
            PrimitiveTy::F32 => CheckedType::F32,
            PrimitiveTy::F64 => CheckedType::F64,
            PrimitiveTy::String | PrimitiveTy::Char => CheckedType::String,
            _ => CheckedType::Unknown,
        },
        Ty::Named(id) => CheckedType::Named(id.name),
        Ty::List(e) => CheckedType::List(Box::new(checked_of(*e))),
        Ty::Option(i) => CheckedType::Option(Box::new(checked_of(*i))),
        Ty::Result { ok, err } => CheckedType::Result {
            ok: match ok {
                Some(o) => Some(Box::new(checked_of(*o))),
                None => None,
            },
            err: match err {
                Some(e) => Some(Box::new(checked_of(*e))),
                None => None,
            },
        },
        Ty::Future(i) => CheckedType::Future(
            match i {
                Some(x) => Some(Box::new(checked_of(*x))),
                None => None,
            },
        ),
        _ => CheckedType::Unknown,
    }
}

/// The checked type of a type.
pub fn ty_to_checked(t: &Ty) -> (c: CheckedType)
    ensures
        c == checked_of(*t),
    decreases t,
{
    match t {
        Ty::Primitive(p) => match p {
            PrimitiveTy::Bool => CheckedType::Bool,
            PrimitiveTy::S32 | PrimitiveTy::U32 => CheckedType::I32,
            PrimitiveTy::S64 | PrimitiveTy::U64 => CheckedType::I64,
            PrimitiveTy::F32 => CheckedType::F32,
            PrimitiveTy::F64 => CheckedType::F64,
            PrimitiveTy::String | PrimitiveTy::Char => CheckedType::String,
            _ => CheckedType::Unknown,
        },
        Ty::Named(id) => CheckedType::Named(id.name.clone()),
        Ty::List(e) => CheckedType::List(Box::new(ty_to_checked(e))),
        Ty::Option(i) => CheckedType::Option(Box::new(ty_to_checked(i))),
        Ty::Result { ok, err } => {
            let ok_c = match ok {
                Some(o) => Some(Box::new(ty_to_checked(o))),
                None => None,
            };
            let err_c = match err {
                Some(e) => Some(Box::new(ty_to_checked(e))),
                None => None,
            };
            CheckedType::Result { ok: ok_c, err: err_c }
        },
        Ty::Future(i) => CheckedType::Future(
            match i {
                Some(x) => Some(Box::new(ty_to_checked(x))),
                None => None,
            },
        ),
        _ => CheckedType::Unknown,
    }
}

/// Numbers, and what is not known, can take part in arithmetic.
pub open spec fn numeric(c: CheckedType) -> bool {
    match c {
        CheckedType::I32 | CheckedType::I64 | CheckedType::F32 | CheckedType::F64
        | CheckedType::Unknown => true,
        _ => false,
    }
}

/// Whether a checked type can take part in arithmetic.
pub fn is_numeric(c: &CheckedType) -> (b: bool)
    ensures
        b == numeric(*c),
{
    match c {
        CheckedType::I32 | CheckedType::I64 | CheckedType::F32 | CheckedType::F64
        | CheckedType::Unknown => true,
        _ => false,
    }
}


// ---------------------------------------------------------------------------
// Type definitions and their resolution
// ---------------------------------------------------------------------------

/// What a defined type is.
#[allow(inconsistent_fields)]
pub enum TypeKind {
    Primitive,
    /// A record, by field name.
    Record { fields: NameMap<Ty> },
    /// A variant: for each case, whether it carries a payload.
    Variant { cases: NameMap<bool> },
    Enum { cases: Vec<String> },
    Flags { flags: Vec<String> },
    Resource,
    /// An alias, with the constraint its values must meet, if any.
    Alias { target: Box<Ty>, constraint: Option<Expr> },
}

/// A defined type: its name, kind, where it is defined, and the interface
/// it belongs to (none for world-level and built-in types).
pub struct TypeInfo {
    pub name: String,
    pub kind: TypeKind,
    pub span: Span,
    pub interface: Option<String>,
}

/// The key a type is found by: its interface and its name.
pub open spec fn type_key(i: TypeInfo) -> (Option<Seq<char>>, Seq<char>) {
    (
        match i.interface {
            Some(s) => Some(s@),
            None => None,
        },
        i.name@,
    )
}

/// The types that a list of definitions denotes, by key.
pub open spec fn table_map(s: Seq<TypeInfo>) -> Map<(Option<Seq<char>>, Seq<char>), TypeInfo>
    decreases s.len(),
{
    if s.len() == 0 {
        Map::empty()
    } else {
        table_map(s.drop_last()).insert(type_key(s.last()), s.last())
    }
}

/// The defined types, each key once.
pub struct TypeTable {
    pub entries: Vec<TypeInfo>,
}

impl View for TypeTable {
    type V = Map<(Option<Seq<char>>, Seq<char>), TypeInfo>;

    open spec fn view(&self) -> Map<(Option<Seq<char>>, Seq<char>), TypeInfo> {
        table_map(self.entries@)
    }
}

proof fn lemma_table_domain(s: Seq<TypeInfo>, k: (Option<Seq<char>>, Seq<char>))
    ensures
        table_map(s).contains_key(k) <==> exists|i: int| 0 <= i < s.len() && type_key(s[i]) == k,
    decreases s.len(),
{
    if s.len() > 0 {
        lemma_table_domain(s.drop_last(), k);
        if table_map(s).contains_key(k) && type_key(s.last()) != k {
            let i = choose|i: int| 0 <= i < s.len() - 1 && type_key(s.drop_last()[i]) == k;
            assert(type_key(s[i]) == k);
        }
        if exists|i: int| 0 <= i < s.len() && type_key(s[i]) == k {
            let i = choose|i: int| 0 <= i < s.len() && type_key(s[i]) == k;
            if i < s.len() - 1 {
                assert(type_key(s.drop_last()[i]) == k);
            }
        }
    }
}

proof fn lemma_table_value(s: Seq<TypeInfo>, i: int)
    requires
        0 <= i < s.len(),
        forall|a: int, b: int| 0 <= a < b < s.len() ==> type_key(s[a]) != type_key(s[b]),
    ensures
        table_map(s).contains_key(type_key(s[i])),
        table_map(s)[type_key(s[i])] == s[i],
    decreases s.len(),
{
    if i < s.len() - 1 {
        lemma_table_value(s.drop_last(), i);
        assert(s.drop_last()[i] == s[i]);
    }
}

fn opt_str_eq(a: &Option<String>, b: Option<&str>) -> (r: bool)
    ensures
        r == ((match *a {
            Some(s) => Some(s@),
            None => None,
        }) == (match b {
            Some(s) => Some(s@),
            None => None::<Seq<char>>,
        })),
{
    match (a, b) {
        (Some(x), Some(y)) => str_eq(x.as_str(), y),
        (None, None) => true,
        _ => false,
    }
}

/// The key of a lookup.
pub open spec fn lookup_key(interface: Option<&str>, name: &str) -> (Option<Seq<char>>, Seq<char>) {
    (
        match interface {
            Some(s) => Some(s@),
            None => None,
        },
        name@,
    )
}

impl TypeTable {
    /// No key occurs twice.
    pub open spec fn wf(&self) -> bool {
        forall|a: int, b: int|
            0 <= a < b < self.entries@.len() ==> type_key(self.entries@[a]) != type_key(
                self.entries@[b],
            )
    }

    /// The empty table.
    pub fn new() -> (t: Self)
        ensures
            t.wf(),
            t@ == Map::<(Option<Seq<char>>, Seq<char>), TypeInfo>::empty(),
    {
        TypeTable { entries: Vec::new() }
    }

    /// The type defined under `name` in `interface` (or globally).
    pub fn get(&self, interface: Option<&str>, name: &str) -> (r: Option<&TypeInfo>)
        requires
            self.wf(),
        ensures
            match r {
                Some(i) => self@.contains_key(lookup_key(interface, name)) && self@[lookup_key(
                    interface,
                    name,
                )] == *i,
                None => !self@.contains_key(lookup_key(interface, name)),
            },
    {
        let ghost k = lookup_key(interface, name);
        let mut i: usize = 0;
        while i < self.entries.len()
            invariant
                i <= self.entries@.len(),
                self.wf(),
                k == lookup_key(interface, name),
                forall|j: int| 0 <= j < i ==> type_key(self.entries@[j]) != k,
            decreases self.entries@.len() - i,
        {
            let e = &self.entries[i];
            assert(self.entries@[i as int] == *e);
            if str_eq(e.name.as_str(), name) && opt_str_eq(&e.interface, interface) {
                assert(type_key(*e) == k);
                proof {
                    lemma_table_value(self.entries@, i as int);
                }
                return Some(e);
            }
            i = i + 1;
        }
        proof {
            lemma_table_domain(self.entries@, k);
        }
        None
    }

    /// Adds a type whose key is not defined yet.
    pub fn insert_new(&mut self, info: TypeInfo)
        requires
            old(self).wf(),
            !old(self)@.contains_key(type_key(info)),
        ensures
            final(self).wf(),
            final(self)@ == old(self)@.insert(type_key(info), info),
    {
        proof {
            lemma_table_domain(self.entries@, type_key(info));
        }
        let ghost before = self.entries@;
        self.entries.push(info);
        assert(self.entries@.drop_last() =~= before);
    }
}

/// The built-in type names.
pub open spec fn builtin_type(name: Seq<char>) -> bool {
    ||| name == "bool"@
    ||| name == "s8"@
    ||| name == "s16"@
    ||| name == "s32"@
    ||| name == "s64"@
    ||| name == "u8"@
    ||| name == "u16"@
    ||| name == "u32"@
    ||| name == "u64"@
    ||| name == "f32"@
    ||| name == "f64"@
    ||| name == "char"@
    ||| name == "string"@
    ||| name == "list"@
    ||| name == "option"@
    ||| name == "result"@
}

fn is_builtin_type(name: &str) -> (b: bool)
    ensures
        b == builtin_type(name@),
{
    str_eq(name, "bool") || str_eq(name, "s8") || str_eq(name, "s16") || str_eq(name, "s32")
        || str_eq(name, "s64") || str_eq(name, "u8") || str_eq(name, "u16") || str_eq(name, "u32")
        || str_eq(name, "u64") || str_eq(name, "f32") || str_eq(name, "f64") || str_eq(name, "char")
        || str_eq(name, "string") || str_eq(name, "list") || str_eq(name, "option") || str_eq(
        name,
        "result",
    )
}

/// The type a name refers to: the current interface's type of that name,
/// else the global one.
pub open spec fn resolved_info(
    table: Map<(Option<Seq<char>>, Seq<char>), TypeInfo>,
    current: Option<Seq<char>>,
    name: Seq<char>,
) -> Option<TypeInfo> {
    if current is Some && table.contains_key((current, name)) {
        Some(table[(current, name)])
    } else if table.contains_key((None, name)) {
        Some(table[(None::<Seq<char>>, name)])
    } else {
        None
    }
}

/// A view of an optional string.
pub open spec fn opt_view(o: Option<&str>) -> Option<Seq<char>> {
    match o {
        Some(s) => Some(s@),
        None => None,
    }
}

/// The type a name refers to in the current interface.
pub fn resolve_type_info<'a>(table: &'a TypeTable, current: Option<&str>, name: &str) -> (r: Option<
    &'a TypeInfo,
>)
    requires
        table.wf(),
    ensures
        match r {
            Some(i) => resolved_info(table@, opt_view(current), name@) == Some(*i),
            None => resolved_info(table@, opt_view(current), name@) is None,
        },
{
    if current.is_some() {
        match table.get(current, name) {
            Some(i) => {
                return Some(i);
            },
            None => {},
        }
    }
    table.get(None, name)
}

/// A type name is known: a type parameter in scope, a built-in type, or a
/// defined type.
pub open spec fn known_type(
    params: Seq<String>,
    table: Map<(Option<Seq<char>>, Seq<char>), TypeInfo>,
    current: Option<Seq<char>>,
    name: Seq<char>,
) -> bool {
    (exists|i: int| 0 <= i < params.len() && #[trigger] params[i]@ == name) || builtin_type(name)
        || resolved_info(table, current, name) is Some
}

/// Whether a type name is known in the current scope.
pub fn resolve_type(params: &Vec<String>, table: &TypeTable, current: Option<&str>, name: &str) -> (b:
    bool)
    requires
        table.wf(),
    ensures
        b == known_type(params@, table@, opt_view(current), name@),
{
    let mut i: usize = 0;
    while i < params.len()
        invariant
            i <= params@.len(),
            forall|j: int| 0 <= j < i ==> #[trigger] params@[j]@ != name@,
        decreases params@.len() - i,
    {
        if str_eq(params[i].as_str(), name) {
            return true;
        }
        i = i + 1;
    }
    if is_builtin_type(name) {
        return true;
    }
    resolve_type_info(table, current, name).is_some()
}


/// The constraint that a type alias named by `t` carries, if `t` names an
/// alias (directly, or as the head of a generic) that has one.
pub open spec fn alias_constraint(
    t: Ty,
    table: Map<(Option<Seq<char>>, Seq<char>), TypeInfo>,
    current: Option<Seq<char>>,
) -> Option<Expr> {
    let head = match t {
        Ty::Named(id) => Some(id.name@),
        Ty::Generic { name, .. } => Some(name.name@),
        _ => None,
    };
    match head {
        Some(n) => match resolved_info(table, current, n) {
            Some(info) => match info.kind {
                TypeKind::Alias { constraint, .. } => constraint,
                _ => None,
            },
            None => None,
        },
        None => None,
    }
}

/// The `where` constraint of the alias that `t` refers to, copied.
pub fn resolve_type_alias_constraint(t: &Ty, table: &TypeTable, current: Option<&str>) -> (r: Option<
    Expr,
>)
    requires
        table.wf(),
    ensures
        r == alias_constraint(*t, table@, opt_view(current)),
{
    let head: &Id = match t {
        Ty::Named(id) => id,
        Ty::Generic { name, .. } => name,
        _ => {
            return None;
        },
    };
    match resolve_type_info(table, current, head.name.as_str()) {
        Some(info) => match &info.kind {
            TypeKind::Alias { constraint, .. } => match constraint {
                Some(c) => Some(copy_expr(c)),
                None => None,
            },
            _ => None,
        },
        None => None,
    }
}

// ---------------------------------------------------------------------------
// Checking type references
// ---------------------------------------------------------------------------

/// The error for an unknown type name.
pub open spec fn unknown_type(id: Id) -> DiagView {
    ("Unknown type: "@ + id.name@, id.span, Severity::Error, DiagnosticCode::UnknownType)
}

/// The error for an unknown resource name.
pub open spec fn unknown_resource(id: Id) -> DiagView {
    ("Unknown resource: "@ + id.name@, id.span, Severity::Error, DiagnosticCode::UnknownResource)
}

/// The errors for the names in `t` that are not known, in the order they
/// are written.
pub open spec fn type_diags(
    t: Ty,
    params: Seq<String>,
    table: Map<(Option<Seq<char>>, Seq<char>), TypeInfo>,
    current: Option<Seq<char>>,
) -> Seq<DiagView>
    decreases t, 0int,
{
    match t {
        Ty::Named(id) => if known_type(params, table, current, id.name@) {
            Seq::empty()
        } else {
            seq![unknown_type(id)]
        },
        Ty::List(e) => type_diags(*e, params, table, current),
        Ty::Option(i) => type_diags(*i, params, table, current),
        Ty::Result { ok, err } => (match ok {
            Some(o) => type_diags(*o, params, table, current),
            None => Seq::empty(),
        }) + (match err {
            Some(e) => type_diags(*e, params, table, current),
            None => Seq::empty(),
        }),
        Ty::Tuple(es) => {
            proof {
                vstd::std_specs::vec::axiom_vec_decreases_to_view(es);
            }
            list_diags(es@, es@.len() as int, params, table, current)
        },
        Ty::Future(i) => match i {
            Some(x) => type_diags(*x, params, table, current),
            None => Seq::empty(),
        },
        Ty::Stream(i) => match i {
            Some(x) => type_diags(*x, params, table, current),
            None => Seq::empty(),
        },
        Ty::Borrow(r) => if known_type(params, table, current, r.name@) {
            Seq::empty()
        } else {
            seq![unknown_resource(r)]
        },
        Ty::Own(r) => if known_type(params, table, current, r.name@) {
            Seq::empty()
        } else {
            seq![unknown_resource(r)]
        },
        Ty::Generic { name, args } => {
            proof {
                vstd::std_specs::vec::axiom_vec_decreases_to_view(args);
            }
            (if known_type(params, table, current, name.name@) {
                Seq::empty()
            } else {
                seq![unknown_type(name)]
            }) + list_diags(args@, args@.len() as int, params, table, current)
        },
        Ty::Primitive(_) => Seq::empty(),
    }
}

/// The errors of the first `k` of `ts`.
pub open spec fn list_diags(
    ts: Seq<Ty>,
    k: int,
    params: Seq<String>,
    table: Map<(Option<Seq<char>>, Seq<char>), TypeInfo>,
    current: Option<Seq<char>>,
) -> Seq<DiagView>
    decreases ts, k,
{
    if k <= 0 || k > ts.len() {
        Seq::empty()
    } else {
        list_diags(ts, k - 1, params, table, current) + type_diags(ts[k - 1], params, table, current)
    }
}

/// Whether the type reference `t` names the type `n` anywhere inside it, as
/// a plain or a generic type (handles to resources do not count).
pub open spec fn ty_mentions(t: Ty, n: Seq<char>) -> bool
    decreases t, 0int,
{
    match t {
        Ty::Named(id) => id.name@ == n,
        Ty::List(e) => ty_mentions(*e, n),
        Ty::Option(i) => ty_mentions(*i, n),
        Ty::Result { ok, err } => (match ok {
            Some(o) => ty_mentions(*o, n),
            None => false,
        }) || (match err {
            Some(e) => ty_mentions(*e, n),
            None => false,
        }),
        Ty::Tuple(es) => {
            proof {
                vstd::std_specs::vec::axiom_vec_decreases_to_view(es);
            }
            tys_mention(es@, es@.len() as int, n)
        },
        Ty::Future(i) => match i {
            Some(x) => ty_mentions(*x, n),
            None => false,
        },
        Ty::Stream(i) => match i {
            Some(x) => ty_mentions(*x, n),
            None => false,
        },
        Ty::Borrow(_) => false,
        Ty::Own(_) => false,
        Ty::Generic { name, args } => {
            proof {
                vstd::std_specs::vec::axiom_vec_decreases_to_view(args);
            }
            name.name@ == n || tys_mention(args@, args@.len() as int, n)
        },
        Ty::Primitive(_) => false,
    }
}

/// Whether one of the first `k` of `ts` names the type `n`.
pub open spec fn tys_mention(ts: Seq<Ty>, k: int, n: Seq<char>) -> bool
    decreases ts, k,
{
    if k <= 0 || k > ts.len() {
        false
    } else {
        tys_mention(ts, k - 1, n) || ty_mentions(ts[k - 1], n)
    }
}

/// Whether `t` names the type `n` anywhere inside it.
pub fn mentions_type(t: &Ty, n: &str) -> (r: bool)
    ensures
        r == ty_mentions(*t, n@),
    decreases t, 0int,
{
    match t {
        Ty::Named(id) => str_eq(id.name.as_str(), n),
        Ty::List(e) => mentions_type(e, n),
        Ty::Option(i) => mentions_type(i, n),
        Ty::Result { ok, err } => {
            let a = match ok {
                Some(o) => mentions_type(o, n),
                None => false,
            };
            if a {
                return true;
            }
            match err {
                Some(e) => mentions_type(e, n),
                None => false,
            }
        },
        Ty::Tuple(es) => types_mention(es, n),
        Ty::Future(i) | Ty::Stream(i) => match i {
            Some(x) => mentions_type(x, n),
            None => false,
        },
        Ty::Borrow(_) | Ty::Own(_) => false,
        Ty::Generic { name, args } => {
            if str_eq(name.name.as_str(), n) {
                return true;
            }
            types_mention(args, n)
        },
        Ty::Primitive(_) => false,
    }
}

fn types_mention(ts: &Vec<Ty>, n: &str) -> (r: bool)
    ensures
        r == tys_mention(ts@, ts@.len() as int, n@),
    decreases ts, 1int,
{
    let mut k: usize = 0;
    while k < ts.len()
        invariant
            k <= ts@.len(),
            !tys_mention(ts@, k as int, n@),
        decreases ts@.len() - k,
    {
        if mentions_type(&ts[k], n) {
            proof {
                lemma_tys_mention_grows(ts@, k + 1, ts@.len() as int, n@);
            }
            return true;
        }
        k = k + 1;
    }
    false
}

proof fn lemma_tys_mention_grows(ts: Seq<Ty>, j: int, k: int, n: Seq<char>)
    requires
        0 <= j <= k <= ts.len(),
        tys_mention(ts, j, n),
    ensures
        tys_mention(ts, k, n),
    decreases k - j,
{
    if j < k {
        lemma_tys_mention_grows(ts, j, k - 1, n);
    }
}

/// The views of a sequence of diagnostics.
pub open spec fn diag_views(s: Seq<Diagnostic>) -> Seq<DiagView> {
    s.map_values(|d: Diagnostic| diag_view(d))
}

fn push_diag(out: &mut Vec<Diagnostic>, prefix: &str, id: &Id, code: DiagnosticCode)
    ensures
        diag_views(final(out)@) == diag_views(old(out)@).push(
            (prefix@ + id.name@, id.span, Severity::Error, code),
        ),
{
    let mut m: Vec<char> = Vec::new();
    push_str(&mut m, prefix);
    push_str(&mut m, id.name.as_str());
    let d = Diagnostic::error(string_of(m.as_slice()), id.span, code);
    let ghost before = diag_views(out@);
    out.push(d);
    assert(diag_views(out@) =~= before.push(diag_view(d)));
}

fn check_type_into(
    t: &Ty,
    params: &Vec<String>,
    table: &TypeTable,
    current: Option<&str>,
    out: &mut Vec<Diagnostic>,
)
    requires
        table.wf(),
    ensures
        diag_views(final(out)@) == diag_views(old(out)@) + type_diags(
            *t,
            params@,
            table@,
            opt_view(current),
        ),
    decreases t, 0int,
{
    let ghost before = diag_views(out@);
    match t {
        Ty::Named(id) => {
            if !resolve_type(params, table, current, id.name.as_str()) {
                push_diag(out, "Unknown type: ", id, DiagnosticCode::UnknownType);
            }
        },
        Ty::List(e) => check_type_into(e, params, table, current, out),
        Ty::Option(i) => check_type_into(i, params, table, current, out),
        Ty::Result { ok, err } => {
            match ok {
                Some(o) => check_type_into(o, params, table, current, out),
                None => {},
            }
            match err {
                Some(e) => check_type_into(e, params, table, current, out),
                None => {},
            }
        },
        Ty::Tuple(es) => check_types_into(es, params, table, current, out),
        Ty::Future(i) | Ty::Stream(i) => match i {
            Some(x) => check_type_into(x, params, table, current, out),
            None => {},
        },
        Ty::Borrow(r) | Ty::Own(r) => {
            if !resolve_type(params, table, current, r.name.as_str()) {
                push_diag(out, "Unknown resource: ", r, DiagnosticCode::UnknownResource);
            }
        },
        Ty::Generic { name, args } => {
            if !resolve_type(params, table, current, name.name.as_str()) {
                push_diag(out, "Unknown type: ", name, DiagnosticCode::UnknownType);
            }
            check_types_into(args, params, table, current, out);
        },
        Ty::Primitive(_) => {},
    }
    assert(diag_views(out@) =~= before + type_diags(*t, params@, table@, opt_view(current)));
}

fn check_types_into(
    ts: &Vec<Ty>,
    params: &Vec<String>,
    table: &TypeTable,
    current: Option<&str>,
    out: &mut Vec<Diagnostic>,
)
    requires
        table.wf(),
    ensures
        diag_views(final(out)@) == diag_views(old(out)@) + list_diags(
            ts@,
            ts@.len() as int,
            params@,
            table@,
            opt_view(current),
        ),
    decreases ts, 1int,
{
    let mut k: usize = 0;
    while k < ts.len()
        invariant
            k <= ts@.len(),
            table.wf(),
            diag_views(out@) == diag_views(old(out)@) + list_diags(
                ts@,
                k as int,
                params@,
                table@,
                opt_view(current),
            ),
        decreases ts@.len() - k,
    {
        check_type_into(&ts[k], params, table, current, out);
        k = k + 1;
        assert(diag_views(out@) =~= diag_views(old(out)@) + list_diags(
            ts@,
            k as int,
            params@,
            table@,
            opt_view(current),
        ));
    }
}

/// The errors for the unknown type and resource names in `t`, given the
/// type parameters in scope, the defined types and the current interface.
pub fn validate_type(t: &Ty, params: &Vec<String>, table: &TypeTable, current: Option<&str>) -> (r: Vec<
    Diagnostic,
>)
    requires
        table.wf(),
    ensures
        diag_views(r@) == type_diags(*t, params@, table@, opt_view(current)),
{
    let mut out: Vec<Diagnostic> = Vec::new();
    check_type_into(t, params, table, current, &mut out);
    assert(diag_views(out@) =~= Seq::<DiagView>::empty() + type_diags(
        *t,
        params@,
        table@,
        opt_view(current),
    ));
    out
}


// ---------------------------------------------------------------------------
// Copying type syntax
// ---------------------------------------------------------------------------

/// The same optional type, part by part.
pub open spec fn same_opt_ty(a: Option<Box<Ty>>, b: Option<Box<Ty>>) -> bool
    decreases a, 1int,
{
    match a {
        Some(x) => match b {
            Some(y) => same_ty(*x, *y),
            None => false,
        },
        None => b is None,
    }
}

/// `a` and `b` are the same type syntax, part by part.
pub open spec fn same_ty(a: Ty, b: Ty) -> bool
    decreases a, 0int,
{
    match a {
        Ty::Primitive(p) => b == Ty::Primitive(p),
        Ty::Named(id) => b == Ty::Named(id),
        Ty::Borrow(id) => b == Ty::Borrow(id),
        Ty::Own(id) => b == Ty::Own(id),
        Ty::List(x) => match b {
            Ty::List(y) => same_ty(*x, *y),
            _ => false,
        },
        Ty::Option(x) => match b {
            Ty::Option(y) => same_ty(*x, *y),
            _ => false,
        },
        Ty::Result { ok, err } => match b {
            Ty::Result { ok: o2, err: e2 } => same_opt_ty(ok, o2) && same_opt_ty(err, e2),
            _ => false,
        },
        Ty::Future(x) => match b {
            Ty::Future(y) => same_opt_ty(x, y),
            _ => false,
        },
        Ty::Stream(x) => match b {
            Ty::Stream(y) => same_opt_ty(x, y),
            _ => false,
        },
        Ty::Tuple(ts) => match b {
            Ty::Tuple(us) => {
                proof {
                    vstd::std_specs::vec::axiom_vec_decreases_to_view(ts);
                }
                us@.len() == ts@.len() && same_tys(ts@, us@, ts@.len() as int)
            },
            _ => false,
        },
        Ty::Generic { name, args } => match b {
            Ty::Generic { name: n2, args: a2 } => {
                proof {
                    vstd::std_specs::vec::axiom_vec_decreases_to_view(args);
                }
                n2 == name && a2@.len() == args@.len() && same_tys(args@, a2@, args@.len() as int)
            },
            _ => false,
        },
    }
}

/// The first `k` of `us` are the same as the first `k` of `ts`.
pub open spec fn same_tys(ts: Seq<Ty>, us: Seq<Ty>, k: int) -> bool
    decreases ts, k,
{
    if k <= 0 || k > ts.len() {
        true
    } else {
        same_tys(ts, us, k - 1) && same_ty(ts[k - 1], us[k - 1])
    }
}

proof fn lemma_same_tys(ts: Seq<Ty>, us: Seq<Ty>, k: int)
    requires
        0 <= k <= ts.len(),
        forall|j: int| 0 <= j < k ==> same_ty(#[trigger] ts[j], us[j]),
    ensures
        same_tys(ts, us, k),
    decreases k,
{
    if k > 0 {
        lemma_same_tys(ts, us, k - 1);
    }
}

fn copy_id(id: &Id) -> (r: Id)
    ensures
        r == *id,
{
    Id { name: id.name.clone(), span: id.span }
}

fn copy_opt_ty(o: &Option<Box<Ty>>) -> (r: Option<Box<Ty>>)
    ensures
        same_opt_ty(*o, r),
    decreases o, 1int,
{
    match o {
        Some(x) => Some(Box::new(copy_ty(x))),
        None => None,
    }
}

/// A copy of a type, part by part.
pub fn copy_ty(t: &Ty) -> (r: Ty)
    ensures
        same_ty(*t, r),
    decreases t, 0int,
{
    match t {
        Ty::Primitive(p) => Ty::Primitive(*p),
        Ty::Named(id) => Ty::Named(copy_id(id)),
        Ty::Borrow(id) => Ty::Borrow(copy_id(id)),
        Ty::Own(id) => Ty::Own(copy_id(id)),
        Ty::List(x) => Ty::List(Box::new(copy_ty(x))),
        Ty::Option(x) => Ty::Option(Box::new(copy_ty(x))),
        Ty::Result { ok, err } => Ty::Result { ok: copy_opt_ty(ok), err: copy_opt_ty(err) },
        Ty::Future(x) => Ty::Future(copy_opt_ty(x)),
        Ty::Stream(x) => Ty::Stream(copy_opt_ty(x)),
        Ty::Tuple(ts) => Ty::Tuple(copy_tys(ts)),
        Ty::Generic { name, args } => Ty::Generic { name: copy_id(name), args: copy_tys(args) },
    }
}

fn copy_tys(ts: &Vec<Ty>) -> (r: Vec<Ty>)
    ensures
        r@.len() == ts@.len(),
        same_tys(ts@, r@, ts@.len() as int),
    decreases ts, 2int,
{
    let mut r: Vec<Ty> = Vec::new();
    let mut i: usize = 0;
    while i < ts.len()
        invariant
            i <= ts@.len(),
            r@.len() == i,
            forall|j: int| 0 <= j < i ==> same_ty(#[trigger] ts@[j], r@[j]),
        decreases ts@.len() - i,
    {
        proof {
            vstd::std_specs::vec::axiom_vec_index_decreases(*ts, i as int);
        }
        let c = copy_ty(&ts[i]);
        r.push(c);
        i = i + 1;
    }
    proof {
        lemma_same_tys(ts@, r@, ts@.len() as int);
    }
    r
}

} // verus!
