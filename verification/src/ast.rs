//! The syntax tree that the type checker reads: expressions and statements
//! of function bodies, functions and their gates, type definitions,
//! interfaces, worlds and files.
use vstd::prelude::*;
use crate::constraints::BinOp;
use crate::diagnostics::Span;
use crate::package_path::PackagePath;
use crate::types::{Id, Ty};

verus! {

/// The SIMD operations, as far as the checker tells them apart: the ones
/// that give a scalar, and the rest.
#[derive(Clone, Copy, Debug, PartialEq, Eq)]
pub enum SimdOp {
    ExtractLane,
    AnyTrue,
    AllTrue,
    Bitmask,
    /// Any operation that gives a vector.
    Vector,
}

/// A part of an interpolated string.
pub enum StringPart {
    Literal(String),
    Expr(Expr),
}

/// A `match` pattern.
pub enum Pattern {
    /// `Type#case(binding)`, the type and binding optional.
    Variant { ty_name: Option<Id>, case_name: Id, binding: Option<Id>, span: Span },
    /// Any other pattern.
    Other,
}

/// A `match` arm.
pub struct MatchArm {
    pub pattern: Pattern,
    pub body: Vec<Statement>,
}

/// Expressions.
#[allow(inconsistent_fields)]
pub enum Expr {
    Integer(i64, Span),
    String(String, Span),
    InterpolatedString(Vec<StringPart>, Span),
    Bool(bool, Span),
    Ident(Id),
    Binary { lhs: Box<Expr>, op: BinOp, rhs: Box<Expr>, span: Span },
    If {
        cond: Box<Expr>,
        then_branch: Vec<Statement>,
        else_branch: Option<Vec<Statement>>,
        span: Span,
    },
    Call { func: Box<Expr>, args: Vec<Expr>, span: Span },
    Field { expr: Box<Expr>, field: Id, span: Span },
    OptionalChain { expr: Box<Expr>, field: Id, span: Span },
    Try { expr: Box<Expr>, span: Span },
    Await { expr: Box<Expr>, span: Span },
    Assert(Box<Expr>, Span),
    Not(Box<Expr>, Span),
    Neg(Box<Expr>, Span),
    StrLen(Box<Expr>, Span),
    StrEq(Box<Expr>, Box<Expr>, Span),
    ListLen(Box<Expr>, Span),
    ListSet(Box<Expr>, Box<Expr>, Box<Expr>, Span),
    ListPush(Box<Expr>, Box<Expr>, Span),
    /// A closure, with the names it captures from its surroundings.
    Lambda { params: Vec<Id>, body: Box<Expr>, captures: Vec<Id>, span: Span },
    MapList { list: Box<Expr>, lambda: Box<Expr>, span: Span },
    Filter { list: Box<Expr>, lambda: Box<Expr>, span: Span },
    Reduce { list: Box<Expr>, init: Box<Expr>, lambda: Box<Expr>, span: Span },
    RecordLiteral { ty_name: Option<Id>, fields: Vec<(Id, Expr)>, span: Span },
    VariantLiteral { ty_name: Option<Id>, case_name: Id, payload: Option<Box<Expr>>, span: Span },
    Match { scrutinee: Box<Expr>, arms: Vec<MatchArm>, span: Span },
    While { condition: Box<Expr>, body: Vec<Statement>, span: Span },
    Range { start: Box<Expr>, end: Box<Expr>, step: Option<Box<Expr>>, span: Span },
    For { variable: Id, range: Box<Expr>, body: Vec<Statement>, span: Span },
    ForEach { variable: Id, collection: Box<Expr>, body: Vec<Statement>, span: Span },
    ListLiteral { elements: Vec<Expr>, span: Span },
    Index { expr: Box<Expr>, index: Box<Expr>, span: Span },
    Slice { expr: Box<Expr>, start: Box<Expr>, end: Box<Expr>, span: Span },
    AtomicLoad { addr: Box<Expr>, span: Span },
    AtomicStore { addr: Box<Expr>, value: Box<Expr>, span: Span },
    AtomicAdd { addr: Box<Expr>, value: Box<Expr>, span: Span },
    AtomicSub { addr: Box<Expr>, value: Box<Expr>, span: Span },
    AtomicCompareExchange { addr: Box<Expr>, expected: Box<Expr>, replacement: Box<Expr>, span: Span },
    AtomicWait { addr: Box<Expr>, expected: Box<Expr>, timeout: Box<Expr>, span: Span },
    AtomicNotify { addr: Box<Expr>, count: Box<Expr>, span: Span },
    Spawn { body: Vec<Statement>, span: Span },
    ThreadJoin { tid: Box<Expr>, span: Span },
    AtomicBlock { body: Vec<Statement>, span: Span },
    SimdOp { op: SimdOp, args: Vec<Expr>, span: Span },
    SimdForEach { variable: Id, collection: Box<Expr>, body: Vec<Statement>, span: Span },
}

/// Statements.
#[allow(inconsistent_fields)]
pub enum Statement {
    Let { name: Id, value: Expr },
    Return(Option<Expr>),
    Expr(Expr),
    Assign { name: Id, value: Expr },
    CompoundAssign { name: Id, op: BinOp, value: Expr },
    Break { condition: Option<Box<Expr>> },
    Continue { condition: Option<Box<Expr>> },
    SharedLet { name: Id, initial_value: Expr },
    GuardLet { name: Id, value: Expr, else_body: Vec<Statement> },
    Guard { condition: Expr, else_body: Vec<Statement> },
}

/// A semantic version.
#[derive(Clone, Copy, Debug, PartialEq, Eq)]
pub struct Version {
    pub major: u64,
    pub minor: u64,
    pub patch: u64,
}

/// A feature gate on a function.
pub enum Gate {
    Test,
    TestHelper,
    Deprecated { version: Version },
    Unstable { feature: Id },
    Since { version: Version },
}

/// A function parameter, with its optional `where` constraint.
pub struct Param {
    pub name: Id,
    pub ty: Ty,
    pub constraint: Option<Expr>,
}

/// A function: its parameters, result, gates, optional body, and where it
/// stands in the source.
pub struct Func {
    pub name: Id,
    pub params: Vec<Param>,
    pub result: Option<Ty>,
    pub gates: Vec<Gate>,
    pub body: Option<Vec<Statement>>,
    pub span: Span,
}

/// A record field.
pub struct Field {
    pub name: Id,
    pub ty: Ty,
}

/// A variant case, with its optional payload type.
pub struct Case {
    pub name: Id,
    pub ty: Option<Ty>,
}

/// A resource method.
pub enum ResourceMethod {
    Method(Func),
    Static(Func),
    Constructor { params: Vec<Param>, result: Option<Ty>, body: Option<Vec<Statement>>, span: Span },
}

/// The kinds of type definitions.
#[allow(inconsistent_fields)]
pub enum TypeDefKind {
    Alias { name: Id, type_params: Vec<Id>, ty: Ty, constraint: Option<Expr> },
    Record { name: Id, type_params: Vec<Id>, fields: Vec<Field> },
    Variant { name: Id, type_params: Vec<Id>, cases: Vec<Case> },
    Enum { name: Id, cases: Vec<Id> },
    Flags { name: Id, flags: Vec<Id> },
    Resource { name: Id, methods: Vec<ResourceMethod> },
}

/// A type definition.
pub struct TypeDef {
    pub kind: TypeDefKind,
    pub span: Span,
}

/// A path to an interface, possibly in another package.
pub struct UsePath {
    pub package: Option<PackagePath>,
    pub interface: Id,
}

/// A name brought in by a `use`.
pub struct UseName {
    pub name: Id,
}

/// `use iface.{names}` inside an interface or world.
pub struct UseStatement {
    pub path: UsePath,
    pub names: Vec<UseName>,
    pub span: Span,
}

/// A `use` at the top of a file.
pub struct TopLevelUse {
    pub path: UsePath,
    pub span: Span,
}

/// `include` inside a world.
pub struct IncludeStatement {
    pub path: UsePath,
    pub span: Span,
}

/// An item of an interface.
pub enum InterfaceItem {
    TypeDef(TypeDef),
    Func(Func),
    Use(UseStatement),
}

/// What a world imports or exports.
pub enum ImportExportKind {
    Path(UsePath),
    Func(Func),
    Interface(Vec<InterfaceItem>),
}

/// An import or export of a world, with its optional name.
pub struct ImportExport {
    pub name: Option<Id>,
    pub kind: ImportExportKind,
    pub span: Span,
}

/// An item of a world.
pub enum WorldItem {
    Import(ImportExport),
    Export(ImportExport),
    TypeDef(TypeDef),
    Use(UseStatement),
    Include(IncludeStatement),
}

/// An interface.
pub struct Interface {
    pub name: Id,
    pub items: Vec<InterfaceItem>,
    pub span: Span,
}

/// A world.
pub struct World {
    pub name: Id,
    pub items: Vec<WorldItem>,
    pub span: Span,
}

/// A package nested in a file.
pub struct NestedPackage {
    pub path: PackagePath,
    pub span: Span,
}

/// An item at the top of a file.
pub enum TopLevelItem {
    Interface(Interface),
    World(World),
    Use(TopLevelUse),
    NestedPackage(NestedPackage),
}

/// A source file.
pub struct WitFile {
    pub items: Vec<TopLevelItem>,
}

} // verus!
