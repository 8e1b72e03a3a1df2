//! What checking a function body means: the type each expression gets,
//! the diagnostics each expression and statement adds, and how the local
//! scope, the constants and the loop depth change, as spec functions over
//! the body's syntax.
use vstd::prelude::*;
use crate::ast::{Expr, MatchArm, Pattern, SimdOp, Statement, StringPart};
use crate::call_check::DiagView;
use crate::checked::{binop_debug, checked_debug, same_checked};
use crate::constraints;
use crate::constraints::{const_lookup, no_overflow, value_of, BinOp};
use crate::diagnostics::{DiagnosticCode, Severity, Span};
use crate::interfaces::{interface_call_diagnostics, interface_call_evaluable, InterfaceInfo};
use crate::name_map::{entries_map, insert_entries};
use crate::numbers::decimal;
use crate::types::{checked_of, numeric, resolved_info, CheckedType, Id, TypeInfo, TypeKind};

verus! {

/// What stays fixed while a body is checked: the defined types, the
/// interfaces, the current interface, the declared return type, whether
/// the function is a test, and the source's hush comments and line offsets.
pub struct Env {
    pub types: Map<(Option<Seq<char>>, Seq<char>), TypeInfo>,
    pub interfaces: Map<Seq<char>, InterfaceInfo>,
    pub current_interface: Option<Seq<char>>,
    pub return_type: Option<CheckedType>,
    pub in_test: bool,
    pub hush: Seq<(int, int, Seq<char>)>,
    pub offsets: Seq<usize>,
}

/// What checking changes: the locals in scope (in the order they were
/// first bound), the known constants, the diagnostics so far, the loop
/// depth, whether a guard-let value is being checked, and whether every
/// evaluation so far stayed in range.
pub struct State {
    pub locals: Seq<(String, CheckedType)>,
    pub constants: Map<Seq<char>, i64>,
    pub diags: Seq<DiagView>,
    pub loop_depth: int,
    pub in_guard_let: bool,
    pub ok: bool,
}

// ---------------------------------------------------------------------------
// Small steps
// ---------------------------------------------------------------------------

/// Adds an error.
pub open spec fn err(st: State, msg: Seq<char>, span: Span, code: DiagnosticCode) -> State {
    State { diags: st.diags.push((msg, span, Severity::Error, code)), ..st }
}

/// Adds a type-mismatch error.
pub open spec fn mismatch(st: State, msg: Seq<char>, span: Span) -> State {
    err(st, msg, span, DiagnosticCode::TypeMismatch)
}

/// The type of a local, if it is in scope.
pub open spec fn local_type(st: State, name: Seq<char>) -> Option<CheckedType> {
    let m = entries_map(st.locals);
    if m.contains_key(name) {
        Some(m[name])
    } else {
        None
    }
}

/// Binds a local.
pub open spec fn bind(st: State, name: String, t: CheckedType) -> State {
    State { locals: insert_entries(st.locals, name, t), ..st }
}

/// Puts back an earlier scope.
pub open spec fn restore(st: State, locals: Seq<(String, CheckedType)>) -> State {
    State { locals, ..st }
}

/// Changes the loop depth by `d`; going past `usize::MAX` is out of range.
pub open spec fn deepen(st: State, d: int) -> State {
    State {
        loop_depth: st.loop_depth + d,
        ok: st.ok && st.loop_depth + d <= usize::MAX,
        ..st
    }
}

/// The definition a type name resolves to in the current interface.
pub open spec fn kind_of(env: Env, name: Seq<char>) -> Option<TypeKind> {
    match resolved_info(env.types, env.current_interface, name) {
        Some(i) => Some(i.kind),
        None => None,
    }
}

/// The return type that the current interface records for `func`.
pub open spec fn iface_return(env: Env, iface: Seq<char>, func: Seq<char>) -> Option<CheckedType> {
    if env.interfaces.contains_key(iface) && env.interfaces[iface].function_returns@.contains_key(
        func,
    ) {
        Some(env.interfaces[iface].function_returns@[func])
    } else {
        None
    }
}

/// The element type of a list type; anything else but `Unknown` is an
/// error with the given message prefix.
pub open spec fn elem_of(t: CheckedType, st: State, prefix: Seq<char>, span: Span) -> (
    CheckedType,
    State,
) {
    match t {
        CheckedType::List(inner) => (*inner, st),
        CheckedType::Unknown => (CheckedType::Unknown, st),
        _ => (CheckedType::Unknown, mismatch(st, prefix + checked_debug(t), span)),
    }
}

/// The constraint-checking view of an expression.
pub open spec fn cexpr(e: Expr) -> constraints::Expr
    decreases e, 0int,
{
    match e {
        Expr::Integer(n, _) => constraints::Expr::Integer(n),
        Expr::Ident(id) => constraints::Expr::Ident(id.name),
        Expr::String(s, _) => constraints::Expr::Text(s),
        Expr::Neg(inner, _) => constraints::Expr::Neg(Box::new(cexpr(*inner))),
        Expr::Not(inner, _) => constraints::Expr::Not(Box::new(cexpr(*inner))),
        Expr::Binary { lhs, op, rhs, .. } => constraints::Expr::Binary {
            lhs: Box::new(cexpr(*lhs)),
            op,
            rhs: Box::new(cexpr(*rhs)),
        },
        Expr::Call { func, args, .. } => {
            proof {
                vstd::std_specs::vec::axiom_vec_decreases_to_view(args);
            }
            constraints::Expr::Call { func: Box::new(cexpr(*func)), args: clist(args@, 0) }
        },
        _ => constraints::Expr::Other,
    }
}

/// The constraint-checking views of `es[i..]`, as an argument list.
pub open spec fn clist(es: Seq<Expr>, i: int) -> constraints::ExprList
    decreases es, es.len() - i,
{
    if i < 0 || i >= es.len() {
        constraints::ExprList::Nil
    } else {
        constraints::ExprList::Cons(Box::new(cexpr(es[i])), Box::new(clist(es, i + 1)))
    }
}

/// The constraint-checking views of a call's arguments.
pub open spec fn cargs(es: Seq<Expr>) -> Seq<constraints::Expr> {
    Seq::new(es.len(), |i: int| cexpr(es[i]))
}


// ---------------------------------------------------------------------------
// Results of single constructs
// ---------------------------------------------------------------------------

/// The names of the locals in scope.
pub open spec fn local_names(locals: Seq<(String, CheckedType)>) -> Seq<String> {
    locals.map_values(|p: (String, CheckedType)| p.0)
}

/// Binds each of the first `k` names to `t`.
pub open spec fn bind_all(ps: Seq<Id>, k: int, st: State, t: CheckedType) -> State
    decreases k,
{
    if k <= 0 || k > ps.len() {
        st
    } else {
        bind(bind_all(ps, k - 1, st, t), ps[k - 1].name, t)
    }
}

/// The type and errors of a binary operation on operands of types `lt`
/// and `rt`.
pub open spec fn binary_result(op: BinOp, lt: CheckedType, rt: CheckedType, span: Span, st: State) -> (
    CheckedType,
    State,
) {
    match op {
        BinOp::Add => if lt is String && rt is String {
            (CheckedType::String, st)
        } else if !numeric(lt) {
            (
                lt,
                err(
                    st,
                    "Operator "@ + binop_debug(op) + " requires numeric or string type, got "@
                        + checked_debug(lt),
                    span,
                    DiagnosticCode::InvalidOperator,
                ),
            )
        } else {
            (lt, st)
        },
        BinOp::Sub | BinOp::Mul | BinOp::Div => (
            lt,
            if !numeric(lt) {
                err(
                    st,
                    "Operator "@ + binop_debug(op) + " requires numeric type, got "@ + checked_debug(
                        lt,
                    ),
                    span,
                    DiagnosticCode::InvalidOperator,
                )
            } else {
                st
            },
        ),
        BinOp::And | BinOp::Or => {
            let s1 = if !(lt is Bool) {
                err(
                    st,
                    "Operator "@ + binop_debug(op) + " requires bool, got "@ + checked_debug(lt),
                    span,
                    DiagnosticCode::InvalidOperator,
                )
            } else {
                st
            };
            (
                CheckedType::Bool,
                if !(rt is Bool) {
                    err(
                        s1,
                        "Operator "@ + binop_debug(op) + " requires bool, got "@ + checked_debug(rt),
                        span,
                        DiagnosticCode::InvalidOperator,
                    )
                } else {
                    s1
                },
            )
        },
        _ => (CheckedType::Bool, st),
    }
}

/// The type of an `if` with branch types `tt` and `et`.
pub open spec fn if_result(tt: CheckedType, et: Option<CheckedType>, span: Span, st: State) -> (
    CheckedType,
    State,
) {
    match et {
        Some(e) => if !(tt is Unknown) && !(e is Unknown) && !same_checked(tt, e) {
            (
                CheckedType::Unknown,
                mismatch(
                    st,
                    "If branch type mismatch: then is "@ + checked_debug(tt) + ", else is "@
                        + checked_debug(e),
                    span,
                ),
            )
        } else if same_checked(tt, e) {
            (tt, st)
        } else {
            (CheckedType::Unknown, st)
        },
        None => (CheckedType::Unknown, st),
    }
}

/// The errors of a call to `func` against the constraints that the current
/// interface records for it.
pub open spec fn call_constraints(id: Id, args: Seq<Expr>, span: Span, st: State, env: Env) -> State {
    let iface = match env.current_interface {
        Some(n) => if env.interfaces.contains_key(n) {
            Some(env.interfaces[n])
        } else {
            None
        },
        None => None,
    };
    State {
        diags: st.diags + interface_call_diagnostics(
            st.in_guard_let,
            iface,
            id.name@,
            cargs(args),
            span,
            st.constants,
            local_names(st.locals),
            env.in_test,
            env.hush,
            env.offsets,
        ),
        ok: st.ok && match iface {
            Some(i) => !st.in_guard_let ==> interface_call_evaluable(
                i,
                id.name@,
                cargs(args),
                st.constants,
            ) && span.end < usize::MAX,
            None => true,
        },
        ..st
    }
}

/// The type of field `field` of a value of type `t`.
pub open spec fn field_result(t: CheckedType, field: Id, span: Span, st: State, env: Env) -> (
    CheckedType,
    State,
) {
    match t {
        CheckedType::Interface(iname) => (
            CheckedType::Unknown,
            if env.interfaces.contains_key(iname@) && !crate::constraints::string_views(
                env.interfaces[iname@].functions@,
            ).contains(field.name@) && !crate::constraints::string_views(
                env.interfaces[iname@].types@,
            ).contains(field.name@) {
                err(
                    st,
                    "Interface '"@ + iname@ + "' does not export '"@ + field.name@ + "'"@,
                    span,
                    DiagnosticCode::UnknownVariable,
                )
            } else {
                st
            },
        ),
        CheckedType::Named(tn) => match kind_of(env, tn@) {
            Some(TypeKind::Record { fields }) => if fields@.contains_key(field.name@) {
                (checked_of(fields@[field.name@]), st)
            } else {
                (
                    CheckedType::Unknown,
                    err(
                        st,
                        "Record type '"@ + tn@ + "' has no field '"@ + field.name@ + "'"@,
                        span,
                        DiagnosticCode::UnknownVariable,
                    ),
                )
            },
            _ => (CheckedType::Unknown, st),
        },
        _ => (CheckedType::Unknown, st),
    }
}

/// An error unless `t` is `want` (per `is_want`) or unknown.
pub open spec fn expect(is_want: bool, t: CheckedType, msg: Seq<char>, span: Span, st: State) -> State {
    if !is_want && !(t is Unknown) {
        mismatch(st, msg + checked_debug(t), span)
    } else {
        st
    }
}

/// The errors for the names of a record literal's fields that the record
/// type `name` does not have.
pub open spec fn field_names_check(
    fs: Seq<(Id, Expr)>,
    k: int,
    expected: Map<Seq<char>, crate::types::Ty>,
    name: Seq<char>,
    span: Span,
    st: State,
) -> State
    decreases k,
{
    if k <= 0 || k > fs.len() {
        st
    } else {
        let s1 = field_names_check(fs, k - 1, expected, name, span, st);
        if !expected.contains_key(fs[k - 1].0.name@) {
            mismatch(
                s1,
                "Unknown field '"@ + fs[k - 1].0.name@ + "' in record type '"@ + name + "'"@,
                span,
            )
        } else {
            s1
        }
    }
}

/// The type and errors of a variant literal `name#case`.
pub open spec fn variant_result(
    tid: Id,
    case_name: Id,
    has_payload: bool,
    span: Span,
    st: State,
    env: Env,
) -> (CheckedType, State) {
    let name = tid.name@;
    match kind_of(env, name) {
        Some(TypeKind::Variant { cases }) => {
            let c = case_name.name@;
            let s2 = if !cases@.contains_key(c) {
                mismatch(st, "Unknown case '"@ + c + "' in variant type '"@ + name + "'"@, span)
            } else if cases@[c] && !has_payload {
                mismatch(st, "Case '"@ + name + "#"@ + c + "' requires a payload"@, span)
            } else if !cases@[c] && has_payload {
                mismatch(st, "Case '"@ + name + "#"@ + c + "' does not accept a payload"@, span)
            } else {
                st
            };
            let t = if name == "result"@ && (env.return_type matches Some(rt) && rt is Result) {
                match env.return_type {
                    Some(rt) => rt,
                    None => CheckedType::Unknown,
                }
            } else {
                CheckedType::Named(tid.name)
            };
            (t, s2)
        },
        Some(_) => (
            CheckedType::Named(tid.name),
            mismatch(st, "Type '"@ + name + "' is not a variant"@, span),
        ),
        None => (
            CheckedType::Unknown,
            err(st, "Unknown type: "@ + name, span, DiagnosticCode::UnknownType),
        ),
    }
}

/// The errors of a `match` pattern, and the binding it makes.
pub open spec fn pattern_check(p: Pattern, st: State, env: Env) -> State {
    match p {
        Pattern::Variant { ty_name, case_name, binding, span } => {
            let s1 = match ty_name {
                Some(tid) => {
                    let vn = tid.name@;
                    let c = case_name.name@;
                    match kind_of(env, vn) {
                        Some(TypeKind::Variant { cases }) => if !cases@.contains_key(c) {
                            mismatch(
                                st,
                                "Unknown case '"@ + c + "' in variant type '"@ + vn + "'"@,
                                span,
                            )
                        } else if cases@[c] && binding is None {
                            mismatch(
                                st,
                                "Case '"@ + vn + "#"@ + c + "' pattern requires a binding for payload"@,
                                span,
                            )
                        } else if !cases@[c] && binding is Some {
                            mismatch(
                                st,
                                "Case '"@ + vn + "#"@ + c + "' pattern must not bind a payload"@,
                                span,
                            )
                        } else {
                            st
                        },
                        Some(_) => mismatch(st, "Type '"@ + vn + "' is not a variant"@, span),
                        None => err(st, "Unknown type: "@ + vn, span, DiagnosticCode::UnknownType),
                    }
                },
                None => st,
            };
            match binding {
                Some(b) => bind(s1, b.name, CheckedType::Unknown),
                None => s1,
            }
        },
        Pattern::Other => st,
    }
}

/// The arms' common type so far, given the next arm's type.
pub open spec fn merge_arm(inferred: Option<CheckedType>, ar: CheckedType) -> Option<CheckedType> {
    if ar is Unknown {
        inferred
    } else {
        match inferred {
            Some(ex) => if !same_checked(ex, ar) {
                Some(CheckedType::Unknown)
            } else {
                inferred
            },
            None => Some(ar),
        }
    }
}

/// The type a `guard let` binds for a value of type `vt`.
pub open spec fn guard_binding(vt: CheckedType, span: Span, st: State) -> (CheckedType, State) {
    match vt {
        CheckedType::Option(i) => (*i, st),
        CheckedType::Result { ok, .. } => match ok {
            Some(i) => (*i, st),
            None => (
                CheckedType::Unknown,
                mismatch(
                    st,
                    "Guard let requires option<T> or result<T, E> with an `ok` payload"@,
                    span,
                ),
            ),
        },
        CheckedType::Unknown => (CheckedType::Unknown, st),
        _ => (
            CheckedType::Unknown,
            mismatch(st, "Guard let requires option<T> or result<T, E>, got "@ + checked_debug(vt), span),
        ),
    }
}

/// Where an expression stands in the source.
pub open spec fn expr_span(e: Expr) -> Span {
    match e {
        Expr::Ident(id) => id.span,
        Expr::Integer(_, span) => span,
        Expr::String(_, span) => span,
        Expr::InterpolatedString(_, span) => span,
        Expr::Bool(_, span) => span,
        Expr::Assert(_, span) => span,
        Expr::Not(_, span) => span,
        Expr::Neg(_, span) => span,
        Expr::StrLen(_, span) => span,
        Expr::ListLen(_, span) => span,
        Expr::StrEq(_, _, span) => span,
        Expr::ListSet(_, _, _, span) => span,
        Expr::ListPush(_, _, span) => span,
        Expr::Call { span, .. } => span,
        Expr::Field { span, .. } => span,
        Expr::OptionalChain { span, .. } => span,
        Expr::Try { span, .. } => span,
        Expr::Binary { span, .. } => span,
        Expr::If { span, .. } => span,
        Expr::Lambda { span, .. } => span,
        Expr::MapList { span, .. } => span,
        Expr::Filter { span, .. } => span,
        Expr::Reduce { span, .. } => span,
        Expr::RecordLiteral { span, .. } => span,
        Expr::VariantLiteral { span, .. } => span,
        Expr::Match { span, .. } => span,
        Expr::While { span, .. } => span,
        Expr::Range { span, .. } => span,
        Expr::For { span, .. } => span,
        Expr::ListLiteral { span, .. } => span,
        Expr::Index { span, .. } => span,
        Expr::Slice { span, .. } => span,
        Expr::ForEach { span, .. } => span,
        Expr::Await { span, .. } => span,
        Expr::AtomicLoad { span, .. } => span,
        Expr::AtomicStore { span, .. } => span,
        Expr::AtomicAdd { span, .. } => span,
        Expr::AtomicSub { span, .. } => span,
        Expr::AtomicCompareExchange { span, .. } => span,
        Expr::AtomicWait { span, .. } => span,
        Expr::AtomicNotify { span, .. } => span,
        Expr::Spawn { span, .. } => span,
        Expr::ThreadJoin { span, .. } => span,
        Expr::AtomicBlock { span, .. } => span,
        Expr::SimdOp { span, .. } => span,
        Expr::SimdForEach { span, .. } => span,
    }
}

/// The empty span.
pub open spec fn no_span() -> Span {
    Span { start: 0, end: 0 }
}

/// A block ends by leaving the scope: with a `return`, with a `break` or
/// `continue` inside a loop, or with an `if` whose branches both do.
pub open spec fn block_exits(stmts: Seq<Statement>, depth: int) -> bool
    decreases stmts, 1int,
{
    if stmts.len() == 0 {
        false
    } else {
        stmt_exits(stmts.last(), depth)
    }
}

/// A statement leaves the scope.
pub open spec fn stmt_exits(s: Statement, depth: int) -> bool
    decreases s, 0int,
{
    match s {
        Statement::Return(_) => true,
        Statement::Break { .. } => depth > 0,
        Statement::Continue { .. } => depth > 0,
        Statement::Expr(e) => match e {
            Expr::If { then_branch, else_branch, .. } => match else_branch {
                Some(eb) => {
                    proof {
                        vstd::std_specs::vec::axiom_vec_decreases_to_view(then_branch);
                        vstd::std_specs::vec::axiom_vec_decreases_to_view(eb);
                    }
                    block_exits(then_branch@, depth) && block_exits(eb@, depth)
                },
                None => false,
            },
            _ => false,
        },
        _ => false,
    }
}

/// The message for a `guard let` whose else block does not leave the scope.
pub open spec fn guard_let_exit_message() -> Seq<char> {
    "`guard let` else block must exit the current scope with `return`, `break`, or `continue`"@
}

/// The message for a `guard` whose else block does not leave the scope.
pub open spec fn guard_exit_message() -> Seq<char> {
    "`guard` else block must exit the current scope with `return`, `break`, or `continue`"@
}

// ---------------------------------------------------------------------------
// Checking expressions and statements
// ---------------------------------------------------------------------------

/// The type of `e` and the state after checking it.
pub open spec fn expr_check(e: Expr, st: State, env: Env) -> (CheckedType, State)
    decreases e, 2int,
{
    match e {
        Expr::Integer(..) => (CheckedType::I32, st),
        Expr::String(..) => (CheckedType::String, st),
        Expr::InterpolatedString(..) => interpolated_string_check(e, st, env),
        Expr::Bool(..) => (CheckedType::Bool, st),
        Expr::Ident(..) => ident_check(e, st, env),
        Expr::Binary { .. } => binary_check(e, st, env),
        Expr::If { .. } => if_check(e, st, env),
        Expr::Call { .. } => call_expr_check(e, st, env),
        Expr::Field { .. } => field_check(e, st, env),
        Expr::Assert(..) => assert_check(e, st, env),
        Expr::Not(..) => not_check(e, st, env),
        Expr::Neg(..) => neg_check(e, st, env),
        Expr::StrLen(..) => str_len_check(e, st, env),
        Expr::StrEq(..) => str_eq_check(e, st, env),
        Expr::ListLen(..) => list_len_check(e, st, env),
        Expr::ListSet(..) => list_set_check(e, st, env),
        Expr::ListPush(..) => list_push_check(e, st, env),
        Expr::Lambda { .. } => lambda_check(e, st, env),
        Expr::MapList { .. } => map_list_check(e, st, env),
        Expr::Filter { .. } => filter_check(e, st, env),
        Expr::Reduce { .. } => reduce_check(e, st, env),
        Expr::RecordLiteral { .. } => record_literal_check(e, st, env),
        Expr::VariantLiteral { .. } => variant_literal_check(e, st, env),
        Expr::Match { .. } => match_check(e, st, env),
        Expr::While { .. } => while_check(e, st, env),
        Expr::Range { .. } => range_check(e, st, env),
        Expr::For { .. } => for_check(e, st, env),
        Expr::ForEach { .. } => for_each_check(e, st, env),
        Expr::ListLiteral { .. } => list_literal_check(e, st, env),
        Expr::Index { .. } => index_check(e, st, env),
        Expr::Slice { .. } => slice_check(e, st, env),
        Expr::OptionalChain { .. } => optional_chain_check(e, st, env),
        Expr::Try { .. } => try_check(e, st, env),
        Expr::Await { .. } => await_check(e, st, env),
        Expr::AtomicLoad { .. } => atomic_load_check(e, st, env),
        Expr::AtomicStore { .. } => atomic_store_check(e, st, env),
        Expr::AtomicAdd { .. } => atomic_add_check(e, st, env),
        Expr::AtomicSub { .. } => atomic_sub_check(e, st, env),
        Expr::AtomicCompareExchange { .. } => atomic_compare_exchange_check(e, st, env),
        Expr::AtomicWait { .. } => atomic_wait_check(e, st, env),
        Expr::AtomicNotify { .. } => atomic_notify_check(e, st, env),
        Expr::Spawn { .. } => spawn_check(e, st, env),
        Expr::ThreadJoin { .. } => thread_join_check(e, st, env),
        Expr::AtomicBlock { .. } => atomic_block_check(e, st, env),
        Expr::SimdOp { .. } => simd_op_check(e, st, env),
        Expr::SimdForEach { .. } => simd_for_each_check(e, st, env),
    }
}

/// Checking `InterpolatedString` expressions (see `expr_check`).
#[verifier::opaque]
pub open spec fn interpolated_string_check(e: Expr, st: State, env: Env) -> (CheckedType, State)
    decreases e, 1int,
{
    match e {
        Expr::InterpolatedString(parts, _) => {
            proof {
                vstd::std_specs::vec::axiom_vec_decreases_to_view(parts);
            }
            (CheckedType::String, parts_check(parts@, parts@.len() as int, st, env))
        },
        _ => (CheckedType::Unknown, st),
    }
}

/// Checking `Ident` expressions (see `expr_check`).
#[verifier::opaque]
pub open spec fn ident_check(e: Expr, st: State, env: Env) -> (CheckedType, State)
    decreases e, 1int,
{
    match e {
        Expr::Ident(id) => match local_type(st, id.name@) {
            Some(t) => (t, st),
            None => (
                CheckedType::Unknown,
                err(st, "Unknown variable: "@ + id.name@, id.span, DiagnosticCode::UnknownVariable),
            ),
        },
        _ => (CheckedType::Unknown, st),
    }
}

/// Checking `Binary` expressions (see `expr_check`).
#[verifier::opaque]
pub open spec fn binary_check(e: Expr, st: State, env: Env) -> (CheckedType, State)
    decreases e, 1int,
{
    match e {
        Expr::Binary { lhs, op, rhs, span } => {
            let r1 = expr_check(*lhs, st, env);
            let r2 = expr_check(*rhs, r1.1, env);
            binary_result(op, r1.0, r2.0, span, r2.1)
        },
        _ => (CheckedType::Unknown, st),
    }
}

/// Checking `If` expressions (see `expr_check`).
#[verifier::opaque]
pub open spec fn if_check(e: Expr, st: State, env: Env) -> (CheckedType, State)
    decreases e, 1int,
{
    match e {
        Expr::If { cond, then_branch, else_branch, span } => {
            proof {
                vstd::std_specs::vec::axiom_vec_decreases_to_view(then_branch);
            }
            let r1 = expr_check(*cond, st, env);
            let s2 = expect(r1.0 is Bool, r1.0, "If condition requires bool, got "@, span, r1.1);
            let saved = s2.locals;
            let r3 = tail_check(then_branch@, then_branch@.len() as int, s2, env);
            match else_branch {
                Some(es) => {
                    proof {
                        vstd::std_specs::vec::axiom_vec_decreases_to_view(es);
                    }
                    let r4 = tail_check(es@, es@.len() as int, restore(r3.1, saved), env);
                    if_result(r3.0, Some(r4.0), span, restore(r4.1, saved))
                },
                None => if_result(r3.0, None, span, restore(r3.1, saved)),
            }
        },
        _ => (CheckedType::Unknown, st),
    }
}

/// Checking `Call` expressions (see `expr_check`).
#[verifier::opaque]
pub open spec fn call_expr_check(e: Expr, st: State, env: Env) -> (CheckedType, State)
    decreases e, 1int,
{
    match e {
        Expr::Call { func, args, span } => {
            proof {
                vstd::std_specs::vec::axiom_vec_decreases_to_view(args);
            }
            let r1 = call_head(*func, st, env);
            let s2 = exprs_check(args@, args@.len() as int, r1.1, env);
            (
                r1.0,
                match *func {
                    Expr::Ident(id) => call_constraints(id, args@, span, s2, env),
                    _ => s2,
                },
            )
        },
        _ => (CheckedType::Unknown, st),
    }
}

/// Checking `Field` expressions (see `expr_check`).
#[verifier::opaque]
pub open spec fn field_check(e: Expr, st: State, env: Env) -> (CheckedType, State)
    decreases e, 1int,
{
    match e {
        Expr::Field { expr, field, span } => {
            let r1 = expr_check(*expr, st, env);
            field_result(r1.0, field, span, r1.1, env)
        },
        _ => (CheckedType::Unknown, st),
    }
}

/// Checking `Assert` expressions (see `expr_check`).
#[verifier::opaque]
pub open spec fn assert_check(e: Expr, st: State, env: Env) -> (CheckedType, State)
    decreases e, 1int,
{
    match e {
        Expr::Assert(cond, span) => {
            let r1 = expr_check(*cond, st, env);
            (
                CheckedType::Bool,
                expect(r1.0 is Bool, r1.0, "Assert requires bool condition, got "@, span, r1.1),
            )
        },
        _ => (CheckedType::Unknown, st),
    }
}

/// Checking `Not` expressions (see `expr_check`).
#[verifier::opaque]
pub open spec fn not_check(e: Expr, st: State, env: Env) -> (CheckedType, State)
    decreases e, 1int,
{
    match e {
        Expr::Not(inner, span) => {
            let r1 = expr_check(*inner, st, env);
            (CheckedType::Bool, expect(r1.0 is Bool, r1.0, "Negation requires bool, got "@, span, r1.1))
        },
        _ => (CheckedType::Unknown, st),
    }
}

/// Checking `Neg` expressions (see `expr_check`).
#[verifier::opaque]
pub open spec fn neg_check(e: Expr, st: State, env: Env) -> (CheckedType, State)
    decreases e, 1int,
{
    match e {
        Expr::Neg(inner, span) => {
            let r1 = expr_check(*inner, st, env);
            (
                CheckedType::I32,
                expect(numeric(r1.0), r1.0, "Unary minus requires numeric type, got "@, span, r1.1),
            )
        },
        _ => (CheckedType::Unknown, st),
    }
}

/// Checking `StrLen` expressions (see `expr_check`).
#[verifier::opaque]
pub open spec fn str_len_check(e: Expr, st: State, env: Env) -> (CheckedType, State)
    decreases e, 1int,
{
    match e {
        Expr::StrLen(inner, span) => {
            let r1 = expr_check(*inner, st, env);
            (CheckedType::I32, expect(r1.0 is String, r1.0, "str-len requires string, got "@, span, r1.1))
        },
        _ => (CheckedType::Unknown, st),
    }
}

/// Checking `StrEq` expressions (see `expr_check`).
#[verifier::opaque]
pub open spec fn str_eq_check(e: Expr, st: State, env: Env) -> (CheckedType, State)
    decreases e, 1int,
{
    match e {
        Expr::StrEq(a, b, span) => {
            let r1 = expr_check(*a, st, env);
            let r2 = expr_check(*b, r1.1, env);
            let s3 = expect(
                r1.0 is String,
                r1.0,
                "str-eq first argument requires string, got "@,
                span,
                r2.1,
            );
            (
                CheckedType::Bool,
                expect(r2.0 is String, r2.0, "str-eq second argument requires string, got "@, span, s3),
            )
        },
        _ => (CheckedType::Unknown, st),
    }
}

/// Checking `ListLen` expressions (see `expr_check`).
#[verifier::opaque]
pub open spec fn list_len_check(e: Expr, st: State, env: Env) -> (CheckedType, State)
    decreases e, 1int,
{
    match e {
        Expr::ListLen(inner, span) => {
            let r1 = expr_check(*inner, st, env);
            (CheckedType::I32, expect(r1.0 is List, r1.0, "list-len requires list, got "@, span, r1.1))
        },
        _ => (CheckedType::Unknown, st),
    }
}

/// Checking `ListSet` expressions (see `expr_check`).
#[verifier::opaque]
pub open spec fn list_set_check(e: Expr, st: State, env: Env) -> (CheckedType, State)
    decreases e, 1int,
{
    match e {
        Expr::ListSet(arr, idx, val, span) => {
            let r1 = expr_check(*arr, st, env);
            let r2 = expr_check(*idx, r1.1, env);
            let r3 = expr_check(*val, r2.1, env);
            let r4 = elem_of(r1.0, r3.1, "list-set requires list, got "@, span);
            let s5 = expect(r2.0 is I32, r2.0, "list-set index must be i32, got "@, span, r4.1);
            (r1.0, value_matches(r4.0, r3.0, "list-set"@, span, s5))
        },
        _ => (CheckedType::Unknown, st),
    }
}

/// Checking `ListPush` expressions (see `expr_check`).
#[verifier::opaque]
pub open spec fn list_push_check(e: Expr, st: State, env: Env) -> (CheckedType, State)
    decreases e, 1int,
{
    match e {
        Expr::ListPush(arr, val, span) => {
            let r1 = expr_check(*arr, st, env);
            let r2 = expr_check(*val, r1.1, env);
            let r3 = elem_of(r1.0, r2.1, "list-push requires list, got "@, span);
            (r1.0, value_matches(r3.0, r2.0, "list-push"@, span, r3.1))
        },
        _ => (CheckedType::Unknown, st),
    }
}

/// Checking `Lambda` expressions (see `expr_check`).
#[verifier::opaque]
pub open spec fn lambda_check(e: Expr, st: State, env: Env) -> (CheckedType, State)
    decreases e, 1int,
{
    match e {
        Expr::Lambda { params, body, .. } => {
            let s1 = bind_all(params@, params@.len() as int, st, CheckedType::I32);
            let r2 = expr_check(*body, s1, env);
            (CheckedType::Unknown, restore(r2.1, st.locals))
        },
        _ => (CheckedType::Unknown, st),
    }
}

/// Checking `MapList` expressions (see `expr_check`).
#[verifier::opaque]
pub open spec fn map_list_check(e: Expr, st: State, env: Env) -> (CheckedType, State)
    decreases e, 1int,
{
    match e {
        Expr::MapList { list, lambda, span } => {
            let r1 = expr_check(*list, st, env);
            let r2 = elem_of(r1.0, r1.1, "map requires a list, got "@, span);
            match *lambda {
                Expr::Lambda { params, body, .. } => {
                    let s3 = if params@.len() > 0 {
                        bind(r2.1, params@[0].name, r2.0)
                    } else {
                        r2.1
                    };
                    let r4 = expr_check(*body, s3, env);
                    (CheckedType::List(Box::new(r4.0)), restore(r4.1, r2.1.locals))
                },
                Expr::Ident(id) => (
                    CheckedType::List(Box::new(r2.0)),
                    function_variable(id, span, r2.1),
                ),
                _ => (
                    r1.0,
                    mismatch(r2.1, "map requires a lambda expression as second argument"@, span),
                ),
            }
        },
        _ => (CheckedType::Unknown, st),
    }
}

/// Checking `Filter` expressions (see `expr_check`).
#[verifier::opaque]
pub open spec fn filter_check(e: Expr, st: State, env: Env) -> (CheckedType, State)
    decreases e, 1int,
{
    match e {
        Expr::Filter { list, lambda, span } => {
            let r1 = expr_check(*list, st, env);
            let r2 = elem_of(r1.0, r1.1, "filter requires a list, got "@, span);
            match *lambda {
                Expr::Lambda { params, body, .. } => {
                    let s3 = if params@.len() > 0 {
                        bind(r2.1, params@[0].name, r2.0)
                    } else {
                        r2.1
                    };
                    let r4 = expr_check(*body, s3, env);
                    (r1.0, restore(r4.1, r2.1.locals))
                },
                Expr::Ident(id) => (r1.0, function_variable(id, span, r2.1)),
                _ => (r1.0, mismatch(r2.1, "filter requires a lambda expression"@, span)),
            }
        },
        _ => (CheckedType::Unknown, st),
    }
}

/// Checking `Reduce` expressions (see `expr_check`).
#[verifier::opaque]
pub open spec fn reduce_check(e: Expr, st: State, env: Env) -> (CheckedType, State)
    decreases e, 1int,
{
    match e {
        Expr::Reduce { list, init, lambda, span } => {
            let r1 = expr_check(*list, st, env);
            let r2 = expr_check(*init, r1.1, env);
            let r3 = elem_of(r1.0, r2.1, "reduce requires a list, got "@, span);
            match *lambda {
                Expr::Lambda { params, body, .. } => {
                    let s4 = if params@.len() >= 2 {
                        bind(bind(r3.1, params@[0].name, r2.0), params@[1].name, r3.0)
                    } else if params@.len() > 0 {
                        bind(r3.1, params@[0].name, r2.0)
                    } else {
                        r3.1
                    };
                    let r5 = expr_check(*body, s4, env);
                    (r2.0, restore(r5.1, r3.1.locals))
                },
                Expr::Ident(id) => (r2.0, function_variable(id, span, r3.1)),
                _ => (r2.0, mismatch(r3.1, "reduce requires a lambda expression with 2 params"@, span)),
            }
        },
        _ => (CheckedType::Unknown, st),
    }
}

/// Checking `RecordLiteral` expressions (see `expr_check`).
#[verifier::opaque]
pub open spec fn record_literal_check(e: Expr, st: State, env: Env) -> (CheckedType, State)
    decreases e, 1int,
{
    match e {
        Expr::RecordLiteral { ty_name, fields, span } => {
            proof {
                vstd::std_specs::vec::axiom_vec_decreases_to_view(fields);
            }
            let s1 = fields_check(fields@, fields@.len() as int, st, env);
            match ty_name {
                Some(tid) => match kind_of(env, tid.name@) {
                    Some(TypeKind::Record { fields: ef }) => (
                        CheckedType::Named(tid.name),
                        field_names_check(fields@, fields@.len() as int, ef@, tid.name@, span, s1),
                    ),
                    Some(_) => (
                        CheckedType::Named(tid.name),
                        mismatch(s1, "Type '"@ + tid.name@ + "' is not a record"@, span),
                    ),
                    None => (
                        CheckedType::Unknown,
                        err(s1, "Unknown type: "@ + tid.name@, span, DiagnosticCode::UnknownType),
                    ),
                },
                None => (CheckedType::Unknown, s1),
            }
        },
        _ => (CheckedType::Unknown, st),
    }
}

/// Checking `VariantLiteral` expressions (see `expr_check`).
#[verifier::opaque]
pub open spec fn variant_literal_check(e: Expr, st: State, env: Env) -> (CheckedType, State)
    decreases e, 1int,
{
    match e {
        Expr::VariantLiteral { ty_name, case_name, payload, span } => {
            let s1 = match payload {
                Some(p) => expr_check(*p, st, env).1,
                None => st,
            };
            match ty_name {
                Some(tid) => variant_result(tid, case_name, payload is Some, span, s1, env),
                None => (CheckedType::Unknown, s1),
            }
        },
        _ => (CheckedType::Unknown, st),
    }
}

/// Checking `Match` expressions (see `expr_check`).
#[verifier::opaque]
pub open spec fn match_check(e: Expr, st: State, env: Env) -> (CheckedType, State)
    decreases e, 1int,
{
    match e {
        Expr::Match { scrutinee, arms, .. } => {
            proof {
                vstd::std_specs::vec::axiom_vec_decreases_to_view(arms);
            }
            let r1 = expr_check(*scrutinee, st, env);
            let r2 = arms_check(arms@, arms@.len() as int, r1.1, env);
            (
                match r2.0 {
                    Some(t) => t,
                    None => CheckedType::Unknown,
                },
                r2.1,
            )
        },
        _ => (CheckedType::Unknown, st),
    }
}

/// Checking `While` expressions (see `expr_check`).
#[verifier::opaque]
pub open spec fn while_check(e: Expr, st: State, env: Env) -> (CheckedType, State)
    decreases e, 1int,
{
    match e {
        Expr::While { condition, body, .. } => {
            proof {
                vstd::std_specs::vec::axiom_vec_decreases_to_view(body);
            }
            let r1 = expr_check(*condition, st, env);
            let s2 = expect(r1.0 is Bool, r1.0, "While condition must be bool, got "@, no_span(), r1.1);
            (CheckedType::Unknown, in_loop(body@, s2, s2, env))
        },
        _ => (CheckedType::Unknown, st),
    }
}

/// Checking `Range` expressions (see `expr_check`).
#[verifier::opaque]
pub open spec fn range_check(e: Expr, st: State, env: Env) -> (CheckedType, State)
    decreases e, 1int,
{
    match e {
        Expr::Range { start, end, .. } => {
            let r1 = expr_check(*start, st, env);
            let r2 = expr_check(*end, r1.1, env);
            let s3 = expect(numeric(r1.0), r1.0, "Range start must be integer, got "@, no_span(), r2.1);
            (
                CheckedType::Unknown,
                expect(numeric(r2.0), r2.0, "Range end must be integer, got "@, no_span(), s3),
            )
        },
        _ => (CheckedType::Unknown, st),
    }
}

/// Checking `For` expressions (see `expr_check`).
#[verifier::opaque]
pub open spec fn for_check(e: Expr, st: State, env: Env) -> (CheckedType, State)
    decreases e, 1int,
{
    match e {
        Expr::For { variable, range, body, .. } => {
            proof {
                vstd::std_specs::vec::axiom_vec_decreases_to_view(body);
            }
            let r1 = expr_check(*range, st, env);
            (
                CheckedType::Unknown,
                in_loop(body@, bind(r1.1, variable.name, CheckedType::I32), r1.1, env),
            )
        },
        _ => (CheckedType::Unknown, st),
    }
}

/// Checking `ForEach` expressions (see `expr_check`).
#[verifier::opaque]
pub open spec fn for_each_check(e: Expr, st: State, env: Env) -> (CheckedType, State)
    decreases e, 1int,
{
    match e {
        Expr::ForEach { variable, collection, body, span } => {
            proof {
                vstd::std_specs::vec::axiom_vec_decreases_to_view(body);
            }
            let r1 = expr_check(*collection, st, env);
            let r2 = elem_of(r1.0, r1.1, "for-each requires list, got "@, span);
            (CheckedType::Unknown, in_loop(body@, bind(r2.1, variable.name, r2.0), r2.1, env))
        },
        _ => (CheckedType::Unknown, st),
    }
}

/// Checking `ListLiteral` expressions (see `expr_check`).
#[verifier::opaque]
pub open spec fn list_literal_check(e: Expr, st: State, env: Env) -> (CheckedType, State)
    decreases e, 1int,
{
    match e {
        Expr::ListLiteral { elements, span } => {
            proof {
                vstd::std_specs::vec::axiom_vec_decreases_to_view(elements);
            }
            if elements@.len() == 0 {
                (CheckedType::List(Box::new(CheckedType::Unknown)), st)
            } else {
                let r1 = expr_check(elements@[0], st, env);
                (
                    CheckedType::List(Box::new(r1.0)),
                    items_check(elements@, elements@.len() as int, r1.0, span, r1.1, env),
                )
            }
        },
        _ => (CheckedType::Unknown, st),
    }
}

/// Checking `Index` expressions (see `expr_check`).
#[verifier::opaque]
pub open spec fn index_check(e: Expr, st: State, env: Env) -> (CheckedType, State)
    decreases e, 1int,
{
    match e {
        Expr::Index { expr, index, span } => {
            let r1 = expr_check(*expr, st, env);
            let r2 = expr_check(*index, r1.1, env);
            let s3 = expect(numeric(r2.0), r2.0, "List index must be integer, got "@, span, r2.1);
            match r1.0 {
                CheckedType::List(el) => (*el, s3),
                CheckedType::Unknown => (CheckedType::Unknown, s3),
                _ => (
                    CheckedType::Unknown,
                    mismatch(s3, "Cannot index into non-list type "@ + checked_debug(r1.0), span),
                ),
            }
        },
        _ => (CheckedType::Unknown, st),
    }
}

/// Checking `Slice` expressions (see `expr_check`).
#[verifier::opaque]
pub open spec fn slice_check(e: Expr, st: State, env: Env) -> (CheckedType, State)
    decreases e, 1int,
{
    match e {
        Expr::Slice { expr, start, end, span } => {
            let r1 = expr_check(*expr, st, env);
            let r2 = expr_check(*start, r1.1, env);
            let r3 = expr_check(*end, r2.1, env);
            let s4 = expect(numeric(r2.0), r2.0, "Slice start must be integer, got "@, span, r3.1);
            let s5 = expect(numeric(r3.0), r3.0, "Slice end must be integer, got "@, span, s4);
            match r1.0 {
                CheckedType::List(_) => (r1.0, s5),
                CheckedType::Unknown => (CheckedType::Unknown, s5),
                _ => (
                    CheckedType::Unknown,
                    mismatch(s5, "Cannot slice non-list type "@ + checked_debug(r1.0), span),
                ),
            }
        },
        _ => (CheckedType::Unknown, st),
    }
}

/// Checking `OptionalChain` expressions (see `expr_check`).
#[verifier::opaque]
pub open spec fn optional_chain_check(e: Expr, st: State, env: Env) -> (CheckedType, State)
    decreases e, 1int,
{
    match e {
        Expr::OptionalChain { expr, field, .. } => {
            let r1 = expr_check(*expr, st, env);
            optional_chain_result(r1.0, field, r1.1, env)
        },
        _ => (CheckedType::Unknown, st),
    }
}

/// Checking `Try` expressions (see `expr_check`).
#[verifier::opaque]
pub open spec fn try_check(e: Expr, st: State, env: Env) -> (CheckedType, State)
    decreases e, 1int,
{
    match e {
        Expr::Try { expr, span } => {
            let r1 = expr_check(*expr, st, env);
            match r1.0 {
                CheckedType::Option(i) => (*i, r1.1),
                CheckedType::Result { ok, .. } => (
                    match ok {
                        Some(i) => *i,
                        None => CheckedType::Unknown,
                    },
                    r1.1,
                ),
                CheckedType::Unknown => (CheckedType::Unknown, r1.1),
                _ => (
                    CheckedType::Unknown,
                    mismatch(r1.1, "Try operator requires option or result value"@, span),
                ),
            }
        },
        _ => (CheckedType::Unknown, st),
    }
}

/// Checking `Await` expressions (see `expr_check`).
#[verifier::opaque]
pub open spec fn await_check(e: Expr, st: State, env: Env) -> (CheckedType, State)
    decreases e, 1int,
{
    match e {
        Expr::Await { expr, span } => {
            let r1 = expr_check(*expr, st, env);
            match r1.0 {
                CheckedType::Future(f) => match f {
                    Some(i) => (*i, r1.1),
                    None => (CheckedType::Unknown, r1.1),
                },
                CheckedType::Unknown => (CheckedType::Unknown, r1.1),
                _ => (CheckedType::Unknown, mismatch(r1.1, "await requires future value"@, span)),
            }
        },
        _ => (CheckedType::Unknown, st),
    }
}

/// Checking `AtomicLoad` expressions (see `expr_check`).
#[verifier::opaque]
pub open spec fn atomic_load_check(e: Expr, st: State, env: Env) -> (CheckedType, State)
    decreases e, 1int,
{
    match e {
        Expr::AtomicLoad { addr, .. } => (CheckedType::I32, expr_check(*addr, st, env).1),
        _ => (CheckedType::Unknown, st),
    }
}

/// Checking `AtomicStore` expressions (see `expr_check`).
#[verifier::opaque]
pub open spec fn atomic_store_check(e: Expr, st: State, env: Env) -> (CheckedType, State)
    decreases e, 1int,
{
    match e {
        Expr::AtomicStore { addr, value, .. } => {
            let r1 = expr_check(*addr, st, env);
            (CheckedType::Unknown, expr_check(*value, r1.1, env).1)
        },
        _ => (CheckedType::Unknown, st),
    }
}

/// Checking `AtomicAdd` expressions (see `expr_check`).
#[verifier::opaque]
pub open spec fn atomic_add_check(e: Expr, st: State, env: Env) -> (CheckedType, State)
    decreases e, 1int,
{
    match e {
        Expr::AtomicAdd { addr, value, .. } => {
            let r1 = expr_check(*addr, st, env);
            (CheckedType::I32, expr_check(*value, r1.1, env).1)
        },
        _ => (CheckedType::Unknown, st),
    }
}

/// Checking `AtomicSub` expressions (see `expr_check`).
#[verifier::opaque]
pub open spec fn atomic_sub_check(e: Expr, st: State, env: Env) -> (CheckedType, State)
    decreases e, 1int,
{
    match e {
        Expr::AtomicSub { addr, value, .. } => {
            let r1 = expr_check(*addr, st, env);
            (CheckedType::I32, expr_check(*value, r1.1, env).1)
        },
        _ => (CheckedType::Unknown, st),
    }
}

/// Checking `AtomicCompareExchange` expressions (see `expr_check`).
#[verifier::opaque]
pub open spec fn atomic_compare_exchange_check(e: Expr, st: State, env: Env) -> (CheckedType, State)
    decreases e, 1int,
{
    match e {
        Expr::AtomicCompareExchange { addr, expected, replacement, .. } => {
            let r1 = expr_check(*addr, st, env);
            let r2 = expr_check(*expected, r1.1, env);
            (CheckedType::I32, expr_check(*replacement, r2.1, env).1)
        },
        _ => (CheckedType::Unknown, st),
    }
}

/// Checking `AtomicWait` expressions (see `expr_check`).
#[verifier::opaque]
pub open spec fn atomic_wait_check(e: Expr, st: State, env: Env) -> (CheckedType, State)
    decreases e, 1int,
{
    match e {
        Expr::AtomicWait { addr, expected, timeout, .. } => {
            let r1 = expr_check(*addr, st, env);
            let r2 = expr_check(*expected, r1.1, env);
            (CheckedType::I32, expr_check(*timeout, r2.1, env).1)
        },
        _ => (CheckedType::Unknown, st),
    }
}

/// Checking `AtomicNotify` expressions (see `expr_check`).
#[verifier::opaque]
pub open spec fn atomic_notify_check(e: Expr, st: State, env: Env) -> (CheckedType, State)
    decreases e, 1int,
{
    match e {
        Expr::AtomicNotify { addr, count, .. } => {
            let r1 = expr_check(*addr, st, env);
            (CheckedType::I32, expr_check(*count, r1.1, env).1)
        },
        _ => (CheckedType::Unknown, st),
    }
}

/// Checking `Spawn` expressions (see `expr_check`).
#[verifier::opaque]
pub open spec fn spawn_check(e: Expr, st: State, env: Env) -> (CheckedType, State)
    decreases e, 1int,
{
    match e {
        Expr::Spawn { body, .. } => {
            proof {
                vstd::std_specs::vec::axiom_vec_decreases_to_view(body);
            }
            (CheckedType::ThreadId, block_check(body@, body@.len() as int, st, env))
        },
        _ => (CheckedType::Unknown, st),
    }
}

/// Checking `ThreadJoin` expressions (see `expr_check`).
#[verifier::opaque]
pub open spec fn thread_join_check(e: Expr, st: State, env: Env) -> (CheckedType, State)
    decreases e, 1int,
{
    match e {
        Expr::ThreadJoin { tid, span } => {
            let r1 = expr_check(*tid, st, env);
            (
                CheckedType::I32,
                if !(r1.0 is ThreadId) {
                    mismatch(r1.1, "thread.join requires a thread-id, got "@ + checked_debug(r1.0), span)
                } else {
                    r1.1
                },
            )
        },
        _ => (CheckedType::Unknown, st),
    }
}

/// Checking `AtomicBlock` expressions (see `expr_check`).
#[verifier::opaque]
pub open spec fn atomic_block_check(e: Expr, st: State, env: Env) -> (CheckedType, State)
    decreases e, 1int,
{
    match e {
        Expr::AtomicBlock { body, .. } => {
            proof {
                vstd::std_specs::vec::axiom_vec_decreases_to_view(body);
            }
            (CheckedType::I32, block_check(body@, body@.len() as int, st, env))
        },
        _ => (CheckedType::Unknown, st),
    }
}

/// Checking `SimdOp` expressions (see `expr_check`).
#[verifier::opaque]
pub open spec fn simd_op_check(e: Expr, st: State, env: Env) -> (CheckedType, State)
    decreases e, 1int,
{
    match e {
        Expr::SimdOp { op, args, .. } => {
            proof {
                vstd::std_specs::vec::axiom_vec_decreases_to_view(args);
            }
            (
                match op {
                    SimdOp::Vector => CheckedType::V128,
                    _ => CheckedType::I32,
                },
                exprs_check(args@, args@.len() as int, st, env),
            )
        },
        _ => (CheckedType::Unknown, st),
    }
}

/// Checking `SimdForEach` expressions (see `expr_check`).
#[verifier::opaque]
pub open spec fn simd_for_each_check(e: Expr, st: State, env: Env) -> (CheckedType, State)
    decreases e, 1int,
{
    match e {
        Expr::SimdForEach { variable, collection, body, .. } => {
            proof {
                vstd::std_specs::vec::axiom_vec_decreases_to_view(body);
            }
            let r1 = expr_check(*collection, st, env);
            (
                CheckedType::Unknown,
                in_loop(body@, bind(r1.1, variable.name, CheckedType::V128), r1.1, env),
            )
        },
        _ => (CheckedType::Unknown, st),
    }
}

/// An error unless the element type and the value type agree (or either
/// is unknown).
pub open spec fn value_matches(
    elem: CheckedType,
    val: CheckedType,
    what: Seq<char>,
    span: Span,
    st: State,
) -> State {
    if !(elem is Unknown) && !(val is Unknown) && !same_checked(elem, val) {
        mismatch(
            st,
            what + " value type "@ + checked_debug(val) + " doesn't match element type "@
                + checked_debug(elem),
            span,
        )
    } else {
        st
    }
}

/// An error unless a function variable is in scope.
pub open spec fn function_variable(id: Id, span: Span, st: State) -> State {
    if local_type(st, id.name@) is None {
        mismatch(st, "unknown function variable: "@ + id.name@, span)
    } else {
        st
    }
}

/// The type of `?.field` on a value of type `t`.
pub open spec fn optional_chain_result(t: CheckedType, field: Id, st: State, env: Env) -> (
    CheckedType,
    State,
) {
    match t {
        CheckedType::Option(inner) => match *inner {
            CheckedType::Named(tn) => match kind_of(env, tn@) {
                Some(TypeKind::Record { fields }) => if fields@.contains_key(field.name@) {
                    (CheckedType::Option(Box::new(checked_of(fields@[field.name@]))), st)
                } else {
                    (
                        CheckedType::Unknown,
                        err(
                            st,
                            "Record type '"@ + tn@ + "' has no field '"@ + field.name@ + "'"@,
                            field.span,
                            DiagnosticCode::UnknownVariable,
                        ),
                    )
                },
                _ => (CheckedType::Unknown, st),
            },
            _ => (CheckedType::Unknown, st),
        },
        CheckedType::Unknown => (CheckedType::Unknown, st),
        _ => (
            CheckedType::Unknown,
            mismatch(st, "Optional chaining requires option value"@, field.span),
        ),
    }
}

/// The callee's return type, and the state after checking the callee.
pub open spec fn call_head(f: Expr, st: State, env: Env) -> (CheckedType, State)
    decreases f, 3int,
{
    match f {
        Expr::Ident(id) => match local_type(st, id.name@) {
            Some(t) => (t, st),
            None => {
                let missing = (
                    CheckedType::Unknown,
                    err(st, "Unknown variable: "@ + id.name@, id.span, DiagnosticCode::UnknownVariable),
                );
                match env.current_interface {
                    Some(iname) => match iface_return(env, iname, id.name@) {
                        Some(t) => (t, st),
                        None => missing,
                    },
                    None => missing,
                }
            },
        },
        Expr::Field { expr, field, .. } => {
            let r = expr_check(f, st, env);
            (
                match *expr {
                    Expr::Ident(iid) => match iface_return(env, iid.name@, field.name@) {
                        Some(t) => t,
                        None => CheckedType::Unknown,
                    },
                    _ => CheckedType::Unknown,
                },
                r.1,
            )
        },
        _ => (CheckedType::Unknown, expr_check(f, st, env).1),
    }
}

/// A loop body checked one level deeper, in the scope `inner`; afterwards
/// the scope and the depth of `outer` are back.
pub open spec fn in_loop(body: Seq<Statement>, inner: State, outer: State, env: Env) -> State
    decreases body, body.len() + 1,
{
    let s = block_check(body, body.len() as int, deepen(inner, 1), env);
    State { locals: outer.locals, loop_depth: outer.loop_depth, ..s }
}

/// The state after checking the first `k` expressions (their types unused).
pub open spec fn exprs_check(es: Seq<Expr>, k: int, st: State, env: Env) -> State
    decreases es, k,
{
    if k <= 0 || k > es.len() {
        st
    } else {
        expr_check(es[k - 1], exprs_check(es, k - 1, st, env), env).1
    }
}

/// The state after checking the expressions among the first `k` parts.
pub open spec fn parts_check(ps: Seq<StringPart>, k: int, st: State, env: Env) -> State
    decreases ps, k,
{
    if k <= 0 || k > ps.len() {
        st
    } else {
        let s1 = parts_check(ps, k - 1, st, env);
        match ps[k - 1] {
            StringPart::Expr(e) => expr_check(e, s1, env).1,
            StringPart::Literal(_) => s1,
        }
    }
}

/// The state after checking the values of the first `k` fields.
pub open spec fn fields_check(fs: Seq<(Id, Expr)>, k: int, st: State, env: Env) -> State
    decreases fs, k,
{
    if k <= 0 || k > fs.len() {
        st
    } else {
        expr_check(fs[k - 1].1, fields_check(fs, k - 1, st, env), env).1
    }
}

/// The state after checking list elements `1..k` against the first
/// element's type `first`.
pub open spec fn items_check(es: Seq<Expr>, k: int, first: CheckedType, span: Span, st: State, env: Env) -> State
    decreases es, k,
{
    if k <= 1 || k > es.len() {
        st
    } else {
        let s1 = items_check(es, k - 1, first, span, st, env);
        let r = expr_check(es[k - 1], s1, env);
        if !same_checked(r.0, first) && !(r.0 is Unknown) && !(first is Unknown) {
            mismatch(
                r.1,
                "List element "@ + decimal((k - 1) as nat) + " has type "@ + checked_debug(r.0)
                    + ", expected "@ + checked_debug(first),
                span,
            )
        } else {
            r.1
        }
    }
}

/// The arms' common type and the state after checking the first `k` arms.
pub open spec fn arms_check(arms: Seq<MatchArm>, k: int, st: State, env: Env) -> (
    Option<CheckedType>,
    State,
)
    decreases arms, k,
{
    if k <= 0 || k > arms.len() {
        (None, st)
    } else {
        let prev = arms_check(arms, k - 1, st, env);
        let r = arm_check(arms[k - 1], prev.1, env);
        (merge_arm(prev.0, r.0), r.1)
    }
}

/// The type of an arm's body, and the state after it (the scope after the
/// pattern's binding).
pub open spec fn arm_check(arm: MatchArm, st: State, env: Env) -> (CheckedType, State)
    decreases arm, 0int,
{
    proof {
        vstd::std_specs::vec::axiom_vec_decreases_to_view(arm.body);
    }
    let s1 = pattern_check(arm.pattern, st, env);
    let r = tail_check(arm.body@, arm.body@.len() as int, s1, env);
    (r.0, restore(r.1, s1.locals))
}

/// The state after checking the first `k` statements.
pub open spec fn block_check(ss: Seq<Statement>, k: int, st: State, env: Env) -> State
    decreases ss, k,
{
    if k <= 0 || k > ss.len() {
        st
    } else {
        stmt_check(ss[k - 1], block_check(ss, k - 1, st, env), env)
    }
}

/// The block's value type so far and the state after checking the first
/// `k` statements: the value of a `return`, or of a final expression.
pub open spec fn tail_check(ss: Seq<Statement>, k: int, st: State, env: Env) -> (CheckedType, State)
    decreases ss, k,
{
    if k <= 0 || k > ss.len() {
        (CheckedType::Unknown, st)
    } else {
        let prev = tail_check(ss, k - 1, st, env);
        match ss[k - 1] {
            Statement::Return(r) => match r {
                Some(e) => expr_check(e, prev.1, env),
                None => (CheckedType::Unknown, prev.1),
            },
            Statement::Expr(e) => if k == ss.len() {
                expr_check(e, prev.1, env)
            } else {
                (prev.0, expr_check(e, prev.1, env).1)
            },
            _ => (prev.0, stmt_check(ss[k - 1], prev.1, env)),
        }
    }
}

/// The state after checking a guard's else block: the scope is back, and
/// an error is added if the block does not leave the scope.
pub open spec fn guard_else(body: Seq<Statement>, span: Span, msg: Seq<char>, st: State, env: Env) -> State
    decreases body, body.len() + 1,
{
    let s1 = block_check(body, body.len() as int, st, env);
    let s2 = restore(s1, st.locals);
    if !block_exits(body, s2.loop_depth) {
        err(s2, msg, span, DiagnosticCode::InvalidUse)
    } else {
        s2
    }
}

/// The state after checking a statement.
pub open spec fn stmt_check(s: Statement, st: State, env: Env) -> State
    decreases s, 0int,
{
    match s {
        Statement::Let { name, value } => {
            let r = expr_check(value, st, env);
            let s1 = bind(r.1, name.name, r.0);
            let cv = cexpr(value);
            let lookup = const_lookup(s1.constants);
            State {
                constants: match value_of(cv, lookup, true) {
                    Some(x) => s1.constants.insert(name.name@, x as i64),
                    None => s1.constants,
                },
                ok: s1.ok && no_overflow(cv, lookup, true),
                ..s1
            }
        },
        Statement::Return(r) => match r {
            Some(e) => expr_check(e, st, env).1,
            None => st,
        },
        Statement::Expr(e) => expr_check(e, st, env).1,
        Statement::Assign { name, value } => expr_check(value, assignable(name, st), env).1,
        Statement::CompoundAssign { name, value, .. } => expr_check(value, assignable(name, st), env).1,
        Statement::Break { condition } => loop_exit("`break` can only appear inside a loop"@, condition, st, env),
        Statement::Continue { condition } => loop_exit(
            "`continue` can only appear inside a loop"@,
            condition,
            st,
            env,
        ),
        Statement::SharedLet { name, initial_value } => {
            let r = expr_check(initial_value, st, env);
            bind(r.1, name.name, CheckedType::Shared)
        },
        Statement::GuardLet { name, value, else_body } => {
            proof {
                vstd::std_specs::vec::axiom_vec_decreases_to_view(else_body);
            }
            let r = expr_check(value, State { in_guard_let: true, ..st }, env);
            let s1 = State { in_guard_let: false, ..r.1 };
            let g = guard_binding(r.0, expr_span(value), s1);
            let s2 = guard_else(else_body@, name.span, guard_let_exit_message(), g.1, env);
            bind(s2, name.name, g.0)
        },
        Statement::Guard { condition, else_body } => {
            proof {
                vstd::std_specs::vec::axiom_vec_decreases_to_view(else_body);
            }
            let r = expr_check(condition, st, env);
            let s1 = expect(
                r.0 is Bool,
                r.0,
                "Guard condition requires bool, got "@,
                expr_span(condition),
                r.1,
            );
            guard_else(else_body@, expr_span(condition), guard_exit_message(), s1, env)
        },
    }
}

/// An error unless the assigned variable is in scope.
pub open spec fn assignable(name: Id, st: State) -> State {
    if local_type(st, name.name@) is None {
        err(
            st,
            "Cannot assign to undefined variable: "@ + name.name@,
            name.span,
            DiagnosticCode::UnknownVariable,
        )
    } else {
        st
    }
}

/// A `break` or `continue`: its condition checked, and an error outside a
/// loop.
pub open spec fn loop_exit(msg: Seq<char>, condition: Option<Box<Expr>>, st: State, env: Env) -> State
    decreases condition, 0int,
{
    let s1 = match condition {
        Some(c) => expr_check(*c, st, env).1,
        None => st,
    };
    if s1.loop_depth == 0 {
        err(
            s1,
            msg,
            match condition {
                Some(c) => expr_span(*c),
                None => no_span(),
            },
            DiagnosticCode::InvalidUse,
        )
    } else {
        s1
    }
}


// ---------------------------------------------------------------------------
// Once out of range, always out of range; diagnostics are only appended
// ---------------------------------------------------------------------------

/// `b` starts with all of `a`, in order.
pub open spec fn grows(a: Seq<DiagView>, b: Seq<DiagView>) -> bool {
    &&& a.len() <= b.len()
    &&& forall|i: int| 0 <= i < a.len() ==> #[trigger] b[i] == a[i]
}

/// `b` keeps the diagnostics of `a` as its first ones and has its loop
/// depth.
pub open spec fn extends(a: State, b: State) -> bool {
    &&& grows(a.diags, b.diags)
    &&& b.loop_depth == a.loop_depth
}

/// Checking an expression only appends diagnostics: those found before it
/// stay, in the same order, and the loop depth is as it was.
pub proof fn check_expr_only_appends(e: Expr, st: State, env: Env)
    ensures
        st.diags.is_prefix_of(expr_check(e, st, env).1.diags),
        expr_check(e, st, env).1.loop_depth == st.loop_depth,
{
    lemma_expr_ok(e, st, env);
    let d = expr_check(e, st, env).1.diags;
    assert(st.diags =~= d.subrange(0, st.diags.len() as int));
}

pub proof fn lemma_bind_all_ok(ps: Seq<Id>, k: int, st: State, t: CheckedType)
    ensures
        bind_all(ps, k, st, t).ok == st.ok,
        bind_all(ps, k, st, t).diags == st.diags,
        bind_all(ps, k, st, t).constants == st.constants,
        bind_all(ps, k, st, t).loop_depth == st.loop_depth,
        bind_all(ps, k, st, t).in_guard_let == st.in_guard_let,
    decreases k,
{
    if k > 0 && k <= ps.len() {
        lemma_bind_all_ok(ps, k - 1, st, t);
    }
}

pub proof fn lemma_field_names_ok(
    fs: Seq<(Id, Expr)>,
    k: int,
    expected: Map<Seq<char>, crate::types::Ty>,
    name: Seq<char>,
    span: Span,
    st: State,
)
    ensures
        field_names_check(fs, k, expected, name, span, st).ok == st.ok,
        field_names_check(fs, k, expected, name, span, st).locals == st.locals,
        field_names_check(fs, k, expected, name, span, st).constants == st.constants,
        field_names_check(fs, k, expected, name, span, st).loop_depth == st.loop_depth,
        field_names_check(fs, k, expected, name, span, st).in_guard_let == st.in_guard_let,
        extends(st, field_names_check(fs, k, expected, name, span, st)),
    decreases k,
{
    if k > 0 && k <= fs.len() {
        lemma_field_names_ok(fs, k - 1, expected, name, span, st);
    }
}

#[verifier::spinoff_prover]
#[verifier::rlimit(100)]
pub proof fn lemma_expr_ok(e: Expr, st: State, env: Env)
    ensures
        expr_check(e, st, env).1.ok ==> st.ok,
        extends(st, expr_check(e, st, env).1),
    decreases e, 2int,
{
    match e {
        Expr::InterpolatedString(parts, _) => {
            reveal(interpolated_string_check);
            vstd::std_specs::vec::axiom_vec_decreases_to_view(parts);
            lemma_parts_ok(parts@, parts@.len() as int, st, env);
        },
        Expr::Ident(_) => {
            reveal(ident_check);
        },
        Expr::Binary { lhs, rhs, .. } => {
            reveal(binary_check);
            let r1 = expr_check(*lhs, st, env);
            lemma_expr_ok(*lhs, st, env);
            lemma_expr_ok(*rhs, r1.1, env);
        },
        Expr::If { cond, then_branch, else_branch, span } => {
            reveal(if_check);
            vstd::std_specs::vec::axiom_vec_decreases_to_view(then_branch);
            let r1 = expr_check(*cond, st, env);
            lemma_expr_ok(*cond, st, env);
            let s2 = expect(r1.0 is Bool, r1.0, "If condition requires bool, got "@, span, r1.1);
            let r3 = tail_check(then_branch@, then_branch@.len() as int, s2, env);
            lemma_tail_ok(then_branch@, then_branch@.len() as int, s2, env);
            match else_branch {
                Some(es) => {
                    vstd::std_specs::vec::axiom_vec_decreases_to_view(es);
                    lemma_tail_ok(es@, es@.len() as int, restore(r3.1, s2.locals), env);
                },
                None => {},
            }
        },
        Expr::Call { func, args, .. } => {
            reveal(call_expr_check);
            vstd::std_specs::vec::axiom_vec_decreases_to_view(args);
            let r1 = call_head(*func, st, env);
            lemma_call_head_ok(*func, st, env);
            lemma_exprs_ok(args@, args@.len() as int, r1.1, env);
        },
        Expr::Field { expr, .. } => {
            reveal(field_check);
            lemma_expr_ok(*expr, st, env);
        },
        Expr::Assert(inner, _) => {
            reveal(assert_check);
            lemma_expr_ok(*inner, st, env);
        },
        Expr::Not(inner, _) => {
            reveal(not_check);
            lemma_expr_ok(*inner, st, env);
        },
        Expr::Neg(inner, _) => {
            reveal(neg_check);
            lemma_expr_ok(*inner, st, env);
        },
        Expr::StrLen(inner, _) => {
            reveal(str_len_check);
            lemma_expr_ok(*inner, st, env);
        },
        Expr::StrEq(a, b, _) => {
            reveal(str_eq_check);
            lemma_expr_ok(*a, st, env);
            lemma_expr_ok(*b, expr_check(*a, st, env).1, env);
        },
        Expr::ListLen(inner, _) => {
            reveal(list_len_check);
            lemma_expr_ok(*inner, st, env);
        },
        Expr::ListSet(arr, idx, val, _) => {
            reveal(list_set_check);
            let r1 = expr_check(*arr, st, env);
            let r2 = expr_check(*idx, r1.1, env);
            lemma_expr_ok(*arr, st, env);
            lemma_expr_ok(*idx, r1.1, env);
            lemma_expr_ok(*val, r2.1, env);
        },
        Expr::ListPush(arr, val, _) => {
            reveal(list_push_check);
            lemma_expr_ok(*arr, st, env);
            lemma_expr_ok(*val, expr_check(*arr, st, env).1, env);
        },
        Expr::Lambda { params, body, .. } => {
            reveal(lambda_check);
            let s1 = bind_all(params@, params@.len() as int, st, CheckedType::I32);
            lemma_bind_all_ok(params@, params@.len() as int, st, CheckedType::I32);
            lemma_expr_ok(*body, s1, env);
        },
        Expr::MapList { list, lambda, span } => {
            reveal(map_list_check);
            let r1 = expr_check(*list, st, env);
            lemma_expr_ok(*list, st, env);
            let r2 = elem_of(r1.0, r1.1, "map requires a list, got "@, span);
            match *lambda {
                Expr::Lambda { params, body, .. } => {
                    let s3 = if params@.len() > 0 {
                        bind(r2.1, params@[0].name, r2.0)
                    } else {
                        r2.1
                    };
                    lemma_expr_ok(*body, s3, env);
                },
                _ => {},
            }
        },
        Expr::Filter { list, lambda, span } => {
            reveal(filter_check);
            let r1 = expr_check(*list, st, env);
            lemma_expr_ok(*list, st, env);
            let r2 = elem_of(r1.0, r1.1, "filter requires a list, got "@, span);
            match *lambda {
                Expr::Lambda { params, body, .. } => {
                    let s3 = if params@.len() > 0 {
                        bind(r2.1, params@[0].name, r2.0)
                    } else {
                        r2.1
                    };
                    lemma_expr_ok(*body, s3, env);
                },
                _ => {},
            }
        },
        Expr::Reduce { list, init, lambda, span } => {
            reveal(reduce_check);
            let r1 = expr_check(*list, st, env);
            lemma_expr_ok(*list, st, env);
            let r2 = expr_check(*init, r1.1, env);
            lemma_expr_ok(*init, r1.1, env);
            let r3 = elem_of(r1.0, r2.1, "reduce requires a list, got "@, span);
            match *lambda {
                Expr::Lambda { params, body, .. } => {
                    let s4 = if params@.len() >= 2 {
                        bind(bind(r3.1, params@[0].name, r2.0), params@[1].name, r3.0)
                    } else if params@.len() > 0 {
                        bind(r3.1, params@[0].name, r2.0)
                    } else {
                        r3.1
                    };
                    lemma_expr_ok(*body, s4, env);
                },
                _ => {},
            }
        },
        Expr::RecordLiteral { ty_name, fields, span } => {
            reveal(record_literal_check);
            vstd::std_specs::vec::axiom_vec_decreases_to_view(fields);
            let s1 = fields_check(fields@, fields@.len() as int, st, env);
            lemma_fields_ok(fields@, fields@.len() as int, st, env);
            match ty_name {
                Some(tid) => match kind_of(env, tid.name@) {
                    Some(TypeKind::Record { fields: ef }) => {
                        lemma_field_names_ok(fields@, fields@.len() as int, ef@, tid.name@, span, s1);
                    },
                    _ => {},
                },
                None => {},
            }
        },
        Expr::VariantLiteral { payload, .. } => {
            reveal(variant_literal_check);
            match payload {
                Some(p) => {
                    lemma_expr_ok(*p, st, env);
                },
                None => {},
            }
        },
        Expr::Match { scrutinee, arms, .. } => {
            reveal(match_check);
            vstd::std_specs::vec::axiom_vec_decreases_to_view(arms);
            lemma_expr_ok(*scrutinee, st, env);
            lemma_arms_ok(arms@, arms@.len() as int, expr_check(*scrutinee, st, env).1, env);
        },
        Expr::While { condition, body, .. } => {
            reveal(while_check);
            vstd::std_specs::vec::axiom_vec_decreases_to_view(body);
            let r1 = expr_check(*condition, st, env);
            lemma_expr_ok(*condition, st, env);
            let s2 = expect(r1.0 is Bool, r1.0, "While condition must be bool, got "@, no_span(), r1.1);
            lemma_in_loop_ok(body@, s2, s2, env);
        },
        Expr::Range { start, end, .. } => {
            reveal(range_check);
            lemma_expr_ok(*start, st, env);
            lemma_expr_ok(*end, expr_check(*start, st, env).1, env);
        },
        Expr::For { variable, range, body, .. } => {
            reveal(for_check);
            vstd::std_specs::vec::axiom_vec_decreases_to_view(body);
            let r1 = expr_check(*range, st, env);
            lemma_expr_ok(*range, st, env);
            lemma_in_loop_ok(body@, bind(r1.1, variable.name, CheckedType::I32), r1.1, env);
        },
        Expr::ForEach { variable, collection, body, span } => {
            reveal(for_each_check);
            vstd::std_specs::vec::axiom_vec_decreases_to_view(body);
            let r1 = expr_check(*collection, st, env);
            lemma_expr_ok(*collection, st, env);
            let r2 = elem_of(r1.0, r1.1, "for-each requires list, got "@, span);
            lemma_in_loop_ok(body@, bind(r2.1, variable.name, r2.0), r2.1, env);
        },
        Expr::ListLiteral { elements, span } => {
            reveal(list_literal_check);
            vstd::std_specs::vec::axiom_vec_decreases_to_view(elements);
            if elements@.len() > 0 {
                let r1 = expr_check(elements@[0], st, env);
                lemma_expr_ok(elements@[0], st, env);
                lemma_items_ok(elements@, elements@.len() as int, r1.0, span, r1.1, env);
            }
        },
        Expr::Index { expr, index, .. } => {
            reveal(index_check);
            lemma_expr_ok(*expr, st, env);
            lemma_expr_ok(*index, expr_check(*expr, st, env).1, env);
        },
        Expr::Slice { expr, start, end, .. } => {
            reveal(slice_check);
            let r1 = expr_check(*expr, st, env);
            let r2 = expr_check(*start, r1.1, env);
            lemma_expr_ok(*expr, st, env);
            lemma_expr_ok(*start, r1.1, env);
            lemma_expr_ok(*end, r2.1, env);
        },
        Expr::OptionalChain { expr, .. } => {
            reveal(optional_chain_check);
            lemma_expr_ok(*expr, st, env);
        },
        Expr::Try { expr, .. } => {
            reveal(try_check);
            lemma_expr_ok(*expr, st, env);
        },
        Expr::Await { expr, .. } => {
            reveal(await_check);
            lemma_expr_ok(*expr, st, env);
        },
        Expr::AtomicLoad { addr, .. } => {
            reveal(atomic_load_check);
            lemma_expr_ok(*addr, st, env);
        },
        Expr::AtomicStore { addr, value, .. } => {
            reveal(atomic_store_check);
            lemma_expr_ok(*addr, st, env);
            lemma_expr_ok(*value, expr_check(*addr, st, env).1, env);
        },
        Expr::AtomicAdd { addr, value, .. } => {
            reveal(atomic_add_check);
            lemma_expr_ok(*addr, st, env);
            lemma_expr_ok(*value, expr_check(*addr, st, env).1, env);
        },
        Expr::AtomicSub { addr, value, .. } => {
            reveal(atomic_sub_check);
            lemma_expr_ok(*addr, st, env);
            lemma_expr_ok(*value, expr_check(*addr, st, env).1, env);
        },
        Expr::AtomicCompareExchange { addr, expected, replacement, .. } => {
            reveal(atomic_compare_exchange_check);
            let r1 = expr_check(*addr, st, env);
            let r2 = expr_check(*expected, r1.1, env);
            lemma_expr_ok(*addr, st, env);
            lemma_expr_ok(*expected, r1.1, env);
            lemma_expr_ok(*replacement, r2.1, env);
        },
        Expr::AtomicWait { addr, expected, timeout, .. } => {
            reveal(atomic_wait_check);
            let r1 = expr_check(*addr, st, env);
            let r2 = expr_check(*expected, r1.1, env);
            lemma_expr_ok(*addr, st, env);
            lemma_expr_ok(*expected, r1.1, env);
            lemma_expr_ok(*timeout, r2.1, env);
        },
        Expr::AtomicNotify { addr, count, .. } => {
            reveal(atomic_notify_check);
            lemma_expr_ok(*addr, st, env);
            lemma_expr_ok(*count, expr_check(*addr, st, env).1, env);
        },
        Expr::Spawn { body, .. } => {
            reveal(spawn_check);
            vstd::std_specs::vec::axiom_vec_decreases_to_view(body);
            lemma_block_ok(body@, body@.len() as int, st, env);
        },
        Expr::ThreadJoin { tid, .. } => {
            reveal(thread_join_check);
            lemma_expr_ok(*tid, st, env);
        },
        Expr::AtomicBlock { body, .. } => {
            reveal(atomic_block_check);
            vstd::std_specs::vec::axiom_vec_decreases_to_view(body);
            lemma_block_ok(body@, body@.len() as int, st, env);
        },
        Expr::SimdOp { args, .. } => {
            reveal(simd_op_check);
            vstd::std_specs::vec::axiom_vec_decreases_to_view(args);
            lemma_exprs_ok(args@, args@.len() as int, st, env);
        },
        Expr::SimdForEach { variable, collection, body, .. } => {
            reveal(simd_for_each_check);
            vstd::std_specs::vec::axiom_vec_decreases_to_view(body);
            let r1 = expr_check(*collection, st, env);
            lemma_expr_ok(*collection, st, env);
            lemma_in_loop_ok(body@, bind(r1.1, variable.name, CheckedType::V128), r1.1, env);
        },
        _ => {},
    }
}

pub proof fn lemma_call_head_ok(f: Expr, st: State, env: Env)
    ensures
        call_head(f, st, env).1.ok ==> st.ok,
        extends(st, call_head(f, st, env).1),
    decreases f, 3int,
{
    match f {
        Expr::Ident(_) => {},
        _ => {
            lemma_expr_ok(f, st, env);
        },
    }
}

pub proof fn lemma_in_loop_ok(body: Seq<Statement>, inner: State, outer: State, env: Env)
    ensures
        in_loop(body, inner, outer, env).ok ==> inner.ok,
        grows(inner.diags, in_loop(body, inner, outer, env).diags),
        in_loop(body, inner, outer, env).loop_depth == outer.loop_depth,
    decreases body, body.len() + 1,
{
    lemma_block_ok(body, body.len() as int, deepen(inner, 1), env);
}

pub proof fn lemma_exprs_ok(es: Seq<Expr>, k: int, st: State, env: Env)
    ensures
        exprs_check(es, k, st, env).ok ==> st.ok,
        extends(st, exprs_check(es, k, st, env)),
    decreases es, k,
{
    if k > 0 && k <= es.len() {
        lemma_exprs_ok(es, k - 1, st, env);
        lemma_expr_ok(es[k - 1], exprs_check(es, k - 1, st, env), env);
    }
}

pub proof fn lemma_parts_ok(ps: Seq<StringPart>, k: int, st: State, env: Env)
    ensures
        parts_check(ps, k, st, env).ok ==> st.ok,
        extends(st, parts_check(ps, k, st, env)),
    decreases ps, k,
{
    if k > 0 && k <= ps.len() {
        lemma_parts_ok(ps, k - 1, st, env);
        match ps[k - 1] {
            StringPart::Expr(e) => {
                lemma_expr_ok(e, parts_check(ps, k - 1, st, env), env);
            },
            _ => {},
        }
    }
}

pub proof fn lemma_fields_ok(fs: Seq<(Id, Expr)>, k: int, st: State, env: Env)
    ensures
        fields_check(fs, k, st, env).ok ==> st.ok,
        extends(st, fields_check(fs, k, st, env)),
    decreases fs, k,
{
    if k > 0 && k <= fs.len() {
        lemma_fields_ok(fs, k - 1, st, env);
        lemma_expr_ok(fs[k - 1].1, fields_check(fs, k - 1, st, env), env);
    }
}

pub proof fn lemma_items_ok(es: Seq<Expr>, k: int, first: CheckedType, span: Span, st: State, env: Env)
    ensures
        items_check(es, k, first, span, st, env).ok ==> st.ok,
        extends(st, items_check(es, k, first, span, st, env)),
    decreases es, k,
{
    if k > 1 && k <= es.len() {
        lemma_items_ok(es, k - 1, first, span, st, env);
        lemma_expr_ok(es[k - 1], items_check(es, k - 1, first, span, st, env), env);
    }
}

pub proof fn lemma_arms_ok(arms: Seq<MatchArm>, k: int, st: State, env: Env)
    ensures
        arms_check(arms, k, st, env).1.ok ==> st.ok,
        extends(st, arms_check(arms, k, st, env).1),
    decreases arms, k,
{
    if k > 0 && k <= arms.len() {
        lemma_arms_ok(arms, k - 1, st, env);
        lemma_arm_ok(arms[k - 1], arms_check(arms, k - 1, st, env).1, env);
    }
}

pub proof fn lemma_arm_ok(arm: MatchArm, st: State, env: Env)
    ensures
        arm_check(arm, st, env).1.ok ==> st.ok,
        extends(st, arm_check(arm, st, env).1),
    decreases arm, 0int,
{
    vstd::std_specs::vec::axiom_vec_decreases_to_view(arm.body);
    let s1 = pattern_check(arm.pattern, st, env);
    lemma_tail_ok(arm.body@, arm.body@.len() as int, s1, env);
}

pub proof fn lemma_block_ok(ss: Seq<Statement>, k: int, st: State, env: Env)
    ensures
        block_check(ss, k, st, env).ok ==> st.ok,
        extends(st, block_check(ss, k, st, env)),
    decreases ss, k,
{
    if k > 0 && k <= ss.len() {
        lemma_block_ok(ss, k - 1, st, env);
        lemma_stmt_ok(ss[k - 1], block_check(ss, k - 1, st, env), env);
    }
}

pub proof fn lemma_tail_ok(ss: Seq<Statement>, k: int, st: State, env: Env)
    ensures
        tail_check(ss, k, st, env).1.ok ==> st.ok,
        extends(st, tail_check(ss, k, st, env).1),
    decreases ss, k,
{
    if k > 0 && k <= ss.len() {
        lemma_tail_ok(ss, k - 1, st, env);
        let prev = tail_check(ss, k - 1, st, env);
        match ss[k - 1] {
            Statement::Return(r) => match r {
                Some(e) => {
                    lemma_expr_ok(e, prev.1, env);
                },
                None => {},
            },
            Statement::Expr(e) => {
                lemma_expr_ok(e, prev.1, env);
            },
            _ => {
                lemma_stmt_ok(ss[k - 1], prev.1, env);
            },
        }
    }
}

pub proof fn lemma_guard_else_ok(body: Seq<Statement>, span: Span, msg: Seq<char>, st: State, env: Env)
    ensures
        guard_else(body, span, msg, st, env).ok ==> st.ok,
        extends(st, guard_else(body, span, msg, st, env)),
    decreases body, body.len() + 1,
{
    lemma_block_ok(body, body.len() as int, st, env);
}

pub proof fn lemma_loop_exit_ok(msg: Seq<char>, condition: Option<Box<Expr>>, st: State, env: Env)
    ensures
        loop_exit(msg, condition, st, env).ok ==> st.ok,
        extends(st, loop_exit(msg, condition, st, env)),
    decreases condition, 0int,
{
    match condition {
        Some(c) => {
            lemma_expr_ok(*c, st, env);
        },
        None => {},
    }
}

pub proof fn lemma_stmt_ok(s: Statement, st: State, env: Env)
    ensures
        stmt_check(s, st, env).ok ==> st.ok,
        extends(st, stmt_check(s, st, env)),
    decreases s, 0int,
{
    match s {
        Statement::Let { value, .. } => {
            lemma_expr_ok(value, st, env);
        },
        Statement::Return(r) => match r {
            Some(e) => {
                lemma_expr_ok(e, st, env);
            },
            None => {},
        },
        Statement::Expr(e) => {
            lemma_expr_ok(e, st, env);
        },
        Statement::Assign { name, value } => {
            lemma_expr_ok(value, assignable(name, st), env);
        },
        Statement::CompoundAssign { name, value, .. } => {
            lemma_expr_ok(value, assignable(name, st), env);
        },
        Statement::Break { condition } => {
            lemma_loop_exit_ok("`break` can only appear inside a loop"@, condition, st, env);
        },
        Statement::Continue { condition } => {
            lemma_loop_exit_ok("`continue` can only appear inside a loop"@, condition, st, env);
        },
        Statement::SharedLet { initial_value, .. } => {
            lemma_expr_ok(initial_value, st, env);
        },
        Statement::GuardLet { name, value, else_body } => {
            vstd::std_specs::vec::axiom_vec_decreases_to_view(else_body);
            let r = expr_check(value, State { in_guard_let: true, ..st }, env);
            lemma_expr_ok(value, State { in_guard_let: true, ..st }, env);
            let s1 = State { in_guard_let: false, ..r.1 };
            let g = guard_binding(r.0, expr_span(value), s1);
            lemma_guard_else_ok(else_body@, name.span, guard_let_exit_message(), g.1, env);
        },
        Statement::Guard { condition, else_body } => {
            vstd::std_specs::vec::axiom_vec_decreases_to_view(else_body);
            let r = expr_check(condition, st, env);
            lemma_expr_ok(condition, st, env);
            let s1 = expect(r.0 is Bool, r.0, "Guard condition requires bool, got "@, expr_span(condition), r.1);
            lemma_guard_else_ok(else_body@, expr_span(condition), guard_exit_message(), s1, env);
        },
    }
}


/// The body of a one-argument lambda keeps the `ok` flag monotone.
pub proof fn lemma_lambda1_ok(lambda: Expr, st: State, t: CheckedType, env: Env)
    ensures
        match lambda {
            Expr::Lambda { params, body, .. } => {
                let s3 = if params@.len() > 0 {
                    bind(st, params@[0].name, t)
                } else {
                    st
                };
                expr_check(*body, s3, env).1.ok ==> s3.ok
            },
            _ => true,
        },
{
    match lambda {
        Expr::Lambda { params, body, .. } => {
            let s3 = if params@.len() > 0 {
                bind(st, params@[0].name, t)
            } else {
                st
            };
            lemma_expr_ok(*body, s3, env);
        },
        _ => {},
    }
}

/// The body of a reducing lambda keeps the `ok` flag monotone.
pub proof fn lemma_lambda2_ok(lambda: Expr, st: State, acc: CheckedType, el: CheckedType, env: Env)
    ensures
        match lambda {
            Expr::Lambda { params, body, .. } => {
                let s4 = if params@.len() >= 2 {
                    bind(bind(st, params@[0].name, acc), params@[1].name, el)
                } else if params@.len() > 0 {
                    bind(st, params@[0].name, acc)
                } else {
                    st
                };
                expr_check(*body, s4, env).1.ok ==> s4.ok
            },
            _ => true,
        },
{
    match lambda {
        Expr::Lambda { params, body, .. } => {
            let s4 = if params@.len() >= 2 {
                bind(bind(st, params@[0].name, acc), params@[1].name, el)
            } else if params@.len() > 0 {
                bind(st, params@[0].name, acc)
            } else {
                st
            };
            lemma_expr_ok(*body, s4, env);
        },
        _ => {},
    }
}

} // verus!
