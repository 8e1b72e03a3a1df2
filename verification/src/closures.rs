//! The closures written in a program's tests, as the debugger lists them:
//! where each stands in the source, the name it is known by, its parameters
//! and the names it captures.
use vstd::prelude::*;
use crate::ast::{Expr, Func, Gate, InterfaceItem, MatchArm, Statement, StringPart, TopLevelItem, WitFile};
use crate::position::offset_to_line;
use crate::sorting::{index_ints, key_ints, stable_perm, stable_sort_indices};
use crate::constraints::string_views;
use crate::diagnostics::Span;
use crate::numbers::{decimal, push_decimal};
use crate::position::{column_of, line_of, offset_on_boundary, prefix_before, source_position};
use crate::text::{push_str, string_of};
use crate::types::Id;

verus! {

/// A closure of a test: its key (the byte offset where it starts), its
/// first line and column and its last line, the name it is known by, its
/// parameters and captured names, and, for a closure not bound by a `let`,
/// the line on which it is invoked in place.
pub struct ClosureRange {
    pub debug_key: i64,
    pub start_line: i64,
    pub start_column: i64,
    pub end_line: i64,
    pub name: String,
    pub params: Vec<String>,
    pub captures: Vec<String>,
    pub inline_invocation_line: Option<i64>,
}

/// A closure as a value.
pub struct ClosureView {
    pub debug_key: i64,
    pub start_line: int,
    pub start_column: int,
    pub end_line: int,
    pub name: Seq<char>,
    pub params: Seq<Seq<char>>,
    pub captures: Seq<Seq<char>>,
    pub inline_invocation_line: Option<int>,
}

impl View for ClosureRange {
    type V = ClosureView;

    open spec fn view(&self) -> ClosureView {
        ClosureView {
            debug_key: self.debug_key,
            start_line: self.start_line as int,
            start_column: self.start_column as int,
            end_line: self.end_line as int,
            name: self.name@,
            params: string_views(self.params@),
            captures: string_views(self.captures@),
            inline_invocation_line: match self.inline_invocation_line {
                Some(l) => Some(l as int),
                None => None,
            },
        }
    }
}

/// The views of a list of closures.
pub open spec fn closure_views(s: Seq<ClosureRange>) -> Seq<ClosureView> {
    s.map_values(|c: ClosureRange| c@)
}

/// The names of a list of identifiers.
pub open spec fn id_views(ids: Seq<Id>) -> Seq<Seq<char>> {
    ids.map_values(|i: Id| i.name@)
}

/// The closure written at `span`, found after `count` others: named by the
/// `let` that binds it, or else `closure#` and its number, in which case it
/// is invoked on the line where it starts.
pub open spec fn lambda_view(
    params: Seq<Id>,
    captures: Seq<Id>,
    span: Span,
    source: &str,
    count: nat,
    preferred: Option<Seq<char>>,
) -> ClosureView {
    let start_line = line_of(prefix_before(source, span.start));
    ClosureView {
        debug_key: span.start as i64,
        start_line,
        start_column: column_of(prefix_before(source, span.start)),
        end_line: line_of(prefix_before(source, span.end)),
        name: match preferred {
            Some(n) => n,
            None => "closure#"@ + decimal(count + 1),
        },
        params: id_views(params),
        captures: id_views(captures),
        inline_invocation_line: match preferred {
            Some(_) => None,
            None => Some(start_line),
        },
    }
}

/// The closures found so far (`acc`) followed by those of `e`, in the
/// order they are met, or nothing where a closure's span does not lie on
/// character boundaries of `source`.
pub open spec fn walk_expr(
    e: Expr,
    source: &str,
    acc: Option<Seq<ClosureView>>,
    preferred: Option<Seq<char>>,
) -> Option<Seq<ClosureView>>
    decreases e, 0int,
{
    match acc {
        None => None,
        Some(a) => match e {
            Expr::Lambda { params, body, captures, span } => if offset_on_boundary(source, span.start)
                && offset_on_boundary(source, span.end) {
                walk_expr(
                    *body,
                    source,
                    Some(a.push(lambda_view(params@, captures@, span, source, a.len(), preferred))),
                    None,
                )
            } else {
                None
            },
            Expr::Binary { lhs, rhs, .. } => walk_expr(*rhs, source, walk_expr(*lhs, source, acc, None), None),
            Expr::Call { func, args, .. } => {
                proof {
                    vstd::std_specs::vec::axiom_vec_decreases_to_view(args);
                }
                walk_exprs(args@, args@.len() as int, source, walk_expr(*func, source, acc, None))
            },
            Expr::Field { expr, .. } => walk_expr(*expr, source, acc, None),
            Expr::OptionalChain { expr, .. } => walk_expr(*expr, source, acc, None),
            Expr::Try { expr, .. } => walk_expr(*expr, source, acc, None),
            Expr::Await { expr, .. } => walk_expr(*expr, source, acc, None),
            Expr::AtomicLoad { addr, .. } => walk_expr(*addr, source, acc, None),
            Expr::ThreadJoin { tid, .. } => walk_expr(*tid, source, acc, None),
            Expr::If { cond, then_branch, else_branch, .. } => {
                proof {
                    vstd::std_specs::vec::axiom_vec_decreases_to_view(then_branch);
                }
                walk_opt_stmts(
                    else_branch,
                    source,
                    walk_stmts(then_branch@, then_branch@.len() as int, source, walk_expr(*cond, source, acc, None)),
                )
            },
            Expr::Match { scrutinee, arms, .. } => {
                proof {
                    vstd::std_specs::vec::axiom_vec_decreases_to_view(arms);
                }
                walk_arms(arms@, arms@.len() as int, source, walk_expr(*scrutinee, source, acc, None))
            },
            Expr::While { condition, body, .. } => {
                proof {
                    vstd::std_specs::vec::axiom_vec_decreases_to_view(body);
                }
                walk_stmts(body@, body@.len() as int, source, walk_expr(*condition, source, acc, None))
            },
            Expr::For { range, body, .. } => {
                proof {
                    vstd::std_specs::vec::axiom_vec_decreases_to_view(body);
                }
                walk_stmts(body@, body@.len() as int, source, walk_expr(*range, source, acc, None))
            },
            Expr::ForEach { collection, body, .. } => {
                proof {
                    vstd::std_specs::vec::axiom_vec_decreases_to_view(body);
                }
                walk_stmts(body@, body@.len() as int, source, walk_expr(*collection, source, acc, None))
            },
            Expr::Range { start, end, step, .. } => {
                walk_opt_expr(step, source, walk_expr(*end, source, walk_expr(*start, source, acc, None), None))
            },
            Expr::Index { expr, index, .. } => walk_expr(*index, source, walk_expr(*expr, source, acc, None), None),
            Expr::Slice { expr, start, end, .. } => walk_expr(
                *end,
                source,
                walk_expr(*start, source, walk_expr(*expr, source, acc, None), None),
                None,
            ),
            Expr::ListLiteral { elements, .. } => {
                proof {
                    vstd::std_specs::vec::axiom_vec_decreases_to_view(elements);
                }
                walk_exprs(elements@, elements@.len() as int, source, acc)
            },
            Expr::RecordLiteral { fields, .. } => {
                proof {
                    vstd::std_specs::vec::axiom_vec_decreases_to_view(fields);
                }
                walk_fields(fields@, fields@.len() as int, source, acc)
            },
            Expr::MapList { list, lambda, .. } => walk_expr(*lambda, source, walk_expr(*list, source, acc, None), None),
            Expr::Filter { list, lambda, .. } => walk_expr(*lambda, source, walk_expr(*list, source, acc, None), None),
            Expr::Reduce { list, init, lambda, .. } => walk_expr(
                *lambda,
                source,
                walk_expr(*init, source, walk_expr(*list, source, acc, None), None),
                None,
            ),
            Expr::InterpolatedString(parts, _) => {
                proof {
                    vstd::std_specs::vec::axiom_vec_decreases_to_view(parts);
                }
                walk_parts(parts@, parts@.len() as int, source, acc)
            },
            Expr::Assert(x, _) => walk_expr(*x, source, acc, None),
            Expr::Not(x, _) => walk_expr(*x, source, acc, None),
            Expr::Neg(x, _) => walk_expr(*x, source, acc, None),
            Expr::StrLen(x, _) => walk_expr(*x, source, acc, None),
            Expr::ListLen(x, _) => walk_expr(*x, source, acc, None),
            Expr::StrEq(a1, b1, _) => walk_expr(*b1, source, walk_expr(*a1, source, acc, None), None),
            Expr::ListPush(a1, b1, _) => walk_expr(*b1, source, walk_expr(*a1, source, acc, None), None),
            Expr::ListSet(l, i, v, _) => walk_expr(
                *v,
                source,
                walk_expr(*i, source, walk_expr(*l, source, acc, None), None),
                None,
            ),
            Expr::VariantLiteral { payload, .. } => walk_opt_expr(payload, source, acc),
            Expr::AtomicStore { addr, value, .. } => walk_expr(*value, source, walk_expr(*addr, source, acc, None), None),
            Expr::AtomicAdd { addr, value, .. } => walk_expr(*value, source, walk_expr(*addr, source, acc, None), None),
            Expr::AtomicSub { addr, value, .. } => walk_expr(*value, source, walk_expr(*addr, source, acc, None), None),
            Expr::AtomicNotify { addr, count, .. } => walk_expr(*count, source, walk_expr(*addr, source, acc, None), None),
            Expr::AtomicCompareExchange { addr, expected, replacement, .. } => walk_expr(
                *replacement,
                source,
                walk_expr(*expected, source, walk_expr(*addr, source, acc, None), None),
                None,
            ),
            Expr::AtomicWait { addr, expected, timeout, .. } => walk_expr(
                *timeout,
                source,
                walk_expr(*expected, source, walk_expr(*addr, source, acc, None), None),
                None,
            ),
            Expr::Spawn { body, .. } => {
                proof {
                    vstd::std_specs::vec::axiom_vec_decreases_to_view(body);
                }
                walk_stmts(body@, body@.len() as int, source, acc)
            },
            Expr::AtomicBlock { body, .. } => {
                proof {
                    vstd::std_specs::vec::axiom_vec_decreases_to_view(body);
                }
                walk_stmts(body@, body@.len() as int, source, acc)
            },
            Expr::SimdOp { args, .. } => {
                proof {
                    vstd::std_specs::vec::axiom_vec_decreases_to_view(args);
                }
                walk_exprs(args@, args@.len() as int, source, acc)
            },
            Expr::SimdForEach { collection, body, .. } => {
                proof {
                    vstd::std_specs::vec::axiom_vec_decreases_to_view(body);
                }
                walk_stmts(body@, body@.len() as int, source, walk_expr(*collection, source, acc, None))
            },
            Expr::Integer(..) => acc,
            Expr::Bool(..) => acc,
            Expr::String(..) => acc,
            Expr::Ident(..) => acc,
        },
    }
}

/// The walk over an optional expression.
pub open spec fn walk_opt_expr(o: Option<Box<Expr>>, source: &str, acc: Option<Seq<ClosureView>>) -> Option<
    Seq<ClosureView>,
>
    decreases o, 0int,
{
    match o {
        Some(x) => walk_expr(*x, source, acc, None),
        None => acc,
    }
}

/// The walk over an optional block.
pub open spec fn walk_opt_stmts(o: Option<Vec<Statement>>, source: &str, acc: Option<Seq<ClosureView>>) -> Option<
    Seq<ClosureView>,
>
    decreases o, 0int,
{
    match o {
        Some(b) => {
            proof {
                vstd::std_specs::vec::axiom_vec_decreases_to_view(b);
            }
            walk_stmts(b@, b@.len() as int, source, acc)
        },
        None => acc,
    }
}

/// The walk over the first `k` of `es`.
pub open spec fn walk_exprs(es: Seq<Expr>, k: int, source: &str, acc: Option<Seq<ClosureView>>) -> Option<
    Seq<ClosureView>,
>
    decreases es, k,
{
    if k <= 0 || k > es.len() {
        acc
    } else {
        walk_expr(es[k - 1], source, walk_exprs(es, k - 1, source, acc), None)
    }
}

/// The walk over the values of the first `k` record fields.
pub open spec fn walk_fields(fs: Seq<(Id, Expr)>, k: int, source: &str, acc: Option<Seq<ClosureView>>) -> Option<
    Seq<ClosureView>,
>
    decreases fs, k,
{
    if k <= 0 || k > fs.len() {
        acc
    } else {
        walk_expr(fs[k - 1].1, source, walk_fields(fs, k - 1, source, acc), None)
    }
}

/// The walk over the expressions among the first `k` string parts.
pub open spec fn walk_parts(ps: Seq<StringPart>, k: int, source: &str, acc: Option<Seq<ClosureView>>) -> Option<
    Seq<ClosureView>,
>
    decreases ps, k,
{
    if k <= 0 || k > ps.len() {
        acc
    } else {
        let prev = walk_parts(ps, k - 1, source, acc);
        match ps[k - 1] {
            StringPart::Expr(x) => walk_expr(x, source, prev, None),
            StringPart::Literal(_) => prev,
        }
    }
}

/// The walk over the bodies of the first `k` match arms.
pub open spec fn walk_arms(arms: Seq<MatchArm>, k: int, source: &str, acc: Option<Seq<ClosureView>>) -> Option<
    Seq<ClosureView>,
>
    decreases arms, k,
{
    if k <= 0 || k > arms.len() {
        acc
    } else {
        let body = arms[k - 1].body;
        proof {
            vstd::std_specs::vec::axiom_vec_decreases_to_view(body);
        }
        walk_stmts(body@, body@.len() as int, source, walk_arms(arms, k - 1, source, acc))
    }
}

/// The walk over a statement: a closure bound by `let` is named by it.
pub open spec fn walk_stmt(s: Statement, source: &str, acc: Option<Seq<ClosureView>>) -> Option<Seq<ClosureView>>
    decreases s, 0int,
{
    if acc is None {
        None
    } else {
    match s {
        Statement::Expr(e) => walk_expr(e, source, acc, None),
        Statement::Let { name, value } => walk_expr(
            value,
            source,
            acc,
            if value is Lambda {
                Some(name.name@)
            } else {
                None
            },
        ),
        Statement::Return(r) => match r {
            Some(e) => walk_expr(e, source, acc, None),
            None => acc,
        },
        Statement::Assign { value, .. } => walk_expr(value, source, acc, None),
        Statement::CompoundAssign { value, .. } => walk_expr(value, source, acc, None),
        Statement::Break { condition } => match condition {
            Some(c) => walk_expr(*c, source, acc, None),
            None => acc,
        },
        Statement::Continue { condition } => match condition {
            Some(c) => walk_expr(*c, source, acc, None),
            None => acc,
        },
        Statement::SharedLet { initial_value, .. } => walk_expr(initial_value, source, acc, None),
        Statement::GuardLet { value, else_body, .. } => {
            proof {
                vstd::std_specs::vec::axiom_vec_decreases_to_view(else_body);
            }
            walk_stmts(else_body@, else_body@.len() as int, source, walk_expr(value, source, acc, None))
        },
        Statement::Guard { condition, else_body } => {
            proof {
                vstd::std_specs::vec::axiom_vec_decreases_to_view(else_body);
            }
            walk_stmts(else_body@, else_body@.len() as int, source, walk_expr(condition, source, acc, None))
        },
    }
    }
}

/// The walk over the first `k` of `ss`.
pub open spec fn walk_stmts(ss: Seq<Statement>, k: int, source: &str, acc: Option<Seq<ClosureView>>) -> Option<
    Seq<ClosureView>,
>
    decreases ss, k,
{
    if k <= 0 || k > ss.len() {
        acc
    } else {
        walk_stmt(ss[k - 1], source, walk_stmts(ss, k - 1, source, acc))
    }
}

/// The number of closures (`Lambda` nodes) written in `e`, at any depth:
/// in its operands, branches, loop bodies, arms and in other closures'
/// bodies.
pub open spec fn lambda_count(e: Expr) -> nat
    decreases e, 0int,
{
    match e {
        Expr::Lambda { body, .. } => 1 + lambda_count(*body),
        Expr::Binary { lhs, rhs, .. } => lambda_count(*lhs) + lambda_count(*rhs),
        Expr::Call { func, args, .. } => {
            proof {
                vstd::std_specs::vec::axiom_vec_decreases_to_view(args);
            }
            lambda_count(*func) + lambda_count_exprs(args@, args@.len() as int)
        },
        Expr::Field { expr, .. } => lambda_count(*expr),
        Expr::OptionalChain { expr, .. } => lambda_count(*expr),
        Expr::Try { expr, .. } => lambda_count(*expr),
        Expr::Await { expr, .. } => lambda_count(*expr),
        Expr::AtomicLoad { addr, .. } => lambda_count(*addr),
        Expr::ThreadJoin { tid, .. } => lambda_count(*tid),
        Expr::If { cond, then_branch, else_branch, .. } => {
            proof {
                vstd::std_specs::vec::axiom_vec_decreases_to_view(then_branch);
            }
            lambda_count(*cond) + lambda_count_stmts(then_branch@, then_branch@.len() as int)
                + lambda_count_block(else_branch)
        },
        Expr::Match { scrutinee, arms, .. } => {
            proof {
                vstd::std_specs::vec::axiom_vec_decreases_to_view(arms);
            }
            lambda_count(*scrutinee) + lambda_count_arms(arms@, arms@.len() as int)
        },
        Expr::While { condition, body, .. } => {
            proof {
                vstd::std_specs::vec::axiom_vec_decreases_to_view(body);
            }
            lambda_count(*condition) + lambda_count_stmts(body@, body@.len() as int)
        },
        Expr::For { range, body, .. } => {
            proof {
                vstd::std_specs::vec::axiom_vec_decreases_to_view(body);
            }
            lambda_count(*range) + lambda_count_stmts(body@, body@.len() as int)
        },
        Expr::ForEach { collection, body, .. } => {
            proof {
                vstd::std_specs::vec::axiom_vec_decreases_to_view(body);
            }
            lambda_count(*collection) + lambda_count_stmts(body@, body@.len() as int)
        },
        Expr::SimdForEach { collection, body, .. } => {
            proof {
                vstd::std_specs::vec::axiom_vec_decreases_to_view(body);
            }
            lambda_count(*collection) + lambda_count_stmts(body@, body@.len() as int)
        },
        Expr::Spawn { body, .. } => {
            proof {
                vstd::std_specs::vec::axiom_vec_decreases_to_view(body);
            }
            lambda_count_stmts(body@, body@.len() as int)
        },
        Expr::AtomicBlock { body, .. } => {
            proof {
                vstd::std_specs::vec::axiom_vec_decreases_to_view(body);
            }
            lambda_count_stmts(body@, body@.len() as int)
        },
        Expr::Range { start, end, step, .. } => lambda_count(*start) + lambda_count(*end) + lambda_count_opt(step),
        Expr::Index { expr, index, .. } => lambda_count(*expr) + lambda_count(*index),
        Expr::Slice { expr, start, end, .. } => lambda_count(*expr) + lambda_count(*start) + lambda_count(*end),
        Expr::ListLiteral { elements, .. } => {
            proof {
                vstd::std_specs::vec::axiom_vec_decreases_to_view(elements);
            }
            lambda_count_exprs(elements@, elements@.len() as int)
        },
        Expr::SimdOp { args, .. } => {
            proof {
                vstd::std_specs::vec::axiom_vec_decreases_to_view(args);
            }
            lambda_count_exprs(args@, args@.len() as int)
        },
        Expr::RecordLiteral { fields, .. } => {
            proof {
                vstd::std_specs::vec::axiom_vec_decreases_to_view(fields);
            }
            lambda_count_fields(fields@, fields@.len() as int)
        },
        Expr::InterpolatedString(parts, _) => {
            proof {
                vstd::std_specs::vec::axiom_vec_decreases_to_view(parts);
            }
            lambda_count_parts(parts@, parts@.len() as int)
        },
        Expr::MapList { list, lambda, .. } => lambda_count(*list) + lambda_count(*lambda),
        Expr::Filter { list, lambda, .. } => lambda_count(*list) + lambda_count(*lambda),
        Expr::Reduce { list, init, lambda, .. } => lambda_count(*list) + lambda_count(*init) + lambda_count(*lambda),
        Expr::Assert(x, _) => lambda_count(*x),
        Expr::Not(x, _) => lambda_count(*x),
        Expr::Neg(x, _) => lambda_count(*x),
        Expr::StrLen(x, _) => lambda_count(*x),
        Expr::ListLen(x, _) => lambda_count(*x),
        Expr::StrEq(x, y, _) => lambda_count(*x) + lambda_count(*y),
        Expr::ListPush(x, y, _) => lambda_count(*x) + lambda_count(*y),
        Expr::ListSet(x, y, z, _) => lambda_count(*x) + lambda_count(*y) + lambda_count(*z),
        Expr::VariantLiteral { payload, .. } => lambda_count_opt(payload),
        Expr::AtomicStore { addr, value, .. } => lambda_count(*addr) + lambda_count(*value),
        Expr::AtomicAdd { addr, value, .. } => lambda_count(*addr) + lambda_count(*value),
        Expr::AtomicSub { addr, value, .. } => lambda_count(*addr) + lambda_count(*value),
        Expr::AtomicNotify { addr, count, .. } => lambda_count(*addr) + lambda_count(*count),
        Expr::AtomicCompareExchange { addr, expected, replacement, .. } => lambda_count(*addr)
            + lambda_count(*expected) + lambda_count(*replacement),
        Expr::AtomicWait { addr, expected, timeout, .. } => lambda_count(*addr) + lambda_count(*expected)
            + lambda_count(*timeout),
        Expr::Integer(..) => 0,
        Expr::Bool(..) => 0,
        Expr::String(..) => 0,
        Expr::Ident(..) => 0,
    }
}

/// The closures written in an optional expression.
pub open spec fn lambda_count_opt(o: Option<Box<Expr>>) -> nat
    decreases o, 0int,
{
    match o {
        Some(x) => lambda_count(*x),
        None => 0,
    }
}

/// The closures written in an optional block.
pub open spec fn lambda_count_block(o: Option<Vec<Statement>>) -> nat
    decreases o, 0int,
{
    match o {
        Some(b) => {
            proof {
                vstd::std_specs::vec::axiom_vec_decreases_to_view(b);
            }
            lambda_count_stmts(b@, b@.len() as int)
        },
        None => 0,
    }
}

/// The closures written in the first `k` of `es`.
pub open spec fn lambda_count_exprs(es: Seq<Expr>, k: int) -> nat
    decreases es, k,
{
    if k <= 0 || k > es.len() {
        0
    } else {
        lambda_count_exprs(es, k - 1) + lambda_count(es[k - 1])
    }
}

/// The closures written in the values of the first `k` record fields.
pub open spec fn lambda_count_fields(fs: Seq<(Id, Expr)>, k: int) -> nat
    decreases fs, k,
{
    if k <= 0 || k > fs.len() {
        0
    } else {
        lambda_count_fields(fs, k - 1) + lambda_count(fs[k - 1].1)
    }
}

/// The closures written in the first `k` string parts.
pub open spec fn lambda_count_parts(ps: Seq<StringPart>, k: int) -> nat
    decreases ps, k,
{
    if k <= 0 || k > ps.len() {
        0
    } else {
        lambda_count_parts(ps, k - 1) + match ps[k - 1] {
            StringPart::Expr(x) => lambda_count(x),
            StringPart::Literal(_) => 0,
        }
    }
}

/// The closures written in the bodies of the first `k` match arms.
pub open spec fn lambda_count_arms(arms: Seq<MatchArm>, k: int) -> nat
    decreases arms, k,
{
    if k <= 0 || k > arms.len() {
        0
    } else {
        let body = arms[k - 1].body;
        proof {
            vstd::std_specs::vec::axiom_vec_decreases_to_view(body);
        }
        lambda_count_arms(arms, k - 1) + lambda_count_stmts(body@, body@.len() as int)
    }
}

/// The closures written in a statement.
pub open spec fn lambda_count_stmt(s: Statement) -> nat
    decreases s, 0int,
{
    match s {
        Statement::Expr(e) => lambda_count(e),
        Statement::Let { value, .. } => lambda_count(value),
        Statement::Return(r) => match r {
            Some(e) => lambda_count(e),
            None => 0,
        },
        Statement::Assign { value, .. } => lambda_count(value),
        Statement::CompoundAssign { value, .. } => lambda_count(value),
        Statement::Break { condition } => match condition {
            Some(c) => lambda_count(*c),
            None => 0,
        },
        Statement::Continue { condition } => match condition {
            Some(c) => lambda_count(*c),
            None => 0,
        },
        Statement::SharedLet { initial_value, .. } => lambda_count(initial_value),
        Statement::GuardLet { value, else_body, .. } => {
            proof {
                vstd::std_specs::vec::axiom_vec_decreases_to_view(else_body);
            }
            lambda_count(value) + lambda_count_stmts(else_body@, else_body@.len() as int)
        },
        Statement::Guard { condition, else_body } => {
            proof {
                vstd::std_specs::vec::axiom_vec_decreases_to_view(else_body);
            }
            lambda_count(condition) + lambda_count_stmts(else_body@, else_body@.len() as int)
        },
    }
}

/// The closures written in the first `k` of `ss`.
pub open spec fn lambda_count_stmts(ss: Seq<Statement>, k: int) -> nat
    decreases ss, k,
{
    if k <= 0 || k > ss.len() {
        0
    } else {
        lambda_count_stmts(ss, k - 1) + lambda_count_stmt(ss[k - 1])
    }
}

/// A walk from the closures `a` that succeeds ends with exactly `n` more.
pub open spec fn adds(a: Seq<ClosureView>, r: Option<Seq<ClosureView>>, n: nat) -> bool {
    r matches Some(x) ==> x.len() == a.len() + n
}

/// The optional preferred name as a value.
pub open spec fn name_view(n: Option<String>) -> Option<Seq<char>> {
    match n {
        Some(s) => Some(s@),
        None => None,
    }
}

/// The walk succeeded and found fewer than `usize::MAX` closures.
pub open spec fn fits(r: Option<Seq<ClosureView>>) -> bool {
    r matches Some(x) && x.len() < usize::MAX
}

/// The walk from `a` either fails or ends with at least the closures of `a`.
pub open spec fn grows(a: Seq<ClosureView>, r: Option<Seq<ClosureView>>) -> bool {
    r matches Some(x) ==> a.len() <= x.len()
}

proof fn lemma_grows_expr(e: Expr, source: &str, a: Seq<ClosureView>, p: Option<Seq<char>>)
    ensures
        grows(a, walk_expr(e, source, Some(a), p)),
        adds(a, walk_expr(e, source, Some(a), p), lambda_count(e)),
    decreases e, 1int,
{
    if e is Binary || e is Index || e is MapList || e is Filter || e is StrEq || e is ListPush || e is AtomicStore || e is AtomicAdd || e is AtomicSub || e is AtomicNotify {
        lemma_grows_pair(e, source, a, p);
    } else if e is Slice || e is Reduce || e is ListSet || e is AtomicCompareExchange || e is AtomicWait || e is Range {
        lemma_grows_triple(e, source, a, p);
    } else if e is Field || e is OptionalChain || e is Try || e is Await || e is AtomicLoad || e is ThreadJoin || e is Assert || e is Not || e is Neg || e is StrLen || e is ListLen || e is VariantLiteral {
        lemma_grows_single(e, source, a, p);
    } else if e is If || e is Match || e is While || e is For || e is ForEach || e is Spawn || e is AtomicBlock || e is SimdForEach {
        lemma_grows_block(e, source, a, p);
    } else if e is Call || e is ListLiteral || e is RecordLiteral || e is InterpolatedString || e is SimdOp {
        lemma_grows_list(e, source, a, p);
    } else if e is Lambda {
        lemma_grows_lambda(e, source, a, p);
    }
}

proof fn lemma_grows_pair(e: Expr, source: &str, a: Seq<ClosureView>, p: Option<Seq<char>>)
    requires
        e is Binary || e is Index || e is MapList || e is Filter || e is StrEq || e is ListPush || e is AtomicStore || e is AtomicAdd || e is AtomicSub || e is AtomicNotify,
    ensures
        grows(a, walk_expr(e, source, Some(a), p)),
        adds(a, walk_expr(e, source, Some(a), p), lambda_count(e)),
    decreases e, 0int,
{
    let acc = Some(a);
    match e {
        Expr::Binary { lhs, rhs, .. } => {
            lemma_grows_expr(*lhs, source, a, None);
            lemma_step_expr(*rhs, source, walk_expr(*lhs, source, acc, None));
        },
        Expr::Index { expr, index, .. } => {
            lemma_grows_expr(*expr, source, a, None);
            lemma_step_expr(*index, source, walk_expr(*expr, source, acc, None));
        },
        Expr::MapList { list, lambda, .. } => {
            lemma_grows_expr(*list, source, a, None);
            lemma_step_expr(*lambda, source, walk_expr(*list, source, acc, None));
        },
        Expr::Filter { list, lambda, .. } => {
            lemma_grows_expr(*list, source, a, None);
            lemma_step_expr(*lambda, source, walk_expr(*list, source, acc, None));
        },
        Expr::StrEq(a1, b1, _) => {
            lemma_grows_expr(*a1, source, a, None);
            lemma_step_expr(*b1, source, walk_expr(*a1, source, acc, None));
        },
        Expr::ListPush(a1, b1, _) => {
            lemma_grows_expr(*a1, source, a, None);
            lemma_step_expr(*b1, source, walk_expr(*a1, source, acc, None));
        },
        Expr::AtomicStore { addr, value, .. } => {
            lemma_grows_expr(*addr, source, a, None);
            lemma_step_expr(*value, source, walk_expr(*addr, source, acc, None));
        },
        Expr::AtomicAdd { addr, value, .. } => {
            lemma_grows_expr(*addr, source, a, None);
            lemma_step_expr(*value, source, walk_expr(*addr, source, acc, None));
        },
        Expr::AtomicSub { addr, value, .. } => {
            lemma_grows_expr(*addr, source, a, None);
            lemma_step_expr(*value, source, walk_expr(*addr, source, acc, None));
        },
        Expr::AtomicNotify { addr, count, .. } => {
            lemma_grows_expr(*addr, source, a, None);
            lemma_step_expr(*count, source, walk_expr(*addr, source, acc, None));
        },
        _ => {},
    }
}

proof fn lemma_grows_triple(e: Expr, source: &str, a: Seq<ClosureView>, p: Option<Seq<char>>)
    requires
        e is Slice || e is Reduce || e is ListSet || e is AtomicCompareExchange || e is AtomicWait || e is Range,
    ensures
        grows(a, walk_expr(e, source, Some(a), p)),
        adds(a, walk_expr(e, source, Some(a), p), lambda_count(e)),
    decreases e, 0int,
{
    let acc = Some(a);
    match e {
        Expr::Slice { expr, start, end, .. } => {
            lemma_grows_expr(*expr, source, a, None);
            let r1 = walk_expr(*expr, source, acc, None);
            lemma_step_expr(*start, source, r1);
            lemma_step_expr(*end, source, walk_expr(*start, source, r1, None));
        },
        Expr::Reduce { list, init, lambda, .. } => {
            lemma_grows_expr(*list, source, a, None);
            let r1 = walk_expr(*list, source, acc, None);
            lemma_step_expr(*init, source, r1);
            lemma_step_expr(*lambda, source, walk_expr(*init, source, r1, None));
        },
        Expr::ListSet(l, i, v, _) => {
            lemma_grows_expr(*l, source, a, None);
            let r1 = walk_expr(*l, source, acc, None);
            lemma_step_expr(*i, source, r1);
            lemma_step_expr(*v, source, walk_expr(*i, source, r1, None));
        },
        Expr::AtomicCompareExchange { addr, expected, replacement, .. } => {
            lemma_grows_expr(*addr, source, a, None);
            let r1 = walk_expr(*addr, source, acc, None);
            lemma_step_expr(*expected, source, r1);
            lemma_step_expr(*replacement, source, walk_expr(*expected, source, r1, None));
        },
        Expr::AtomicWait { addr, expected, timeout, .. } => {
            lemma_grows_expr(*addr, source, a, None);
            let r1 = walk_expr(*addr, source, acc, None);
            lemma_step_expr(*expected, source, r1);
            lemma_step_expr(*timeout, source, walk_expr(*expected, source, r1, None));
        },
        Expr::Range { start, end, step, .. } => {
            lemma_grows_expr(*start, source, a, None);
            let r1 = walk_expr(*start, source, acc, None);
            lemma_step_expr(*end, source, r1);
            lemma_step_opt_expr(step, source, walk_expr(*end, source, r1, None));
        },
        _ => {},
    }
}

proof fn lemma_grows_single(e: Expr, source: &str, a: Seq<ClosureView>, p: Option<Seq<char>>)
    requires
        e is Field || e is OptionalChain || e is Try || e is Await || e is AtomicLoad || e is ThreadJoin || e is Assert || e is Not || e is Neg || e is StrLen || e is ListLen || e is VariantLiteral,
    ensures
        grows(a, walk_expr(e, source, Some(a), p)),
        adds(a, walk_expr(e, source, Some(a), p), lambda_count(e)),
    decreases e, 0int,
{
    let acc = Some(a);
    match e {
        Expr::Field { expr, .. } => lemma_grows_expr(*expr, source, a, None),
        Expr::OptionalChain { expr, .. } => lemma_grows_expr(*expr, source, a, None),
        Expr::Try { expr, .. } => lemma_grows_expr(*expr, source, a, None),
        Expr::Await { expr, .. } => lemma_grows_expr(*expr, source, a, None),
        Expr::AtomicLoad { addr, .. } => lemma_grows_expr(*addr, source, a, None),
        Expr::ThreadJoin { tid, .. } => lemma_grows_expr(*tid, source, a, None),
        Expr::Assert(x, _) => lemma_grows_expr(*x, source, a, None),
        Expr::Not(x, _) => lemma_grows_expr(*x, source, a, None),
        Expr::Neg(x, _) => lemma_grows_expr(*x, source, a, None),
        Expr::StrLen(x, _) => lemma_grows_expr(*x, source, a, None),
        Expr::ListLen(x, _) => lemma_grows_expr(*x, source, a, None),
        Expr::VariantLiteral { payload, .. } => lemma_step_opt_expr(payload, source, acc),
        _ => {},
    }
}

proof fn lemma_grows_block(e: Expr, source: &str, a: Seq<ClosureView>, p: Option<Seq<char>>)
    requires
        e is If || e is Match || e is While || e is For || e is ForEach || e is Spawn || e is AtomicBlock || e is SimdForEach,
    ensures
        grows(a, walk_expr(e, source, Some(a), p)),
        adds(a, walk_expr(e, source, Some(a), p), lambda_count(e)),
    decreases e, 0int,
{
    let acc = Some(a);
    match e {
        Expr::If { cond, then_branch, else_branch, .. } => {
            vstd::std_specs::vec::axiom_vec_decreases_to_view(then_branch);
            lemma_grows_expr(*cond, source, a, None);
            let c = walk_expr(*cond, source, acc, None);
            lemma_step_stmts(then_branch@, then_branch@.len() as int, source, c);
            lemma_step_opt_stmts(else_branch, source, walk_stmts(then_branch@, then_branch@.len() as int, source, c));
        },
        Expr::Match { scrutinee, arms, .. } => {
            vstd::std_specs::vec::axiom_vec_decreases_to_view(arms);
            lemma_grows_expr(*scrutinee, source, a, None);
            lemma_step_arms(arms@, arms@.len() as int, source, walk_expr(*scrutinee, source, acc, None));
        },
        Expr::While { condition, body, .. } => {
            vstd::std_specs::vec::axiom_vec_decreases_to_view(body);
            lemma_grows_expr(*condition, source, a, None);
            lemma_step_stmts(body@, body@.len() as int, source, walk_expr(*condition, source, acc, None));
        },
        Expr::For { range, body, .. } => {
            vstd::std_specs::vec::axiom_vec_decreases_to_view(body);
            lemma_grows_expr(*range, source, a, None);
            lemma_step_stmts(body@, body@.len() as int, source, walk_expr(*range, source, acc, None));
        },
        Expr::ForEach { collection, body, .. } => {
            vstd::std_specs::vec::axiom_vec_decreases_to_view(body);
            lemma_grows_expr(*collection, source, a, None);
            lemma_step_stmts(body@, body@.len() as int, source, walk_expr(*collection, source, acc, None));
        },
        Expr::Spawn { body, .. } => {
            vstd::std_specs::vec::axiom_vec_decreases_to_view(body);
            lemma_step_stmts(body@, body@.len() as int, source, acc);
        },
        Expr::AtomicBlock { body, .. } => {
            vstd::std_specs::vec::axiom_vec_decreases_to_view(body);
            lemma_step_stmts(body@, body@.len() as int, source, acc);
        },
        Expr::SimdForEach { collection, body, .. } => {
            vstd::std_specs::vec::axiom_vec_decreases_to_view(body);
            lemma_grows_expr(*collection, source, a, None);
            lemma_step_stmts(body@, body@.len() as int, source, walk_expr(*collection, source, acc, None));
        },
        _ => {},
    }
}

proof fn lemma_grows_list(e: Expr, source: &str, a: Seq<ClosureView>, p: Option<Seq<char>>)
    requires
        e is Call || e is ListLiteral || e is RecordLiteral || e is InterpolatedString || e is SimdOp,
    ensures
        grows(a, walk_expr(e, source, Some(a), p)),
        adds(a, walk_expr(e, source, Some(a), p), lambda_count(e)),
    decreases e, 0int,
{
    let acc = Some(a);
    match e {
        Expr::Call { func, args, .. } => {
            vstd::std_specs::vec::axiom_vec_decreases_to_view(args);
            lemma_grows_expr(*func, source, a, None);
            lemma_step_exprs(args@, args@.len() as int, source, walk_expr(*func, source, acc, None));
        },
        Expr::ListLiteral { elements, .. } => {
            vstd::std_specs::vec::axiom_vec_decreases_to_view(elements);
            lemma_step_exprs(elements@, elements@.len() as int, source, acc);
        },
        Expr::RecordLiteral { fields, .. } => {
            vstd::std_specs::vec::axiom_vec_decreases_to_view(fields);
            lemma_step_fields(fields@, fields@.len() as int, source, acc);
        },
        Expr::InterpolatedString(parts, _) => {
            vstd::std_specs::vec::axiom_vec_decreases_to_view(parts);
            lemma_step_parts(parts@, parts@.len() as int, source, acc);
        },
        Expr::SimdOp { args, .. } => {
            vstd::std_specs::vec::axiom_vec_decreases_to_view(args);
            lemma_step_exprs(args@, args@.len() as int, source, acc);
        },
        _ => {},
    }
}

proof fn lemma_grows_lambda(e: Expr, source: &str, a: Seq<ClosureView>, p: Option<Seq<char>>)
    requires
        e is Lambda,
    ensures
        grows(a, walk_expr(e, source, Some(a), p)),
        adds(a, walk_expr(e, source, Some(a), p), lambda_count(e)),
    decreases e, 0int,
{
    let acc = Some(a);
    match e {
        Expr::Lambda { params, body, captures, span } => {
            if offset_on_boundary(source, span.start) && offset_on_boundary(source, span.end) {
                lemma_grows_expr(
                    *body,
                    source,
                    a.push(lambda_view(params@, captures@, span, source, a.len(), p)),
                    None,
                );
            }
        },
        _ => {},
    }
}

proof fn lemma_step_expr(e: Expr, source: &str, r: Option<Seq<ClosureView>>)
    ensures
        r is None ==> walk_expr(e, source, r, None) is None,
        r matches Some(b) ==> grows(b, walk_expr(e, source, r, None)),
        r matches Some(b) ==> adds(b, walk_expr(e, source, r, None), lambda_count(e)),
    decreases e, 2int,
{
    match r {
        Some(b) => lemma_grows_expr(e, source, b, None),
        None => {},
    }
}

proof fn lemma_step_opt_expr(o: Option<Box<Expr>>, source: &str, r: Option<Seq<ClosureView>>)
    ensures
        r is None ==> walk_opt_expr(o, source, r) is None,
        r matches Some(b) ==> grows(b, walk_opt_expr(o, source, r)),
        r matches Some(b) ==> adds(b, walk_opt_expr(o, source, r), lambda_count_opt(o)),
    decreases o, 0int,
{
    match o {
        Some(x) => lemma_step_expr(*x, source, r),
        None => {},
    }
}

proof fn lemma_step_opt_stmts(o: Option<Vec<Statement>>, source: &str, r: Option<Seq<ClosureView>>)
    ensures
        r is None ==> walk_opt_stmts(o, source, r) is None,
        r matches Some(b) ==> grows(b, walk_opt_stmts(o, source, r)),
        r matches Some(b) ==> adds(b, walk_opt_stmts(o, source, r), lambda_count_block(o)),
    decreases o, 0int,
{
    match o {
        Some(b) => {
            vstd::std_specs::vec::axiom_vec_decreases_to_view(b);
            lemma_step_stmts(b@, b@.len() as int, source, r);
        },
        None => {},
    }
}

proof fn lemma_step_exprs(es: Seq<Expr>, k: int, source: &str, r: Option<Seq<ClosureView>>)
    ensures
        r is None ==> walk_exprs(es, k, source, r) is None,
        r matches Some(b) ==> grows(b, walk_exprs(es, k, source, r)),
        r matches Some(b) ==> adds(b, walk_exprs(es, k, source, r), lambda_count_exprs(es, k)),
    decreases es, k,
{
    if 0 < k <= es.len() {
        lemma_step_exprs(es, k - 1, source, r);
        lemma_step_expr(es[k - 1], source, walk_exprs(es, k - 1, source, r));
    }
}

proof fn lemma_step_fields(fs: Seq<(Id, Expr)>, k: int, source: &str, r: Option<Seq<ClosureView>>)
    ensures
        r is None ==> walk_fields(fs, k, source, r) is None,
        r matches Some(b) ==> grows(b, walk_fields(fs, k, source, r)),
        r matches Some(b) ==> adds(b, walk_fields(fs, k, source, r), lambda_count_fields(fs, k)),
    decreases fs, k,
{
    if 0 < k <= fs.len() {
        lemma_step_fields(fs, k - 1, source, r);
        lemma_step_expr(fs[k - 1].1, source, walk_fields(fs, k - 1, source, r));
    }
}

proof fn lemma_step_parts(ps: Seq<StringPart>, k: int, source: &str, r: Option<Seq<ClosureView>>)
    ensures
        r is None ==> walk_parts(ps, k, source, r) is None,
        r matches Some(b) ==> grows(b, walk_parts(ps, k, source, r)),
        r matches Some(b) ==> adds(b, walk_parts(ps, k, source, r), lambda_count_parts(ps, k)),
    decreases ps, k,
{
    if 0 < k <= ps.len() {
        lemma_step_parts(ps, k - 1, source, r);
        match ps[k - 1] {
            StringPart::Expr(x) => lemma_step_expr(x, source, walk_parts(ps, k - 1, source, r)),
            StringPart::Literal(_) => {},
        }
    }
}

proof fn lemma_step_arms(arms: Seq<MatchArm>, k: int, source: &str, r: Option<Seq<ClosureView>>)
    ensures
        r is None ==> walk_arms(arms, k, source, r) is None,
        r matches Some(b) ==> grows(b, walk_arms(arms, k, source, r)),
        r matches Some(b) ==> adds(b, walk_arms(arms, k, source, r), lambda_count_arms(arms, k)),
    decreases arms, k,
{
    if 0 < k <= arms.len() {
        lemma_step_arms(arms, k - 1, source, r);
        let body = arms[k - 1].body;
        vstd::std_specs::vec::axiom_vec_decreases_to_view(body);
        lemma_step_stmts(body@, body@.len() as int, source, walk_arms(arms, k - 1, source, r));
    }
}

proof fn lemma_grows_stmt(s: Statement, source: &str, a: Seq<ClosureView>)
    ensures
        grows(a, walk_stmt(s, source, Some(a))),
        adds(a, walk_stmt(s, source, Some(a)), lambda_count_stmt(s)),
    decreases s, 0int,
{
    let acc = Some(a);
    match s {
        Statement::Expr(e) => lemma_grows_expr(e, source, a, None),
        Statement::Let { name, value } => lemma_grows_expr(
            value,
            source,
            a,
            if value is Lambda {
                Some(name.name@)
            } else {
                None
            },
        ),
        Statement::Return(r) => match r {
            Some(e) => lemma_grows_expr(e, source, a, None),
            None => {},
        },
        Statement::Assign { value, .. } => lemma_grows_expr(value, source, a, None),
        Statement::CompoundAssign { value, .. } => lemma_grows_expr(value, source, a, None),
        Statement::Break { condition } => match condition {
            Some(c) => lemma_grows_expr(*c, source, a, None),
            None => {},
        },
        Statement::Continue { condition } => match condition {
            Some(c) => lemma_grows_expr(*c, source, a, None),
            None => {},
        },
        Statement::SharedLet { initial_value, .. } => lemma_grows_expr(initial_value, source, a, None),
        Statement::GuardLet { value, else_body, .. } => {
            vstd::std_specs::vec::axiom_vec_decreases_to_view(else_body);
            lemma_grows_expr(value, source, a, None);
            lemma_step_stmts(else_body@, else_body@.len() as int, source, walk_expr(value, source, acc, None));
        },
        Statement::Guard { condition, else_body } => {
            vstd::std_specs::vec::axiom_vec_decreases_to_view(else_body);
            lemma_grows_expr(condition, source, a, None);
            lemma_step_stmts(
                else_body@,
                else_body@.len() as int,
                source,
                walk_expr(condition, source, acc, None),
            );
        },
    }
}

proof fn lemma_step_stmts(ss: Seq<Statement>, k: int, source: &str, r: Option<Seq<ClosureView>>)
    ensures
        r is None ==> walk_stmts(ss, k, source, r) is None,
        r matches Some(b) ==> grows(b, walk_stmts(ss, k, source, r)),
        r matches Some(b) ==> adds(b, walk_stmts(ss, k, source, r), lambda_count_stmts(ss, k)),
    decreases ss, k,
{
    if 0 < k <= ss.len() {
        lemma_step_stmts(ss, k - 1, source, r);
        let prev = walk_stmts(ss, k - 1, source, r);
        match prev {
            Some(b) => lemma_grows_stmt(ss[k - 1], source, b),
            None => {
                assert(walk_stmt(ss[k - 1], source, prev) is None);
            },
        }
    }
}

fn id_list(ids: &Vec<Id>) -> (r: Vec<String>)
    ensures
        string_views(r@) == id_views(ids@),
{
    let mut r: Vec<String> = Vec::new();
    let mut i: usize = 0;
    while i < ids.len()
        invariant
            i <= ids@.len(),
            string_views(r@) == id_views(ids@.take(i as int)),
        decreases ids@.len() - i,
    {
        r.push(ids[i].name.clone());
        assert(id_views(ids@.take(i + 1)) =~= id_views(ids@.take(i as int)).push(ids@[i as int].name@));
        assert(string_views(r@) =~= id_views(ids@.take(i + 1)));
        i = i + 1;
    }
    assert(ids@.take(i as int) =~= ids@);
    r
}

fn fallback_name(n: usize) -> (s: String)
    requires
        n < usize::MAX,
    ensures
        s@ == "closure#"@ + decimal((n + 1) as nat),
{
    let mut v: Vec<char> = Vec::new();
    push_str(&mut v, "closure#");
    push_decimal(&mut v, (n + 1) as u64);
    string_of(v.as_slice())
}

/// Adds the closures of `e` to `closures`, in the order they are met; a
/// closure bound by `let` takes the name `preferred`.
pub fn collect_closures_from_expr(
    e: &Expr,
    source: &str,
    closures: &mut Vec<ClosureRange>,
    preferred: Option<String>,
)
    requires
        source@.len() < usize::MAX,
        source@.len() < i64::MAX,
        fits(walk_expr(*e, source, Some(closure_views(old(closures)@)), name_view(preferred))),
    ensures
        Some(closure_views(final(closures)@)) == walk_expr(
            *e,
            source,
            Some(closure_views(old(closures)@)),
            name_view(preferred),
        ),
    decreases e, 1int,
{
    match e {
        Expr::Lambda { .. } => collect_closures_lambda(e, source, closures, preferred),
        Expr::Binary { .. } | Expr::Index { .. } | Expr::MapList { .. } | Expr::Filter { .. } | Expr::StrEq(..) | Expr::ListPush(..) | Expr::AtomicStore { .. } | Expr::AtomicAdd { .. } | Expr::AtomicSub { .. } | Expr::AtomicNotify { .. } => collect_closures_pair(e, source, closures, preferred),
        Expr::Slice { .. } | Expr::Reduce { .. } | Expr::ListSet(..) | Expr::AtomicCompareExchange { .. } | Expr::AtomicWait { .. } | Expr::Range { .. } => collect_closures_triple(e, source, closures, preferred),
        Expr::Field { .. } | Expr::OptionalChain { .. } | Expr::Try { .. } | Expr::Await { .. } | Expr::AtomicLoad { .. } | Expr::ThreadJoin { .. } | Expr::Assert(..) | Expr::Not(..) | Expr::Neg(..) | Expr::StrLen(..) | Expr::ListLen(..) | Expr::VariantLiteral { .. } => collect_closures_single(e, source, closures, preferred),
        Expr::If { .. } | Expr::Match { .. } | Expr::While { .. } | Expr::For { .. } | Expr::ForEach { .. } | Expr::Spawn { .. } | Expr::AtomicBlock { .. } | Expr::SimdForEach { .. } => collect_closures_block(e, source, closures, preferred),
        Expr::Call { .. } | Expr::ListLiteral { .. } | Expr::RecordLiteral { .. } | Expr::InterpolatedString(..) | Expr::SimdOp { .. } => collect_closures_list(e, source, closures, preferred),
        _ => {
            assert(walk_expr(*e, source, Some(closure_views(closures@)), name_view(preferred)) == Some(closure_views(closures@)));
        },
    }
}

#[verifier::spinoff_prover]
fn collect_closures_pair(
    e: &Expr,
    source: &str,
    closures: &mut Vec<ClosureRange>,
    preferred: Option<String>,
)
    requires
        e is Binary || e is Index || e is MapList || e is Filter || e is StrEq || e is ListPush || e is AtomicStore || e is AtomicAdd || e is AtomicSub || e is AtomicNotify,
        source@.len() < usize::MAX,
        source@.len() < i64::MAX,
        fits(walk_expr(*e, source, Some(closure_views(old(closures)@)), name_view(preferred))),
    ensures
        Some(closure_views(final(closures)@)) == walk_expr(
            *e,
            source,
            Some(closure_views(old(closures)@)),
            name_view(preferred),
        ),
    decreases e, 0int,
{
    let ghost before = closure_views(closures@);
    match e {
        Expr::Binary { lhs, rhs, .. } => {
            proof {
                lemma_grows_expr(**lhs, source, before, None);
                lemma_step_expr(**rhs, source, walk_expr(**lhs, source, Some(before), None));
            }
            collect_closures_from_expr(lhs, source, closures, None);
            collect_closures_from_expr(rhs, source, closures, None);
        },
        Expr::Index { expr, index, .. } => {
            proof {
                lemma_grows_expr(**expr, source, before, None);
                lemma_step_expr(**index, source, walk_expr(**expr, source, Some(before), None));
            }
            collect_closures_from_expr(expr, source, closures, None);
            collect_closures_from_expr(index, source, closures, None);
        },
        Expr::MapList { list, lambda, .. } => {
            proof {
                lemma_grows_expr(**list, source, before, None);
                lemma_step_expr(**lambda, source, walk_expr(**list, source, Some(before), None));
            }
            collect_closures_from_expr(list, source, closures, None);
            collect_closures_from_expr(lambda, source, closures, None);
        },
        Expr::Filter { list, lambda, .. } => {
            proof {
                lemma_grows_expr(**list, source, before, None);
                lemma_step_expr(**lambda, source, walk_expr(**list, source, Some(before), None));
            }
            collect_closures_from_expr(list, source, closures, None);
            collect_closures_from_expr(lambda, source, closures, None);
        },
        Expr::StrEq(a, b, _) => {
            proof {
                lemma_grows_expr(**a, source, before, None);
                lemma_step_expr(**b, source, walk_expr(**a, source, Some(before), None));
            }
            collect_closures_from_expr(a, source, closures, None);
            collect_closures_from_expr(b, source, closures, None);
        },
        Expr::ListPush(a, b, _) => {
            proof {
                lemma_grows_expr(**a, source, before, None);
                lemma_step_expr(**b, source, walk_expr(**a, source, Some(before), None));
            }
            collect_closures_from_expr(a, source, closures, None);
            collect_closures_from_expr(b, source, closures, None);
        },
        Expr::AtomicStore { addr, value, .. } => {
            proof {
                lemma_grows_expr(**addr, source, before, None);
                lemma_step_expr(**value, source, walk_expr(**addr, source, Some(before), None));
            }
            collect_closures_from_expr(addr, source, closures, None);
            collect_closures_from_expr(value, source, closures, None);
        },
        Expr::AtomicAdd { addr, value, .. } => {
            proof {
                lemma_grows_expr(**addr, source, before, None);
                lemma_step_expr(**value, source, walk_expr(**addr, source, Some(before), None));
            }
            collect_closures_from_expr(addr, source, closures, None);
            collect_closures_from_expr(value, source, closures, None);
        },
        Expr::AtomicSub { addr, value, .. } => {
            proof {
                lemma_grows_expr(**addr, source, before, None);
                lemma_step_expr(**value, source, walk_expr(**addr, source, Some(before), None));
            }
            collect_closures_from_expr(addr, source, closures, None);
            collect_closures_from_expr(value, source, closures, None);
        },
        Expr::AtomicNotify { addr, count, .. } => {
            proof {
                lemma_grows_expr(**addr, source, before, None);
                lemma_step_expr(**count, source, walk_expr(**addr, source, Some(before), None));
            }
            collect_closures_from_expr(addr, source, closures, None);
            collect_closures_from_expr(count, source, closures, None);
        },
        _ => {},
    }
}

#[verifier::spinoff_prover]
fn collect_closures_triple(
    e: &Expr,
    source: &str,
    closures: &mut Vec<ClosureRange>,
    preferred: Option<String>,
)
    requires
        e is Slice || e is Reduce || e is ListSet || e is AtomicCompareExchange || e is AtomicWait || e is Range,
        source@.len() < usize::MAX,
        source@.len() < i64::MAX,
        fits(walk_expr(*e, source, Some(closure_views(old(closures)@)), name_view(preferred))),
    ensures
        Some(closure_views(final(closures)@)) == walk_expr(
            *e,
            source,
            Some(closure_views(old(closures)@)),
            name_view(preferred),
        ),
    decreases e, 0int,
{
    let ghost before = closure_views(closures@);
    match e {
        Expr::Slice { expr, start, end, .. } => {
            proof {
                lemma_grows_expr(**expr, source, before, None);
                let r1 = walk_expr(**expr, source, Some(before), None);
                lemma_step_expr(**start, source, r1);
                lemma_step_expr(**end, source, walk_expr(**start, source, r1, None));
            }
            collect_closures_from_expr(expr, source, closures, None);
            collect_closures_from_expr(start, source, closures, None);
            collect_closures_from_expr(end, source, closures, None);
        },
        Expr::Reduce { list, init, lambda, .. } => {
            proof {
                lemma_grows_expr(**list, source, before, None);
                let r1 = walk_expr(**list, source, Some(before), None);
                lemma_step_expr(**init, source, r1);
                lemma_step_expr(**lambda, source, walk_expr(**init, source, r1, None));
            }
            collect_closures_from_expr(list, source, closures, None);
            collect_closures_from_expr(init, source, closures, None);
            collect_closures_from_expr(lambda, source, closures, None);
        },
        Expr::ListSet(l, i, v, _) => {
            proof {
                lemma_grows_expr(**l, source, before, None);
                let r1 = walk_expr(**l, source, Some(before), None);
                lemma_step_expr(**i, source, r1);
                lemma_step_expr(**v, source, walk_expr(**i, source, r1, None));
            }
            collect_closures_from_expr(l, source, closures, None);
            collect_closures_from_expr(i, source, closures, None);
            collect_closures_from_expr(v, source, closures, None);
        },
        Expr::AtomicCompareExchange { addr, expected, replacement, .. } => {
            proof {
                lemma_grows_expr(**addr, source, before, None);
                let r1 = walk_expr(**addr, source, Some(before), None);
                lemma_step_expr(**expected, source, r1);
                lemma_step_expr(**replacement, source, walk_expr(**expected, source, r1, None));
            }
            collect_closures_from_expr(addr, source, closures, None);
            collect_closures_from_expr(expected, source, closures, None);
            collect_closures_from_expr(replacement, source, closures, None);
        },
        Expr::AtomicWait { addr, expected, timeout, .. } => {
            proof {
                lemma_grows_expr(**addr, source, before, None);
                let r1 = walk_expr(**addr, source, Some(before), None);
                lemma_step_expr(**expected, source, r1);
                lemma_step_expr(**timeout, source, walk_expr(**expected, source, r1, None));
            }
            collect_closures_from_expr(addr, source, closures, None);
            collect_closures_from_expr(expected, source, closures, None);
            collect_closures_from_expr(timeout, source, closures, None);
        },
        Expr::Range { start, end, step, .. } => {
            proof {
                lemma_grows_expr(**start, source, before, None);
                let r1 = walk_expr(**start, source, Some(before), None);
                lemma_step_expr(**end, source, r1);
                lemma_step_opt_expr(*step, source, walk_expr(**end, source, r1, None));
            }
            collect_closures_from_expr(start, source, closures, None);
            collect_closures_from_expr(end, source, closures, None);
            match step {
                Some(s) => collect_closures_from_expr(s, source, closures, None),
                None => {},
            }
        },
        _ => {},
    }
}

#[verifier::spinoff_prover]
fn collect_closures_single(
    e: &Expr,
    source: &str,
    closures: &mut Vec<ClosureRange>,
    preferred: Option<String>,
)
    requires
        e is Field || e is OptionalChain || e is Try || e is Await || e is AtomicLoad || e is ThreadJoin || e is Assert || e is Not || e is Neg || e is StrLen || e is ListLen || e is VariantLiteral,
        source@.len() < usize::MAX,
        source@.len() < i64::MAX,
        fits(walk_expr(*e, source, Some(closure_views(old(closures)@)), name_view(preferred))),
    ensures
        Some(closure_views(final(closures)@)) == walk_expr(
            *e,
            source,
            Some(closure_views(old(closures)@)),
            name_view(preferred),
        ),
    decreases e, 0int,
{
    let ghost before = closure_views(closures@);
    match e {
        Expr::Field { expr, .. } => collect_closures_from_expr(expr, source, closures, None),
        Expr::OptionalChain { expr, .. } => collect_closures_from_expr(expr, source, closures, None),
        Expr::Try { expr, .. } => collect_closures_from_expr(expr, source, closures, None),
        Expr::Await { expr, .. } => collect_closures_from_expr(expr, source, closures, None),
        Expr::AtomicLoad { addr, .. } => collect_closures_from_expr(addr, source, closures, None),
        Expr::ThreadJoin { tid, .. } => collect_closures_from_expr(tid, source, closures, None),
        Expr::Assert(x, _) => collect_closures_from_expr(x, source, closures, None),
        Expr::Not(x, _) => collect_closures_from_expr(x, source, closures, None),
        Expr::Neg(x, _) => collect_closures_from_expr(x, source, closures, None),
        Expr::StrLen(x, _) => collect_closures_from_expr(x, source, closures, None),
        Expr::ListLen(x, _) => collect_closures_from_expr(x, source, closures, None),
        Expr::VariantLiteral { payload, .. } => match payload {
            Some(p) => {
                assert(walk_opt_expr(*payload, source, Some(before)) == walk_expr(**p, source, Some(before), None));
                collect_closures_from_expr(p, source, closures, None);
            },
            None => {},
        },
        _ => {},
    }
}

#[verifier::spinoff_prover]
fn collect_closures_block(
    e: &Expr,
    source: &str,
    closures: &mut Vec<ClosureRange>,
    preferred: Option<String>,
)
    requires
        e is If || e is Match || e is While || e is For || e is ForEach || e is Spawn || e is AtomicBlock || e is SimdForEach,
        source@.len() < usize::MAX,
        source@.len() < i64::MAX,
        fits(walk_expr(*e, source, Some(closure_views(old(closures)@)), name_view(preferred))),
    ensures
        Some(closure_views(final(closures)@)) == walk_expr(
            *e,
            source,
            Some(closure_views(old(closures)@)),
            name_view(preferred),
        ),
    decreases e, 0int,
{
    let ghost before = closure_views(closures@);
    match e {
        Expr::If { cond, then_branch, else_branch, .. } => {
            proof {
                vstd::std_specs::vec::axiom_vec_decreases_to_view(*then_branch);
                lemma_grows_expr(**cond, source, before, None);
                let c = walk_expr(**cond, source, Some(before), None);
                lemma_step_stmts(then_branch@, then_branch@.len() as int, source, c);
                lemma_step_opt_stmts(*else_branch, source, walk_stmts(then_branch@, then_branch@.len() as int, source, c));
            }
            collect_closures_from_expr(cond, source, closures, None);
            collect_closures_from_statements(then_branch, then_branch.len(), source, closures);
            match else_branch {
                Some(eb) => collect_closures_from_statements(eb, eb.len(), source, closures),
                None => {},
            }
        },
        Expr::Match { scrutinee, arms, .. } => {
            proof {
                vstd::std_specs::vec::axiom_vec_decreases_to_view(*arms);
                lemma_grows_expr(**scrutinee, source, before, None);
                lemma_step_arms(arms@, arms@.len() as int, source, walk_expr(**scrutinee, source, Some(before), None));
            }
            collect_closures_from_expr(scrutinee, source, closures, None);
            collect_closures_from_arms(arms, arms.len(), source, closures);
        },
        Expr::While { condition, body, .. } => {
            proof {
                vstd::std_specs::vec::axiom_vec_decreases_to_view(*body);
                lemma_grows_expr(**condition, source, before, None);
                lemma_step_stmts(body@, body@.len() as int, source, walk_expr(**condition, source, Some(before), None));
            }
            collect_closures_from_expr(condition, source, closures, None);
            collect_closures_from_statements(body, body.len(), source, closures);
        },
        Expr::For { range, body, .. } => {
            proof {
                vstd::std_specs::vec::axiom_vec_decreases_to_view(*body);
                lemma_grows_expr(**range, source, before, None);
                lemma_step_stmts(body@, body@.len() as int, source, walk_expr(**range, source, Some(before), None));
            }
            collect_closures_from_expr(range, source, closures, None);
            collect_closures_from_statements(body, body.len(), source, closures);
        },
        Expr::ForEach { collection, body, .. } => {
            proof {
                vstd::std_specs::vec::axiom_vec_decreases_to_view(*body);
                lemma_grows_expr(**collection, source, before, None);
                lemma_step_stmts(body@, body@.len() as int, source, walk_expr(**collection, source, Some(before), None));
            }
            collect_closures_from_expr(collection, source, closures, None);
            collect_closures_from_statements(body, body.len(), source, closures);
        },
        Expr::Spawn { body, .. } => collect_closures_from_statements(body, body.len(), source, closures),
        Expr::AtomicBlock { body, .. } => collect_closures_from_statements(body, body.len(), source, closures),
        Expr::SimdForEach { collection, body, .. } => {
            proof {
                vstd::std_specs::vec::axiom_vec_decreases_to_view(*body);
                lemma_grows_expr(**collection, source, before, None);
                lemma_step_stmts(body@, body@.len() as int, source, walk_expr(**collection, source, Some(before), None));
            }
            collect_closures_from_expr(collection, source, closures, None);
            collect_closures_from_statements(body, body.len(), source, closures);
        },
        _ => {},
    }
}

#[verifier::spinoff_prover]
fn collect_closures_list(
    e: &Expr,
    source: &str,
    closures: &mut Vec<ClosureRange>,
    preferred: Option<String>,
)
    requires
        e is Call || e is ListLiteral || e is RecordLiteral || e is InterpolatedString || e is SimdOp,
        source@.len() < usize::MAX,
        source@.len() < i64::MAX,
        fits(walk_expr(*e, source, Some(closure_views(old(closures)@)), name_view(preferred))),
    ensures
        Some(closure_views(final(closures)@)) == walk_expr(
            *e,
            source,
            Some(closure_views(old(closures)@)),
            name_view(preferred),
        ),
    decreases e, 0int,
{
    let ghost before = closure_views(closures@);
    match e {
        Expr::Call { func, args, .. } => {
            proof {
                vstd::std_specs::vec::axiom_vec_decreases_to_view(*args);
                lemma_grows_expr(**func, source, before, None);
                lemma_step_exprs(args@, args@.len() as int, source, walk_expr(**func, source, Some(before), None));
            }
            collect_closures_from_expr(func, source, closures, None);
            collect_closures_from_exprs(args, args.len(), source, closures);
        },
        Expr::ListLiteral { elements, .. } => collect_closures_from_exprs(elements, elements.len(), source, closures),
        Expr::RecordLiteral { fields, .. } => collect_closures_from_fields(fields, fields.len(), source, closures),
        Expr::InterpolatedString(parts, _) => collect_closures_from_parts(parts, parts.len(), source, closures),
        Expr::SimdOp { args, .. } => collect_closures_from_exprs(args, args.len(), source, closures),
        _ => {},
    }
}

#[verifier::spinoff_prover]
fn collect_closures_lambda(
    e: &Expr,
    source: &str,
    closures: &mut Vec<ClosureRange>,
    preferred: Option<String>,
)
    requires
        e is Lambda,
        source@.len() < usize::MAX,
        source@.len() < i64::MAX,
        fits(walk_expr(*e, source, Some(closure_views(old(closures)@)), name_view(preferred))),
    ensures
        Some(closure_views(final(closures)@)) == walk_expr(
            *e,
            source,
            Some(closure_views(old(closures)@)),
            name_view(preferred),
        ),
    decreases e, 0int,
{
    let ghost before = closure_views(closures@);
    match e {
        Expr::Lambda { params, body, captures, span } => {
            let ghost view = lambda_view(params@, captures@, *span, source, before.len(), name_view(preferred));
            proof {
                lemma_grows_expr(**body, source, before.push(view), None);
            }
            let start = source_position(source, span.start);
            let end = source_position(source, span.end);
            let n = closures.len();
            let inline_invocation_line = match &preferred {
                Some(_) => None,
                None => Some(start.line),
            };
            let name = match preferred {
                Some(p) => p,
                None => fallback_name(n),
            };
            let c = ClosureRange {
                debug_key: #[verifier::truncate] (span.start as i64),
                start_line: start.line,
                start_column: start.column,
                end_line: end.line,
                name,
                params: id_list(params),
                captures: id_list(captures),
                inline_invocation_line,
            };
            assert(c@ == view);
            closures.push(c);
            assert(closure_views(closures@) =~= before.push(c@));
            collect_closures_from_expr(body, source, closures, None);
        },
        _ => {},
    }
}

fn collect_closures_from_exprs(es: &Vec<Expr>, k: usize, source: &str, closures: &mut Vec<ClosureRange>)
    requires
        k <= es@.len(),
        source@.len() < usize::MAX,
        source@.len() < i64::MAX,
        fits(walk_exprs(es@, k as int, source, Some(closure_views(old(closures)@)))),
    ensures
        Some(closure_views(final(closures)@)) == walk_exprs(es@, k as int, source, Some(closure_views(old(closures)@))),
    decreases es, k,
{
    if k > 0 {
        proof {
            let before = closure_views(closures@);
            lemma_step_exprs(es@, k - 1, source, Some(before));
            lemma_step_expr(es@[k - 1], source, walk_exprs(es@, k - 1, source, Some(before)));
        }
        collect_closures_from_exprs(es, k - 1, source, closures);
        proof {
            vstd::std_specs::vec::axiom_vec_index_decreases(*es, k - 1);
        }
        collect_closures_from_expr(&es[k - 1], source, closures, None);
    }
}

fn collect_closures_from_fields(fs: &Vec<(Id, Expr)>, k: usize, source: &str, closures: &mut Vec<ClosureRange>)
    requires
        k <= fs@.len(),
        source@.len() < usize::MAX,
        source@.len() < i64::MAX,
        fits(walk_fields(fs@, k as int, source, Some(closure_views(old(closures)@)))),
    ensures
        Some(closure_views(final(closures)@)) == walk_fields(fs@, k as int, source, Some(closure_views(old(closures)@))),
    decreases fs, k,
{
    if k > 0 {
        proof {
            let before = closure_views(closures@);
            lemma_step_fields(fs@, k - 1, source, Some(before));
            lemma_step_expr(fs@[k - 1].1, source, walk_fields(fs@, k - 1, source, Some(before)));
        }
        collect_closures_from_fields(fs, k - 1, source, closures);
        proof {
            vstd::std_specs::vec::axiom_vec_index_decreases(*fs, k - 1);
        }
        collect_closures_from_expr(&fs[k - 1].1, source, closures, None);
    }
}

fn collect_closures_from_parts(ps: &Vec<StringPart>, k: usize, source: &str, closures: &mut Vec<ClosureRange>)
    requires
        k <= ps@.len(),
        source@.len() < usize::MAX,
        source@.len() < i64::MAX,
        fits(walk_parts(ps@, k as int, source, Some(closure_views(old(closures)@)))),
    ensures
        Some(closure_views(final(closures)@)) == walk_parts(ps@, k as int, source, Some(closure_views(old(closures)@))),
    decreases ps, k,
{
    if k > 0 {
        proof {
            let before = closure_views(closures@);
            lemma_step_parts(ps@, k - 1, source, Some(before));
            match ps@[k - 1] {
                StringPart::Expr(x) => lemma_step_expr(x, source, walk_parts(ps@, k - 1, source, Some(before))),
                StringPart::Literal(_) => {},
            }
        }
        collect_closures_from_parts(ps, k - 1, source, closures);
        proof {
            vstd::std_specs::vec::axiom_vec_index_decreases(*ps, k - 1);
        }
        match &ps[k - 1] {
            StringPart::Expr(x) => collect_closures_from_expr(x, source, closures, None),
            StringPart::Literal(_) => {},
        }
    }
}

fn collect_closures_from_arms(arms: &Vec<MatchArm>, k: usize, source: &str, closures: &mut Vec<ClosureRange>)
    requires
        k <= arms@.len(),
        source@.len() < usize::MAX,
        source@.len() < i64::MAX,
        fits(walk_arms(arms@, k as int, source, Some(closure_views(old(closures)@)))),
    ensures
        Some(closure_views(final(closures)@)) == walk_arms(arms@, k as int, source, Some(closure_views(old(closures)@))),
    decreases arms, k,
{
    if k > 0 {
        proof {
            let before = closure_views(closures@);
            lemma_step_arms(arms@, k - 1, source, Some(before));
            let body = arms@[k - 1].body;
            lemma_step_stmts(body@, body@.len() as int, source, walk_arms(arms@, k - 1, source, Some(before)));
        }
        collect_closures_from_arms(arms, k - 1, source, closures);
        proof {
            vstd::std_specs::vec::axiom_vec_index_decreases(*arms, k - 1);
        }
        let body = &arms[k - 1].body;
        collect_closures_from_statements(body, body.len(), source, closures);
    }
}

fn collect_closures_from_stmt(s: &Statement, source: &str, closures: &mut Vec<ClosureRange>)
    requires
        source@.len() < usize::MAX,
        source@.len() < i64::MAX,
        fits(walk_stmt(*s, source, Some(closure_views(old(closures)@)))),
    ensures
        Some(closure_views(final(closures)@)) == walk_stmt(*s, source, Some(closure_views(old(closures)@))),
    decreases s, 0int,
{
    match s {
        Statement::Expr(e) => collect_closures_from_expr(e, source, closures, None),
        Statement::Let { name, value } => {
            let preferred = match value {
                Expr::Lambda { .. } => Some(name.name.clone()),
                _ => None,
            };
            collect_closures_from_expr(value, source, closures, preferred);
        },
        Statement::Return(r) => match r {
            Some(e) => collect_closures_from_expr(e, source, closures, None),
            None => {},
        },
        Statement::Assign { value, .. } => collect_closures_from_expr(value, source, closures, None),
        Statement::CompoundAssign { value, .. } => collect_closures_from_expr(value, source, closures, None),
        Statement::Break { condition } => match condition {
            Some(c) => collect_closures_from_expr(c, source, closures, None),
            None => {},
        },
        Statement::Continue { condition } => match condition {
            Some(c) => collect_closures_from_expr(c, source, closures, None),
            None => {},
        },
        Statement::SharedLet { initial_value, .. } => collect_closures_from_expr(initial_value, source, closures, None),
        Statement::GuardLet { value, else_body, .. } => {
            proof {
                let before = closure_views(closures@);
                lemma_grows_expr(*value, source, before, None);
                lemma_step_stmts(else_body@, else_body@.len() as int, source, walk_expr(*value, source, Some(before), None));
            }
            collect_closures_from_expr(value, source, closures, None);
            collect_closures_from_statements(else_body, else_body.len(), source, closures);
        },
        Statement::Guard { condition, else_body } => {
            proof {
                let before = closure_views(closures@);
                lemma_grows_expr(*condition, source, before, None);
                lemma_step_stmts(
                    else_body@,
                    else_body@.len() as int,
                    source,
                    walk_expr(*condition, source, Some(before), None),
                );
            }
            collect_closures_from_expr(condition, source, closures, None);
            collect_closures_from_statements(else_body, else_body.len(), source, closures);
        },
    }
}

/// Adds the closures of the first `k` statements to `closures`.
pub fn collect_closures_from_statements(
    ss: &Vec<Statement>,
    k: usize,
    source: &str,
    closures: &mut Vec<ClosureRange>,
)
    requires
        k <= ss@.len(),
        source@.len() < usize::MAX,
        source@.len() < i64::MAX,
        fits(walk_stmts(ss@, k as int, source, Some(closure_views(old(closures)@)))),
    ensures
        Some(closure_views(final(closures)@)) == walk_stmts(ss@, k as int, source, Some(closure_views(old(closures)@))),
    decreases ss, k,
{
    if k > 0 {
        proof {
            let before = closure_views(closures@);
            lemma_step_stmts(ss@, k - 1, source, Some(before));
            match walk_stmts(ss@, k - 1, source, Some(before)) {
                Some(b) => lemma_grows_stmt(ss@[k - 1], source, b),
                None => {
                    assert(walk_stmt(ss@[k - 1], source, None) is None);
                },
            }
        }
        collect_closures_from_statements(ss, k - 1, source, closures);
        proof {
            vstd::std_specs::vec::axiom_vec_index_decreases(*ss, k - 1);
        }
        collect_closures_from_stmt(&ss[k - 1], source, closures);
    }
}


// ---------------------------------------------------------------------------
// The closures of a file's tests
// ---------------------------------------------------------------------------

/// The gates mark a test (`@test`; a test helper is not one).
pub open spec fn marked_test(gs: Seq<Gate>) -> bool {
    exists|i: int| 0 <= i < gs.len() && gs[i] is Test
}

/// The walk over the bodies of the tests among the first `k` items of an
/// interface.
pub open spec fn walk_iface(items: Seq<InterfaceItem>, k: int, source: &str, acc: Option<Seq<ClosureView>>) -> Option<
    Seq<ClosureView>,
>
    decreases k,
{
    if k <= 0 || k > items.len() {
        acc
    } else {
        let prev = walk_iface(items, k - 1, source, acc);
        match items[k - 1] {
            InterfaceItem::Func(f) => if marked_test(f.gates@) {
                match f.body {
                    Some(b) => walk_stmts(b@, b@.len() as int, source, prev),
                    None => prev,
                }
            } else {
                prev
            },
            _ => prev,
        }
    }
}

/// The walk over the tests of the interfaces among the first `k` items of
/// a file.
pub open spec fn walk_file(items: Seq<TopLevelItem>, k: int, source: &str, acc: Option<Seq<ClosureView>>) -> Option<
    Seq<ClosureView>,
>
    decreases k,
{
    if k <= 0 || k > items.len() {
        acc
    } else {
        let prev = walk_file(items, k - 1, source, acc);
        match items[k - 1] {
            TopLevelItem::Interface(i) => walk_iface(i.items@, i.items@.len() as int, source, prev),
            _ => prev,
        }
    }
}

/// The closures written in the bodies of the tests among the first `k`
/// items of an interface.
pub open spec fn test_lambda_count_iface(items: Seq<InterfaceItem>, k: int) -> nat
    decreases k,
{
    if k <= 0 || k > items.len() {
        0
    } else {
        test_lambda_count_iface(items, k - 1) + match items[k - 1] {
            InterfaceItem::Func(f) => if marked_test(f.gates@) {
                match f.body {
                    Some(b) => lambda_count_stmts(b@, b@.len() as int),
                    None => 0,
                }
            } else {
                0
            },
            _ => 0,
        }
    }
}

/// The closures written in the bodies of the tests of the interfaces among
/// the first `k` items of a file.
pub open spec fn test_lambda_count(items: Seq<TopLevelItem>, k: int) -> nat
    decreases k,
{
    if k <= 0 || k > items.len() {
        0
    } else {
        test_lambda_count(items, k - 1) + match items[k - 1] {
            TopLevelItem::Interface(i) => test_lambda_count_iface(i.items@, i.items@.len() as int),
            _ => 0,
        }
    }
}

proof fn lemma_step_iface(items: Seq<InterfaceItem>, k: int, source: &str, r: Option<Seq<ClosureView>>)
    ensures
        r is None ==> walk_iface(items, k, source, r) is None,
        r matches Some(b) ==> grows(b, walk_iface(items, k, source, r)),
        r matches Some(b) ==> adds(b, walk_iface(items, k, source, r), test_lambda_count_iface(items, k)),
    decreases k,
{
    if 0 < k <= items.len() {
        lemma_step_iface(items, k - 1, source, r);
        match items[k - 1] {
            InterfaceItem::Func(f) => match f.body {
                Some(b) => lemma_step_stmts(b@, b@.len() as int, source, walk_iface(items, k - 1, source, r)),
                None => {},
            },
            _ => {},
        }
    }
}

proof fn lemma_step_file(items: Seq<TopLevelItem>, k: int, source: &str, r: Option<Seq<ClosureView>>)
    ensures
        r is None ==> walk_file(items, k, source, r) is None,
        r matches Some(b) ==> grows(b, walk_file(items, k, source, r)),
        r matches Some(b) ==> adds(b, walk_file(items, k, source, r), test_lambda_count(items, k)),
    decreases k,
{
    if 0 < k <= items.len() {
        lemma_step_file(items, k - 1, source, r);
        match items[k - 1] {
            TopLevelItem::Interface(i) => lemma_step_iface(
                i.items@,
                i.items@.len() as int,
                source,
                walk_file(items, k - 1, source, r),
            ),
            _ => {},
        }
    }
}

fn is_test(gates: &Vec<Gate>) -> (b: bool)
    ensures
        b == marked_test(gates@),
{
    let mut i: usize = 0;
    while i < gates.len()
        invariant
            i <= gates@.len(),
            forall|j: int| 0 <= j < i ==> !(gates@[j] is Test),
        decreases gates@.len() - i,
    {
        match &gates[i] {
            Gate::Test => {
                return true;
            },
            _ => {},
        }
        i = i + 1;
    }
    false
}

fn closures_in_iface_upto(items: &Vec<InterfaceItem>, k: usize, source: &str, closures: &mut Vec<ClosureRange>)
    requires
        k <= items@.len(),
        source@.len() < usize::MAX,
        source@.len() < i64::MAX,
        fits(walk_iface(items@, k as int, source, Some(closure_views(old(closures)@)))),
    ensures
        Some(closure_views(final(closures)@)) == walk_iface(items@, k as int, source, Some(closure_views(old(closures)@))),
    decreases k,
{
    if k > 0 {
        proof {
            let before = closure_views(closures@);
            lemma_step_iface(items@, k - 1, source, Some(before));
            match items@[k - 1] {
                InterfaceItem::Func(f) => match f.body {
                    Some(b) => lemma_step_stmts(b@, b@.len() as int, source, walk_iface(items@, k - 1, source, Some(before))),
                    None => {},
                },
                _ => {},
            }
        }
        closures_in_iface_upto(items, k - 1, source, closures);
        match &items[k - 1] {
            InterfaceItem::Func(f) => {
                if is_test(&f.gates) {
                    match &f.body {
                        Some(b) => collect_closures_from_statements(b, b.len(), source, closures),
                        None => {},
                    }
                }
            },
            _ => {},
        }
    }
}

fn closures_in_file_upto(items: &Vec<TopLevelItem>, k: usize, source: &str, closures: &mut Vec<ClosureRange>)
    requires
        k <= items@.len(),
        source@.len() < usize::MAX,
        source@.len() < i64::MAX,
        fits(walk_file(items@, k as int, source, Some(closure_views(old(closures)@)))),
    ensures
        Some(closure_views(final(closures)@)) == walk_file(items@, k as int, source, Some(closure_views(old(closures)@))),
    decreases k,
{
    if k > 0 {
        proof {
            let before = closure_views(closures@);
            lemma_step_file(items@, k - 1, source, Some(before));
            match items@[k - 1] {
                TopLevelItem::Interface(i) => lemma_step_iface(
                    i.items@,
                    i.items@.len() as int,
                    source,
                    walk_file(items@, k - 1, source, Some(before)),
                ),
                _ => {},
            }
        }
        closures_in_file_upto(items, k - 1, source, closures);
        match &items[k - 1] {
            TopLevelItem::Interface(i) => closures_in_iface_upto(&i.items, i.items.len(), source, closures),
            _ => {},
        }
    }
}

/// The order closures are listed in: by first line, and among closures
/// starting on the same line the longer first (by last line, descending).
pub open spec fn closure_key(c: ClosureView) -> int {
    c.start_line * 0x1_0000_0000_0000_0000 + (0x7fff_ffff_ffff_ffff - c.end_line)
}

/// The keys of a list of closures.
pub open spec fn closure_keys(input: Seq<ClosureView>) -> Seq<int> {
    input.map_values(|c: ClosureView| closure_key(c))
}

/// `out` is `input` sorted stably by `closure_key`.
pub open spec fn closures_sorted(out: Seq<ClosureView>, input: Seq<ClosureView>) -> bool {
    exists|perm: Seq<int>|
        #[trigger] stable_perm(closure_keys(input), perm) && out.len() == input.len()
            && forall|k: int| 0 <= k < out.len() ==> out[k] == input[#[trigger] perm[k]]
}

fn copy_strings(v: &Vec<String>) -> (r: Vec<String>)
    ensures
        r@ == v@,
{
    let mut r: Vec<String> = Vec::new();
    let mut i: usize = 0;
    while i < v.len()
        invariant
            i <= v@.len(),
            r@ == v@.take(i as int),
        decreases v@.len() - i,
    {
        r.push(v[i].clone());
        assert(v@.take(i + 1) =~= v@.take(i as int).push(v@[i as int]));
        i = i + 1;
    }
    assert(v@.take(i as int) =~= v@);
    r
}

fn copy_closure(c: &ClosureRange) -> (r: ClosureRange)
    ensures
        r@ == c@,
{
    ClosureRange {
        debug_key: c.debug_key,
        start_line: c.start_line,
        start_column: c.start_column,
        end_line: c.end_line,
        name: c.name.clone(),
        params: copy_strings(&c.params),
        captures: copy_strings(&c.captures),
        inline_invocation_line: c.inline_invocation_line,
    }
}

/// The closures sorted by first line, the longer first among those that
/// start on the same line, keeping their order otherwise.
pub fn sort_closures(v: &Vec<ClosureRange>) -> (r: Vec<ClosureRange>)
    ensures
        closures_sorted(closure_views(r@), closure_views(v@)),
{
    let ghost input = closure_views(v@);
    let mut keys: Vec<i128> = Vec::new();
    let mut i: usize = 0;
    while i < v.len()
        invariant
            i <= v@.len(),
            input == closure_views(v@),
            keys@.len() == i,
            forall|q: int| 0 <= q < i ==> keys@[q] as int == closure_key(#[trigger] input[q]),
        decreases v@.len() - i,
    {
        let c = &v[i];
        assert(input[i as int] == c@);
        let k: i128 = (c.start_line as i128) * 0x1_0000_0000_0000_0000i128 + (0x7fff_ffff_ffff_ffffi128 - (c.end_line as i128));
        keys.push(k);
        i = i + 1;
    }
    let perm = stable_sort_indices(&keys);
    let ghost kseq = closure_keys(input);
    assert(key_ints(keys@) =~= kseq);
    let mut r: Vec<ClosureRange> = Vec::new();
    let mut j: usize = 0;
    while j < perm.len()
        invariant
            j <= perm@.len() == v@.len(),
            input == closure_views(v@),
            stable_perm(kseq, index_ints(perm@)),
            r@.len() == j,
            forall|q: int| 0 <= q < j ==> closure_views(r@)[q] == input[#[trigger] index_ints(perm@)[q]],
        decreases perm@.len() - j,
    {
        assert(index_ints(perm@)[j as int] == perm@[j as int] as int);
        let c = copy_closure(&v[perm[j]]);
        r.push(c);
        j = j + 1;
    }
    assert(closures_sorted(closure_views(r@), input)) by {
        let p = index_ints(perm@);
        assert forall|q: int| 0 <= q < r@.len() implies closure_views(r@)[q] == input[#[trigger] p[q]] by {}
    }
    r
}

/// The closures written in the tests of a file, ordered by first line and,
/// among those starting on the same line, the longer first.
pub fn collect_closures_from_ast(file: &WitFile, source: &str) -> (r: Vec<ClosureRange>)
    requires
        source@.len() < usize::MAX,
        source@.len() < i64::MAX,
        fits(walk_file(file.items@, file.items@.len() as int, source, Some(Seq::empty()))),
    ensures
        closures_sorted(
            closure_views(r@),
            walk_file(file.items@, file.items@.len() as int, source, Some(Seq::empty()))->Some_0,
        ),
        r@.len() == test_lambda_count(file.items@, file.items@.len() as int),
{
    proof {
        every_test_closure_collected(file.items@, source);
    }
    let mut closures: Vec<ClosureRange> = Vec::new();
    assert(closure_views(closures@) =~= Seq::<ClosureView>::empty());
    closures_in_file_upto(&file.items, file.items.len(), source, &mut closures);
    sort_closures(&closures)
}


// ---------------------------------------------------------------------------
// The tests of a file
// ---------------------------------------------------------------------------

/// Every closure written in the body of a test function, at any depth
/// (inside loop bodies, branches, match arms, other closures), is
/// collected, and only once: a walk over a file's tests that succeeds finds
/// exactly as many closures as its test bodies hold `Lambda` nodes.
pub proof fn every_test_closure_collected(items: Seq<TopLevelItem>, source: &str)
    ensures
        walk_file(items, items.len() as int, source, Some(Seq::empty())) matches Some(x) ==> x.len()
            == test_lambda_count(items, items.len() as int),
{
    lemma_step_file(items, items.len() as int, source, Some(Seq::empty()));
}

/// The same for a block of statements: walking it adds one closure for
/// each `Lambda` node in it, wherever it stands.
pub proof fn every_block_closure_collected(ss: Seq<Statement>, source: &str, a: Seq<ClosureView>)
    ensures
        walk_stmts(ss, ss.len() as int, source, Some(a)) matches Some(x) ==> x.len() == a.len()
            + lambda_count_stmts(ss, ss.len() as int),
{
    lemma_step_stmts(ss, ss.len() as int, source, Some(a));
}

/// A test of a file: its name, its first and last lines, and where its
/// function stands (the index of the interface among the file's items and
/// of the function among the interface's).
pub struct ListedTest {
    pub name: String,
    pub line: i64,
    pub end_line: i64,
    pub item: usize,
    pub member: usize,
}

/// A listed test as a value.
pub struct TestListing {
    pub name: Seq<char>,
    pub line: int,
    pub end_line: int,
    pub item: int,
    pub member: int,
}

impl View for ListedTest {
    type V = TestListing;

    open spec fn view(&self) -> TestListing {
        TestListing {
            name: self.name@,
            line: self.line as int,
            end_line: self.end_line as int,
            item: self.item as int,
            member: self.member as int,
        }
    }
}

/// The views of a list of tests.
pub open spec fn listing_views(s: Seq<ListedTest>) -> Seq<TestListing> {
    s.map_values(|t: ListedTest| t@)
}

/// The test function `f`, the `member`-th item of the `item`-th item of a
/// file.
pub open spec fn test_listing(f: Func, item: int, member: int, source: &str) -> TestListing {
    TestListing {
        name: f.name.name@,
        line: line_of(prefix_before(source, f.span.start)),
        end_line: line_of(prefix_before(source, f.span.end)),
        item,
        member,
    }
}

/// The tests among the first `k` items of the interface that is the
/// `item`-th item of a file.
pub open spec fn tests_in_iface(items: Seq<InterfaceItem>, k: int, item: int, source: &str) -> Seq<TestListing>
    decreases k,
{
    if k <= 0 || k > items.len() {
        Seq::empty()
    } else {
        let prev = tests_in_iface(items, k - 1, item, source);
        match items[k - 1] {
            InterfaceItem::Func(f) => if marked_test(f.gates@) {
                prev.push(test_listing(f, item, k - 1, source))
            } else {
                prev
            },
            _ => prev,
        }
    }
}

/// The tests of the interfaces among the first `k` items of a file.
pub open spec fn tests_in_file(items: Seq<TopLevelItem>, k: int, source: &str) -> Seq<TestListing>
    decreases k,
{
    if k <= 0 || k > items.len() {
        Seq::empty()
    } else {
        let prev = tests_in_file(items, k - 1, source);
        match items[k - 1] {
            TopLevelItem::Interface(i) => prev + tests_in_iface(i.items@, i.items@.len() as int, k - 1, source),
            _ => prev,
        }
    }
}

/// Every test function of the file starts and ends on character boundaries
/// of `source`.
pub open spec fn test_spans_ok(items: Seq<TopLevelItem>, source: &str) -> bool {
    forall|i: int, j: int|
        0 <= i < items.len() && #[trigger] items[i] is Interface && 0 <= j < items[i]->Interface_0.items@.len()
            && #[trigger] items[i]->Interface_0.items@[j] is Func ==> {
            let f = items[i]->Interface_0.items@[j]->Func_0;
            marked_test(f.gates@) ==> offset_on_boundary(source, f.span.start) && offset_on_boundary(
                source,
                f.span.end,
            )
        }
}

fn tests_in_iface_upto(
    items: &Vec<InterfaceItem>,
    k: usize,
    item: usize,
    source: &str,
    out: &mut Vec<ListedTest>,
)
    requires
        k <= items@.len(),
        source@.len() < usize::MAX,
        source@.len() < i64::MAX,
        forall|j: int|
            0 <= j < k && #[trigger] items@[j] is Func ==> (marked_test(items@[j]->Func_0.gates@)
                ==> offset_on_boundary(source, items@[j]->Func_0.span.start) && offset_on_boundary(
                source,
                items@[j]->Func_0.span.end,
            )),
    ensures
        listing_views(final(out)@) == listing_views(old(out)@) + tests_in_iface(items@, k as int, item as int, source),
    decreases k,
{
    if k > 0 {
        tests_in_iface_upto(items, k - 1, item, source, out);
        let ghost mid = listing_views(out@);
        match &items[k - 1] {
            InterfaceItem::Func(f) => {
                if is_test(&f.gates) {
                    assert(items@[k - 1] is Func);
                    let start = source_position(source, f.span.start);
                    let end = source_position(source, f.span.end);
                    let t = ListedTest {
                        name: f.name.name.clone(),
                        line: start.line,
                        end_line: end.line,
                        item,
                        member: k - 1,
                    };
                    out.push(t);
                    assert(listing_views(out@) =~= mid.push(t@));
                }
            },
            _ => {},
        }
    }
    proof {
        if k == 0 {
            assert(listing_views(out@) =~= listing_views(old(out)@) + Seq::<TestListing>::empty());
        }
    }
}

fn tests_in_file_upto(items: &Vec<TopLevelItem>, k: usize, source: &str, out: &mut Vec<ListedTest>)
    requires
        k <= items@.len(),
        source@.len() < usize::MAX,
        source@.len() < i64::MAX,
        test_spans_ok(items@, source),
    ensures
        listing_views(final(out)@) == listing_views(old(out)@) + tests_in_file(items@, k as int, source),
    decreases k,
{
    if k > 0 {
        tests_in_file_upto(items, k - 1, source, out);
        match &items[k - 1] {
            TopLevelItem::Interface(i) => {
                assert(items@[k - 1] is Interface);
                assert forall|j: int|
                    0 <= j < i.items@.len() && #[trigger] i.items@[j] is Func implies (marked_test(
                        i.items@[j]->Func_0.gates@,
                    ) ==> offset_on_boundary(source, i.items@[j]->Func_0.span.start) && offset_on_boundary(
                        source,
                        i.items@[j]->Func_0.span.end,
                    )) by {
                    assert(items@[k - 1]->Interface_0.items@[j] is Func);
                }
                tests_in_iface_upto(&i.items, i.items.len(), k - 1, source, out);
            },
            _ => {},
        }
    } else {
        assert(listing_views(out@) =~= listing_views(old(out)@) + Seq::<TestListing>::empty());
    }
}

/// The lines of a list of tests.
pub open spec fn listing_lines(s: Seq<TestListing>) -> Seq<int> {
    s.map_values(|t: TestListing| t.line)
}

/// `out` is `input` sorted stably by first line.
pub open spec fn tests_sorted(out: Seq<TestListing>, input: Seq<TestListing>) -> bool {
    exists|perm: Seq<int>|
        #[trigger] stable_perm(listing_lines(input), perm) && out.len() == input.len() && forall|k: int|
            0 <= k < out.len() ==> out[k] == input[#[trigger] perm[k]]
}

/// The tests of a file, ordered by first line (keeping file order among
/// tests on the same line).
pub fn list_tests_from_ast(file: &WitFile, source: &str) -> (r: Vec<ListedTest>)
    requires
        source@.len() < usize::MAX,
        source@.len() < i64::MAX,
        test_spans_ok(file.items@, source),
    ensures
        tests_sorted(listing_views(r@), tests_in_file(file.items@, file.items@.len() as int, source)),
{
    let mut listed: Vec<ListedTest> = Vec::new();
    tests_in_file_upto(&file.items, file.items.len(), source, &mut listed);
    let ghost input = listing_views(listed@);
    assert(input =~= tests_in_file(file.items@, file.items@.len() as int, source));
    let mut keys: Vec<i128> = Vec::new();
    let mut i: usize = 0;
    while i < listed.len()
        invariant
            i <= listed@.len(),
            input == listing_views(listed@),
            keys@.len() == i,
            forall|q: int| 0 <= q < i ==> keys@[q] as int == #[trigger] input[q].line,
        decreases listed@.len() - i,
    {
        keys.push(listed[i].line as i128);
        i = i + 1;
    }
    let perm = stable_sort_indices(&keys);
    assert(key_ints(keys@) =~= listing_lines(input));
    let mut r: Vec<ListedTest> = Vec::new();
    let mut j: usize = 0;
    while j < perm.len()
        invariant
            j <= perm@.len() == listed@.len(),
            input == listing_views(listed@),
            stable_perm(listing_lines(input), index_ints(perm@)),
            r@.len() == j,
            forall|q: int| 0 <= q < j ==> listing_views(r@)[q] == input[#[trigger] index_ints(perm@)[q]],
        decreases perm@.len() - j,
    {
        assert(index_ints(perm@)[j as int] == perm@[j as int] as int);
        let t = &listed[perm[j]];
        r.push(ListedTest { name: t.name.clone(), line: t.line, end_line: t.end_line, item: t.item, member: t.member });
        j = j + 1;
    }
    assert(tests_sorted(listing_views(r@), input)) by {
        let p = index_ints(perm@);
        assert forall|q: int| 0 <= q < r@.len() implies listing_views(r@)[q] == input[#[trigger] p[q]] by {}
    }
    r
}

} // verus!
