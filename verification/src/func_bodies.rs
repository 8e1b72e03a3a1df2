//! The view of an interface's function bodies that the search for
//! inherited constraints reads, taken from the syntax tree.
use vstd::prelude::*;
use crate::ast;
use crate::diagnostics::Span;
use crate::ast::{InterfaceItem, Param};
use crate::constraints::{string_views, ParamConstraint};
use crate::inherited::{funcs_ok, BodyExpr, FuncDef, Statement};
use crate::body_check::expr_span_of;
use crate::numbers::{decimal, push_decimal};
use crate::text::{push_str, string_of};

verus! {

/// `b` is the view of the expression `e`: the kinds the search tells apart
/// keep their shape, names and values; every other expression is `Other`.
pub open spec fn proj_expr(e: ast::Expr, b: BodyExpr) -> bool
    decreases e, 0int,
{
    match e {
        ast::Expr::Integer(n, _) => b == BodyExpr::Integer(n),
        ast::Expr::Ident(id) => match b {
            BodyExpr::Ident(x) => x@ == id.name@,
            _ => false,
        },
        ast::Expr::Neg(inner, _) => match b {
            BodyExpr::Neg(bi) => proj_expr(*inner, *bi),
            _ => false,
        },
        ast::Expr::Not(inner, _) => match b {
            BodyExpr::Not { inner: bi, .. } => proj_expr(*inner, *bi),
            _ => false,
        },
        ast::Expr::Binary { lhs, op, rhs, .. } => match b {
            BodyExpr::Binary { lhs: bl, op: bo, rhs: br, .. } => bo == op && proj_expr(*lhs, *bl)
                && proj_expr(*rhs, *br),
            _ => false,
        },
        ast::Expr::Call { func, args, .. } => match b {
            BodyExpr::Call { func: bf, args: ba, .. } => {
                proof {
                    vstd::std_specs::vec::axiom_vec_decreases_to_view(args);
                }
                proj_expr(*func, *bf) && ba@.len() == args@.len() && proj_args(
                    args@,
                    ba@,
                    args@.len() as int,
                )
            },
            _ => false,
        },
        ast::Expr::If { cond, then_branch, else_branch, .. } => match b {
            BodyExpr::If { cond: bc, then_branch: bt, else_branch: be, .. } => {
                proof {
                    vstd::std_specs::vec::axiom_vec_decreases_to_view(then_branch);
                }
                &&& proj_expr(*cond, *bc)
                &&& bt@.len() == then_branch@.len()
                &&& proj_stmts(then_branch@, bt@, then_branch@.len() as int)
                &&& match else_branch {
                    Some(x) => {
                        proof {
                            vstd::std_specs::vec::axiom_vec_decreases_to_view(x);
                        }
                        match be {
                            Some(y) => y@.len() == x@.len() && proj_stmts(x@, y@, x@.len() as int),
                            None => false,
                        }
                    },
                    None => be is None,
                }
            },
            _ => false,
        },
        _ => b is Other,
    }
}

/// The first `k` of `bs` are the views of the first `k` of `es`.
pub open spec fn proj_args(es: Seq<ast::Expr>, bs: Seq<BodyExpr>, k: int) -> bool
    decreases es, k,
{
    if k <= 0 || k > es.len() {
        true
    } else {
        proj_args(es, bs, k - 1) && proj_expr(es[k - 1], bs[k - 1])
    }
}

/// `b` is the view of the statement `s`.
pub open spec fn proj_stmt(s: ast::Statement, b: Statement) -> bool
    decreases s, 0int,
{
    match s {
        ast::Statement::Expr(e) => match b {
            Statement::Expr(x) => proj_expr(e, x),
            _ => false,
        },
        ast::Statement::Let { name, value } => match b {
            Statement::Let { name: n, value: v } => n@ == name.name@ && proj_expr(value, v),
            _ => false,
        },
        ast::Statement::Return(r) => match b {
            Statement::Return(rb) => match r {
                Some(x) => match rb {
                    Some(y) => proj_expr(x, y),
                    None => false,
                },
                None => rb is None,
            },
            _ => false,
        },
        ast::Statement::Guard { condition, else_body } => match b {
            Statement::Guard { condition: c, else_body: eb } => {
                proof {
                    vstd::std_specs::vec::axiom_vec_decreases_to_view(else_body);
                }
                proj_expr(condition, c) && eb@.len() == else_body@.len() && proj_stmts(
                    else_body@,
                    eb@,
                    else_body@.len() as int,
                )
            },
            _ => false,
        },
        ast::Statement::GuardLet { else_body, .. } => match b {
            Statement::GuardLet { else_body: eb } => {
                proof {
                    vstd::std_specs::vec::axiom_vec_decreases_to_view(else_body);
                }
                eb@.len() == else_body@.len() && proj_stmts(else_body@, eb@, else_body@.len() as int)
            },
            _ => false,
        },
        _ => b is Other,
    }
}

/// The first `k` of `bs` are the views of the first `k` of `ss`.
pub open spec fn proj_stmts(ss: Seq<ast::Statement>, bs: Seq<Statement>, k: int) -> bool
    decreases ss, k,
{
    if k <= 0 || k > ss.len() {
        true
    } else {
        proj_stmts(ss, bs, k - 1) && proj_stmt(ss[k - 1], bs[k - 1])
    }
}

proof fn lemma_proj_args(es: Seq<ast::Expr>, bs: Seq<BodyExpr>, k: int)
    requires
        0 <= k <= es.len(),
        forall|j: int| 0 <= j < k ==> proj_expr(#[trigger] es[j], bs[j]),
    ensures
        proj_args(es, bs, k),
    decreases k,
{
    if k > 0 {
        lemma_proj_args(es, bs, k - 1);
    }
}

proof fn lemma_proj_stmts(ss: Seq<ast::Statement>, bs: Seq<Statement>, k: int)
    requires
        0 <= k <= ss.len(),
        forall|j: int| 0 <= j < k ==> proj_stmt(#[trigger] ss[j], bs[j]),
    ensures
        proj_stmts(ss, bs, k),
    decreases k,
{
    if k > 0 {
        lemma_proj_stmts(ss, bs, k - 1);
    }
}

/// How an expression that is not named otherwise is rendered: by where it
/// stands in the source, `expression at start..end`.
pub open spec fn span_text(span: Span) -> Seq<char> {
    "expression at "@ + decimal(span.start as nat) + ".."@ + decimal(span.end as nat)
}

/// How an expression that is not named otherwise is rendered: by where it
/// stands in the source.
fn span_label(span: Span) -> (s: String)
    ensures
        s@ == span_text(span),
{
    let mut v: Vec<char> = Vec::new();
    push_str(&mut v, "expression at ");
    push_decimal(&mut v, span.start as u64);
    push_str(&mut v, "..");
    push_decimal(&mut v, span.end as u64);
    assert(v@ =~= span_text(span));
    string_of(v.as_slice())
}

/// The view of an expression.
pub fn project_expr(e: &ast::Expr) -> (b: BodyExpr)
    ensures
        proj_expr(*e, b),
    decreases e, 0int,
{
    match e {
        ast::Expr::Integer(n, _) => BodyExpr::Integer(*n),
        ast::Expr::Ident(id) => BodyExpr::Ident(id.name.clone()),
        ast::Expr::Neg(inner, _) => BodyExpr::Neg(Box::new(project_expr(inner))),
        ast::Expr::Not(inner, span) => BodyExpr::Not {
            inner: Box::new(project_expr(inner)),
            text: span_label(*span),
        },
        ast::Expr::Binary { lhs, op, rhs, span } => BodyExpr::Binary {
            lhs: Box::new(project_expr(lhs)),
            op: *op,
            rhs: Box::new(project_expr(rhs)),
            text: span_label(*span),
        },
        ast::Expr::Call { func, args, span } => {
            let f = project_expr(func);
            let a = project_args(args);
            BodyExpr::Call { func: Box::new(f), args: a, text: span_label(*span) }
        },
        ast::Expr::If { cond, then_branch, else_branch, span } => {
            let c = project_expr(cond);
            let t = project_stmts(then_branch);
            let el = match else_branch {
                Some(x) => Some(project_stmts(x)),
                None => None,
            };
            BodyExpr::If {
                cond: Box::new(c),
                then_branch: t,
                else_branch: el,
                text: span_label(*span),
            }
        },
        _ => BodyExpr::Other(span_label(expr_span_of(e))),
    }
}

/// The views of a list of expressions.
pub fn project_args(es: &Vec<ast::Expr>) -> (bs: Vec<BodyExpr>)
    ensures
        bs@.len() == es@.len(),
        proj_args(es@, bs@, es@.len() as int),
    decreases es, 1int,
{
    let mut bs: Vec<BodyExpr> = Vec::new();
    let mut i: usize = 0;
    while i < es.len()
        invariant
            i <= es@.len(),
            bs@.len() == i,
            forall|j: int| 0 <= j < i ==> proj_expr(#[trigger] es@[j], bs@[j]),
        decreases es@.len() - i,
    {
        proof {
            vstd::std_specs::vec::axiom_vec_index_decreases(*es, i as int);
        }
        let b = project_expr(&es[i]);
        bs.push(b);
        i = i + 1;
    }
    proof {
        lemma_proj_args(es@, bs@, es@.len() as int);
    }
    bs
}

/// The view of a statement.
pub fn project_stmt(s: &ast::Statement) -> (b: Statement)
    ensures
        proj_stmt(*s, b),
    decreases s, 0int,
{
    match s {
        ast::Statement::Expr(e) => Statement::Expr(project_expr(e)),
        ast::Statement::Let { name, value } => Statement::Let {
            name: name.name.clone(),
            value: project_expr(value),
        },
        ast::Statement::Return(r) => match r {
            Some(x) => Statement::Return(Some(project_expr(x))),
            None => Statement::Return(None),
        },
        ast::Statement::Guard { condition, else_body } => {
            let c = project_expr(condition);
            let eb = project_stmts(else_body);
            Statement::Guard { condition: c, else_body: eb }
        },
        ast::Statement::GuardLet { else_body, .. } => Statement::GuardLet {
            else_body: project_stmts(else_body),
        },
        _ => Statement::Other,
    }
}

/// The views of a list of statements.
pub fn project_stmts(ss: &Vec<ast::Statement>) -> (bs: Vec<Statement>)
    ensures
        bs@.len() == ss@.len(),
        proj_stmts(ss@, bs@, ss@.len() as int),
    decreases ss, 1int,
{
    let mut bs: Vec<Statement> = Vec::new();
    let mut i: usize = 0;
    while i < ss.len()
        invariant
            i <= ss@.len(),
            bs@.len() == i,
            forall|j: int| 0 <= j < i ==> proj_stmt(#[trigger] ss@[j], bs@[j]),
        decreases ss@.len() - i,
    {
        proof {
            vstd::std_specs::vec::axiom_vec_index_decreases(*ss, i as int);
        }
        let b = project_stmt(&ss[i]);
        bs.push(b);
        i = i + 1;
    }
    proof {
        lemma_proj_stmts(ss@, bs@, ss@.len() as int);
    }
    bs
}


// ---------------------------------------------------------------------------
// The functions of an interface
// ---------------------------------------------------------------------------

/// The functions among the first `k` items of an interface.
pub open spec fn iface_funcs(items: Seq<InterfaceItem>, k: int) -> Seq<ast::Func>
    decreases k,
{
    if k <= 0 || k > items.len() {
        Seq::empty()
    } else {
        let prev = iface_funcs(items, k - 1);
        match items[k - 1] {
            InterfaceItem::Func(f) => prev.push(f),
            _ => prev,
        }
    }
}

/// The names of a list of parameters.
pub open spec fn param_names(ps: Seq<Param>) -> Seq<Seq<char>> {
    ps.map_values(|p: Param| p.name.name@)
}

/// `d` is the view of the function `f`: its name, its parameter names and
/// the view of its body.
pub open spec fn proj_func(f: ast::Func, d: FuncDef) -> bool {
    &&& d.name@ == f.name.name@
    &&& string_views(d.params@) == param_names(f.params@)
    &&& match f.body {
        Some(b) => match d.body {
            Some(db) => db@.len() == b@.len() && proj_stmts(b@, db@, b@.len() as int),
            None => false,
        },
        None => d.body is None,
    }
}

/// `fs` are the views of the functions of an interface, in order.
pub open spec fn proj_funcs(items: Seq<InterfaceItem>, fs: Seq<FuncDef>) -> bool {
    let fns = iface_funcs(items, items.len() as int);
    &&& fs.len() == fns.len()
    &&& forall|i: int| 0 <= i < fs.len() ==> proj_func(fns[i], #[trigger] fs[i])
}

/// Finding what each function of the interface inherits stays in the `i64`
/// range, whatever constraints and parameters the called functions have.
pub open spec fn inherit_ok(items: Seq<InterfaceItem>) -> bool {
    forall|fs: Seq<FuncDef>, fc: Map<Seq<char>, Vec<ParamConstraint>>, fp: Map<Seq<char>, Vec<String>>|
        proj_funcs(items, fs) ==> #[trigger] funcs_ok(fs, fc, fp)
}

fn param_name_list(ps: &Vec<Param>) -> (r: Vec<String>)
    ensures
        string_views(r@) == param_names(ps@),
{
    let mut r: Vec<String> = Vec::new();
    let mut i: usize = 0;
    while i < ps.len()
        invariant
            i <= ps@.len(),
            string_views(r@) == param_names(ps@.take(i as int)),
        decreases ps@.len() - i,
    {
        r.push(ps[i].name.name.clone());
        assert(param_names(ps@.take(i + 1)) =~= param_names(ps@.take(i as int)).push(ps@[i as int].name.name@));
        assert(string_views(r@) =~= param_names(ps@.take(i + 1)));
        i = i + 1;
    }
    assert(ps@.take(i as int) =~= ps@);
    r
}

/// The view of a function.
pub fn project_func(f: &ast::Func) -> (d: FuncDef)
    ensures
        proj_func(*f, d),
{
    FuncDef {
        name: f.name.name.clone(),
        params: param_name_list(&f.params),
        body: match &f.body {
            Some(b) => Some(project_stmts(b)),
            None => None,
        },
    }
}

/// The views of the functions of an interface, in order.
pub fn project_funcs(items: &Vec<InterfaceItem>) -> (fs: Vec<FuncDef>)
    ensures
        proj_funcs(items@, fs@),
{
    let mut fs: Vec<FuncDef> = Vec::new();
    let mut k: usize = 0;
    while k < items.len()
        invariant
            k <= items@.len(),
            fs@.len() == iface_funcs(items@, k as int).len(),
            forall|i: int| 0 <= i < fs@.len() ==> proj_func(iface_funcs(items@, k as int)[i], #[trigger] fs@[i]),
        decreases items@.len() - k,
    {
        match &items[k] {
            InterfaceItem::Func(f) => {
                let d = project_func(f);
                fs.push(d);
            },
            _ => {},
        }
        k = k + 1;
    }
    fs
}

} // verus!
