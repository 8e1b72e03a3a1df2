//! Checking function bodies: the executable type checker for expressions
//! and statements, proved to compute what `body_spec` states.
use vstd::prelude::*;
use crate::ast::{Expr, MatchArm, Pattern, SimdOp, Statement, StringPart};
use crate::body_spec::{
    arm_check, arms_check, assert_check, assignable, atomic_add_check, atomic_block_check,
    atomic_compare_exchange_check, atomic_load_check, atomic_notify_check, atomic_store_check,
    atomic_sub_check, atomic_wait_check, await_check, binary_check, binary_result, bind, bind_all, block_check,
    block_exits, call_constraints, call_expr_check, call_head, cargs, cexpr, clist, deepen,
    elem_of, err, expect, expr_check, expr_span, exprs_check, field_check, field_names_check,
    field_result, fields_check, filter_check, for_check, for_each_check, function_variable,
    guard_binding, guard_else, guard_exit_message, guard_let_exit_message, ident_check,
    iface_return, if_check, if_result, in_loop, index_check, interpolated_string_check,
    items_check, kind_of, lambda_check, lemma_arm_ok, lemma_arms_ok, lemma_block_ok,
    lemma_expr_ok, lemma_exprs_ok, lemma_field_names_ok, lemma_guard_else_ok, lemma_in_loop_ok,
    lemma_items_ok, lemma_lambda1_ok, lemma_lambda2_ok, lemma_stmt_ok, lemma_tail_ok, list_len_check, list_literal_check,
    list_push_check, list_set_check, local_names, local_type, loop_exit, map_list_check,
    match_check, merge_arm, mismatch, neg_check, no_span, not_check, optional_chain_check,
    optional_chain_result, parts_check, pattern_check, range_check, record_literal_check,
    reduce_check, restore, simd_for_each_check, simd_op_check, slice_check, spawn_check,
    stmt_check, stmt_exits, str_eq_check, str_len_check, tail_check, thread_join_check,
    try_check, value_matches, variant_literal_check, variant_result, while_check, Env, State,
};
use crate::call_check::{diag_view, DiagView};
use crate::checked::{
    binop_debug, checked_debug, checked_eq, clone_checked, push_binop_debug, push_checked_debug,
    same_checked,
};
use crate::constraints;
use crate::constraints::{const_value, BinOp};
use crate::diagnostics::{Diagnostic, DiagnosticCode, Severity, Span};
use crate::hush::{hush_views, HushComment};
use crate::interfaces::{check_call_in_interface, InterfaceInfo};
use crate::name_map::{entries_map, NameMap};
use crate::numbers::push_decimal;
use crate::text::{chars_of, push_str, str_eq, string_of};
use crate::types::{
    checked_of, is_numeric, numeric, opt_view, resolve_type_info, ty_to_checked, CheckedType, Id,
    TypeKind, TypeTable,
};

verus! {

/// What body checking reads and does not change.
pub struct Ctx<'a> {
    pub types: &'a TypeTable,
    pub interfaces: &'a NameMap<InterfaceInfo>,
    pub current_interface: Option<&'a str>,
    pub return_type: Option<&'a CheckedType>,
    pub in_test: bool,
    pub hush: &'a [HushComment],
    pub offsets: &'a [usize],
}

impl<'a> Ctx<'a> {
    /// The context as a value.
    pub open spec fn env(&self) -> Env {
        Env {
            types: self.types@,
            interfaces: self.interfaces@,
            current_interface: opt_view(self.current_interface),
            return_type: match self.return_type {
                Some(t) => Some(*t),
                None => None,
            },
            in_test: self.in_test,
            hush: hush_views(self.hush@),
            offsets: self.offsets@,
        }
    }

    /// The tables are well formed and the first line starts at offset 0.
    pub open spec fn wf(&self) -> bool {
        &&& self.types.wf()
        &&& self.interfaces.wf()
        &&& forall|k: Seq<char>| #[trigger] self.interfaces@.contains_key(k) ==> self.interfaces@[k].wf()
        &&& forall|k: (Option<Seq<char>>, Seq<char>)|
            #[trigger] self.types@.contains_key(k) ==> kind_wf(self.types@[k].kind)
        &&& self.offsets@.len() > 0 ==> self.offsets@[0] == 0
    }
}

/// The name tables of a type definition have no duplicate names.
pub open spec fn kind_wf(k: TypeKind) -> bool {
    match k {
        TypeKind::Record { fields } => fields.wf(),
        TypeKind::Variant { cases } => cases.wf(),
        _ => true,
    }
}

/// What body checking changes.
pub struct Scope {
    pub locals: NameMap<CheckedType>,
    pub constants: NameMap<i64>,
    pub diagnostics: Vec<Diagnostic>,
    pub loop_depth: usize,
    pub in_guard_let: bool,
}

/// The views of a list of diagnostics.
pub open spec fn diags_of(s: Seq<Diagnostic>) -> Seq<DiagView> {
    s.map_values(|d: Diagnostic| diag_view(d))
}

impl Scope {
    /// The scope as a value.
    pub open spec fn state(&self) -> State {
        State {
            locals: self.locals.entries@,
            constants: self.constants@,
            diags: diags_of(self.diagnostics@),
            loop_depth: self.loop_depth as int,
            in_guard_let: self.in_guard_let,
            ok: true,
        }
    }

    /// No name is bound twice.
    pub open spec fn wf(&self) -> bool {
        self.locals.wf() && self.constants.wf()
    }
}

// ---------------------------------------------------------------------------
// Small steps
// ---------------------------------------------------------------------------

pub(crate) fn push_diag(sc: &mut Scope, msg: Vec<char>, span: Span, code: DiagnosticCode)
    requires
        old(sc).wf(),
    ensures
        final(sc).wf(),
        final(sc).state() == err(old(sc).state(), msg@, span, code),
{
    let d = Diagnostic::error(string_of(msg.as_slice()), span, code);
    let ghost before = sc.diagnostics@;
    sc.diagnostics.push(d);
    assert(diags_of(sc.diagnostics@) =~= diags_of(before).push(diag_view(d)));
}

pub(crate) fn push_text_error(sc: &mut Scope, msg: &str, span: Span, code: DiagnosticCode)
    requires
        old(sc).wf(),
    ensures
        final(sc).wf(),
        final(sc).state() == err(old(sc).state(), msg@, span, code),
{
    let m = chars_of(msg);
    push_diag(sc, m, span, code);
}

/// `prefix` followed by how `t` prints.
pub(crate) fn with_type(prefix: &str, t: &CheckedType) -> (r: Vec<char>)
    ensures
        r@ == prefix@ + checked_debug(*t),
{
    let mut m: Vec<char> = Vec::new();
    push_str(&mut m, prefix);
    push_checked_debug(&mut m, t);
    m
}

pub(crate) fn push_string(out: &mut Vec<char>, s: &String)
    ensures
        final(out)@ == old(out)@ + s@,
{
    push_str(out, s.as_str());
}

fn expect_type(sc: &mut Scope, is_want: bool, t: &CheckedType, prefix: &str, span: Span)
    requires
        old(sc).wf(),
    ensures
        final(sc).wf(),
        final(sc).state() == expect(is_want, *t, prefix@, span, old(sc).state()),
{
    if !is_want && !matches!(t, CheckedType::Unknown) {
        push_diag(sc, with_type(prefix, t), span, DiagnosticCode::TypeMismatch);
    }
}

fn lookup_local(sc: &Scope, name: &String) -> (r: Option<CheckedType>)
    requires
        sc.wf(),
    ensures
        r == local_type(sc.state(), name@),
{
    let key = chars_of(name.as_str());
    match sc.locals.get(key.as_slice()) {
        Some(t) => Some(clone_checked(t)),
        None => None,
    }
}

fn bind_local(sc: &mut Scope, name: &String, t: CheckedType)
    requires
        old(sc).wf(),
    ensures
        final(sc).wf(),
        final(sc).state() == bind(old(sc).state(), *name, t),
{
    sc.locals.insert(name.clone(), t);
}

/// A copy of a scope's locals.
pub(crate) fn copy_locals(m: &NameMap<CheckedType>) -> (r: NameMap<CheckedType>)
    requires
        m.wf(),
    ensures
        r.wf(),
        r.entries@ == m.entries@,
{
    let mut entries: Vec<(String, CheckedType)> = Vec::new();
    let mut i: usize = 0;
    while i < m.entries.len()
        invariant
            i <= m.entries@.len(),
            entries@ == m.entries@.take(i as int),
        decreases m.entries@.len() - i,
    {
        let name = m.entries[i].0.clone();
        let t = clone_checked(&m.entries[i].1);
        entries.push((name, t));
        assert(m.entries@.take(i + 1) =~= m.entries@.take(i as int).push(m.entries@[i as int]));
        i = i + 1;
    }
    assert(m.entries@.take(i as int) =~= m.entries@);
    NameMap { entries }
}

/// A copy of the locals in scope.
fn save_locals(sc: &Scope) -> (r: NameMap<CheckedType>)
    requires
        sc.wf(),
    ensures
        r.wf(),
        r.entries@ == sc.locals.entries@,
{
    copy_locals(&sc.locals)
}

fn restore_locals(sc: &mut Scope, saved: NameMap<CheckedType>)
    requires
        old(sc).wf(),
        saved.wf(),
    ensures
        final(sc).wf(),
        final(sc).state() == restore(old(sc).state(), saved.entries@),
{
    sc.locals = saved;
}

fn elem_type(sc: &mut Scope, t: &CheckedType, prefix: &str, span: Span) -> (r: CheckedType)
    requires
        old(sc).wf(),
    ensures
        final(sc).wf(),
        (r, final(sc).state()) == elem_of(*t, old(sc).state(), prefix@, span),
{
    match t {
        CheckedType::List(inner) => clone_checked(inner),
        CheckedType::Unknown => CheckedType::Unknown,
        _ => {
            push_diag(sc, with_type(prefix, t), span, DiagnosticCode::TypeMismatch);
            CheckedType::Unknown
        },
    }
}

fn kind_lookup<'a>(ctx: &'a Ctx, name: &str) -> (r: Option<&'a TypeKind>)
    requires
        ctx.wf(),
    ensures
        match r {
            Some(k) => kind_of(ctx.env(), name@) == Some(*k) && kind_wf(*k),
            None => kind_of(ctx.env(), name@) is None,
        },
{
    match resolve_type_info(ctx.types, ctx.current_interface, name) {
        Some(i) => Some(&i.kind),
        None => None,
    }
}

fn interface_return(ctx: &Ctx, iface: &str, func: &str) -> (r: Option<CheckedType>)
    requires
        ctx.wf(),
    ensures
        r == iface_return(ctx.env(), iface@, func@),
{
    let ik = chars_of(iface);
    match ctx.interfaces.get(ik.as_slice()) {
        Some(i) => {
            let fk = chars_of(func);
            match i.function_returns.get(fk.as_slice()) {
                Some(t) => Some(clone_checked(t)),
                None => None,
            }
        },
        None => None,
    }
}

/// The constraint-checking view of an expression.
pub fn to_constraint_expr(e: &Expr) -> (r: constraints::Expr)
    ensures
        r == cexpr(*e),
    decreases e, 0int,
{
    match e {
        Expr::Integer(n, _) => constraints::Expr::Integer(*n),
        Expr::Ident(id) => constraints::Expr::Ident(id.name.clone()),
        Expr::String(s, _) => constraints::Expr::Text(s.clone()),
        Expr::Neg(inner, _) => constraints::Expr::Neg(Box::new(to_constraint_expr(inner))),
        Expr::Not(inner, _) => constraints::Expr::Not(Box::new(to_constraint_expr(inner))),
        Expr::Binary { lhs, op, rhs, .. } => constraints::Expr::Binary {
            lhs: Box::new(to_constraint_expr(lhs)),
            op: *op,
            rhs: Box::new(to_constraint_expr(rhs)),
        },
        Expr::Call { func, args, .. } => {
            let f = to_constraint_expr(func);
            let a = to_constraint_list(args, 0);
            constraints::Expr::Call { func: Box::new(f), args: a }
        },
        _ => constraints::Expr::Other,
    }
}

fn to_constraint_list(es: &Vec<Expr>, i: usize) -> (r: constraints::ExprList)
    requires
        i <= es@.len(),
    ensures
        r == clist(es@, i as int),
    decreases es, es@.len() - i,
{
    if i >= es.len() {
        constraints::ExprList::Nil
    } else {
        let h = to_constraint_expr(&es[i]);
        let t = to_constraint_list(es, i + 1);
        constraints::ExprList::Cons(Box::new(h), Box::new(t))
    }
}

fn constraint_args(es: &Vec<Expr>) -> (r: Vec<constraints::Expr>)
    ensures
        r@ == cargs(es@),
{
    let mut r: Vec<constraints::Expr> = Vec::new();
    let mut i: usize = 0;
    while i < es.len()
        invariant
            i <= es@.len(),
            r@ == cargs(es@).take(i as int),
        decreases es@.len() - i,
    {
        r.push(to_constraint_expr(&es[i]));
        assert(cargs(es@).take(i + 1) =~= cargs(es@).take(i as int).push(cexpr(es@[i as int])));
        i = i + 1;
    }
    assert(cargs(es@).take(i as int) =~= cargs(es@));
    r
}

fn local_name_list(sc: &Scope) -> (r: Vec<String>)
    ensures
        r@ == local_names(sc.locals.entries@),
{
    let mut r: Vec<String> = Vec::new();
    let mut i: usize = 0;
    while i < sc.locals.entries.len()
        invariant
            i <= sc.locals.entries@.len(),
            r@ == local_names(sc.locals.entries@).take(i as int),
        decreases sc.locals.entries@.len() - i,
    {
        r.push(sc.locals.entries[i].0.clone());
        assert(local_names(sc.locals.entries@).take(i + 1) =~= local_names(sc.locals.entries@).take(
            i as int,
        ).push(sc.locals.entries@[i as int].0));
        i = i + 1;
    }
    assert(local_names(sc.locals.entries@).take(i as int) =~= local_names(sc.locals.entries@));
    r
}

pub(crate) fn append_diags(sc: &mut Scope, extra: Vec<Diagnostic>)
    requires
        old(sc).wf(),
    ensures
        final(sc).wf(),
        final(sc).state() == (State {
            diags: old(sc).state().diags + diags_of(extra@),
            ..old(sc).state()
        }),
{
    let mut extra = extra;
    let ghost before = sc.diagnostics@;
    let ghost ex = extra@;
    sc.diagnostics.append(&mut extra);
    assert(diags_of(sc.diagnostics@) =~= diags_of(before) + diags_of(ex));
}

/// Checks a call of `id` against the current interface's constraints.
fn check_call_constraints_in(ctx: &Ctx, sc: &mut Scope, id: &Id, args: &Vec<Expr>, span: Span)
    requires
        ctx.wf(),
        old(sc).wf(),
        call_constraints(*id, args@, span, old(sc).state(), ctx.env()).ok,
    ensures
        final(sc).wf(),
        final(sc).state() == call_constraints(*id, args@, span, old(sc).state(), ctx.env()),
{
    let iface: Option<&InterfaceInfo> = match ctx.current_interface {
        Some(n) => {
            let nk = chars_of(n);
            ctx.interfaces.get(nk.as_slice())
        },
        None => None,
    };
    let ca = constraint_args(args);
    let names = local_name_list(sc);
    let found = check_call_in_interface(
        sc.in_guard_let,
        iface,
        id,
        ca.as_slice(),
        span,
        &sc.constants,
        &names,
        ctx.in_test,
        ctx.hush,
        ctx.offsets,
    );
    append_diags(sc, found);
}


// ---------------------------------------------------------------------------
// Results of single constructs
// ---------------------------------------------------------------------------

fn operator_error(sc: &mut Scope, op: BinOp, middle: &str, t: &CheckedType, span: Span)
    requires
        old(sc).wf(),
    ensures
        final(sc).wf(),
        final(sc).state() == err(
            old(sc).state(),
            "Operator "@ + binop_debug(op) + middle@ + checked_debug(*t),
            span,
            DiagnosticCode::InvalidOperator,
        ),
{
    let mut m: Vec<char> = Vec::new();
    push_str(&mut m, "Operator ");
    push_binop_debug(&mut m, op);
    push_str(&mut m, middle);
    push_checked_debug(&mut m, t);
    push_diag(sc, m, span, DiagnosticCode::InvalidOperator);
}

fn binary_result_exec(sc: &mut Scope, op: BinOp, lt: CheckedType, rt: CheckedType, span: Span) -> (r:
    CheckedType)
    requires
        old(sc).wf(),
    ensures
        final(sc).wf(),
        (r, final(sc).state()) == binary_result(op, lt, rt, span, old(sc).state()),
{
    match op {
        BinOp::Add => {
            if matches!(lt, CheckedType::String) && matches!(rt, CheckedType::String) {
                CheckedType::String
            } else if !is_numeric(&lt) {
                operator_error(sc, op, " requires numeric or string type, got ", &lt, span);
                lt
            } else {
                lt
            }
        },
        BinOp::Sub | BinOp::Mul | BinOp::Div => {
            if !is_numeric(&lt) {
                operator_error(sc, op, " requires numeric type, got ", &lt, span);
            }
            lt
        },
        BinOp::And | BinOp::Or => {
            if !matches!(lt, CheckedType::Bool) {
                operator_error(sc, op, " requires bool, got ", &lt, span);
            }
            if !matches!(rt, CheckedType::Bool) {
                operator_error(sc, op, " requires bool, got ", &rt, span);
            }
            CheckedType::Bool
        },
        _ => CheckedType::Bool,
    }
}

fn if_result_exec(sc: &mut Scope, tt: CheckedType, et: Option<CheckedType>, span: Span) -> (r:
    CheckedType)
    requires
        old(sc).wf(),
    ensures
        final(sc).wf(),
        (r, final(sc).state()) == if_result(tt, et, span, old(sc).state()),
{
    match et {
        Some(e) => {
            let same = checked_eq(&tt, &e);
            if !matches!(tt, CheckedType::Unknown) && !matches!(e, CheckedType::Unknown) && !same {
                let mut m: Vec<char> = Vec::new();
                push_str(&mut m, "If branch type mismatch: then is ");
                push_checked_debug(&mut m, &tt);
                push_str(&mut m, ", else is ");
                push_checked_debug(&mut m, &e);
                push_diag(sc, m, span, DiagnosticCode::TypeMismatch);
                CheckedType::Unknown
            } else if same {
                tt
            } else {
                CheckedType::Unknown
            }
        },
        None => CheckedType::Unknown,
    }
}

fn names_contain_str(names: &Vec<String>, x: &String) -> (b: bool)
    ensures
        b == crate::constraints::string_views(names@).contains(x@),
{
    crate::constraints::names_contain(names, x.as_str())
}

fn field_result_exec(ctx: &Ctx, sc: &mut Scope, t: CheckedType, field: &Id, span: Span) -> (r:
    CheckedType)
    requires
        ctx.wf(),
        old(sc).wf(),
    ensures
        final(sc).wf(),
        (r, final(sc).state()) == field_result(t, *field, span, old(sc).state(), ctx.env()),
{
    match &t {
        CheckedType::Interface(iname) => {
            let ik = chars_of(iname.as_str());
            match ctx.interfaces.get(ik.as_slice()) {
                Some(i) => {
                    if !names_contain_str(&i.functions, &field.name) && !names_contain_str(
                        &i.types,
                        &field.name,
                    ) {
                        let mut m: Vec<char> = Vec::new();
                        push_str(&mut m, "Interface '");
                        push_string(&mut m, iname);
                        push_str(&mut m, "' does not export '");
                        push_string(&mut m, &field.name);
                        push_str(&mut m, "'");
                        push_diag(sc, m, span, DiagnosticCode::UnknownVariable);
                    }
                },
                None => {},
            }
            CheckedType::Unknown
        },
        CheckedType::Named(tn) => {
            match kind_lookup(ctx, tn.as_str()) {
                Some(TypeKind::Record { fields }) => {
                    let fk = chars_of(field.name.as_str());
                    match fields.get(fk.as_slice()) {
                        Some(fty) => ty_to_checked(fty),
                        None => {
                            let mut m: Vec<char> = Vec::new();
                            push_str(&mut m, "Record type '");
                            push_string(&mut m, tn);
                            push_str(&mut m, "' has no field '");
                            push_string(&mut m, &field.name);
                            push_str(&mut m, "'");
                            push_diag(sc, m, span, DiagnosticCode::UnknownVariable);
                            CheckedType::Unknown
                        },
                    }
                },
                _ => CheckedType::Unknown,
            }
        },
        _ => CheckedType::Unknown,
    }
}

fn field_names_exec(
    sc: &mut Scope,
    fs: &Vec<(Id, Expr)>,
    expected: &NameMap<crate::types::Ty>,
    name: &String,
    span: Span,
)
    requires
        old(sc).wf(),
        expected.wf(),
    ensures
        final(sc).wf(),
        final(sc).state() == field_names_check(
            fs@,
            fs@.len() as int,
            expected@,
            name@,
            span,
            old(sc).state(),
        ),
{
    let ghost st0 = sc.state();
    let mut k: usize = 0;
    while k < fs.len()
        invariant
            k <= fs@.len(),
            sc.wf(),
            expected.wf(),
            sc.state() == field_names_check(fs@, k as int, expected@, name@, span, st0),
        decreases fs@.len() - k,
    {
        let fk = chars_of(fs[k].0.name.as_str());
        if !expected.contains(fk.as_slice()) {
            let mut m: Vec<char> = Vec::new();
            push_str(&mut m, "Unknown field '");
            push_string(&mut m, &fs[k].0.name);
            push_str(&mut m, "' in record type '");
            push_string(&mut m, name);
            push_str(&mut m, "'");
            push_diag(sc, m, span, DiagnosticCode::TypeMismatch);
        }
        k = k + 1;
    }
}

fn case_message(name: &String, case: &String, tail: &str) -> (r: Vec<char>)
    ensures
        r@ == "Case '"@ + name@ + "#"@ + case@ + tail@,
{
    let mut m: Vec<char> = Vec::new();
    push_str(&mut m, "Case '");
    push_string(&mut m, name);
    push_str(&mut m, "#");
    push_string(&mut m, case);
    push_str(&mut m, tail);
    m
}

fn unknown_case_message(case: &String, name: &String) -> (r: Vec<char>)
    ensures
        r@ == "Unknown case '"@ + case@ + "' in variant type '"@ + name@ + "'"@,
{
    let mut m: Vec<char> = Vec::new();
    push_str(&mut m, "Unknown case '");
    push_string(&mut m, case);
    push_str(&mut m, "' in variant type '");
    push_string(&mut m, name);
    push_str(&mut m, "'");
    m
}

fn prefixed(before: &str, name: &String) -> (r: Vec<char>)
    ensures
        r@ == before@ + name@,
{
    let mut m: Vec<char> = Vec::new();
    push_str(&mut m, before);
    push_string(&mut m, name);
    m
}

fn quoted_message(before: &str, name: &String, after: &str) -> (r: Vec<char>)
    ensures
        r@ == before@ + name@ + after@,
{
    let mut m: Vec<char> = Vec::new();
    push_str(&mut m, before);
    push_string(&mut m, name);
    push_str(&mut m, after);
    m
}

fn variant_result_exec(
    ctx: &Ctx,
    sc: &mut Scope,
    tid: &Id,
    case_name: &Id,
    has_payload: bool,
    span: Span,
) -> (r: CheckedType)
    requires
        ctx.wf(),
        old(sc).wf(),
    ensures
        final(sc).wf(),
        (r, final(sc).state()) == variant_result(
            *tid,
            *case_name,
            has_payload,
            span,
            old(sc).state(),
            ctx.env(),
        ),
{
    match kind_lookup(ctx, tid.name.as_str()) {
        Some(TypeKind::Variant { cases }) => {
            let ck = chars_of(case_name.name.as_str());
            match cases.get(ck.as_slice()) {
                None => {
                    push_diag(
                        sc,
                        unknown_case_message(&case_name.name, &tid.name),
                        span,
                        DiagnosticCode::TypeMismatch,
                    );
                },
                Some(expects) => {
                    if *expects && !has_payload {
                        push_diag(
                            sc,
                            case_message(&tid.name, &case_name.name, "' requires a payload"),
                            span,
                            DiagnosticCode::TypeMismatch,
                        );
                    } else if !*expects && has_payload {
                        push_diag(
                            sc,
                            case_message(&tid.name, &case_name.name, "' does not accept a payload"),
                            span,
                            DiagnosticCode::TypeMismatch,
                        );
                    }
                },
            }
            if str_eq(tid.name.as_str(), "result") {
                match ctx.return_type {
                    Some(rt) => {
                        if matches!(rt, CheckedType::Result { .. }) {
                            return clone_checked(rt);
                        }
                    },
                    None => {},
                }
            }
            CheckedType::Named(tid.name.clone())
        },
        Some(_) => {
            push_diag(
                sc,
                quoted_message("Type '", &tid.name, "' is not a variant"),
                span,
                DiagnosticCode::TypeMismatch,
            );
            CheckedType::Named(tid.name.clone())
        },
        None => {
            push_diag(
                sc,
                prefixed("Unknown type: ", &tid.name),
                span,
                DiagnosticCode::UnknownType,
            );
            CheckedType::Unknown
        },
    }
}

fn pattern_exec(ctx: &Ctx, sc: &mut Scope, p: &Pattern)
    requires
        ctx.wf(),
        old(sc).wf(),
    ensures
        final(sc).wf(),
        final(sc).state() == pattern_check(*p, old(sc).state(), ctx.env()),
{
    match p {
        Pattern::Variant { ty_name, case_name, binding, span } => {
            match ty_name {
                Some(tid) => {
                    match kind_lookup(ctx, tid.name.as_str()) {
                        Some(TypeKind::Variant { cases }) => {
                            let ck = chars_of(case_name.name.as_str());
                            match cases.get(ck.as_slice()) {
                                None => {
                                    push_diag(
                                        sc,
                                        unknown_case_message(&case_name.name, &tid.name),
                                        *span,
                                        DiagnosticCode::TypeMismatch,
                                    );
                                },
                                Some(expects) => {
                                    if *expects && binding.is_none() {
                                        push_diag(
                                            sc,
                                            case_message(
                                                &tid.name,
                                                &case_name.name,
                                                "' pattern requires a binding for payload",
                                            ),
                                            *span,
                                            DiagnosticCode::TypeMismatch,
                                        );
                                    } else if !*expects && binding.is_some() {
                                        push_diag(
                                            sc,
                                            case_message(
                                                &tid.name,
                                                &case_name.name,
                                                "' pattern must not bind a payload",
                                            ),
                                            *span,
                                            DiagnosticCode::TypeMismatch,
                                        );
                                    }
                                },
                            }
                        },
                        Some(_) => {
                            push_diag(
                                sc,
                                quoted_message("Type '", &tid.name, "' is not a variant"),
                                *span,
                                DiagnosticCode::TypeMismatch,
                            );
                        },
                        None => {
                            push_diag(
                                sc,
                                prefixed("Unknown type: ", &tid.name),
                                *span,
                                DiagnosticCode::UnknownType,
                            );
                        },
                    }
                },
                None => {},
            }
            match binding {
                Some(b) => bind_local(sc, &b.name, CheckedType::Unknown),
                None => {},
            }
        },
        Pattern::Other => {},
    }
}

fn merge_arm_exec(inferred: Option<CheckedType>, ar: CheckedType) -> (r: Option<CheckedType>)
    ensures
        r == merge_arm(inferred, ar),
{
    if matches!(ar, CheckedType::Unknown) {
        inferred
    } else {
        match inferred {
            Some(ex) => {
                if !checked_eq(&ex, &ar) {
                    Some(CheckedType::Unknown)
                } else {
                    Some(ex)
                }
            },
            None => Some(ar),
        }
    }
}

fn guard_binding_type(sc: &mut Scope, vt: CheckedType, span: Span) -> (r: CheckedType)
    requires
        old(sc).wf(),
    ensures
        final(sc).wf(),
        (r, final(sc).state()) == guard_binding(vt, span, old(sc).state()),
{
    match vt {
        CheckedType::Option(i) => *i,
        CheckedType::Result { ok, .. } => match ok {
            Some(i) => *i,
            None => {
                push_text_error(
                    sc,
                    "Guard let requires option<T> or result<T, E> with an `ok` payload",
                    span,
                    DiagnosticCode::TypeMismatch,
                );
                CheckedType::Unknown
            },
        },
        CheckedType::Unknown => CheckedType::Unknown,
        _ => {
            push_diag(
                sc,
                with_type("Guard let requires option<T> or result<T, E>, got ", &vt),
                span,
                DiagnosticCode::TypeMismatch,
            );
            CheckedType::Unknown
        },
    }
}

/// Where an expression stands in the source.
pub fn expr_span_of(e: &Expr) -> (r: Span)
    ensures
        r == expr_span(*e),
{
    match e {
        Expr::Ident(id) => id.span,
        Expr::Integer(_, span) => *span,
        Expr::String(_, span) => *span,
        Expr::InterpolatedString(_, span) => *span,
        Expr::Bool(_, span) => *span,
        Expr::Assert(_, span) => *span,
        Expr::Not(_, span) => *span,
        Expr::Neg(_, span) => *span,
        Expr::StrLen(_, span) => *span,
        Expr::ListLen(_, span) => *span,
        Expr::StrEq(_, _, span) => *span,
        Expr::ListSet(_, _, _, span) => *span,
        Expr::ListPush(_, _, span) => *span,
        Expr::Call { span, .. } => *span,
        Expr::Field { span, .. } => *span,
        Expr::OptionalChain { span, .. } => *span,
        Expr::Try { span, .. } => *span,
        Expr::Binary { span, .. } => *span,
        Expr::If { span, .. } => *span,
        Expr::Lambda { span, .. } => *span,
        Expr::MapList { span, .. } => *span,
        Expr::Filter { span, .. } => *span,
        Expr::Reduce { span, .. } => *span,
        Expr::RecordLiteral { span, .. } => *span,
        Expr::VariantLiteral { span, .. } => *span,
        Expr::Match { span, .. } => *span,
        Expr::While { span, .. } => *span,
        Expr::Range { span, .. } => *span,
        Expr::For { span, .. } => *span,
        Expr::ListLiteral { span, .. } => *span,
        Expr::Index { span, .. } => *span,
        Expr::Slice { span, .. } => *span,
        Expr::ForEach { span, .. } => *span,
        Expr::Await { span, .. } => *span,
        Expr::AtomicLoad { span, .. } => *span,
        Expr::AtomicStore { span, .. } => *span,
        Expr::AtomicAdd { span, .. } => *span,
        Expr::AtomicSub { span, .. } => *span,
        Expr::AtomicCompareExchange { span, .. } => *span,
        Expr::AtomicWait { span, .. } => *span,
        Expr::AtomicNotify { span, .. } => *span,
        Expr::Spawn { span, .. } => *span,
        Expr::ThreadJoin { span, .. } => *span,
        Expr::AtomicBlock { span, .. } => *span,
        Expr::SimdOp { span, .. } => *span,
        Expr::SimdForEach { span, .. } => *span,
    }
}

/// Whether a block leaves the scope, at loop depth `depth`.
pub fn block_exits_scope(stmts: &Vec<Statement>, depth: usize) -> (b: bool)
    ensures
        b == block_exits(stmts@, depth as int),
    decreases stmts, 1int,
{
    if stmts.len() == 0 {
        false
    } else {
        statement_exits_scope(&stmts[stmts.len() - 1], depth)
    }
}

/// Whether a statement leaves the scope, at loop depth `depth`.
pub fn statement_exits_scope(s: &Statement, depth: usize) -> (b: bool)
    ensures
        b == stmt_exits(*s, depth as int),
    decreases s, 0int,
{
    match s {
        Statement::Return(_) => true,
        Statement::Break { .. } => depth > 0,
        Statement::Continue { .. } => depth > 0,
        Statement::Expr(e) => match e {
            Expr::If { then_branch, else_branch, .. } => match else_branch {
                Some(eb) => block_exits_scope(then_branch, depth) && block_exits_scope(eb, depth),
                None => false,
            },
            _ => false,
        },
        _ => false,
    }
}

fn value_matches_exec(
    sc: &mut Scope,
    elem: &CheckedType,
    val: &CheckedType,
    what: &str,
    span: Span,
)
    requires
        old(sc).wf(),
    ensures
        final(sc).wf(),
        final(sc).state() == value_matches(*elem, *val, what@, span, old(sc).state()),
{
    if !matches!(elem, CheckedType::Unknown) && !matches!(val, CheckedType::Unknown) && !checked_eq(
        elem,
        val,
    ) {
        let mut m: Vec<char> = Vec::new();
        push_str(&mut m, what);
        push_str(&mut m, " value type ");
        push_checked_debug(&mut m, val);
        push_str(&mut m, " doesn't match element type ");
        push_checked_debug(&mut m, elem);
        push_diag(sc, m, span, DiagnosticCode::TypeMismatch);
    }
}

fn function_variable_exec(sc: &mut Scope, id: &Id, span: Span)
    requires
        old(sc).wf(),
    ensures
        final(sc).wf(),
        final(sc).state() == function_variable(*id, span, old(sc).state()),
{
    if lookup_local(sc, &id.name).is_none() {
        push_diag(
            sc,
            prefixed("unknown function variable: ", &id.name),
            span,
            DiagnosticCode::TypeMismatch,
        );
    }
}

fn optional_chain_exec(ctx: &Ctx, sc: &mut Scope, t: CheckedType, field: &Id) -> (r: CheckedType)
    requires
        ctx.wf(),
        old(sc).wf(),
    ensures
        final(sc).wf(),
        (r, final(sc).state()) == optional_chain_result(t, *field, old(sc).state(), ctx.env()),
{
    match &t {
        CheckedType::Option(inner) => match &**inner {
            CheckedType::Named(tn) => match kind_lookup(ctx, tn.as_str()) {
                Some(TypeKind::Record { fields }) => {
                    let fk = chars_of(field.name.as_str());
                    match fields.get(fk.as_slice()) {
                        Some(fty) => CheckedType::Option(Box::new(ty_to_checked(fty))),
                        None => {
                            let mut m: Vec<char> = Vec::new();
                            push_str(&mut m, "Record type '");
                            push_string(&mut m, tn);
                            push_str(&mut m, "' has no field '");
                            push_string(&mut m, &field.name);
                            push_str(&mut m, "'");
                            push_diag(sc, m, field.span, DiagnosticCode::UnknownVariable);
                            CheckedType::Unknown
                        },
                    }
                },
                _ => CheckedType::Unknown,
            },
            _ => CheckedType::Unknown,
        },
        CheckedType::Unknown => CheckedType::Unknown,
        _ => {
            push_text_error(
                sc,
                "Optional chaining requires option value",
                field.span,
                DiagnosticCode::TypeMismatch,
            );
            CheckedType::Unknown
        },
    }
}

fn assignable_exec(sc: &mut Scope, name: &Id)
    requires
        old(sc).wf(),
    ensures
        final(sc).wf(),
        final(sc).state() == assignable(*name, old(sc).state()),
{
    if lookup_local(sc, &name.name).is_none() {
        push_diag(
            sc,
            prefixed("Cannot assign to undefined variable: ", &name.name),
            name.span,
            DiagnosticCode::UnknownVariable,
        );
    }
}


// ---------------------------------------------------------------------------
// Checking expressions
// ---------------------------------------------------------------------------

/// The type of `e`, recording what checking it finds and binds.
pub fn check_expr(ctx: &Ctx, sc: &mut Scope, e: &Expr) -> (t: CheckedType)
    requires
        ctx.wf(),
        old(sc).wf(),
        expr_check(*e, old(sc).state(), ctx.env()).1.ok,
    ensures
        final(sc).wf(),
        (t, final(sc).state()) == expr_check(*e, old(sc).state(), ctx.env()),
    decreases e, 2int,
{
    match e {
        Expr::Integer(..) => CheckedType::I32,
        Expr::String(..) => CheckedType::String,
        Expr::Bool(..) => CheckedType::Bool,
        Expr::InterpolatedString(..) => {
            proof {
                reveal(interpolated_string_check);
            }
            check_interpolated(ctx, sc, e)
        },
        Expr::Ident(..) => {
            proof {
                reveal(ident_check);
            }
            check_ident(ctx, sc, e)
        },
        Expr::Binary { .. } => {
            proof {
                reveal(binary_check);
            }
            check_binary(ctx, sc, e)
        },
        Expr::If { .. } => {
            proof {
                reveal(if_check);
            }
            check_if(ctx, sc, e)
        },
        Expr::Call { .. } => {
            proof {
                reveal(call_expr_check);
            }
            check_call(ctx, sc, e)
        },
        Expr::Field { .. } => {
            proof {
                reveal(field_check);
            }
            check_field(ctx, sc, e)
        },
        Expr::Assert(..) => {
            proof {
                reveal(assert_check);
            }
            check_assert(ctx, sc, e)
        },
        Expr::Not(..) => {
            proof {
                reveal(not_check);
            }
            check_not(ctx, sc, e)
        },
        Expr::Neg(..) => {
            proof {
                reveal(neg_check);
            }
            check_neg(ctx, sc, e)
        },
        Expr::StrLen(..) => {
            proof {
                reveal(str_len_check);
            }
            check_str_len(ctx, sc, e)
        },
        Expr::StrEq(..) => {
            proof {
                reveal(str_eq_check);
            }
            check_str_eq(ctx, sc, e)
        },
        Expr::ListLen(..) => {
            proof {
                reveal(list_len_check);
            }
            check_list_len(ctx, sc, e)
        },
        Expr::ListSet(..) => {
            proof {
                reveal(list_set_check);
            }
            check_list_set(ctx, sc, e)
        },
        Expr::ListPush(..) => {
            proof {
                reveal(list_push_check);
            }
            check_list_push(ctx, sc, e)
        },
        Expr::Lambda { .. } => {
            proof {
                reveal(lambda_check);
            }
            check_lambda(ctx, sc, e)
        },
        Expr::MapList { .. } => {
            proof {
                reveal(map_list_check);
            }
            check_map_list(ctx, sc, e)
        },
        Expr::Filter { .. } => {
            proof {
                reveal(filter_check);
            }
            check_filter(ctx, sc, e)
        },
        Expr::Reduce { .. } => {
            proof {
                reveal(reduce_check);
            }
            check_reduce(ctx, sc, e)
        },
        Expr::RecordLiteral { .. } => {
            proof {
                reveal(record_literal_check);
            }
            check_record_literal(ctx, sc, e)
        },
        Expr::VariantLiteral { .. } => {
            proof {
                reveal(variant_literal_check);
            }
            check_variant_literal(ctx, sc, e)
        },
        Expr::Match { .. } => {
            proof {
                reveal(match_check);
            }
            check_match(ctx, sc, e)
        },
        Expr::While { .. } => {
            proof {
                reveal(while_check);
            }
            check_while(ctx, sc, e)
        },
        Expr::Range { .. } => {
            proof {
                reveal(range_check);
            }
            check_range(ctx, sc, e)
        },
        Expr::For { .. } => {
            proof {
                reveal(for_check);
            }
            check_for(ctx, sc, e)
        },
        Expr::ForEach { .. } => {
            proof {
                reveal(for_each_check);
            }
            check_for_each(ctx, sc, e)
        },
        Expr::ListLiteral { .. } => {
            proof {
                reveal(list_literal_check);
            }
            check_list_literal(ctx, sc, e)
        },
        Expr::Index { .. } => {
            proof {
                reveal(index_check);
            }
            check_index(ctx, sc, e)
        },
        Expr::Slice { .. } => {
            proof {
                reveal(slice_check);
            }
            check_slice(ctx, sc, e)
        },
        Expr::OptionalChain { .. } => {
            proof {
                reveal(optional_chain_check);
            }
            check_optional_chain(ctx, sc, e)
        },
        Expr::Try { .. } => {
            proof {
                reveal(try_check);
            }
            check_try(ctx, sc, e)
        },
        Expr::Await { .. } => {
            proof {
                reveal(await_check);
            }
            check_await(ctx, sc, e)
        },
        Expr::AtomicLoad { .. } => {
            proof {
                reveal(atomic_load_check);
            }
            check_atomic_load(ctx, sc, e)
        },
        Expr::AtomicStore { .. } => {
            proof {
                reveal(atomic_store_check);
            }
            check_atomic_store(ctx, sc, e)
        },
        Expr::AtomicAdd { .. } => {
            proof {
                reveal(atomic_add_check);
            }
            check_atomic_add(ctx, sc, e)
        },
        Expr::AtomicSub { .. } => {
            proof {
                reveal(atomic_sub_check);
            }
            check_atomic_sub(ctx, sc, e)
        },
        Expr::AtomicCompareExchange { .. } => {
            proof {
                reveal(atomic_compare_exchange_check);
            }
            check_atomic_compare_exchange(ctx, sc, e)
        },
        Expr::AtomicWait { .. } => {
            proof {
                reveal(atomic_wait_check);
            }
            check_atomic_wait(ctx, sc, e)
        },
        Expr::AtomicNotify { .. } => {
            proof {
                reveal(atomic_notify_check);
            }
            check_atomic_notify(ctx, sc, e)
        },
        Expr::Spawn { .. } => {
            proof {
                reveal(spawn_check);
            }
            check_spawn(ctx, sc, e)
        },
        Expr::ThreadJoin { .. } => {
            proof {
                reveal(thread_join_check);
            }
            check_thread_join(ctx, sc, e)
        },
        Expr::AtomicBlock { .. } => {
            proof {
                reveal(atomic_block_check);
            }
            check_atomic_block(ctx, sc, e)
        },
        Expr::SimdOp { .. } => {
            proof {
                reveal(simd_op_check);
            }
            check_simd_op(ctx, sc, e)
        },
        Expr::SimdForEach { .. } => {
            proof {
                reveal(simd_for_each_check);
            }
            check_simd_for_each(ctx, sc, e)
        },
    }
}

fn check_interpolated(ctx: &Ctx, sc: &mut Scope, e: &Expr) -> (t: CheckedType)
    requires
        ctx.wf(),
        old(sc).wf(),
        e is InterpolatedString,
        interpolated_string_check(*e, old(sc).state(), ctx.env()).1.ok,
    ensures
        final(sc).wf(),
        (t, final(sc).state()) == interpolated_string_check(*e, old(sc).state(), ctx.env()),
    decreases e, 1int,
{
    proof {
        reveal(interpolated_string_check);
    }
    match e {
        Expr::InterpolatedString(parts, _) => {
            check_parts_upto(ctx, sc, parts, parts.len());
            CheckedType::String
        },
        _ => CheckedType::Unknown,
    }
}

fn check_ident(ctx: &Ctx, sc: &mut Scope, e: &Expr) -> (t: CheckedType)
    requires
        ctx.wf(),
        old(sc).wf(),
        e is Ident,
    ensures
        final(sc).wf(),
        (t, final(sc).state()) == ident_check(*e, old(sc).state(), ctx.env()),
{
    proof {
        reveal(ident_check);
    }
    match e {
        Expr::Ident(id) => match lookup_local(sc, &id.name) {
            Some(t) => t,
            None => {
                push_diag(
                    sc,
                    prefixed("Unknown variable: ", &id.name),
                    id.span,
                    DiagnosticCode::UnknownVariable,
                );
                CheckedType::Unknown
            },
        },
        _ => CheckedType::Unknown,
    }
}

fn check_binary(ctx: &Ctx, sc: &mut Scope, e: &Expr) -> (t: CheckedType)
    requires
        ctx.wf(),
        old(sc).wf(),
        e is Binary,
        binary_check(*e, old(sc).state(), ctx.env()).1.ok,
    ensures
        final(sc).wf(),
        (t, final(sc).state()) == binary_check(*e, old(sc).state(), ctx.env()),
    decreases e, 1int,
{
    proof {
        reveal(binary_check);
    }
    match e {
        Expr::Binary { lhs, op, rhs, span } => {
            proof {
                lemma_expr_ok(**rhs, expr_check(**lhs, old(sc).state(), ctx.env()).1, ctx.env());
            }
            let lt = check_expr(ctx, sc, lhs);
            let rt = check_expr(ctx, sc, rhs);
            binary_result_exec(sc, *op, lt, rt, *span)
        },
        _ => CheckedType::Unknown,
    }
}

fn check_if(ctx: &Ctx, sc: &mut Scope, e: &Expr) -> (t: CheckedType)
    requires
        ctx.wf(),
        old(sc).wf(),
        e is If,
        if_check(*e, old(sc).state(), ctx.env()).1.ok,
    ensures
        final(sc).wf(),
        (t, final(sc).state()) == if_check(*e, old(sc).state(), ctx.env()),
    decreases e, 1int,
{
    proof {
        reveal(if_check);
    }
    match e {
        Expr::If { cond, then_branch, else_branch, span } => {
            let ghost env = ctx.env();
            let ghost st0 = sc.state();
            let ghost r1 = expr_check(**cond, st0, env);
            let ghost s2 = expect(r1.0 is Bool, r1.0, "If condition requires bool, got "@, *span, r1.1);
            let ghost r3 = tail_check(then_branch@, then_branch@.len() as int, s2, env);
            proof {
                match else_branch {
                    Some(es) => {
                        lemma_tail_ok(es@, es@.len() as int, restore(r3.1, s2.locals), env);
                    },
                    None => {},
                }
                lemma_tail_ok(then_branch@, then_branch@.len() as int, s2, env);
            }
            let ct = check_expr(ctx, sc, cond);
            expect_type(sc, matches!(ct, CheckedType::Bool), &ct, "If condition requires bool, got ", *span);
            let saved = save_locals(sc);
            let tt = check_tail_upto(ctx, sc, then_branch, then_branch.len());
            match else_branch {
                Some(es) => {
                    let again = copy_locals(&saved);
                    restore_locals(sc, saved);
                    let et = check_tail_upto(ctx, sc, es, es.len());
                    restore_locals(sc, again);
                    if_result_exec(sc, tt, Some(et), *span)
                },
                None => {
                    restore_locals(sc, saved);
                    if_result_exec(sc, tt, None, *span)
                },
            }
        },
        _ => CheckedType::Unknown,
    }
}

fn call_head_exec(ctx: &Ctx, sc: &mut Scope, f: &Expr) -> (t: CheckedType)
    requires
        ctx.wf(),
        old(sc).wf(),
        call_head(*f, old(sc).state(), ctx.env()).1.ok,
    ensures
        final(sc).wf(),
        (t, final(sc).state()) == call_head(*f, old(sc).state(), ctx.env()),
    decreases f, 3int,
{
    match f {
        Expr::Ident(id) => match lookup_local(sc, &id.name) {
            Some(t) => t,
            None => {
                let found = match ctx.current_interface {
                    Some(n) => interface_return(ctx, n, id.name.as_str()),
                    None => None,
                };
                match found {
                    Some(t) => t,
                    None => {
                        push_diag(
                            sc,
                            prefixed("Unknown variable: ", &id.name),
                            id.span,
                            DiagnosticCode::UnknownVariable,
                        );
                        CheckedType::Unknown
                    },
                }
            },
        },
        Expr::Field { expr, field, .. } => {
            let _ = check_expr(ctx, sc, f);
            match &**expr {
                Expr::Ident(iid) => match interface_return(ctx, iid.name.as_str(), field.name.as_str()) {
                    Some(t) => t,
                    None => CheckedType::Unknown,
                },
                _ => CheckedType::Unknown,
            }
        },
        _ => {
            let _ = check_expr(ctx, sc, f);
            CheckedType::Unknown
        },
    }
}

fn check_call(ctx: &Ctx, sc: &mut Scope, e: &Expr) -> (t: CheckedType)
    requires
        ctx.wf(),
        old(sc).wf(),
        e is Call,
        call_expr_check(*e, old(sc).state(), ctx.env()).1.ok,
    ensures
        final(sc).wf(),
        (t, final(sc).state()) == call_expr_check(*e, old(sc).state(), ctx.env()),
    decreases e, 1int,
{
    proof {
        reveal(call_expr_check);
    }
    match e {
        Expr::Call { func, args, span } => {
            let ghost env = ctx.env();
            let ghost r1 = call_head(**func, sc.state(), env);
            proof {
                lemma_exprs_ok(args@, args@.len() as int, r1.1, env);
            }
            let rt = call_head_exec(ctx, sc, func);
            check_exprs_upto(ctx, sc, args, args.len());
            match &**func {
                Expr::Ident(id) => check_call_constraints_in(ctx, sc, id, args, *span),
                _ => {},
            }
            rt
        },
        _ => CheckedType::Unknown,
    }
}

fn check_field(ctx: &Ctx, sc: &mut Scope, e: &Expr) -> (t: CheckedType)
    requires
        ctx.wf(),
        old(sc).wf(),
        e is Field,
        field_check(*e, old(sc).state(), ctx.env()).1.ok,
    ensures
        final(sc).wf(),
        (t, final(sc).state()) == field_check(*e, old(sc).state(), ctx.env()),
    decreases e, 1int,
{
    proof {
        reveal(field_check);
    }
    match e {
        Expr::Field { expr, field, span } => {
            let et = check_expr(ctx, sc, expr);
            field_result_exec(ctx, sc, et, field, *span)
        },
        _ => CheckedType::Unknown,
    }
}

fn check_assert(ctx: &Ctx, sc: &mut Scope, e: &Expr) -> (t: CheckedType)
    requires
        ctx.wf(),
        old(sc).wf(),
        e is Assert,
        assert_check(*e, old(sc).state(), ctx.env()).1.ok,
    ensures
        final(sc).wf(),
        (t, final(sc).state()) == assert_check(*e, old(sc).state(), ctx.env()),
    decreases e, 1int,
{
    proof {
        reveal(assert_check);
    }
    match e {
        Expr::Assert(cond, span) => {
            let ct = check_expr(ctx, sc, cond);
            expect_type(
                sc,
                matches!(ct, CheckedType::Bool),
                &ct,
                "Assert requires bool condition, got ",
                *span,
            );
            CheckedType::Bool
        },
        _ => CheckedType::Unknown,
    }
}

fn check_not(ctx: &Ctx, sc: &mut Scope, e: &Expr) -> (t: CheckedType)
    requires
        ctx.wf(),
        old(sc).wf(),
        e is Not,
        not_check(*e, old(sc).state(), ctx.env()).1.ok,
    ensures
        final(sc).wf(),
        (t, final(sc).state()) == not_check(*e, old(sc).state(), ctx.env()),
    decreases e, 1int,
{
    proof {
        reveal(not_check);
    }
    match e {
        Expr::Not(inner, span) => {
            let it = check_expr(ctx, sc, inner);
            expect_type(sc, matches!(it, CheckedType::Bool), &it, "Negation requires bool, got ", *span);
            CheckedType::Bool
        },
        _ => CheckedType::Unknown,
    }
}

fn check_neg(ctx: &Ctx, sc: &mut Scope, e: &Expr) -> (t: CheckedType)
    requires
        ctx.wf(),
        old(sc).wf(),
        e is Neg,
        neg_check(*e, old(sc).state(), ctx.env()).1.ok,
    ensures
        final(sc).wf(),
        (t, final(sc).state()) == neg_check(*e, old(sc).state(), ctx.env()),
    decreases e, 1int,
{
    proof {
        reveal(neg_check);
    }
    match e {
        Expr::Neg(inner, span) => {
            let it = check_expr(ctx, sc, inner);
            let n = is_numeric(&it);
            expect_type(sc, n, &it, "Unary minus requires numeric type, got ", *span);
            CheckedType::I32
        },
        _ => CheckedType::Unknown,
    }
}

fn check_str_len(ctx: &Ctx, sc: &mut Scope, e: &Expr) -> (t: CheckedType)
    requires
        ctx.wf(),
        old(sc).wf(),
        e is StrLen,
        str_len_check(*e, old(sc).state(), ctx.env()).1.ok,
    ensures
        final(sc).wf(),
        (t, final(sc).state()) == str_len_check(*e, old(sc).state(), ctx.env()),
    decreases e, 1int,
{
    proof {
        reveal(str_len_check);
    }
    match e {
        Expr::StrLen(inner, span) => {
            let it = check_expr(ctx, sc, inner);
            expect_type(sc, matches!(it, CheckedType::String), &it, "str-len requires string, got ", *span);
            CheckedType::I32
        },
        _ => CheckedType::Unknown,
    }
}

fn check_str_eq(ctx: &Ctx, sc: &mut Scope, e: &Expr) -> (t: CheckedType)
    requires
        ctx.wf(),
        old(sc).wf(),
        e is StrEq,
        str_eq_check(*e, old(sc).state(), ctx.env()).1.ok,
    ensures
        final(sc).wf(),
        (t, final(sc).state()) == str_eq_check(*e, old(sc).state(), ctx.env()),
    decreases e, 1int,
{
    proof {
        reveal(str_eq_check);
    }
    match e {
        Expr::StrEq(a, b, span) => {
            proof {
                lemma_expr_ok(**b, expr_check(**a, old(sc).state(), ctx.env()).1, ctx.env());
            }
            let at = check_expr(ctx, sc, a);
            let bt = check_expr(ctx, sc, b);
            expect_type(
                sc,
                matches!(at, CheckedType::String),
                &at,
                "str-eq first argument requires string, got ",
                *span,
            );
            expect_type(
                sc,
                matches!(bt, CheckedType::String),
                &bt,
                "str-eq second argument requires string, got ",
                *span,
            );
            CheckedType::Bool
        },
        _ => CheckedType::Unknown,
    }
}

fn check_list_len(ctx: &Ctx, sc: &mut Scope, e: &Expr) -> (t: CheckedType)
    requires
        ctx.wf(),
        old(sc).wf(),
        e is ListLen,
        list_len_check(*e, old(sc).state(), ctx.env()).1.ok,
    ensures
        final(sc).wf(),
        (t, final(sc).state()) == list_len_check(*e, old(sc).state(), ctx.env()),
    decreases e, 1int,
{
    proof {
        reveal(list_len_check);
    }
    match e {
        Expr::ListLen(inner, span) => {
            let it = check_expr(ctx, sc, inner);
            expect_type(sc, matches!(it, CheckedType::List(_)), &it, "list-len requires list, got ", *span);
            CheckedType::I32
        },
        _ => CheckedType::Unknown,
    }
}

fn check_list_set(ctx: &Ctx, sc: &mut Scope, e: &Expr) -> (t: CheckedType)
    requires
        ctx.wf(),
        old(sc).wf(),
        e is ListSet,
        list_set_check(*e, old(sc).state(), ctx.env()).1.ok,
    ensures
        final(sc).wf(),
        (t, final(sc).state()) == list_set_check(*e, old(sc).state(), ctx.env()),
    decreases e, 1int,
{
    proof {
        reveal(list_set_check);
    }
    match e {
        Expr::ListSet(arr, idx, val, span) => {
            let ghost env = ctx.env();
            let ghost r1 = expr_check(**arr, sc.state(), env);
            let ghost r2 = expr_check(**idx, r1.1, env);
            proof {
                lemma_expr_ok(**val, r2.1, env);
                lemma_expr_ok(**idx, r1.1, env);
            }
            let at = check_expr(ctx, sc, arr);
            let it = check_expr(ctx, sc, idx);
            let vt = check_expr(ctx, sc, val);
            let el = elem_type(sc, &at, "list-set requires list, got ", *span);
            expect_type(sc, matches!(it, CheckedType::I32), &it, "list-set index must be i32, got ", *span);
            value_matches_exec(sc, &el, &vt, "list-set", *span);
            at
        },
        _ => CheckedType::Unknown,
    }
}

fn check_list_push(ctx: &Ctx, sc: &mut Scope, e: &Expr) -> (t: CheckedType)
    requires
        ctx.wf(),
        old(sc).wf(),
        e is ListPush,
        list_push_check(*e, old(sc).state(), ctx.env()).1.ok,
    ensures
        final(sc).wf(),
        (t, final(sc).state()) == list_push_check(*e, old(sc).state(), ctx.env()),
    decreases e, 1int,
{
    proof {
        reveal(list_push_check);
    }
    match e {
        Expr::ListPush(arr, val, span) => {
            proof {
                lemma_expr_ok(**val, expr_check(**arr, old(sc).state(), ctx.env()).1, ctx.env());
            }
            let at = check_expr(ctx, sc, arr);
            let vt = check_expr(ctx, sc, val);
            let el = elem_type(sc, &at, "list-push requires list, got ", *span);
            value_matches_exec(sc, &el, &vt, "list-push", *span);
            at
        },
        _ => CheckedType::Unknown,
    }
}

fn bind_params(sc: &mut Scope, ps: &Vec<Id>)
    requires
        old(sc).wf(),
    ensures
        final(sc).wf(),
        final(sc).state() == bind_all(ps@, ps@.len() as int, old(sc).state(), CheckedType::I32),
{
    let ghost st0 = sc.state();
    let mut k: usize = 0;
    while k < ps.len()
        invariant
            k <= ps@.len(),
            sc.wf(),
            sc.state() == bind_all(ps@, k as int, st0, CheckedType::I32),
        decreases ps@.len() - k,
    {
        bind_local(sc, &ps[k].name, CheckedType::I32);
        k = k + 1;
    }
}

fn check_lambda(ctx: &Ctx, sc: &mut Scope, e: &Expr) -> (t: CheckedType)
    requires
        ctx.wf(),
        old(sc).wf(),
        e is Lambda,
        lambda_check(*e, old(sc).state(), ctx.env()).1.ok,
    ensures
        final(sc).wf(),
        (t, final(sc).state()) == lambda_check(*e, old(sc).state(), ctx.env()),
    decreases e, 1int,
{
    proof {
        reveal(lambda_check);
    }
    match e {
        Expr::Lambda { params, body, .. } => {
            let saved = save_locals(sc);
            bind_params(sc, params);
            let _ = check_expr(ctx, sc, body);
            restore_locals(sc, saved);
            CheckedType::Unknown
        },
        _ => CheckedType::Unknown,
    }
}

fn check_map_list(ctx: &Ctx, sc: &mut Scope, e: &Expr) -> (t: CheckedType)
    requires
        ctx.wf(),
        old(sc).wf(),
        e is MapList,
        map_list_check(*e, old(sc).state(), ctx.env()).1.ok,
    ensures
        final(sc).wf(),
        (t, final(sc).state()) == map_list_check(*e, old(sc).state(), ctx.env()),
    decreases e, 1int,
{
    proof {
        reveal(map_list_check);
    }
    match e {
        Expr::MapList { list, lambda, span } => {
            let ghost env = ctx.env();
            let ghost r1 = expr_check(**list, sc.state(), env);
            let ghost r2 = elem_of(r1.0, r1.1, "map requires a list, got "@, *span);
            proof {
                lemma_lambda1_ok(**lambda, r2.1, r2.0, env);
            }
            let lt = check_expr(ctx, sc, list);
            let el = elem_type(sc, &lt, "map requires a list, got ", *span);
            match &**lambda {
                Expr::Lambda { params, body, .. } => {
                    let saved = save_locals(sc);
                    if params.len() > 0 {
                        bind_local(sc, &params[0].name, el);
                    }
                    let bt = check_expr(ctx, sc, body);
                    restore_locals(sc, saved);
                    CheckedType::List(Box::new(bt))
                },
                Expr::Ident(id) => {
                    function_variable_exec(sc, id, *span);
                    CheckedType::List(Box::new(el))
                },
                _ => {
                    push_text_error(
                        sc,
                        "map requires a lambda expression as second argument",
                        *span,
                        DiagnosticCode::TypeMismatch,
                    );
                    lt
                },
            }
        },
        _ => CheckedType::Unknown,
    }
}

fn check_filter(ctx: &Ctx, sc: &mut Scope, e: &Expr) -> (t: CheckedType)
    requires
        ctx.wf(),
        old(sc).wf(),
        e is Filter,
        filter_check(*e, old(sc).state(), ctx.env()).1.ok,
    ensures
        final(sc).wf(),
        (t, final(sc).state()) == filter_check(*e, old(sc).state(), ctx.env()),
    decreases e, 1int,
{
    proof {
        reveal(filter_check);
    }
    match e {
        Expr::Filter { list, lambda, span } => {
            let ghost env = ctx.env();
            let ghost r1 = expr_check(**list, sc.state(), env);
            let ghost r2 = elem_of(r1.0, r1.1, "filter requires a list, got "@, *span);
            proof {
                lemma_lambda1_ok(**lambda, r2.1, r2.0, env);
            }
            let lt = check_expr(ctx, sc, list);
            let el = elem_type(sc, &lt, "filter requires a list, got ", *span);
            match &**lambda {
                Expr::Lambda { params, body, .. } => {
                    let saved = save_locals(sc);
                    if params.len() > 0 {
                        bind_local(sc, &params[0].name, el);
                    }
                    let _ = check_expr(ctx, sc, body);
                    restore_locals(sc, saved);
                    lt
                },
                Expr::Ident(id) => {
                    function_variable_exec(sc, id, *span);
                    lt
                },
                _ => {
                    push_text_error(
                        sc,
                        "filter requires a lambda expression",
                        *span,
                        DiagnosticCode::TypeMismatch,
                    );
                    lt
                },
            }
        },
        _ => CheckedType::Unknown,
    }
}

fn check_reduce(ctx: &Ctx, sc: &mut Scope, e: &Expr) -> (t: CheckedType)
    requires
        ctx.wf(),
        old(sc).wf(),
        e is Reduce,
        reduce_check(*e, old(sc).state(), ctx.env()).1.ok,
    ensures
        final(sc).wf(),
        (t, final(sc).state()) == reduce_check(*e, old(sc).state(), ctx.env()),
    decreases e, 1int,
{
    proof {
        reveal(reduce_check);
    }
    match e {
        Expr::Reduce { list, init, lambda, span } => {
            let ghost env = ctx.env();
            let ghost r1 = expr_check(**list, sc.state(), env);
            let ghost r2 = expr_check(**init, r1.1, env);
            let ghost r3 = elem_of(r1.0, r2.1, "reduce requires a list, got "@, *span);
            proof {
                lemma_expr_ok(**init, r1.1, env);
                lemma_lambda2_ok(**lambda, r3.1, r2.0, r3.0, env);
            }
            let lt = check_expr(ctx, sc, list);
            let it = check_expr(ctx, sc, init);
            let el = elem_type(sc, &lt, "reduce requires a list, got ", *span);
            match &**lambda {
                Expr::Lambda { params, body, .. } => {
                    let saved = save_locals(sc);
                    if params.len() >= 2 {
                        bind_local(sc, &params[0].name, clone_checked(&it));
                        bind_local(sc, &params[1].name, el);
                    } else if params.len() > 0 {
                        bind_local(sc, &params[0].name, clone_checked(&it));
                    }
                    let _ = check_expr(ctx, sc, body);
                    restore_locals(sc, saved);
                    it
                },
                Expr::Ident(id) => {
                    function_variable_exec(sc, id, *span);
                    it
                },
                _ => {
                    push_text_error(
                        sc,
                        "reduce requires a lambda expression with 2 params",
                        *span,
                        DiagnosticCode::TypeMismatch,
                    );
                    it
                },
            }
        },
        _ => CheckedType::Unknown,
    }
}

fn check_record_literal(ctx: &Ctx, sc: &mut Scope, e: &Expr) -> (t: CheckedType)
    requires
        ctx.wf(),
        old(sc).wf(),
        e is RecordLiteral,
        record_literal_check(*e, old(sc).state(), ctx.env()).1.ok,
    ensures
        final(sc).wf(),
        (t, final(sc).state()) == record_literal_check(*e, old(sc).state(), ctx.env()),
    decreases e, 1int,
{
    proof {
        reveal(record_literal_check);
    }
    match e {
        Expr::RecordLiteral { ty_name, fields, span } => {
            let ghost env = ctx.env();
            let ghost s1 = fields_check(fields@, fields@.len() as int, sc.state(), env);
            proof {
                match ty_name {
                    Some(tid) => match kind_of(env, tid.name@) {
                        Some(TypeKind::Record { fields: ef }) => {
                            lemma_field_names_ok(fields@, fields@.len() as int, ef@, tid.name@, *span, s1);
                        },
                        _ => {},
                    },
                    None => {},
                }
            }
            check_fields_upto(ctx, sc, fields, fields.len());
            match ty_name {
                Some(tid) => match kind_lookup(ctx, tid.name.as_str()) {
                    Some(TypeKind::Record { fields: ef }) => {
                        field_names_exec(sc, fields, ef, &tid.name, *span);
                        CheckedType::Named(tid.name.clone())
                    },
                    Some(_) => {
                        push_diag(
                            sc,
                            quoted_message("Type '", &tid.name, "' is not a record"),
                            *span,
                            DiagnosticCode::TypeMismatch,
                        );
                        CheckedType::Named(tid.name.clone())
                    },
                    None => {
                        push_diag(
                            sc,
                            prefixed("Unknown type: ", &tid.name),
                            *span,
                            DiagnosticCode::UnknownType,
                        );
                        CheckedType::Unknown
                    },
                },
                None => CheckedType::Unknown,
            }
        },
        _ => CheckedType::Unknown,
    }
}

fn check_variant_literal(ctx: &Ctx, sc: &mut Scope, e: &Expr) -> (t: CheckedType)
    requires
        ctx.wf(),
        old(sc).wf(),
        e is VariantLiteral,
        variant_literal_check(*e, old(sc).state(), ctx.env()).1.ok,
    ensures
        final(sc).wf(),
        (t, final(sc).state()) == variant_literal_check(*e, old(sc).state(), ctx.env()),
    decreases e, 1int,
{
    proof {
        reveal(variant_literal_check);
    }
    match e {
        Expr::VariantLiteral { ty_name, case_name, payload, span } => {
            match payload {
                Some(p) => {
                    let _ = check_expr(ctx, sc, p);
                },
                None => {},
            }
            match ty_name {
                Some(tid) => variant_result_exec(ctx, sc, tid, case_name, payload.is_some(), *span),
                None => CheckedType::Unknown,
            }
        },
        _ => CheckedType::Unknown,
    }
}

fn check_match(ctx: &Ctx, sc: &mut Scope, e: &Expr) -> (t: CheckedType)
    requires
        ctx.wf(),
        old(sc).wf(),
        e is Match,
        match_check(*e, old(sc).state(), ctx.env()).1.ok,
    ensures
        final(sc).wf(),
        (t, final(sc).state()) == match_check(*e, old(sc).state(), ctx.env()),
    decreases e, 1int,
{
    proof {
        reveal(match_check);
    }
    match e {
        Expr::Match { scrutinee, arms, .. } => {
            proof {
                lemma_arms_ok(
                    arms@,
                    arms@.len() as int,
                    expr_check(**scrutinee, old(sc).state(), ctx.env()).1,
                    ctx.env(),
                );
            }
            let _ = check_expr(ctx, sc, scrutinee);
            match check_arms_upto(ctx, sc, arms, arms.len()) {
                Some(t) => t,
                None => CheckedType::Unknown,
            }
        },
        _ => CheckedType::Unknown,
    }
}

fn check_while(ctx: &Ctx, sc: &mut Scope, e: &Expr) -> (t: CheckedType)
    requires
        ctx.wf(),
        old(sc).wf(),
        e is While,
        while_check(*e, old(sc).state(), ctx.env()).1.ok,
    ensures
        final(sc).wf(),
        (t, final(sc).state()) == while_check(*e, old(sc).state(), ctx.env()),
    decreases e, 1int,
{
    proof {
        reveal(while_check);
    }
    match e {
        Expr::While { condition, body, .. } => {
            let ghost env = ctx.env();
            let ghost r1 = expr_check(**condition, sc.state(), env);
            let ghost s2 = expect(r1.0 is Bool, r1.0, "While condition must be bool, got "@, no_span(), r1.1);
            proof {
                lemma_in_loop_ok(body@, s2, s2, env);
            }
            let ct = check_expr(ctx, sc, condition);
            expect_type(
                sc,
                matches!(ct, CheckedType::Bool),
                &ct,
                "While condition must be bool, got ",
                Span { start: 0, end: 0 },
            );
            let saved = save_locals(sc);
            let depth = sc.loop_depth;
            run_loop_body(ctx, sc, body, saved, depth);
            CheckedType::Unknown
        },
        _ => CheckedType::Unknown,
    }
}

fn check_range(ctx: &Ctx, sc: &mut Scope, e: &Expr) -> (t: CheckedType)
    requires
        ctx.wf(),
        old(sc).wf(),
        e is Range,
        range_check(*e, old(sc).state(), ctx.env()).1.ok,
    ensures
        final(sc).wf(),
        (t, final(sc).state()) == range_check(*e, old(sc).state(), ctx.env()),
    decreases e, 1int,
{
    proof {
        reveal(range_check);
    }
    match e {
        Expr::Range { start, end, .. } => {
            proof {
                lemma_expr_ok(**end, expr_check(**start, old(sc).state(), ctx.env()).1, ctx.env());
            }
            let st = check_expr(ctx, sc, start);
            let et = check_expr(ctx, sc, end);
            let ns = is_numeric(&st);
            expect_type(sc, ns, &st, "Range start must be integer, got ", Span { start: 0, end: 0 });
            let ne = is_numeric(&et);
            expect_type(sc, ne, &et, "Range end must be integer, got ", Span { start: 0, end: 0 });
            CheckedType::Unknown
        },
        _ => CheckedType::Unknown,
    }
}

fn check_for(ctx: &Ctx, sc: &mut Scope, e: &Expr) -> (t: CheckedType)
    requires
        ctx.wf(),
        old(sc).wf(),
        e is For,
        for_check(*e, old(sc).state(), ctx.env()).1.ok,
    ensures
        final(sc).wf(),
        (t, final(sc).state()) == for_check(*e, old(sc).state(), ctx.env()),
    decreases e, 1int,
{
    proof {
        reveal(for_check);
    }
    match e {
        Expr::For { variable, range, body, .. } => {
            let ghost env = ctx.env();
            let ghost r1 = expr_check(**range, sc.state(), env);
            proof {
                lemma_in_loop_ok(body@, bind(r1.1, variable.name, CheckedType::I32), r1.1, env);
            }
            let _ = check_expr(ctx, sc, range);
            let saved = save_locals(sc);
            let depth = sc.loop_depth;
            bind_local(sc, &variable.name, CheckedType::I32);
            run_loop_body(ctx, sc, body, saved, depth);
            CheckedType::Unknown
        },
        _ => CheckedType::Unknown,
    }
}

fn check_for_each(ctx: &Ctx, sc: &mut Scope, e: &Expr) -> (t: CheckedType)
    requires
        ctx.wf(),
        old(sc).wf(),
        e is ForEach,
        for_each_check(*e, old(sc).state(), ctx.env()).1.ok,
    ensures
        final(sc).wf(),
        (t, final(sc).state()) == for_each_check(*e, old(sc).state(), ctx.env()),
    decreases e, 1int,
{
    proof {
        reveal(for_each_check);
    }
    match e {
        Expr::ForEach { variable, collection, body, span } => {
            let ghost env = ctx.env();
            let ghost r1 = expr_check(**collection, sc.state(), env);
            let ghost r2 = elem_of(r1.0, r1.1, "for-each requires list, got "@, *span);
            proof {
                lemma_in_loop_ok(body@, bind(r2.1, variable.name, r2.0), r2.1, env);
            }
            let ct = check_expr(ctx, sc, collection);
            let el = elem_type(sc, &ct, "for-each requires list, got ", *span);
            let saved = save_locals(sc);
            let depth = sc.loop_depth;
            bind_local(sc, &variable.name, el);
            run_loop_body(ctx, sc, body, saved, depth);
            CheckedType::Unknown
        },
        _ => CheckedType::Unknown,
    }
}

fn check_list_literal(ctx: &Ctx, sc: &mut Scope, e: &Expr) -> (t: CheckedType)
    requires
        ctx.wf(),
        old(sc).wf(),
        e is ListLiteral,
        list_literal_check(*e, old(sc).state(), ctx.env()).1.ok,
    ensures
        final(sc).wf(),
        (t, final(sc).state()) == list_literal_check(*e, old(sc).state(), ctx.env()),
    decreases e, 1int,
{
    proof {
        reveal(list_literal_check);
    }
    match e {
        Expr::ListLiteral { elements, span } => {
            if elements.len() == 0 {
                CheckedType::List(Box::new(CheckedType::Unknown))
            } else {
                let ghost env = ctx.env();
                let ghost r1 = expr_check(elements@[0], sc.state(), env);
                proof {
                    lemma_items_ok(elements@, elements@.len() as int, r1.0, *span, r1.1, env);
                }
                let ft = check_expr(ctx, sc, &elements[0]);
                check_items_upto(ctx, sc, elements, elements.len(), &ft, *span);
                CheckedType::List(Box::new(ft))
            }
        },
        _ => CheckedType::Unknown,
    }
}

fn check_index(ctx: &Ctx, sc: &mut Scope, e: &Expr) -> (t: CheckedType)
    requires
        ctx.wf(),
        old(sc).wf(),
        e is Index,
        index_check(*e, old(sc).state(), ctx.env()).1.ok,
    ensures
        final(sc).wf(),
        (t, final(sc).state()) == index_check(*e, old(sc).state(), ctx.env()),
    decreases e, 1int,
{
    proof {
        reveal(index_check);
    }
    match e {
        Expr::Index { expr, index, span } => {
            proof {
                lemma_expr_ok(**index, expr_check(**expr, old(sc).state(), ctx.env()).1, ctx.env());
            }
            let bt = check_expr(ctx, sc, expr);
            let it = check_expr(ctx, sc, index);
            let ni = is_numeric(&it);
            expect_type(sc, ni, &it, "List index must be integer, got ", *span);
            match bt {
                CheckedType::List(el) => *el,
                CheckedType::Unknown => CheckedType::Unknown,
                _ => {
                    push_diag(
                        sc,
                        with_type("Cannot index into non-list type ", &bt),
                        *span,
                        DiagnosticCode::TypeMismatch,
                    );
                    CheckedType::Unknown
                },
            }
        },
        _ => CheckedType::Unknown,
    }
}

fn check_slice(ctx: &Ctx, sc: &mut Scope, e: &Expr) -> (t: CheckedType)
    requires
        ctx.wf(),
        old(sc).wf(),
        e is Slice,
        slice_check(*e, old(sc).state(), ctx.env()).1.ok,
    ensures
        final(sc).wf(),
        (t, final(sc).state()) == slice_check(*e, old(sc).state(), ctx.env()),
    decreases e, 1int,
{
    proof {
        reveal(slice_check);
    }
    match e {
        Expr::Slice { expr, start, end, span } => {
            let ghost env = ctx.env();
            let ghost r1 = expr_check(**expr, sc.state(), env);
            let ghost r2 = expr_check(**start, r1.1, env);
            proof {
                lemma_expr_ok(**end, r2.1, env);
                lemma_expr_ok(**start, r1.1, env);
            }
            let bt = check_expr(ctx, sc, expr);
            let st = check_expr(ctx, sc, start);
            let et = check_expr(ctx, sc, end);
            let ns = is_numeric(&st);
            expect_type(sc, ns, &st, "Slice start must be integer, got ", *span);
            let ne = is_numeric(&et);
            expect_type(sc, ne, &et, "Slice end must be integer, got ", *span);
            match &bt {
                CheckedType::List(_) => bt,
                CheckedType::Unknown => CheckedType::Unknown,
                _ => {
                    push_diag(
                        sc,
                        with_type("Cannot slice non-list type ", &bt),
                        *span,
                        DiagnosticCode::TypeMismatch,
                    );
                    CheckedType::Unknown
                },
            }
        },
        _ => CheckedType::Unknown,
    }
}

fn check_optional_chain(ctx: &Ctx, sc: &mut Scope, e: &Expr) -> (t: CheckedType)
    requires
        ctx.wf(),
        old(sc).wf(),
        e is OptionalChain,
        optional_chain_check(*e, old(sc).state(), ctx.env()).1.ok,
    ensures
        final(sc).wf(),
        (t, final(sc).state()) == optional_chain_check(*e, old(sc).state(), ctx.env()),
    decreases e, 1int,
{
    proof {
        reveal(optional_chain_check);
    }
    match e {
        Expr::OptionalChain { expr, field, .. } => {
            let bt = check_expr(ctx, sc, expr);
            optional_chain_exec(ctx, sc, bt, field)
        },
        _ => CheckedType::Unknown,
    }
}

fn check_try(ctx: &Ctx, sc: &mut Scope, e: &Expr) -> (t: CheckedType)
    requires
        ctx.wf(),
        old(sc).wf(),
        e is Try,
        try_check(*e, old(sc).state(), ctx.env()).1.ok,
    ensures
        final(sc).wf(),
        (t, final(sc).state()) == try_check(*e, old(sc).state(), ctx.env()),
    decreases e, 1int,
{
    proof {
        reveal(try_check);
    }
    match e {
        Expr::Try { expr, span } => {
            let bt = check_expr(ctx, sc, expr);
            match bt {
                CheckedType::Option(i) => *i,
                CheckedType::Result { ok, .. } => match ok {
                    Some(i) => *i,
                    None => CheckedType::Unknown,
                },
                CheckedType::Unknown => CheckedType::Unknown,
                _ => {
                    push_text_error(
                        sc,
                        "Try operator requires option or result value",
                        *span,
                        DiagnosticCode::TypeMismatch,
                    );
                    CheckedType::Unknown
                },
            }
        },
        _ => CheckedType::Unknown,
    }
}

fn check_await(ctx: &Ctx, sc: &mut Scope, e: &Expr) -> (t: CheckedType)
    requires
        ctx.wf(),
        old(sc).wf(),
        e is Await,
        await_check(*e, old(sc).state(), ctx.env()).1.ok,
    ensures
        final(sc).wf(),
        (t, final(sc).state()) == await_check(*e, old(sc).state(), ctx.env()),
    decreases e, 1int,
{
    proof {
        reveal(await_check);
    }
    match e {
        Expr::Await { expr, span } => {
            let bt = check_expr(ctx, sc, expr);
            match bt {
                CheckedType::Future(f) => match f {
                    Some(i) => *i,
                    None => CheckedType::Unknown,
                },
                CheckedType::Unknown => CheckedType::Unknown,
                _ => {
                    push_text_error(sc, "await requires future value", *span, DiagnosticCode::TypeMismatch);
                    CheckedType::Unknown
                },
            }
        },
        _ => CheckedType::Unknown,
    }
}

fn check_atomic_load(ctx: &Ctx, sc: &mut Scope, e: &Expr) -> (t: CheckedType)
    requires
        ctx.wf(),
        old(sc).wf(),
        e is AtomicLoad,
        atomic_load_check(*e, old(sc).state(), ctx.env()).1.ok,
    ensures
        final(sc).wf(),
        (t, final(sc).state()) == atomic_load_check(*e, old(sc).state(), ctx.env()),
    decreases e, 1int,
{
    proof {
        reveal(atomic_load_check);
    }
    match e {
        Expr::AtomicLoad { addr, .. } => {
            let _ = check_expr(ctx, sc, addr);
            CheckedType::I32
        },
        _ => CheckedType::Unknown,
    }
}

fn check_atomic_store(ctx: &Ctx, sc: &mut Scope, e: &Expr) -> (t: CheckedType)
    requires
        ctx.wf(),
        old(sc).wf(),
        e is AtomicStore,
        atomic_store_check(*e, old(sc).state(), ctx.env()).1.ok,
    ensures
        final(sc).wf(),
        (t, final(sc).state()) == atomic_store_check(*e, old(sc).state(), ctx.env()),
    decreases e, 1int,
{
    proof {
        reveal(atomic_store_check);
    }
    match e {
        Expr::AtomicStore { addr, value, .. } => {
            proof {
                lemma_expr_ok(**value, expr_check(**addr, old(sc).state(), ctx.env()).1, ctx.env());
            }
            let _ = check_expr(ctx, sc, addr);
            let _ = check_expr(ctx, sc, value);
            CheckedType::Unknown
        },
        _ => CheckedType::Unknown,
    }
}

fn check_atomic_add(ctx: &Ctx, sc: &mut Scope, e: &Expr) -> (t: CheckedType)
    requires
        ctx.wf(),
        old(sc).wf(),
        e is AtomicAdd,
        atomic_add_check(*e, old(sc).state(), ctx.env()).1.ok,
    ensures
        final(sc).wf(),
        (t, final(sc).state()) == atomic_add_check(*e, old(sc).state(), ctx.env()),
    decreases e, 1int,
{
    proof {
        reveal(atomic_add_check);
    }
    match e {
        Expr::AtomicAdd { addr, value, .. } => {
            proof {
                lemma_expr_ok(**value, expr_check(**addr, old(sc).state(), ctx.env()).1, ctx.env());
            }
            let _ = check_expr(ctx, sc, addr);
            let _ = check_expr(ctx, sc, value);
            CheckedType::I32
        },
        _ => CheckedType::Unknown,
    }
}

fn check_atomic_sub(ctx: &Ctx, sc: &mut Scope, e: &Expr) -> (t: CheckedType)
    requires
        ctx.wf(),
        old(sc).wf(),
        e is AtomicSub,
        atomic_sub_check(*e, old(sc).state(), ctx.env()).1.ok,
    ensures
        final(sc).wf(),
        (t, final(sc).state()) == atomic_sub_check(*e, old(sc).state(), ctx.env()),
    decreases e, 1int,
{
    proof {
        reveal(atomic_sub_check);
    }
    match e {
        Expr::AtomicSub { addr, value, .. } => {
            proof {
                lemma_expr_ok(**value, expr_check(**addr, old(sc).state(), ctx.env()).1, ctx.env());
            }
            let _ = check_expr(ctx, sc, addr);
            let _ = check_expr(ctx, sc, value);
            CheckedType::I32
        },
        _ => CheckedType::Unknown,
    }
}

fn check_atomic_compare_exchange(ctx: &Ctx, sc: &mut Scope, e: &Expr) -> (t: CheckedType)
    requires
        ctx.wf(),
        old(sc).wf(),
        e is AtomicCompareExchange,
        atomic_compare_exchange_check(*e, old(sc).state(), ctx.env()).1.ok,
    ensures
        final(sc).wf(),
        (t, final(sc).state()) == atomic_compare_exchange_check(*e, old(sc).state(), ctx.env()),
    decreases e, 1int,
{
    proof {
        reveal(atomic_compare_exchange_check);
    }
    match e {
        Expr::AtomicCompareExchange { addr, expected, replacement, .. } => {
            let ghost env = ctx.env();
            let ghost r1 = expr_check(**addr, sc.state(), env);
            let ghost r2 = expr_check(**expected, r1.1, env);
            proof {
                lemma_expr_ok(**replacement, r2.1, env);
                lemma_expr_ok(**expected, r1.1, env);
            }
            let _ = check_expr(ctx, sc, addr);
            let _ = check_expr(ctx, sc, expected);
            let _ = check_expr(ctx, sc, replacement);
            CheckedType::I32
        },
        _ => CheckedType::Unknown,
    }
}

fn check_atomic_wait(ctx: &Ctx, sc: &mut Scope, e: &Expr) -> (t: CheckedType)
    requires
        ctx.wf(),
        old(sc).wf(),
        e is AtomicWait,
        atomic_wait_check(*e, old(sc).state(), ctx.env()).1.ok,
    ensures
        final(sc).wf(),
        (t, final(sc).state()) == atomic_wait_check(*e, old(sc).state(), ctx.env()),
    decreases e, 1int,
{
    proof {
        reveal(atomic_wait_check);
    }
    match e {
        Expr::AtomicWait { addr, expected, timeout, .. } => {
            let ghost env = ctx.env();
            let ghost r1 = expr_check(**addr, sc.state(), env);
            let ghost r2 = expr_check(**expected, r1.1, env);
            proof {
                lemma_expr_ok(**timeout, r2.1, env);
                lemma_expr_ok(**expected, r1.1, env);
            }
            let _ = check_expr(ctx, sc, addr);
            let _ = check_expr(ctx, sc, expected);
            let _ = check_expr(ctx, sc, timeout);
            CheckedType::I32
        },
        _ => CheckedType::Unknown,
    }
}

fn check_atomic_notify(ctx: &Ctx, sc: &mut Scope, e: &Expr) -> (t: CheckedType)
    requires
        ctx.wf(),
        old(sc).wf(),
        e is AtomicNotify,
        atomic_notify_check(*e, old(sc).state(), ctx.env()).1.ok,
    ensures
        final(sc).wf(),
        (t, final(sc).state()) == atomic_notify_check(*e, old(sc).state(), ctx.env()),
    decreases e, 1int,
{
    proof {
        reveal(atomic_notify_check);
    }
    match e {
        Expr::AtomicNotify { addr, count, .. } => {
            proof {
                lemma_expr_ok(**count, expr_check(**addr, old(sc).state(), ctx.env()).1, ctx.env());
            }
            let _ = check_expr(ctx, sc, addr);
            let _ = check_expr(ctx, sc, count);
            CheckedType::I32
        },
        _ => CheckedType::Unknown,
    }
}

fn check_spawn(ctx: &Ctx, sc: &mut Scope, e: &Expr) -> (t: CheckedType)
    requires
        ctx.wf(),
        old(sc).wf(),
        e is Spawn,
        spawn_check(*e, old(sc).state(), ctx.env()).1.ok,
    ensures
        final(sc).wf(),
        (t, final(sc).state()) == spawn_check(*e, old(sc).state(), ctx.env()),
    decreases e, 1int,
{
    proof {
        reveal(spawn_check);
    }
    match e {
        Expr::Spawn { body, .. } => {
            check_block_upto(ctx, sc, body, body.len());
            CheckedType::ThreadId
        },
        _ => CheckedType::Unknown,
    }
}

fn check_thread_join(ctx: &Ctx, sc: &mut Scope, e: &Expr) -> (t: CheckedType)
    requires
        ctx.wf(),
        old(sc).wf(),
        e is ThreadJoin,
        thread_join_check(*e, old(sc).state(), ctx.env()).1.ok,
    ensures
        final(sc).wf(),
        (t, final(sc).state()) == thread_join_check(*e, old(sc).state(), ctx.env()),
    decreases e, 1int,
{
    proof {
        reveal(thread_join_check);
    }
    match e {
        Expr::ThreadJoin { tid, span } => {
            let tt = check_expr(ctx, sc, tid);
            if !matches!(tt, CheckedType::ThreadId) {
                push_diag(
                    sc,
                    with_type("thread.join requires a thread-id, got ", &tt),
                    *span,
                    DiagnosticCode::TypeMismatch,
                );
            }
            CheckedType::I32
        },
        _ => CheckedType::Unknown,
    }
}

fn check_atomic_block(ctx: &Ctx, sc: &mut Scope, e: &Expr) -> (t: CheckedType)
    requires
        ctx.wf(),
        old(sc).wf(),
        e is AtomicBlock,
        atomic_block_check(*e, old(sc).state(), ctx.env()).1.ok,
    ensures
        final(sc).wf(),
        (t, final(sc).state()) == atomic_block_check(*e, old(sc).state(), ctx.env()),
    decreases e, 1int,
{
    proof {
        reveal(atomic_block_check);
    }
    match e {
        Expr::AtomicBlock { body, .. } => {
            check_block_upto(ctx, sc, body, body.len());
            CheckedType::I32
        },
        _ => CheckedType::Unknown,
    }
}

fn check_simd_op(ctx: &Ctx, sc: &mut Scope, e: &Expr) -> (t: CheckedType)
    requires
        ctx.wf(),
        old(sc).wf(),
        e is SimdOp,
        simd_op_check(*e, old(sc).state(), ctx.env()).1.ok,
    ensures
        final(sc).wf(),
        (t, final(sc).state()) == simd_op_check(*e, old(sc).state(), ctx.env()),
    decreases e, 1int,
{
    proof {
        reveal(simd_op_check);
    }
    match e {
        Expr::SimdOp { op, args, .. } => {
            check_exprs_upto(ctx, sc, args, args.len());
            match op {
                SimdOp::Vector => CheckedType::V128,
                _ => CheckedType::I32,
            }
        },
        _ => CheckedType::Unknown,
    }
}

fn check_simd_for_each(ctx: &Ctx, sc: &mut Scope, e: &Expr) -> (t: CheckedType)
    requires
        ctx.wf(),
        old(sc).wf(),
        e is SimdForEach,
        simd_for_each_check(*e, old(sc).state(), ctx.env()).1.ok,
    ensures
        final(sc).wf(),
        (t, final(sc).state()) == simd_for_each_check(*e, old(sc).state(), ctx.env()),
    decreases e, 1int,
{
    proof {
        reveal(simd_for_each_check);
    }
    match e {
        Expr::SimdForEach { variable, collection, body, .. } => {
            let ghost env = ctx.env();
            let ghost r1 = expr_check(**collection, sc.state(), env);
            proof {
                lemma_in_loop_ok(body@, bind(r1.1, variable.name, CheckedType::V128), r1.1, env);
            }
            let _ = check_expr(ctx, sc, collection);
            let saved = save_locals(sc);
            let depth = sc.loop_depth;
            bind_local(sc, &variable.name, CheckedType::V128);
            run_loop_body(ctx, sc, body, saved, depth);
            CheckedType::Unknown
        },
        _ => CheckedType::Unknown,
    }
}

// ---------------------------------------------------------------------------
// Lists, blocks and statements
// ---------------------------------------------------------------------------

fn check_exprs_upto(ctx: &Ctx, sc: &mut Scope, es: &Vec<Expr>, k: usize)
    requires
        ctx.wf(),
        old(sc).wf(),
        k <= es@.len(),
        exprs_check(es@, k as int, old(sc).state(), ctx.env()).ok,
    ensures
        final(sc).wf(),
        final(sc).state() == exprs_check(es@, k as int, old(sc).state(), ctx.env()),
    decreases es, k,
{
    if k > 0 {
        proof {
            lemma_expr_ok(
                es@[k - 1],
                exprs_check(es@, k - 1, old(sc).state(), ctx.env()),
                ctx.env(),
            );
        }
        check_exprs_upto(ctx, sc, es, k - 1);
        let _ = check_expr(ctx, sc, &es[k - 1]);
    }
}

fn check_parts_upto(ctx: &Ctx, sc: &mut Scope, ps: &Vec<StringPart>, k: usize)
    requires
        ctx.wf(),
        old(sc).wf(),
        k <= ps@.len(),
        parts_check(ps@, k as int, old(sc).state(), ctx.env()).ok,
    ensures
        final(sc).wf(),
        final(sc).state() == parts_check(ps@, k as int, old(sc).state(), ctx.env()),
    decreases ps, k,
{
    if k > 0 {
        let ghost prev = parts_check(ps@, k - 1, old(sc).state(), ctx.env());
        proof {
            match ps@[k - 1] {
                StringPart::Expr(e) => {
                    lemma_expr_ok(e, prev, ctx.env());
                },
                _ => {},
            }
        }
        check_parts_upto(ctx, sc, ps, k - 1);
        match &ps[k - 1] {
            StringPart::Expr(e) => {
                let _ = check_expr(ctx, sc, e);
            },
            StringPart::Literal(_) => {},
        }
    }
}

fn check_fields_upto(ctx: &Ctx, sc: &mut Scope, fs: &Vec<(Id, Expr)>, k: usize)
    requires
        ctx.wf(),
        old(sc).wf(),
        k <= fs@.len(),
        fields_check(fs@, k as int, old(sc).state(), ctx.env()).ok,
    ensures
        final(sc).wf(),
        final(sc).state() == fields_check(fs@, k as int, old(sc).state(), ctx.env()),
    decreases fs, k,
{
    if k > 0 {
        proof {
            lemma_expr_ok(
                fs@[k - 1].1,
                fields_check(fs@, k - 1, old(sc).state(), ctx.env()),
                ctx.env(),
            );
        }
        check_fields_upto(ctx, sc, fs, k - 1);
        let _ = check_expr(ctx, sc, &fs[k - 1].1);
    }
}

fn check_items_upto(
    ctx: &Ctx,
    sc: &mut Scope,
    es: &Vec<Expr>,
    k: usize,
    first: &CheckedType,
    span: Span,
)
    requires
        ctx.wf(),
        old(sc).wf(),
        k <= es@.len(),
        items_check(es@, k as int, *first, span, old(sc).state(), ctx.env()).ok,
    ensures
        final(sc).wf(),
        final(sc).state() == items_check(es@, k as int, *first, span, old(sc).state(), ctx.env()),
    decreases es, k,
{
    if k > 1 {
        proof {
            lemma_expr_ok(
                es@[k - 1],
                items_check(es@, k - 1, *first, span, old(sc).state(), ctx.env()),
                ctx.env(),
            );
        }
        check_items_upto(ctx, sc, es, k - 1, first, span);
        let et = check_expr(ctx, sc, &es[k - 1]);
        if !checked_eq(&et, first) && !matches!(et, CheckedType::Unknown) && !matches!(
            first,
            CheckedType::Unknown,
        ) {
            let mut m: Vec<char> = Vec::new();
            push_str(&mut m, "List element ");
            push_decimal(&mut m, (k - 1) as u64);
            push_str(&mut m, " has type ");
            push_checked_debug(&mut m, &et);
            push_str(&mut m, ", expected ");
            push_checked_debug(&mut m, first);
            push_diag(sc, m, span, DiagnosticCode::TypeMismatch);
        }
    }
}

fn check_arms_upto(ctx: &Ctx, sc: &mut Scope, arms: &Vec<MatchArm>, k: usize) -> (r: Option<
    CheckedType,
>)
    requires
        ctx.wf(),
        old(sc).wf(),
        k <= arms@.len(),
        arms_check(arms@, k as int, old(sc).state(), ctx.env()).1.ok,
    ensures
        final(sc).wf(),
        (r, final(sc).state()) == arms_check(arms@, k as int, old(sc).state(), ctx.env()),
    decreases arms, k,
{
    if k == 0 {
        None
    } else {
        proof {
            lemma_arm_ok(
                arms@[k - 1],
                arms_check(arms@, k - 1, old(sc).state(), ctx.env()).1,
                ctx.env(),
            );
        }
        let prev = check_arms_upto(ctx, sc, arms, k - 1);
        let at = check_arm(ctx, sc, &arms[k - 1]);
        merge_arm_exec(prev, at)
    }
}

fn check_arm(ctx: &Ctx, sc: &mut Scope, arm: &MatchArm) -> (t: CheckedType)
    requires
        ctx.wf(),
        old(sc).wf(),
        arm_check(*arm, old(sc).state(), ctx.env()).1.ok,
    ensures
        final(sc).wf(),
        (t, final(sc).state()) == arm_check(*arm, old(sc).state(), ctx.env()),
    decreases arm, 0int,
{
    pattern_exec(ctx, sc, &arm.pattern);
    let saved = save_locals(sc);
    let t = check_tail_upto(ctx, sc, &arm.body, arm.body.len());
    restore_locals(sc, saved);
    t
}

pub(crate) fn check_block_upto(ctx: &Ctx, sc: &mut Scope, ss: &Vec<Statement>, k: usize)
    requires
        ctx.wf(),
        old(sc).wf(),
        k <= ss@.len(),
        block_check(ss@, k as int, old(sc).state(), ctx.env()).ok,
    ensures
        final(sc).wf(),
        final(sc).state() == block_check(ss@, k as int, old(sc).state(), ctx.env()),
    decreases ss, k,
{
    if k > 0 {
        proof {
            lemma_stmt_ok(
                ss@[k - 1],
                block_check(ss@, k - 1, old(sc).state(), ctx.env()),
                ctx.env(),
            );
        }
        check_block_upto(ctx, sc, ss, k - 1);
        validate_statement(ctx, sc, &ss[k - 1]);
    }
}

/// Checks each statement of a block in turn.
pub fn validate_block(ctx: &Ctx, sc: &mut Scope, ss: &Vec<Statement>)
    requires
        ctx.wf(),
        old(sc).wf(),
        block_check(ss@, ss@.len() as int, old(sc).state(), ctx.env()).ok,
    ensures
        final(sc).wf(),
        final(sc).state() == block_check(ss@, ss@.len() as int, old(sc).state(), ctx.env()),
{
    check_block_upto(ctx, sc, ss, ss.len());
}

fn check_tail_upto(ctx: &Ctx, sc: &mut Scope, ss: &Vec<Statement>, k: usize) -> (t: CheckedType)
    requires
        ctx.wf(),
        old(sc).wf(),
        k <= ss@.len(),
        tail_check(ss@, k as int, old(sc).state(), ctx.env()).1.ok,
    ensures
        final(sc).wf(),
        (t, final(sc).state()) == tail_check(ss@, k as int, old(sc).state(), ctx.env()),
    decreases ss, k,
{
    if k == 0 {
        CheckedType::Unknown
    } else {
        let ghost prev = tail_check(ss@, k - 1, old(sc).state(), ctx.env());
        proof {
            match ss@[k - 1] {
                Statement::Return(r) => match r {
                    Some(e) => {
                        lemma_expr_ok(e, prev.1, ctx.env());
                    },
                    None => {},
                },
                Statement::Expr(e) => {
                    lemma_expr_ok(e, prev.1, ctx.env());
                },
                _ => {
                    lemma_stmt_ok(ss@[k - 1], prev.1, ctx.env());
                },
            }
        }
        let before = check_tail_upto(ctx, sc, ss, k - 1);
        match &ss[k - 1] {
            Statement::Return(r) => match r {
                Some(e) => check_expr(ctx, sc, e),
                None => CheckedType::Unknown,
            },
            Statement::Expr(e) => {
                if k == ss.len() {
                    check_expr(ctx, sc, e)
                } else {
                    let _ = check_expr(ctx, sc, e);
                    before
                }
            },
            _ => {
                validate_statement(ctx, sc, &ss[k - 1]);
                before
            },
        }
    }
}

/// The type a block evaluates to: the value of a `return`, or of a final
/// expression.
pub fn check_block_tail_type(ctx: &Ctx, sc: &mut Scope, ss: &Vec<Statement>) -> (t: CheckedType)
    requires
        ctx.wf(),
        old(sc).wf(),
        tail_check(ss@, ss@.len() as int, old(sc).state(), ctx.env()).1.ok,
    ensures
        final(sc).wf(),
        (t, final(sc).state()) == tail_check(ss@, ss@.len() as int, old(sc).state(), ctx.env()),
{
    check_tail_upto(ctx, sc, ss, ss.len())
}

fn run_loop_body(
    ctx: &Ctx,
    sc: &mut Scope,
    body: &Vec<Statement>,
    outer_locals: NameMap<CheckedType>,
    outer_depth: usize,
)
    requires
        ctx.wf(),
        old(sc).wf(),
        outer_locals.wf(),
        in_loop(
            body@,
            old(sc).state(),
            State {
                locals: outer_locals.entries@,
                loop_depth: outer_depth as int,
                ..old(sc).state()
            },
            ctx.env(),
        ).ok,
    ensures
        final(sc).wf(),
        final(sc).state() == in_loop(
            body@,
            old(sc).state(),
            State {
                locals: outer_locals.entries@,
                loop_depth: outer_depth as int,
                ..old(sc).state()
            },
            ctx.env(),
        ),
    decreases body, body@.len() + 1,
{
    proof {
        lemma_block_ok(body@, body@.len() as int, deepen(old(sc).state(), 1), ctx.env());
    }
    sc.loop_depth = sc.loop_depth + 1;
    check_block_upto(ctx, sc, body, body.len());
    sc.loop_depth = outer_depth;
    restore_locals(sc, outer_locals);
}

fn validate_guard_else_body(
    ctx: &Ctx,
    sc: &mut Scope,
    body: &Vec<Statement>,
    span: Span,
    msg: &str,
)
    requires
        ctx.wf(),
        old(sc).wf(),
        guard_else(body@, span, msg@, old(sc).state(), ctx.env()).ok,
    ensures
        final(sc).wf(),
        final(sc).state() == guard_else(body@, span, msg@, old(sc).state(), ctx.env()),
    decreases body, body@.len() + 1,
{
    let saved = save_locals(sc);
    check_block_upto(ctx, sc, body, body.len());
    restore_locals(sc, saved);
    if !block_exits_scope(body, sc.loop_depth) {
        push_text_error(sc, msg, span, DiagnosticCode::InvalidUse);
    }
}

fn loop_exit_exec(ctx: &Ctx, sc: &mut Scope, msg: &str, condition: &Option<Box<Expr>>)
    requires
        ctx.wf(),
        old(sc).wf(),
        loop_exit(msg@, *condition, old(sc).state(), ctx.env()).ok,
    ensures
        final(sc).wf(),
        final(sc).state() == loop_exit(msg@, *condition, old(sc).state(), ctx.env()),
    decreases condition, 0int,
{
    match condition {
        Some(c) => {
            let _ = check_expr(ctx, sc, c);
        },
        None => {},
    }
    if sc.loop_depth == 0 {
        let span = match condition {
            Some(c) => expr_span_of(c),
            None => Span { start: 0, end: 0 },
        };
        push_text_error(sc, msg, span, DiagnosticCode::InvalidUse);
    }
}

/// Checks a statement, recording what it finds and binds.
pub fn validate_statement(ctx: &Ctx, sc: &mut Scope, s: &Statement)
    requires
        ctx.wf(),
        old(sc).wf(),
        stmt_check(*s, old(sc).state(), ctx.env()).ok,
    ensures
        final(sc).wf(),
        final(sc).state() == stmt_check(*s, old(sc).state(), ctx.env()),
    decreases s, 0int,
{
    match s {
        Statement::Let { name, value } => {
            let t = check_expr(ctx, sc, value);
            bind_local(sc, &name.name, t);
            let cv = to_constraint_expr(value);
            match const_value(&cv, &sc.constants) {
                Some(v) => {
                    assert((v as int) as i64 == v);
                    sc.constants.insert(name.name.clone(), v);
                },
                None => {},
            }
        },
        Statement::Return(r) => match r {
            Some(e) => {
                let _ = check_expr(ctx, sc, e);
            },
            None => {},
        },
        Statement::Expr(e) => {
            let _ = check_expr(ctx, sc, e);
        },
        Statement::Assign { name, value } => {
            proof {
                lemma_expr_ok(*value, assignable(*name, old(sc).state()), ctx.env());
            }
            assignable_exec(sc, name);
            let _ = check_expr(ctx, sc, value);
        },
        Statement::CompoundAssign { name, value, .. } => {
            proof {
                lemma_expr_ok(*value, assignable(*name, old(sc).state()), ctx.env());
            }
            assignable_exec(sc, name);
            let _ = check_expr(ctx, sc, value);
        },
        Statement::Break { condition } => {
            loop_exit_exec(ctx, sc, "`break` can only appear inside a loop", condition);
        },
        Statement::Continue { condition } => {
            loop_exit_exec(ctx, sc, "`continue` can only appear inside a loop", condition);
        },
        Statement::SharedLet { name, initial_value } => {
            let _ = check_expr(ctx, sc, initial_value);
            bind_local(sc, &name.name, CheckedType::Shared);
        },
        Statement::GuardLet { name, value, else_body } => {
            let ghost env = ctx.env();
            let ghost st0 = sc.state();
            let ghost r = expr_check(*value, State { in_guard_let: true, ..st0 }, env);
            let ghost s1 = State { in_guard_let: false, ..r.1 };
            let ghost g = guard_binding(r.0, expr_span(*value), s1);
            proof {
                lemma_guard_else_ok(else_body@, name.span, guard_let_exit_message(), g.1, env);
            }
            sc.in_guard_let = true;
            let vt = check_expr(ctx, sc, value);
            sc.in_guard_let = false;
            let bt = guard_binding_type(sc, vt, expr_span_of(value));
            validate_guard_else_body(
                ctx,
                sc,
                else_body,
                name.span,
                "`guard let` else block must exit the current scope with `return`, `break`, or `continue`",
            );
            bind_local(sc, &name.name, bt);
        },
        Statement::Guard { condition, else_body } => {
            let ghost env = ctx.env();
            let ghost r = expr_check(*condition, sc.state(), env);
            let ghost s1 = expect(
                r.0 is Bool,
                r.0,
                "Guard condition requires bool, got "@,
                expr_span(*condition),
                r.1,
            );
            proof {
                lemma_guard_else_ok(else_body@, expr_span(*condition), guard_exit_message(), s1, env);
            }
            let ct = check_expr(ctx, sc, condition);
            expect_type(
                sc,
                matches!(ct, CheckedType::Bool),
                &ct,
                "Guard condition requires bool, got ",
                expr_span_of(condition),
            );
            validate_guard_else_body(
                ctx,
                sc,
                else_body,
                expr_span_of(condition),
                "`guard` else block must exit the current scope with `return`, `break`, or `continue`",
            );
        },
    }
}


} // verus!
