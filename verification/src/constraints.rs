//! Parameter constraints (`where` clauses and constrained type aliases):
//! evaluating them on constant arguments, finding the free variables that
//! keep them open, and rendering them in messages.
use vstd::prelude::*;
use crate::name_map::NameMap;
use crate::numbers::{push_signed_decimal, signed_decimal};
use crate::text::{chars_of, push_str, str_eq, string_of};

verus! {

/// Binary operators of constraint expressions.
#[derive(Clone, Copy, Debug, PartialEq, Eq)]
pub enum BinOp {
    Add,
    Sub,
    Mul,
    Div,
    Eq,
    Ne,
    Lt,
    Le,
    Gt,
    Ge,
    And,
    Or,
}

/// The parts of an expression that constraint checking reads.
pub enum Expr {
    Integer(i64),
    Ident(String),
    Text(String),
    Neg(Box<Expr>),
    Not(Box<Expr>),
    Binary { lhs: Box<Expr>, op: BinOp, rhs: Box<Expr> },
    Call { func: Box<Expr>, args: ExprList },
    /// Any other expression.
    Other,
}

/// The arguments of a call, first to last.
pub enum ExprList {
    Nil,
    Cons(Box<Expr>, Box<ExprList>),
}

/// A constraint on a parameter, written over the parameter's name.
pub struct ParamConstraint {
    pub param_name: String,
    pub constraint: Expr,
}

// ---------------------------------------------------------------------------
// Arithmetic
// ---------------------------------------------------------------------------

/// Integer division rounding toward zero, as Rust's `/` does.
pub open spec fn trunc_div(a: int, b: int) -> int {
    let q = (if a < 0 {
        -a
    } else {
        a
    }) / (if b < 0 {
        -b
    } else {
        b
    });
    if (a < 0) != (b < 0) {
        -q
    } else {
        q
    }
}

/// `v` fits in an `i64`.
pub open spec fn in_i64(v: int) -> bool {
    i64::MIN <= v <= i64::MAX
}

/// The value of `l op r` in a constraint: arithmetic, or 1/0 for
/// comparisons; division by zero and the logical operators give nothing.
pub open spec fn op_value(op: BinOp, l: int, r: int) -> Option<int> {
    match op {
        BinOp::Add => Some(l + r),
        BinOp::Sub => Some(l - r),
        BinOp::Mul => Some(l * r),
        BinOp::Div => if r == 0 {
            None
        } else {
            Some(trunc_div(l, r))
        },
        BinOp::Eq => Some(if l == r { 1int } else { 0int }),
        BinOp::Ne => Some(if l != r { 1int } else { 0int }),
        BinOp::Lt => Some(if l < r { 1int } else { 0int }),
        BinOp::Le => Some(if l <= r { 1int } else { 0int }),
        BinOp::Gt => Some(if l > r { 1int } else { 0int }),
        BinOp::Ge => Some(if l >= r { 1int } else { 0int }),
        _ => None,
    }
}

/// Whether a comparison holds; non-comparisons never hold.
pub open spec fn op_holds(op: BinOp, l: int, r: int) -> bool {
    match op {
        BinOp::Eq => l == r,
        BinOp::Ne => l != r,
        BinOp::Lt => l < r,
        BinOp::Le => l <= r,
        BinOp::Gt => l > r,
        BinOp::Ge => l >= r,
        _ => false,
    }
}

/// Whether the comparison `l op r` holds.
pub fn eval_binary_bool(op: BinOp, l: i64, r: i64) -> (b: bool)
    ensures
        b == op_holds(op, l as int, r as int),
{
    match op {
        BinOp::Eq => l == r,
        BinOp::Ne => l != r,
        BinOp::Lt => l < r,
        BinOp::Le => l <= r,
        BinOp::Gt => l > r,
        BinOp::Ge => l >= r,
        _ => false,
    }
}

/// `Some` of an `i64` as an integer.
pub open spec fn opt_int(o: Option<i64>) -> Option<int> {
    match o {
        Some(v) => Some(v as int),
        None => None,
    }
}

/// Each comparison holds exactly when the integer comparison its symbol
/// names holds, and as a value it is 1 when it holds and 0 when it does
/// not; the other operators are no comparisons and never hold.
pub proof fn comparisons_mean_what_they_say(l: int, r: int)
    ensures
        op_holds(BinOp::Eq, l, r) <==> l == r,
        op_holds(BinOp::Ne, l, r) <==> l != r,
        op_holds(BinOp::Lt, l, r) <==> l < r,
        op_holds(BinOp::Le, l, r) <==> l <= r,
        op_holds(BinOp::Gt, l, r) <==> l > r,
        op_holds(BinOp::Ge, l, r) <==> l >= r,
        op_value(BinOp::Eq, l, r) == Some(if l == r { 1int } else { 0int }),
        op_value(BinOp::Ne, l, r) == Some(if l != r { 1int } else { 0int }),
        op_value(BinOp::Lt, l, r) == Some(if l < r { 1int } else { 0int }),
        op_value(BinOp::Le, l, r) == Some(if l <= r { 1int } else { 0int }),
        op_value(BinOp::Gt, l, r) == Some(if l > r { 1int } else { 0int }),
        op_value(BinOp::Ge, l, r) == Some(if l >= r { 1int } else { 0int }),
        !op_holds(BinOp::Add, l, r) && !op_holds(BinOp::Sub, l, r) && !op_holds(BinOp::Mul, l, r)
            && !op_holds(BinOp::Div, l, r) && !op_holds(BinOp::And, l, r) && !op_holds(BinOp::Or, l, r),
        forall|op: BinOp| #[trigger] op_holds(op, l, r) ==> op_value(op, l, r) == Some(1int),
{
}

/// `l / r` rounding toward zero, for `r != 0` and not `i64::MIN / -1`.
fn div_toward_zero(l: i64, r: i64) -> (q: i64)
    requires
        r != 0,
        !(l == i64::MIN && r == -1),
    ensures
        q as int == trunc_div(l as int, r as int),
{
    let ul: u64 = if l == i64::MIN {
        9223372036854775808u64
    } else if l < 0 {
        (-l) as u64
    } else {
        l as u64
    };
    let ur: u64 = if r == i64::MIN {
        9223372036854775808u64
    } else if r < 0 {
        (-r) as u64
    } else {
        r as u64
    };
    let uq = ul / ur;
    assert(uq <= ul) by (nonlinear_arith)
        requires
            uq == ul / ur,
            ur >= 1,
    ;
    if (l < 0) != (r < 0) {
        if uq == 9223372036854775808u64 {
            i64::MIN
        } else {
            -(uq as i64)
        }
    } else {
        proof {
            if uq == 9223372036854775808u64 {
                assert(ul == 9223372036854775808u64);
                assert(l == i64::MIN);
                assert(ur == 1) by (nonlinear_arith)
                    requires
                        ul == 9223372036854775808u64,
                        uq == ul / ur,
                        uq == 9223372036854775808u64,
                        ur >= 1,
                ;
            }
        }
        uq as i64
    }
}

/// The value of `l op r`, when it has one.
pub fn eval_binary_constraint(op: BinOp, l: i64, r: i64) -> (v: Option<i64>)
    requires
        op_value(op, l as int, r as int) matches Some(x) ==> in_i64(x),
    ensures
        opt_int(v) == op_value(op, l as int, r as int),
{
    match op {
        BinOp::Add => Some(l + r),
        BinOp::Sub => Some(l - r),
        BinOp::Mul => Some(l * r),
        BinOp::Div => {
            if r == 0 {
                None
            } else {
                proof {
                    if l == i64::MIN && r == -1 {
                        assert(trunc_div(l as int, r as int) == 9223372036854775808int) by (
                        nonlinear_arith)
                            requires
                                l == i64::MIN,
                                r == -1,
                        ;
                    }
                }
                Some(div_toward_zero(l, r))
            }
        },
        BinOp::Eq => Some(if l == r { 1 } else { 0 }),
        BinOp::Ne => Some(if l != r { 1 } else { 0 }),
        BinOp::Lt => Some(if l < r { 1 } else { 0 }),
        BinOp::Le => Some(if l <= r { 1 } else { 0 }),
        BinOp::Gt => Some(if l > r { 1 } else { 0 }),
        BinOp::Ge => Some(if l >= r { 1 } else { 0 }),
        _ => None,
    }
}

// ---------------------------------------------------------------------------
// Values of constraint expressions
// ---------------------------------------------------------------------------

/// The value of `e` where identifiers are valued by `lookup`; negation is
/// evaluated only when `neg` holds. Integer literals, identifiers, (negations)
/// and binary operations have values; anything else has none.
pub open spec fn value_of(e: Expr, lookup: spec_fn(Seq<char>) -> Option<int>, neg: bool) -> Option<int>
    decreases e,
{
    match e {
        Expr::Integer(n) => Some(n as int),
        Expr::Ident(x) => lookup(x@),
        Expr::Neg(inner) => if neg {
            match value_of(*inner, lookup, neg) {
                Some(v) => Some(-v),
                None => None,
            }
        } else {
            None
        },
        Expr::Binary { lhs, op, rhs } => match value_of(*lhs, lookup, neg) {
            Some(l) => match value_of(*rhs, lookup, neg) {
                Some(r) => op_value(op, l, r),
                None => None,
            },
            None => None,
        },
        _ => None,
    }
}

/// Evaluating `e` (left operand first, stopping at the first operand
/// without a value) never leaves the `i64` range.
pub open spec fn no_overflow(e: Expr, lookup: spec_fn(Seq<char>) -> Option<int>, neg: bool) -> bool
    decreases e,
{
    match e {
        Expr::Neg(inner) => neg ==> no_overflow(*inner, lookup, neg) && (value_of(*inner, lookup, neg)
            matches Some(v) ==> in_i64(-v)),
        Expr::Binary { lhs, op, rhs } => no_overflow(*lhs, lookup, neg) && (value_of(
            *lhs,
            lookup,
            neg,
        ) is Some ==> no_overflow(*rhs, lookup, neg) && (value_of(*rhs, lookup, neg) is Some
            ==> (op_value(op, value_of(*lhs, lookup, neg)->0, value_of(*rhs, lookup, neg)->0)
        matches Some(x) ==> in_i64(x)))),
        _ => true,
    }
}

/// Identifiers valued by the known constants.
pub open spec fn const_lookup(consts: Map<Seq<char>, i64>) -> spec_fn(Seq<char>) -> Option<int> {
    |x: Seq<char>|
        if consts.contains_key(x) {
            Some(consts[x] as int)
        } else {
            None
        }
}

/// The constant value of `expr`, if it has one.
pub fn const_value(expr: &Expr, constants: &NameMap<i64>) -> (v: Option<i64>)
    requires
        constants.wf(),
        no_overflow(*expr, const_lookup(constants@), true),
    ensures
        opt_int(v) == value_of(*expr, const_lookup(constants@), true),
    decreases expr,
{
    match expr {
        Expr::Integer(n) => Some(*n),
        Expr::Ident(x) => {
            let xc = chars_of(x.as_str());
            match constants.get(xc.as_slice()) {
                Some(v) => Some(*v),
                None => None,
            }
        },
        Expr::Neg(inner) => match const_value(inner, constants) {
            Some(v) => Some(-v),
            None => None,
        },
        Expr::Binary { lhs, op, rhs } => {
            let l = match const_value(lhs, constants) {
                Some(l) => l,
                None => {
                    return None;
                },
            };
            let r = match const_value(rhs, constants) {
                Some(r) => r,
                None => {
                    return None;
                },
            };
            eval_binary_constraint(*op, l, r)
        },
        _ => None,
    }
}

// ---------------------------------------------------------------------------
// Free variables
// ---------------------------------------------------------------------------

/// `x` names a known constant or a local of the function being checked.
pub open spec fn is_bound(x: Seq<char>, consts: Map<Seq<char>, i64>, locals: Seq<String>) -> bool {
    consts.contains_key(x) || exists|i: int| 0 <= i < locals.len() && (#[trigger] locals[i])@ == x
}

/// `acc` extended, in order of first appearance, with the identifiers of
/// `e` that are not bound and not already listed; identifiers are looked
/// for in binary operands and in calls (callee, then arguments).
pub open spec fn free_vars_into(
    e: Expr,
    consts: Map<Seq<char>, i64>,
    locals: Seq<String>,
    acc: Seq<Seq<char>>,
) -> Seq<Seq<char>>
    decreases e,
{
    match e {
        Expr::Ident(x) => if !is_bound(x@, consts, locals) && !acc.contains(x@) {
            acc.push(x@)
        } else {
            acc
        },
        Expr::Binary { lhs, op, rhs } => free_vars_into(
            *rhs,
            consts,
            locals,
            free_vars_into(*lhs, consts, locals, acc),
        ),
        Expr::Call { func, args } => free_vars_args(
            args,
            consts,
            locals,
            free_vars_into(*func, consts, locals, acc),
        ),
        _ => acc,
    }
}

/// `acc` extended with the free variables of the arguments, left to right.
pub open spec fn free_vars_args(
    args: ExprList,
    consts: Map<Seq<char>, i64>,
    locals: Seq<String>,
    acc: Seq<Seq<char>>,
) -> Seq<Seq<char>>
    decreases args,
{
    match args {
        ExprList::Nil => acc,
        ExprList::Cons(head, tail) => free_vars_args(
            *tail,
            consts,
            locals,
            free_vars_into(*head, consts, locals, acc),
        ),
    }
}

/// The free variables of `e`, in order of first appearance.
pub open spec fn free_vars(e: Expr, consts: Map<Seq<char>, i64>, locals: Seq<String>) -> Seq<
    Seq<char>,
> {
    free_vars_into(e, consts, locals, Seq::empty())
}

/// The views of a list of strings.
pub open spec fn string_views(v: Seq<String>) -> Seq<Seq<char>> {
    v.map_values(|s: String| s@)
}

/// Whether `x` is one of `names`.
pub fn names_contain(names: &Vec<String>, x: &str) -> (b: bool)
    ensures
        b == string_views(names@).contains(x@),
{
    let mut i: usize = 0;
    while i < names.len()
        invariant
            i <= names@.len(),
            forall|j: int| 0 <= j < i ==> (#[trigger] names@[j])@ != x@,
        decreases names@.len() - i,
    {
        if str_eq(names[i].as_str(), x) {
            assert(string_views(names@)[i as int] == x@);
            return true;
        }
        i = i + 1;
    }
    proof {
        if string_views(names@).contains(x@) {
            let j = choose|j: int| 0 <= j < string_views(names@).len() && string_views(names@)[j] == x@;
            assert(names@[j]@ == x@);
        }
    }
    false
}

fn bound_name(x: &str, constants: &NameMap<i64>, locals: &Vec<String>) -> (b: bool)
    ensures
        b == is_bound(x@, constants@, locals@),
{
    let xc = chars_of(x);
    if constants.contains(xc.as_slice()) {
        return true;
    }
    let r = names_contain(locals, x);
    proof {
        if r {
            let j = choose|j: int| 0 <= j < string_views(locals@).len() && string_views(locals@)[j] == x@;
            assert(locals@[j]@ == x@);
        }
        if is_bound(x@, constants@, locals@) {
            let j = choose|j: int| 0 <= j < locals@.len() && (#[trigger] locals@[j])@ == x@;
            assert(string_views(locals@)[j] == x@);
        }
    }
    r
}

fn collect_free_vars_rec(
    expr: &Expr,
    constants: &NameMap<i64>,
    locals: &Vec<String>,
    vars: &mut Vec<String>,
)
    ensures
        string_views(final(vars)@) == free_vars_into(
            *expr,
            constants@,
            locals@,
            string_views(old(vars)@),
        ),
    decreases expr,
{
    match expr {
        Expr::Ident(x) => {
            if !bound_name(x.as_str(), constants, locals) && !names_contain(vars, x.as_str()) {
                let ghost before = string_views(vars@);
                vars.push(x.clone());
                assert(string_views(vars@) =~= before.push(x@));
            }
        },
        Expr::Binary { lhs, op, rhs } => {
            collect_free_vars_rec(lhs, constants, locals, vars);
            collect_free_vars_rec(rhs, constants, locals, vars);
        },
        Expr::Call { func, args } => {
            collect_free_vars_rec(func, constants, locals, vars);
            collect_free_vars_args(args, constants, locals, vars);
        },
        _ => {},
    }
}

fn collect_free_vars_args(
    args: &ExprList,
    constants: &NameMap<i64>,
    locals: &Vec<String>,
    vars: &mut Vec<String>,
)
    ensures
        string_views(final(vars)@) == free_vars_args(
            *args,
            constants@,
            locals@,
            string_views(old(vars)@),
        ),
    decreases args,
{
    match args {
        ExprList::Nil => {},
        ExprList::Cons(head, tail) => {
            collect_free_vars_rec(head, constants, locals, vars);
            collect_free_vars_args(tail, constants, locals, vars);
        },
    }
}

/// The identifiers of `expr` that are neither known constants nor locals,
/// each once, in order of first appearance.
pub fn collect_free_vars(expr: &Expr, constants: &NameMap<i64>, locals: &Vec<String>) -> (r: Vec<
    String,
>)
    ensures
        string_views(r@) == free_vars(*expr, constants@, locals@),
{
    let mut vars: Vec<String> = Vec::new();
    assert(string_views(vars@) =~= Seq::<Seq<char>>::empty());
    collect_free_vars_rec(expr, constants, locals, &mut vars);
    vars
}

// ---------------------------------------------------------------------------
// Evaluating constraints
// ---------------------------------------------------------------------------

/// The result of evaluating a constraint.
pub enum ConstraintEvalResult {
    /// The constraint holds.
    Satisfied,
    /// The constraint fails; the message shows the compared values.
    Violated(String),
    /// The constraint cannot be decided; these free variables keep it open.
    NeedsPropagation(Vec<String>),
}

/// The contents of an evaluation result.
pub enum EvalView {
    Satisfied,
    Violated(Seq<char>),
    NeedsPropagation(Seq<Seq<char>>),
}

impl View for ConstraintEvalResult {
    type V = EvalView;

    open spec fn view(&self) -> EvalView {
        match self {
            ConstraintEvalResult::Satisfied => EvalView::Satisfied,
            ConstraintEvalResult::Violated(m) => EvalView::Violated(m@),
            ConstraintEvalResult::NeedsPropagation(v) => EvalView::NeedsPropagation(
                string_views(v@),
            ),
        }
    }
}

/// How an operator is written.
pub open spec fn op_symbol(op: BinOp) -> Seq<char> {
    match op {
        BinOp::Add => "+"@,
        BinOp::Sub => "-"@,
        BinOp::Mul => "*"@,
        BinOp::Div => "/"@,
        BinOp::Eq => "=="@,
        BinOp::Ne => "!="@,
        BinOp::Lt => "<"@,
        BinOp::Le => "<="@,
        BinOp::Gt => ">"@,
        BinOp::Ge => ">="@,
        BinOp::And => "&&"@,
        BinOp::Or => "||"@,
    }
}

/// The symbol of an operator.
pub fn fmt_op(op: BinOp) -> (s: String)
    ensures
        s@ == op_symbol(op),
{
    match op {
        BinOp::Add => "+".to_string(),
        BinOp::Sub => "-".to_string(),
        BinOp::Mul => "*".to_string(),
        BinOp::Div => "/".to_string(),
        BinOp::Eq => "==".to_string(),
        BinOp::Ne => "!=".to_string(),
        BinOp::Lt => "<".to_string(),
        BinOp::Le => "<=".to_string(),
        BinOp::Gt => ">".to_string(),
        BinOp::Ge => ">=".to_string(),
        BinOp::And => "&&".to_string(),
        BinOp::Or => "||".to_string(),
    }
}

/// Evaluating a constraint `lhs op rhs` whose identifiers `lookup` values:
/// when both sides have values the comparison decides; otherwise the free
/// variables of both sides (left's, then right's) keep it open. Other
/// constraint shapes stay open with no variables.
pub open spec fn eval_spec(
    c: Expr,
    lookup: spec_fn(Seq<char>) -> Option<int>,
    consts: Map<Seq<char>, i64>,
    locals: Seq<String>,
) -> EvalView {
    match c {
        Expr::Binary { lhs, op, rhs } => match (
            value_of(*lhs, lookup, false),
            value_of(*rhs, lookup, false),
        ) {
            (Some(l), Some(r)) => if op_holds(op, l, r) {
                EvalView::Satisfied
            } else {
                EvalView::Violated(
                    signed_decimal(l) + " "@ + op_symbol(op) + " "@ + signed_decimal(r)
                        + " is false"@,
                )
            },
            _ => EvalView::NeedsPropagation(
                free_vars(*lhs, consts, locals) + free_vars(*rhs, consts, locals),
            ),
        },
        _ => EvalView::NeedsPropagation(Seq::empty()),
    }
}

/// Identifiers valued for a direct call: the constrained parameter by the
/// argument's value, other parameters by their arguments' constant values,
/// anything else by the known constants.
pub open spec fn mapping_lookup(
    param: Seq<char>,
    arg_value: Option<i64>,
    pm: Map<Seq<char>, usize>,
    args: Seq<Expr>,
    consts: Map<Seq<char>, i64>,
) -> spec_fn(Seq<char>) -> Option<int> {
    |x: Seq<char>|
        if x == param {
            opt_int(arg_value)
        } else if pm.contains_key(x) {
            value_of(args[pm[x] as int], const_lookup(consts), true)
        } else {
            const_lookup(consts)(x)
        }
}

/// Identifiers valued for an inherited constraint: the constrained
/// parameter by the argument's value, mapped names by their (possibly
/// unknown) values, anything else by the known constants.
pub open spec fn value_map_lookup(
    param: Seq<char>,
    arg_value: Option<i64>,
    vm: Map<Seq<char>, Option<i64>>,
    consts: Map<Seq<char>, i64>,
) -> spec_fn(Seq<char>) -> Option<int> {
    |x: Seq<char>|
        if x == param {
            opt_int(arg_value)
        } else if vm.contains_key(x) {
            opt_int(vm[x])
        } else {
            const_lookup(consts)(x)
        }
}

/// Every mapped argument index is in range and its argument evaluates
/// without overflow.
pub open spec fn args_ok(pm: Map<Seq<char>, usize>, args: Seq<Expr>, consts: Map<Seq<char>, i64>) -> bool {
    forall|k: Seq<char>|
        #![trigger pm[k]]
        pm.contains_key(k) ==> pm[k] < args.len() && no_overflow(
            args[pm[k] as int],
            const_lookup(consts),
            true,
        )
}

/// The value of a constraint operand for a direct call.
pub fn resolve_constraint_value(
    expr: &Expr,
    param_name: &str,
    arg_value: Option<i64>,
    param_to_arg: &NameMap<usize>,
    args: &[Expr],
    constants: &NameMap<i64>,
) -> (v: Option<i64>)
    requires
        param_to_arg.wf(),
        constants.wf(),
        args_ok(param_to_arg@, args@, constants@),
        no_overflow(
            *expr,
            mapping_lookup(param_name@, arg_value, param_to_arg@, args@, constants@),
            false,
        ),
    ensures
        opt_int(v) == value_of(
            *expr,
            mapping_lookup(param_name@, arg_value, param_to_arg@, args@, constants@),
            false,
        ),
    decreases expr,
{
    match expr {
        Expr::Integer(n) => Some(*n),
        Expr::Ident(x) => {
            if str_eq(x.as_str(), param_name) {
                return arg_value;
            }
            let xc = chars_of(x.as_str());
            match param_to_arg.get(xc.as_slice()) {
                Some(i) => {
                    assert(param_to_arg@.contains_key(x@));
                    const_value(&args[*i], constants)
                },
                None => match constants.get(xc.as_slice()) {
                    Some(c) => Some(*c),
                    None => None,
                },
            }
        },
        Expr::Binary { lhs, op, rhs } => {
            let l = match resolve_constraint_value(
                lhs,
                param_name,
                arg_value,
                param_to_arg,
                args,
                constants,
            ) {
                Some(l) => l,
                None => {
                    return None;
                },
            };
            let r = match resolve_constraint_value(
                rhs,
                param_name,
                arg_value,
                param_to_arg,
                args,
                constants,
            ) {
                Some(r) => r,
                None => {
                    return None;
                },
            };
            eval_binary_constraint(*op, l, r)
        },
        _ => None,
    }
}

/// The value of a constraint operand for an inherited constraint.
pub fn resolve_value_map(
    expr: &Expr,
    param_name: &str,
    arg_value: Option<i64>,
    value_map: &NameMap<Option<i64>>,
    constants: &NameMap<i64>,
) -> (v: Option<i64>)
    requires
        value_map.wf(),
        constants.wf(),
        no_overflow(*expr, value_map_lookup(param_name@, arg_value, value_map@, constants@), false),
    ensures
        opt_int(v) == value_of(
            *expr,
            value_map_lookup(param_name@, arg_value, value_map@, constants@),
            false,
        ),
    decreases expr,
{
    match expr {
        Expr::Integer(n) => Some(*n),
        Expr::Ident(x) => {
            if str_eq(x.as_str(), param_name) {
                return arg_value;
            }
            let xc = chars_of(x.as_str());
            match value_map.get(xc.as_slice()) {
                Some(v) => *v,
                None => match constants.get(xc.as_slice()) {
                    Some(c) => Some(*c),
                    None => None,
                },
            }
        },
        Expr::Binary { lhs, op, rhs } => {
            let l = match resolve_value_map(lhs, param_name, arg_value, value_map, constants) {
                Some(l) => l,
                None => {
                    return None;
                },
            };
            let r = match resolve_value_map(rhs, param_name, arg_value, value_map, constants) {
                Some(r) => r,
                None => {
                    return None;
                },
            };
            eval_binary_constraint(*op, l, r)
        },
        _ => None,
    }
}

fn violation_message(l: i64, op: BinOp, r: i64) -> (m: String)
    ensures
        m@ == signed_decimal(l as int) + " "@ + op_symbol(op) + " "@ + signed_decimal(r as int)
            + " is false"@,
{
    let mut v: Vec<char> = Vec::new();
    push_signed_decimal(&mut v, l as i64);
    push_str(&mut v, " ");
    let o = fmt_op(op);
    push_str(&mut v, o.as_str());
    push_str(&mut v, " ");
    push_signed_decimal(&mut v, r as i64);
    push_str(&mut v, " is false");
    string_of(v.as_slice())
}

fn concat_names(a: Vec<String>, b: Vec<String>) -> (r: Vec<String>)
    ensures
        string_views(r@) == string_views(a@) + string_views(b@),
{
    let mut r = a;
    let mut b = b;
    let ghost av = string_views(r@);
    let ghost bv = string_views(b@);
    r.append(&mut b);
    assert(string_views(r@) =~= av + bv);
    r
}

/// Evaluates a constraint for a direct call.
pub fn eval_constraint_with_mapping(
    constraint: &Expr,
    param_name: &str,
    arg_value: Option<i64>,
    param_to_arg: &NameMap<usize>,
    args: &[Expr],
    constants: &NameMap<i64>,
    locals: &Vec<String>,
) -> (r: ConstraintEvalResult)
    requires
        param_to_arg.wf(),
        constants.wf(),
        args_ok(param_to_arg@, args@, constants@),
        no_overflow(
            *constraint,
            mapping_lookup(param_name@, arg_value, param_to_arg@, args@, constants@),
            false,
        ),
    ensures
        r@ == eval_spec(
            *constraint,
            mapping_lookup(param_name@, arg_value, param_to_arg@, args@, constants@),
            constants@,
            locals@,
        ),
{
    match constraint {
        Expr::Binary { lhs, op, rhs } => {
            let lv = collect_free_vars(lhs, constants, locals);
            let rv = collect_free_vars(rhs, constants, locals);
            let all = concat_names(lv, rv);
            let l = resolve_constraint_value(lhs, param_name, arg_value, param_to_arg, args, constants);
            let r = match l {
                Some(_) => resolve_constraint_value(
                    rhs,
                    param_name,
                    arg_value,
                    param_to_arg,
                    args,
                    constants,
                ),
                None => None,
            };
            match (l, r) {
                (Some(l), Some(r)) => if eval_binary_bool(*op, l, r) {
                    ConstraintEvalResult::Satisfied
                } else {
                    ConstraintEvalResult::Violated(violation_message(l, *op, r))
                },
                _ => {
                    proof {
                        let lk = mapping_lookup(
                            param_name@,
                            arg_value,
                            param_to_arg@,
                            args@,
                            constants@,
                        );
                        if value_of(**lhs, lk, false) is Some {
                            assert(value_of(**rhs, lk, false) is None);
                        }
                    }
                    ConstraintEvalResult::NeedsPropagation(all)
                },
            }
        },
        _ => {
            let v: Vec<String> = Vec::new();
            let r = ConstraintEvalResult::NeedsPropagation(v);
            assert(r@ == EvalView::NeedsPropagation(Seq::<Seq<char>>::empty())) by {
                assert(string_views(v@) =~= Seq::<Seq<char>>::empty());
            }
            r
        },
    }
}

/// Evaluates an inherited constraint.
pub fn eval_constraint_with_value_map(
    constraint: &Expr,
    param_name: &str,
    arg_value: Option<i64>,
    value_map: &NameMap<Option<i64>>,
    constants: &NameMap<i64>,
    locals: &Vec<String>,
) -> (r: ConstraintEvalResult)
    requires
        value_map.wf(),
        constants.wf(),
        no_overflow(
            *constraint,
            value_map_lookup(param_name@, arg_value, value_map@, constants@),
            false,
        ),
    ensures
        r@ == eval_spec(
            *constraint,
            value_map_lookup(param_name@, arg_value, value_map@, constants@),
            constants@,
            locals@,
        ),
{
    match constraint {
        Expr::Binary { lhs, op, rhs } => {
            let lv = collect_free_vars(lhs, constants, locals);
            let rv = collect_free_vars(rhs, constants, locals);
            let all = concat_names(lv, rv);
            let l = resolve_value_map(lhs, param_name, arg_value, value_map, constants);
            let r = match l {
                Some(_) => resolve_value_map(rhs, param_name, arg_value, value_map, constants),
                None => None,
            };
            match (l, r) {
                (Some(l), Some(r)) => if eval_binary_bool(*op, l, r) {
                    ConstraintEvalResult::Satisfied
                } else {
                    ConstraintEvalResult::Violated(violation_message(l, *op, r))
                },
                _ => {
                    proof {
                        let lk = value_map_lookup(param_name@, arg_value, value_map@, constants@);
                        if value_of(**lhs, lk, false) is Some {
                            assert(value_of(**rhs, lk, false) is None);
                        }
                    }
                    ConstraintEvalResult::NeedsPropagation(all)
                },
            }
        },
        _ => {
            let v: Vec<String> = Vec::new();
            let r = ConstraintEvalResult::NeedsPropagation(v);
            assert(r@ == EvalView::NeedsPropagation(Seq::<Seq<char>>::empty())) by {
                assert(string_views(v@) =~= Seq::<Seq<char>>::empty());
            }
            r
        },
    }
}

// ---------------------------------------------------------------------------
// Rendering constraints
// ---------------------------------------------------------------------------

/// How an argument is named in messages: an identifier by its name,
/// anything else as `value`.
pub open spec fn arg_name_spec(e: Expr) -> Seq<char> {
    match e {
        Expr::Ident(id) => id@,
        _ => "value"@,
    }
}

/// The name of an argument expression.
pub fn get_arg_name(expr: &Expr) -> (s: String)
    ensures
        s@ == arg_name_spec(*expr),
{
    match expr {
        Expr::Ident(id) => id.clone(),
        _ => "value".to_string(),
    }
}

/// `name (value)`.
pub open spec fn annotated(name: Seq<char>, value: Seq<char>) -> Seq<char> {
    name + " ("@ + value + ")"@
}

/// An operand of a violated direct-call constraint, with the values used:
/// literals as numbers, the parameter with the argument's value, other
/// parameters with their argument's constant value or name, constants with
/// their value, other names bare; anything else as `expr`.
pub open spec fn operand_text(
    e: Expr,
    param: Seq<char>,
    arg_val: i64,
    pm: Map<Seq<char>, usize>,
    args: Seq<Expr>,
    consts: Map<Seq<char>, i64>,
) -> Seq<char> {
    match e {
        Expr::Integer(n) => signed_decimal(n as int),
        Expr::Ident(id) => if id@ == param {
            annotated(param, signed_decimal(arg_val as int))
        } else if pm.contains_key(id@) {
            match value_of(args[pm[id@] as int], const_lookup(consts), true) {
                Some(v) => annotated(id@, signed_decimal(v)),
                None => annotated(id@, arg_name_spec(args[pm[id@] as int])),
            }
        } else if consts.contains_key(id@) {
            annotated(id@, signed_decimal(consts[id@] as int))
        } else {
            id@
        },
        _ => "expr"@,
    }
}

/// A constraint `lhs op rhs` with its operands' values shown.
pub open spec fn constraint_text(
    c: Expr,
    param: Seq<char>,
    arg_val: i64,
    pm: Map<Seq<char>, usize>,
    args: Seq<Expr>,
    consts: Map<Seq<char>, i64>,
) -> Seq<char> {
    match c {
        Expr::Binary { lhs, op, rhs } => operand_text(*lhs, param, arg_val, pm, args, consts) + " "@
            + op_symbol(op) + " "@ + operand_text(*rhs, param, arg_val, pm, args, consts),
        _ => "constraint evaluation failed"@,
    }
}

fn push_annotated(v: &mut Vec<char>, name: &str, value: &Vec<char>)
    ensures
        final(v)@ == old(v)@ + annotated(name@, value@),
{
    push_str(v, name);
    push_str(v, " (");
    let ghost mid = v@;
    crate::text::push_range(v, value.as_slice(), 0, value.len());
    assert(value@.subrange(0, value@.len() as int) =~= value@);
    push_str(v, ")");
    assert(v@ =~= old(v)@ + annotated(name@, value@));
}

fn decimal_chars(n: i64) -> (r: Vec<char>)
    ensures
        r@ == signed_decimal(n as int),
{
    let mut r: Vec<char> = Vec::new();
    push_signed_decimal(&mut r, n);
    assert(r@ =~= signed_decimal(n as int));
    r
}

fn fmt_expr_with_value(
    expr: &Expr,
    param_name: &str,
    arg_val: i64,
    param_to_arg: &NameMap<usize>,
    args: &[Expr],
    constants: &NameMap<i64>,
) -> (s: Vec<char>)
    requires
        param_to_arg.wf(),
        constants.wf(),
        args_ok(param_to_arg@, args@, constants@),
    ensures
        s@ == operand_text(*expr, param_name@, arg_val, param_to_arg@, args@, constants@),
{
    match expr {
        Expr::Integer(n) => decimal_chars(*n),
        Expr::Ident(id) => {
            let mut out: Vec<char> = Vec::new();
            if str_eq(id.as_str(), param_name) {
                push_annotated(&mut out, param_name, &decimal_chars(arg_val));
                return out;
            }
            let xc = chars_of(id.as_str());
            match param_to_arg.get(xc.as_slice()) {
                Some(i) => {
                    assert(param_to_arg@.contains_key(id@));
                    let arg = &args[*i];
                    match const_value(arg, constants) {
                        Some(v) => push_annotated(&mut out, id.as_str(), &decimal_chars(v)),
                        None => {
                            let n = get_arg_name(arg);
                            let nc = chars_of(n.as_str());
                            push_annotated(&mut out, id.as_str(), &nc);
                        },
                    }
                },
                None => match constants.get(xc.as_slice()) {
                    Some(v) => push_annotated(&mut out, id.as_str(), &decimal_chars(*v)),
                    None => {
                        push_str(&mut out, id.as_str());
                    },
                },
            }
            assert(out@ =~= operand_text(
                *expr,
                param_name@,
                arg_val,
                param_to_arg@,
                args@,
                constants@,
            ));
            out
        },
        _ => chars_of("expr"),
    }
}

/// The constraint of a direct call with the values involved, for messages.
pub fn fmt_constraint_with_values(
    constraint: &Expr,
    param_name: &str,
    arg_val: i64,
    param_to_arg: &NameMap<usize>,
    args: &[Expr],
    constants: &NameMap<i64>,
) -> (s: String)
    requires
        param_to_arg.wf(),
        constants.wf(),
        args_ok(param_to_arg@, args@, constants@),
    ensures
        s@ == constraint_text(*constraint, param_name@, arg_val, param_to_arg@, args@, constants@),
{
    match constraint {
        Expr::Binary { lhs, op, rhs } => {
            let mut out = fmt_expr_with_value(lhs, param_name, arg_val, param_to_arg, args, constants);
            push_str(&mut out, " ");
            let o = fmt_op(*op);
            push_str(&mut out, o.as_str());
            push_str(&mut out, " ");
            let r = fmt_expr_with_value(rhs, param_name, arg_val, param_to_arg, args, constants);
            crate::text::push_range(&mut out, r.as_slice(), 0, r.len());
            assert(r@.subrange(0, r@.len() as int) =~= r@);
            string_of(out.as_slice())
        },
        _ => "constraint evaluation failed".to_string(),
    }
}

/// An operand of a violated inherited constraint, with the values used:
/// the parameter with the argument's value, mapped names with their value
/// or `?`, constants with their value, other names bare.
pub open spec fn operand_text_map(
    e: Expr,
    param: Seq<char>,
    arg_val: i64,
    vm: Map<Seq<char>, Option<i64>>,
    consts: Map<Seq<char>, i64>,
) -> Seq<char> {
    match e {
        Expr::Integer(n) => signed_decimal(n as int),
        Expr::Ident(id) => if id@ == param {
            annotated(param, signed_decimal(arg_val as int))
        } else if vm.contains_key(id@) {
            match vm[id@] {
                Some(v) => annotated(id@, signed_decimal(v as int)),
                None => annotated(id@, "?"@),
            }
        } else if consts.contains_key(id@) {
            annotated(id@, signed_decimal(consts[id@] as int))
        } else {
            id@
        },
        _ => "expr"@,
    }
}

/// An inherited constraint `lhs op rhs` with its operands' values shown.
pub open spec fn constraint_text_map(
    c: Expr,
    param: Seq<char>,
    arg_val: i64,
    vm: Map<Seq<char>, Option<i64>>,
    consts: Map<Seq<char>, i64>,
) -> Seq<char> {
    match c {
        Expr::Binary { lhs, op, rhs } => operand_text_map(*lhs, param, arg_val, vm, consts) + " "@
            + op_symbol(op) + " "@ + operand_text_map(*rhs, param, arg_val, vm, consts),
        _ => "constraint evaluation failed"@,
    }
}

fn fmt_expr_with_value_map(
    expr: &Expr,
    param_name: &str,
    arg_val: i64,
    value_map: &NameMap<Option<i64>>,
    constants: &NameMap<i64>,
) -> (s: Vec<char>)
    requires
        value_map.wf(),
        constants.wf(),
    ensures
        s@ == operand_text_map(*expr, param_name@, arg_val, value_map@, constants@),
{
    match expr {
        Expr::Integer(n) => decimal_chars(*n),
        Expr::Ident(id) => {
            let mut out: Vec<char> = Vec::new();
            if str_eq(id.as_str(), param_name) {
                push_annotated(&mut out, param_name, &decimal_chars(arg_val));
                return out;
            }
            let xc = chars_of(id.as_str());
            match value_map.get(xc.as_slice()) {
                Some(Some(v)) => push_annotated(&mut out, id.as_str(), &decimal_chars(*v)),
                Some(None) => push_annotated(&mut out, id.as_str(), &chars_of("?")),
                None => match constants.get(xc.as_slice()) {
                    Some(v) => push_annotated(&mut out, id.as_str(), &decimal_chars(*v)),
                    None => {
                        push_str(&mut out, id.as_str());
                    },
                },
            }
            assert(out@ =~= operand_text_map(
                *expr,
                param_name@,
                arg_val,
                value_map@,
                constants@,
            ));
            out
        },
        _ => chars_of("expr"),
    }
}

/// An inherited constraint with the values involved, for messages.
pub fn fmt_constraint_with_value_map(
    constraint: &Expr,
    param_name: &str,
    arg_val: i64,
    value_map: &NameMap<Option<i64>>,
    constants: &NameMap<i64>,
) -> (s: String)
    requires
        value_map.wf(),
        constants.wf(),
    ensures
        s@ == constraint_text_map(*constraint, param_name@, arg_val, value_map@, constants@),
{
    match constraint {
        Expr::Binary { lhs, op, rhs } => {
            let mut out = fmt_expr_with_value_map(lhs, param_name, arg_val, value_map, constants);
            push_str(&mut out, " ");
            let o = fmt_op(*op);
            push_str(&mut out, o.as_str());
            push_str(&mut out, " ");
            let r = fmt_expr_with_value_map(rhs, param_name, arg_val, value_map, constants);
            crate::text::push_range(&mut out, r.as_slice(), 0, r.len());
            assert(r@.subrange(0, r@.len() as int) =~= r@);
            string_of(out.as_slice())
        },
        _ => "constraint evaluation failed".to_string(),
    }
}

// ---------------------------------------------------------------------------
// Substitution
// ---------------------------------------------------------------------------

/// A copy of `e`.
pub fn copy_expr(e: &Expr) -> (r: Expr)
    ensures
        r == *e,
    decreases e,
{
    match e {
        Expr::Integer(n) => Expr::Integer(*n),
        Expr::Ident(x) => Expr::Ident(x.clone()),
        Expr::Text(x) => Expr::Text(x.clone()),
        Expr::Neg(inner) => Expr::Neg(Box::new(copy_expr(inner))),
        Expr::Not(inner) => Expr::Not(Box::new(copy_expr(inner))),
        Expr::Binary { lhs, op, rhs } => Expr::Binary {
            lhs: Box::new(copy_expr(lhs)),
            op: *op,
            rhs: Box::new(copy_expr(rhs)),
        },
        Expr::Call { func, args } => {
            let f = copy_expr(func);
            let a = copy_list(args);
            Expr::Call { func: Box::new(f), args: a }
        },
        Expr::Other => Expr::Other,
    }
}

fn copy_list(args: &ExprList) -> (r: ExprList)
    ensures
        r == *args,
    decreases args,
{
    match args {
        ExprList::Nil => ExprList::Nil,
        ExprList::Cons(head, tail) => ExprList::Cons(
            Box::new(copy_expr(head)),
            Box::new(copy_list(tail)),
        ),
    }
}

/// `r` is `e` with every identifier `from` that stands in a binary
/// operation, a negation or a logical not (or is `e` itself) renamed to `to`;
/// all else is kept as it is.
pub open spec fn substituted(r: Expr, e: Expr, from: Seq<char>, to: Seq<char>) -> bool
    decreases e,
{
    match e {
        Expr::Ident(id) => if id@ == from {
            r matches Expr::Ident(s) && s@ == to
        } else {
            r == e
        },
        Expr::Binary { lhs, op, rhs } => match r {
            Expr::Binary { lhs: l2, op: o2, rhs: r2 } => o2 == op && substituted(*l2, *lhs, from, to)
                && substituted(*r2, *rhs, from, to),
            _ => false,
        },
        Expr::Not(inner) => match r {
            Expr::Not(i2) => substituted(*i2, *inner, from, to),
            _ => false,
        },
        Expr::Neg(inner) => match r {
            Expr::Neg(i2) => substituted(*i2, *inner, from, to),
            _ => false,
        },
        _ => r == e,
    }
}

/// Renames identifier `from` to `to` in a constraint.
pub fn substitute_expr_ident(expr: &Expr, from: &str, to: &str) -> (r: Expr)
    ensures
        substituted(r, *expr, from@, to@),
    decreases expr,
{
    match expr {
        Expr::Ident(id) => if str_eq(id.as_str(), from) {
            Expr::Ident(to.to_string())
        } else {
            copy_expr(expr)
        },
        Expr::Binary { lhs, op, rhs } => Expr::Binary {
            lhs: Box::new(substitute_expr_ident(lhs, from, to)),
            op: *op,
            rhs: Box::new(substitute_expr_ident(rhs, from, to)),
        },
        Expr::Not(inner) => Expr::Not(Box::new(substitute_expr_ident(inner, from, to))),
        Expr::Neg(inner) => Expr::Neg(Box::new(substitute_expr_ident(inner, from, to))),
        _ => copy_expr(expr),
    }
}


/// `e` with each identifier `from` in a binary operation, a negation or a
/// logical not (or `e` itself) replaced by `to`; all else is kept.
pub open spec fn renamed(e: Expr, from: Seq<char>, to: String) -> Expr
    decreases e,
{
    match e {
        Expr::Ident(id) => if id@ == from {
            Expr::Ident(to)
        } else {
            e
        },
        Expr::Binary { lhs, op, rhs } => Expr::Binary {
            lhs: Box::new(renamed(*lhs, from, to)),
            op,
            rhs: Box::new(renamed(*rhs, from, to)),
        },
        Expr::Not(inner) => Expr::Not(Box::new(renamed(*inner, from, to))),
        Expr::Neg(inner) => Expr::Neg(Box::new(renamed(*inner, from, to))),
        _ => e,
    }
}

/// Renames identifier `from` to the name `to` in a constraint.
pub fn rename_ident(expr: &Expr, from: &str, to: &String) -> (r: Expr)
    ensures
        r == renamed(*expr, from@, *to),
    decreases expr,
{
    match expr {
        Expr::Ident(id) => if str_eq(id.as_str(), from) {
            Expr::Ident(to.clone())
        } else {
            copy_expr(expr)
        },
        Expr::Binary { lhs, op, rhs } => Expr::Binary {
            lhs: Box::new(rename_ident(lhs, from, to)),
            op: *op,
            rhs: Box::new(rename_ident(rhs, from, to)),
        },
        Expr::Not(inner) => Expr::Not(Box::new(rename_ident(inner, from, to))),
        Expr::Neg(inner) => Expr::Neg(Box::new(rename_ident(inner, from, to))),
        _ => copy_expr(expr),
    }
}

} // verus!
