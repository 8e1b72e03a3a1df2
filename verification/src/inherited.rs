//! Constraints that a function inherits from the constrained functions it
//! calls: where each argument of such a call gets its value from, and the
//! constraints collected from a function body.
use vstd::prelude::*;
use crate::call_check::{InheritedConstraint, ParamSource};
use crate::constraints::{
    copy_expr, in_i64, names_contain, opt_int, string_views, trunc_div, BinOp, ParamConstraint,
};
use crate::interfaces::listed;
use crate::name_map::NameMap;
use crate::text::{chars_of, str_eq};

verus! {

/// The parts of a function body that the search for inherited constraints
/// reads. A node that can be named as an argument's source keeps `text`,
/// its rendering in the parser's debug notation.
pub enum BodyExpr {
    Integer(i64),
    Ident(String),
    Neg(Box<BodyExpr>),
    Not { inner: Box<BodyExpr>, text: String },
    Binary { lhs: Box<BodyExpr>, op: BinOp, rhs: Box<BodyExpr>, text: String },
    Call { func: Box<BodyExpr>, args: Vec<BodyExpr>, text: String },
    If {
        cond: Box<BodyExpr>,
        then_branch: Vec<Statement>,
        else_branch: Option<Vec<Statement>>,
        text: String,
    },
    /// Any other expression.
    Other(String),
}

/// The statements of a function body, as far as the search reads them.
pub enum Statement {
    Expr(BodyExpr),
    Let { name: String, value: BodyExpr },
    Return(Option<BodyExpr>),
    Guard { condition: BodyExpr, else_body: Vec<Statement> },
    GuardLet { else_body: Vec<Statement> },
    /// Any other statement.
    Other,
}

// ---------------------------------------------------------------------------
// Constant values in a body
// ---------------------------------------------------------------------------

/// `l op r` for the arithmetic operators (no division by zero); the other
/// operators give nothing.
pub open spec fn arith_value(op: BinOp, l: int, r: int) -> Option<int> {
    match op {
        BinOp::Add => Some(l + r),
        BinOp::Sub => Some(l - r),
        BinOp::Mul => Some(l * r),
        BinOp::Div => if r != 0 {
            Some(trunc_div(l, r))
        } else {
            None
        },
        _ => None,
    }
}

/// The constant value of a body expression, given the constants bound so
/// far: literals, constants, their negations and arithmetic.
pub open spec fn static_value(e: BodyExpr, consts: Map<Seq<char>, i64>) -> Option<int>
    decreases e,
{
    match e {
        BodyExpr::Integer(n) => Some(n as int),
        BodyExpr::Ident(x) => if consts.contains_key(x@) {
            Some(consts[x@] as int)
        } else {
            None
        },
        BodyExpr::Neg(inner) => match static_value(*inner, consts) {
            Some(v) => Some(-v),
            None => None,
        },
        BodyExpr::Binary { lhs, op, rhs, .. } => match static_value(*lhs, consts) {
            Some(l) => match static_value(*rhs, consts) {
                Some(r) => arith_value(op, l, r),
                None => None,
            },
            None => None,
        },
        _ => None,
    }
}

/// Computing `static_value` (left operand first, stopping at the first
/// operand without a value) stays in the `i64` range.
pub open spec fn static_ok(e: BodyExpr, consts: Map<Seq<char>, i64>) -> bool
    decreases e,
{
    match e {
        BodyExpr::Neg(inner) => static_ok(*inner, consts) && (static_value(*inner, consts) matches Some(
            v,
        ) ==> in_i64(-v)),
        BodyExpr::Binary { lhs, op, rhs, .. } => static_ok(*lhs, consts) && (static_value(
            *lhs,
            consts,
        ) is Some ==> static_ok(*rhs, consts) && (static_value(*rhs, consts) is Some ==> (
        arith_value(op, static_value(*lhs, consts)->0, static_value(*rhs, consts)->0) matches Some(
            x,
        ) ==> in_i64(x)))),
        _ => true,
    }
}

/// `l op r` for an arithmetic operator, when it has a value.
fn arith_i64(op: BinOp, l: i64, r: i64) -> (v: Option<i64>)
    requires
        arith_value(op, l as int, r as int) matches Some(x) ==> in_i64(x),
    ensures
        opt_int(v) == arith_value(op, l as int, r as int),
{
    match op {
        BinOp::Add => Some(l + r),
        BinOp::Sub => Some(l - r),
        BinOp::Mul => Some(l * r),
        BinOp::Div => {
            if r != 0 {
                match crate::constraints::eval_binary_constraint(op, l, r) {
                    Some(q) => Some(q),
                    None => None,
                }
            } else {
                None
            }
        },
        _ => None,
    }
}

/// The constant value of `e` given the constants bound so far.
pub fn const_value_static(e: &BodyExpr, constants: &NameMap<i64>) -> (v: Option<i64>)
    requires
        constants.wf(),
        static_ok(*e, constants@),
    ensures
        opt_int(v) == static_value(*e, constants@),
    decreases e,
{
    match e {
        BodyExpr::Integer(n) => Some(*n),
        BodyExpr::Ident(x) => {
            let xc = chars_of(x.as_str());
            match constants.get(xc.as_slice()) {
                Some(v) => Some(*v),
                None => None,
            }
        },
        BodyExpr::Neg(inner) => match const_value_static(inner, constants) {
            Some(v) => Some(-v),
            None => None,
        },
        BodyExpr::Binary { lhs, op, rhs, .. } => {
            let l = match const_value_static(lhs, constants) {
                Some(l) => l,
                None => {
                    return None;
                },
            };
            let r = match const_value_static(rhs, constants) {
                Some(r) => r,
                None => {
                    return None;
                },
            };
            arith_i64(*op, l, r)
        },
        _ => None,
    }
}

/// The constants bound by the first `k` top-level `let`s of a body: each
/// `let` whose value is constant, given the ones before it, binds its name.
pub open spec fn body_constants(stmts: Seq<Statement>, k: int) -> Map<Seq<char>, i64>
    decreases k,
{
    if k <= 0 || k > stmts.len() {
        Map::empty()
    } else {
        let prev = body_constants(stmts, k - 1);
        match stmts[k - 1] {
            Statement::Let { name, value } => match static_value(value, prev) {
                Some(v) => prev.insert(name@, v as i64),
                None => prev,
            },
            _ => prev,
        }
    }
}

/// Computing the constants of a body stays in the `i64` range.
pub open spec fn body_constants_ok(stmts: Seq<Statement>) -> bool {
    forall|k: int|
        0 <= k < stmts.len() ==> match #[trigger] stmts[k] {
            Statement::Let { value, .. } => static_ok(value, body_constants(stmts, k)),
            _ => true,
        }
}

/// The constants that the top-level `let`s of a body bind.
pub fn collect_body_constants(stmts: &Vec<Statement>) -> (m: NameMap<i64>)
    requires
        body_constants_ok(stmts@),
    ensures
        m.wf(),
        m@ == body_constants(stmts@, stmts@.len() as int),
{
    let mut m: NameMap<i64> = NameMap::new();
    let mut k: usize = 0;
    while k < stmts.len()
        invariant
            k <= stmts@.len(),
            m.wf(),
            m@ == body_constants(stmts@, k as int),
            body_constants_ok(stmts@),
        decreases stmts@.len() - k,
    {
        match &stmts[k] {
            Statement::Let { name, value } => {
                assert(static_ok(*value, body_constants(stmts@, k as int)));
                match const_value_static(value, &m) {
                    Some(v) => {
                        assert((v as int) as i64 == v);
                        m.insert(name.clone(), v);
                    },
                    None => {},
                }
            },
            _ => {},
        }
        k = k + 1;
    }
    m
}

// ---------------------------------------------------------------------------
// Where arguments come from
// ---------------------------------------------------------------------------

/// A source as a value.
pub enum SourceView {
    Constant(int),
    Param(Seq<char>),
}

/// The view of a source.
pub open spec fn source_view(s: ParamSource) -> SourceView {
    match s {
        ParamSource::Constant(v) => SourceView::Constant(v as int),
        ParamSource::Param(p) => SourceView::Param(p@),
    }
}

/// Where an argument gets its value from, in a function with parameters
/// `params` and body constants `consts`: a parameter of the function (an
/// unknown name counts as one), a constant, or, for any other expression,
/// the expression itself, named by its rendering.
pub open spec fn classify(e: BodyExpr, params: Seq<Seq<char>>, consts: Map<Seq<char>, i64>) -> SourceView
    decreases e,
{
    match e {
        BodyExpr::Ident(x) => if params.contains(x@) {
            SourceView::Param(x@)
        } else if consts.contains_key(x@) {
            SourceView::Constant(consts[x@] as int)
        } else {
            SourceView::Param(x@)
        },
        BodyExpr::Integer(n) => SourceView::Constant(n as int),
        BodyExpr::Neg(inner) => match classify(*inner, params, consts) {
            SourceView::Constant(v) => SourceView::Constant(-v),
            other => other,
        },
        BodyExpr::Binary { lhs, op, rhs, text } => match classify(*lhs, params, consts) {
            SourceView::Constant(l) => match classify(*rhs, params, consts) {
                SourceView::Constant(r) => match arith_value(op, l, r) {
                    Some(v) => SourceView::Constant(v),
                    None => SourceView::Param(text@),
                },
                _ => SourceView::Param(text@),
            },
            _ => SourceView::Param(text@),
        },
        BodyExpr::Not { text, .. } => SourceView::Param(text@),
        BodyExpr::Call { text, .. } => SourceView::Param(text@),
        BodyExpr::If { text, .. } => SourceView::Param(text@),
        BodyExpr::Other(text) => SourceView::Param(text@),
    }
}

/// Classifying `e` stays in the `i64` range.
pub open spec fn classify_ok(e: BodyExpr, params: Seq<Seq<char>>, consts: Map<Seq<char>, i64>) -> bool
    decreases e,
{
    match e {
        BodyExpr::Neg(inner) => classify_ok(*inner, params, consts) && (classify(*inner, params, consts) matches SourceView::Constant(v) ==> in_i64(v) && in_i64(-v)),
        BodyExpr::Binary { lhs, op, rhs, .. } => classify_ok(*lhs, params, consts) && classify_ok(
            *rhs,
            params,
            consts,
        ) && ((classify(*lhs, params, consts), classify(*rhs, params, consts)) matches (
            SourceView::Constant(l),
            SourceView::Constant(r),
        ) ==> in_i64(l) && in_i64(r) && (arith_value(op, l, r) matches Some(x) ==> in_i64(x))),
        _ => true,
    }
}

/// A constant source always holds an `i64`.
proof fn lemma_classify_range(e: BodyExpr, params: Seq<Seq<char>>, consts: Map<Seq<char>, i64>)
    requires
        classify_ok(e, params, consts),
    ensures
        classify(e, params, consts) matches SourceView::Constant(v) ==> in_i64(v),
    decreases e,
{
    match e {
        BodyExpr::Neg(inner) => {
            lemma_classify_range(*inner, params, consts);
        },
        BodyExpr::Binary { lhs, rhs, .. } => {
            lemma_classify_range(*lhs, params, consts);
            lemma_classify_range(*rhs, params, consts);
        },
        _ => {},
    }
}

/// Where the argument `arg` gets its value from, in a function with
/// parameters `params` and body constants `constants`.
pub fn classify_arg(arg: &BodyExpr, params: &Vec<String>, constants: &NameMap<i64>) -> (s: ParamSource)
    requires
        constants.wf(),
        classify_ok(*arg, string_views(params@), constants@),
    ensures
        source_view(s) == classify(*arg, string_views(params@), constants@),
    decreases arg,
{
    proof {
        lemma_classify_range(*arg, string_views(params@), constants@);
    }
    match arg {
        BodyExpr::Ident(x) => {
            if names_contain(params, x.as_str()) {
                ParamSource::Param(x.clone())
            } else {
                let xc = chars_of(x.as_str());
                match constants.get(xc.as_slice()) {
                    Some(v) => ParamSource::Constant(*v),
                    None => ParamSource::Param(x.clone()),
                }
            }
        },
        BodyExpr::Integer(n) => ParamSource::Constant(*n),
        BodyExpr::Neg(inner) => match classify_arg(inner, params, constants) {
            ParamSource::Constant(v) => ParamSource::Constant(-v),
            other => other,
        },
        BodyExpr::Binary { lhs, op, rhs, text } => {
            let l = classify_arg(lhs, params, constants);
            let r = classify_arg(rhs, params, constants);
            match (l, r) {
                (ParamSource::Constant(lv), ParamSource::Constant(rv)) => match arith_i64(
                    *op,
                    lv,
                    rv,
                ) {
                    Some(v) => ParamSource::Constant(v),
                    None => ParamSource::Param(text.clone()),
                },
                _ => ParamSource::Param(text.clone()),
            }
        },
        BodyExpr::Not { text, .. } => ParamSource::Param(text.clone()),
        BodyExpr::Call { text, .. } => ParamSource::Param(text.clone()),
        BodyExpr::If { text, .. } => ParamSource::Param(text.clone()),
        BodyExpr::Other(text) => ParamSource::Param(text.clone()),
    }
}


// ---------------------------------------------------------------------------
// Searching a body
// ---------------------------------------------------------------------------

/// What the search knows of the function it searches: its parameters, its
/// body constants, the constraints and parameters of every function, and
/// its own name.
pub struct Search {
    pub params: Seq<Seq<char>>,
    pub consts: Map<Seq<char>, i64>,
    pub constraints: Map<Seq<char>, Vec<ParamConstraint>>,
    pub callee_params: Map<Seq<char>, Vec<String>>,
    pub current: Seq<char>,
}

/// An inherited constraint as found: the called function, which of its
/// constraints, the sources of its parameters in parameter order, and
/// whether classifying the arguments stays in the `i64` range.
pub struct Found {
    pub callee: Seq<char>,
    pub index: int,
    pub sources: Seq<(Seq<char>, SourceView)>,
    pub ok: bool,
}

/// The constraints inherited at one call of `name` with `args`: one for
/// each constraint of a constrained function other than the current one.
pub open spec fn found_at_call(name: Seq<char>, args: Seq<BodyExpr>, s: Search) -> Seq<Found> {
    if name != s.current && s.constraints.contains_key(name) {
        let cps = string_views(listed(s.callee_params, name));
        let n = if cps.len() < args.len() {
            cps.len() as int
        } else {
            args.len() as int
        };
        let sources = Seq::new(n as nat, |i: int| (cps[i], classify(args[i], s.params, s.consts)));
        let ok = forall|i: int| 0 <= i < n ==> classify_ok(#[trigger] args[i], s.params, s.consts);
        Seq::new(
            s.constraints[name]@.len(),
            |j: int| Found { callee: name, index: j, sources, ok },
        )
    } else {
        Seq::empty()
    }
}

/// The constraints inherited at a call of `func`, when `func` is a name.
pub open spec fn found_at_head(func: BodyExpr, args: Seq<BodyExpr>, s: Search) -> Seq<Found> {
    match func {
        BodyExpr::Ident(name) => found_at_call(name@, args, s),
        _ => Seq::empty(),
    }
}

/// The constraints inherited in an expression, in the order the search
/// meets them.
pub open spec fn found_in_expr(e: BodyExpr, s: Search) -> Seq<Found>
    decreases e, 0int,
{
    match e {
        BodyExpr::Call { func, args, .. } => {
            proof {
                vstd::std_specs::vec::axiom_vec_decreases_to_view(args);
            }
            found_at_head(*func, args@, s) + found_in_args(args@, args@.len() as int, s)
        },
        BodyExpr::Binary { lhs, rhs, .. } => found_in_expr(*lhs, s) + found_in_expr(*rhs, s),
        BodyExpr::If { cond, then_branch, else_branch, .. } => {
            proof {
                vstd::std_specs::vec::axiom_vec_decreases_to_view(then_branch);
            }
            found_in_expr(*cond, s) + found_in_stmts(then_branch@, then_branch@.len() as int, s) + (
            match else_branch {
                Some(es) => {
                    proof {
                        vstd::std_specs::vec::axiom_vec_decreases_to_view(es);
                    }
                    found_in_stmts(es@, es@.len() as int, s)
                },
                None => Seq::empty(),
            })
        },
        BodyExpr::Neg(inner) => found_in_expr(*inner, s),
        BodyExpr::Not { inner, .. } => found_in_expr(*inner, s),
        _ => Seq::empty(),
    }
}

/// The constraints inherited in the first `k` of `es`.
pub open spec fn found_in_args(es: Seq<BodyExpr>, k: int, s: Search) -> Seq<Found>
    decreases es, k,
{
    if k <= 0 || k > es.len() {
        Seq::empty()
    } else {
        found_in_args(es, k - 1, s) + found_in_expr(es[k - 1], s)
    }
}

/// The constraints inherited in a statement.
pub open spec fn found_in_stmt(st: Statement, s: Search) -> Seq<Found>
    decreases st, 0int,
{
    match st {
        Statement::Expr(e) => found_in_expr(e, s),
        Statement::Let { value, .. } => found_in_expr(value, s),
        Statement::Return(r) => match r {
            Some(e) => found_in_expr(e, s),
            None => Seq::empty(),
        },
        Statement::Guard { condition, else_body } => {
            proof {
                vstd::std_specs::vec::axiom_vec_decreases_to_view(else_body);
            }
            found_in_expr(condition, s) + found_in_stmts(else_body@, else_body@.len() as int, s)
        },
        Statement::GuardLet { else_body } => {
            proof {
                vstd::std_specs::vec::axiom_vec_decreases_to_view(else_body);
            }
            found_in_stmts(else_body@, else_body@.len() as int, s)
        },
        Statement::Other => Seq::empty(),
    }
}

/// The constraints inherited in the first `k` of `ss`.
pub open spec fn found_in_stmts(ss: Seq<Statement>, k: int, s: Search) -> Seq<Found>
    decreases ss, k,
{
    if k <= 0 || k > ss.len() {
        Seq::empty()
    } else {
        found_in_stmts(ss, k - 1, s) + found_in_stmt(ss[k - 1], s)
    }
}

/// Every argument classified on the way stays in the `i64` range.
pub open spec fn all_ok(fs: Seq<Found>) -> bool {
    forall|k: int| 0 <= k < fs.len() ==> (#[trigger] fs[k]).ok
}

/// The views of a list of sources.
pub open spec fn sources_view(v: Seq<(String, ParamSource)>) -> Seq<(Seq<char>, SourceView)> {
    v.map_values(|p: (String, ParamSource)| (p.0@, source_view(p.1)))
}

/// `r` records the found constraint `f`, inherited by `current`.
pub open spec fn records(
    r: InheritedConstraint,
    f: Found,
    fc: Map<Seq<char>, Vec<ParamConstraint>>,
    current: Seq<char>,
) -> bool {
    &&& r.target_func@ == f.callee
    &&& string_views(r.via@) == seq![current]
    &&& fc.contains_key(f.callee)
    &&& 0 <= f.index < fc[f.callee]@.len()
    &&& r.constraint.param_name@ == fc[f.callee]@[f.index].param_name@
    &&& r.constraint.constraint == fc[f.callee]@[f.index].constraint
    &&& sources_view(r.target_param_sources@) == f.sources
}

/// `after` is `before` followed by records of `fs`, in order.
pub open spec fn extends(
    before: Seq<InheritedConstraint>,
    after: Seq<InheritedConstraint>,
    fs: Seq<Found>,
    fc: Map<Seq<char>, Vec<ParamConstraint>>,
    current: Seq<char>,
) -> bool {
    &&& after.len() == before.len() + fs.len()
    &&& after.subrange(0, before.len() as int) == before
    &&& forall|k: int|
        0 <= k < fs.len() ==> records(#[trigger] after[before.len() + k], fs[k], fc, current)
}

proof fn lemma_extends_empty(
    a: Seq<InheritedConstraint>,
    fc: Map<Seq<char>, Vec<ParamConstraint>>,
    current: Seq<char>,
)
    ensures
        extends(a, a, Seq::empty(), fc, current),
{
    assert(a.subrange(0, a.len() as int) =~= a);
}

proof fn lemma_extends_trans(
    a: Seq<InheritedConstraint>,
    b: Seq<InheritedConstraint>,
    c: Seq<InheritedConstraint>,
    f1: Seq<Found>,
    f2: Seq<Found>,
    fc: Map<Seq<char>, Vec<ParamConstraint>>,
    current: Seq<char>,
)
    requires
        extends(a, b, f1, fc, current),
        extends(b, c, f2, fc, current),
    ensures
        extends(a, c, f1 + f2, fc, current),
{
    assert(c.subrange(0, a.len() as int) =~= a) by {
        assert forall|i: int| 0 <= i < a.len() implies c.subrange(0, a.len() as int)[i] == a[i] by {
            assert(c.subrange(0, b.len() as int)[i] == b[i]);
            assert(b.subrange(0, a.len() as int)[i] == a[i]);
        }
    }
    assert forall|k: int| 0 <= k < (f1 + f2).len() implies records(
        #[trigger] c[a.len() + k],
        (f1 + f2)[k],
        fc,
        current,
    ) by {
        if k < f1.len() {
            assert(records(b[a.len() + k], f1[k], fc, current));
            assert(c.subrange(0, b.len() as int)[a.len() + k] == b[a.len() + k]);
        } else {
            assert(records(c[b.len() + (k - f1.len())], f2[k - f1.len()], fc, current));
        }
    }
}

proof fn lemma_all_ok_split(f1: Seq<Found>, f2: Seq<Found>)
    requires
        all_ok(f1 + f2),
    ensures
        all_ok(f1),
        all_ok(f2),
{
    assert forall|k: int| 0 <= k < f1.len() implies (#[trigger] f1[k]).ok by {
        assert((f1 + f2)[k] == f1[k]);
    }
    assert forall|k: int| 0 <= k < f2.len() implies (#[trigger] f2[k]).ok by {
        assert((f1 + f2)[f1.len() + k] == f2[k]);
    }
}

/// The search as a value.
pub open spec fn search_of(
    params: Seq<String>,
    consts: Map<Seq<char>, i64>,
    fc: Map<Seq<char>, Vec<ParamConstraint>>,
    fp: Map<Seq<char>, Vec<String>>,
    current: Seq<char>,
) -> Search {
    Search { params: string_views(params), consts, constraints: fc, callee_params: fp, current }
}

fn copy_sources(v: &Vec<(String, ParamSource)>) -> (r: Vec<(String, ParamSource)>)
    ensures
        sources_view(r@) == sources_view(v@),
{
    let mut r: Vec<(String, ParamSource)> = Vec::new();
    let mut i: usize = 0;
    while i < v.len()
        invariant
            i <= v@.len(),
            sources_view(r@) == sources_view(v@.take(i as int)),
        decreases v@.len() - i,
    {
        let src = match &v[i].1 {
            ParamSource::Constant(c) => ParamSource::Constant(*c),
            ParamSource::Param(p) => ParamSource::Param(p.clone()),
        };
        let ghost old_r = r@;
        let name = v[i].0.clone();
        assert(source_view(src) == source_view(v@[i as int].1));
        r.push((name, src));
        assert(v@.take(i + 1) =~= v@.take(i as int).push(v@[i as int]));
        assert(sources_view(r@) =~= sources_view(old_r).push((v@[i as int].0@, source_view(v@[i as int].1))));
        assert(sources_view(v@.take(i + 1)) =~= sources_view(v@.take(i as int)).push(
            (v@[i as int].0@, source_view(v@[i as int].1)),
        ));
        i = i + 1;
    }
    assert(v@.take(v@.len() as int) =~= v@);
    r
}

fn find_inherited_at_call(
    name: &String,
    args: &Vec<BodyExpr>,
    params: &Vec<String>,
    consts: &NameMap<i64>,
    fc: &NameMap<Vec<ParamConstraint>>,
    fp: &NameMap<Vec<String>>,
    current: &str,
    result: &mut Vec<InheritedConstraint>,
)
    requires
        consts.wf(),
        fc.wf(),
        fp.wf(),
        all_ok(found_at_call(name@, args@, search_of(params@, consts@, fc@, fp@, current@))),
    ensures
        extends(
            old(result)@,
            final(result)@,
            found_at_call(name@, args@, search_of(params@, consts@, fc@, fp@, current@)),
            fc@,
            current@,
        ),
{
    let ghost s = search_of(params@, consts@, fc@, fp@, current@);
    let ghost before = result@;
    proof {
        lemma_extends_empty(before, fc@, current@);
    }
    if str_eq(name.as_str(), current) {
        return;
    }
    let key = chars_of(name.as_str());
    let constraints = match fc.get(key.as_slice()) {
        Some(c) => c,
        None => {
            return;
        },
    };
    if constraints.len() == 0 {
        assert(found_at_call(name@, args@, s) =~= Seq::<Found>::empty());
        return;
    }
    let no_params: Vec<String> = Vec::new();
    let cps: &Vec<String> = match fp.get(key.as_slice()) {
        Some(p) => p,
        None => &no_params,
    };
    assert(cps@ == listed(fp@, name@));
    let ghost fs = found_at_call(name@, args@, s);
    assert(fs[0].ok);
    let n: usize = if cps.len() < args.len() {
        cps.len()
    } else {
        args.len()
    };
    let ghost want = Seq::new(
        n as nat,
        |i: int| (string_views(cps@)[i], classify(args@[i], s.params, s.consts)),
    );
    assert(fs[0].sources == want);
    let mut sources: Vec<(String, ParamSource)> = Vec::new();
    let mut i: usize = 0;
    while i < n
        invariant
            i <= n,
            n <= cps@.len(),
            n <= args@.len(),
            consts.wf(),
            s.params == string_views(params@),
            s.consts == consts@,
            forall|a: int| 0 <= a < n ==> classify_ok(#[trigger] args@[a], s.params, s.consts),
            want == Seq::new(
                n as nat,
                |a: int| (string_views(cps@)[a], classify(args@[a], s.params, s.consts)),
            ),
            sources_view(sources@) == want.take(i as int),
        decreases n - i,
    {
        let src = classify_arg(&args[i], params, consts);
        let ghost old_s = sources@;
        let pname = cps[i].clone();
        assert(string_views(cps@)[i as int] == pname@);
        sources.push((pname, src));
        assert(sources_view(sources@) =~= sources_view(old_s).push(want[i as int]));
        assert(want.take(i + 1) =~= want.take(i as int).push(want[i as int]));
        i = i + 1;
    }
    assert(want.take(n as int) =~= want);
    let mut j: usize = 0;
    while j < constraints.len()
        invariant
            j <= constraints@.len(),
            fs == found_at_call(name@, args@, s),
            fs.len() == constraints@.len(),
            fc@.contains_key(name@),
            fc@[name@] == *constraints,
            sources_view(sources@) == want,
            forall|k: int| 0 <= k < fs.len() ==> (#[trigger] fs[k]).callee == name@ && fs[k].index == k
                && fs[k].sources == want,
            extends(before, result@, fs.take(j as int), fc@, current@),
        decreases constraints@.len() - j,
    {
        let c = &constraints[j];
        let inh = InheritedConstraint {
            target_func: name.clone(),
            via: vec![current.to_string()],
            constraint: ParamConstraint {
                param_name: c.param_name.clone(),
                constraint: copy_expr(&c.constraint),
            },
            target_param_sources: copy_sources(&sources),
        };
        let ghost mid = result@;
        result.push(inh);
        proof {
            assert(string_views(inh.via@) =~= seq![current@]);
            assert(records(inh, fs[j as int], fc@, current@));
            assert(extends(mid, result@, seq![fs[j as int]], fc@, current@)) by {
                assert(result@.subrange(0, mid.len() as int) =~= mid);
            }
            lemma_extends_trans(before, mid, result@, fs.take(j as int), seq![fs[j as int]], fc@, current@);
            assert(fs.take(j as int) + seq![fs[j as int]] =~= fs.take(j + 1));
        }
        j = j + 1;
    }
    assert(fs.take(fs.len() as int) =~= fs);
}

/// Collects, in order, the constraints inherited through the calls in `e`
/// (see `find_inherited_in_stmts`).
pub fn find_inherited_in_expr(
    e: &BodyExpr,
    params: &Vec<String>,
    consts: &NameMap<i64>,
    fc: &NameMap<Vec<ParamConstraint>>,
    fp: &NameMap<Vec<String>>,
    current: &str,
    result: &mut Vec<InheritedConstraint>,
)
    requires
        consts.wf(),
        fc.wf(),
        fp.wf(),
        all_ok(found_in_expr(*e, search_of(params@, consts@, fc@, fp@, current@))),
    ensures
        extends(
            old(result)@,
            final(result)@,
            found_in_expr(*e, search_of(params@, consts@, fc@, fp@, current@)),
            fc@,
            current@,
        ),
    decreases e, 0int,
{
    let ghost s = search_of(params@, consts@, fc@, fp@, current@);
    let ghost before = result@;
    proof {
        lemma_extends_empty(before, fc@, current@);
    }
    match e {
        BodyExpr::Call { func, args, .. } => {
            let ghost head = found_at_head(**func, args@, s);
            let ghost rest = found_in_args(args@, args@.len() as int, s);
            proof {
                lemma_all_ok_split(head, rest);
            }
            match &**func {
                BodyExpr::Ident(name) => {
                    find_inherited_at_call(name, args, params, consts, fc, fp, current, result);
                },
                _ => {},
            }
            let ghost mid = result@;
            find_inherited_in_args(args, params, consts, fc, fp, current, result);
            proof {
                lemma_extends_trans(before, mid, result@, head, rest, fc@, current@);
            }
        },
        BodyExpr::Binary { lhs, rhs, .. } => {
            proof {
                lemma_all_ok_split(found_in_expr(**lhs, s), found_in_expr(**rhs, s));
            }
            find_inherited_in_expr(lhs, params, consts, fc, fp, current, result);
            let ghost mid = result@;
            find_inherited_in_expr(rhs, params, consts, fc, fp, current, result);
            proof {
                lemma_extends_trans(before, mid, result@, found_in_expr(**lhs, s), found_in_expr(**rhs, s), fc@, current@);
            }
        },
        BodyExpr::If { cond, then_branch, else_branch, .. } => {
            let ghost f1 = found_in_expr(**cond, s);
            let ghost f2 = found_in_stmts(then_branch@, then_branch@.len() as int, s);
            let ghost f3 = match else_branch {
                Some(es) => found_in_stmts(es@, es@.len() as int, s),
                None => Seq::empty(),
            };
            proof {
                lemma_all_ok_split(f1 + f2, f3);
                lemma_all_ok_split(f1, f2);
            }
            find_inherited_in_expr(cond, params, consts, fc, fp, current, result);
            let ghost m1 = result@;
            find_inherited_in_stmts(then_branch, params, consts, fc, fp, current, result);
            let ghost m2 = result@;
            proof {
                lemma_extends_trans(before, m1, m2, f1, f2, fc@, current@);
                lemma_extends_empty(m2, fc@, current@);
            }
            match else_branch {
                Some(es) => {
                    find_inherited_in_stmts(es, params, consts, fc, fp, current, result);
                },
                None => {},
            }
            proof {
                lemma_extends_trans(before, m2, result@, f1 + f2, f3, fc@, current@);
            }
        },
        BodyExpr::Neg(inner) => {
            find_inherited_in_expr(inner, params, consts, fc, fp, current, result);
        },
        BodyExpr::Not { inner, .. } => {
            find_inherited_in_expr(inner, params, consts, fc, fp, current, result);
        },
        _ => {},
    }
}

fn find_inherited_in_args(
    es: &Vec<BodyExpr>,
    params: &Vec<String>,
    consts: &NameMap<i64>,
    fc: &NameMap<Vec<ParamConstraint>>,
    fp: &NameMap<Vec<String>>,
    current: &str,
    result: &mut Vec<InheritedConstraint>,
)
    requires
        consts.wf(),
        fc.wf(),
        fp.wf(),
        all_ok(found_in_args(es@, es@.len() as int, search_of(params@, consts@, fc@, fp@, current@))),
    ensures
        extends(
            old(result)@,
            final(result)@,
            found_in_args(es@, es@.len() as int, search_of(params@, consts@, fc@, fp@, current@)),
            fc@,
            current@,
        ),
    decreases es, 1int,
{
    let ghost s = search_of(params@, consts@, fc@, fp@, current@);
    let ghost before = result@;
    proof {
        lemma_extends_empty(before, fc@, current@);
        lemma_found_args_ok(es@, es@.len() as int, s);
    }
    let mut k: usize = 0;
    while k < es.len()
        invariant
            k <= es@.len(),
            consts.wf(),
            fc.wf(),
            fp.wf(),
            s == search_of(params@, consts@, fc@, fp@, current@),
            forall|a: int| 0 <= a <= es@.len() ==> all_ok(#[trigger] found_in_args(es@, a, s)),
            extends(before, result@, found_in_args(es@, k as int, s), fc@, current@),
        decreases es@.len() - k,
    {
        assert(all_ok(found_in_args(es@, k + 1, s)));
        proof {
            lemma_all_ok_split(found_in_args(es@, k as int, s), found_in_expr(es@[k as int], s));
        }
        let ghost mid = result@;
        find_inherited_in_expr(&es[k], params, consts, fc, fp, current, result);
        proof {
            lemma_extends_trans(before, mid, result@, found_in_args(es@, k as int, s), found_in_expr(es@[k as int], s), fc@, current@);
        }
        k = k + 1;
    }
}

proof fn lemma_found_args_ok(es: Seq<BodyExpr>, k: int, s: Search)
    requires
        all_ok(found_in_args(es, k, s)),
        0 <= k <= es.len(),
    ensures
        forall|a: int| 0 <= a <= k ==> all_ok(#[trigger] found_in_args(es, a, s)),
    decreases k,
{
    if k > 0 {
        lemma_all_ok_split(found_in_args(es, k - 1, s), found_in_expr(es[k - 1], s));
        lemma_found_args_ok(es, k - 1, s);
    }
}

proof fn lemma_found_stmts_ok(ss: Seq<Statement>, k: int, s: Search)
    requires
        all_ok(found_in_stmts(ss, k, s)),
        0 <= k <= ss.len(),
    ensures
        forall|a: int| 0 <= a <= k ==> all_ok(#[trigger] found_in_stmts(ss, a, s)),
    decreases k,
{
    if k > 0 {
        lemma_all_ok_split(found_in_stmts(ss, k - 1, s), found_in_stmt(ss[k - 1], s));
        lemma_found_stmts_ok(ss, k - 1, s);
    }
}

fn find_inherited_in_stmt(
    st: &Statement,
    params: &Vec<String>,
    consts: &NameMap<i64>,
    fc: &NameMap<Vec<ParamConstraint>>,
    fp: &NameMap<Vec<String>>,
    current: &str,
    result: &mut Vec<InheritedConstraint>,
)
    requires
        consts.wf(),
        fc.wf(),
        fp.wf(),
        all_ok(found_in_stmt(*st, search_of(params@, consts@, fc@, fp@, current@))),
    ensures
        extends(
            old(result)@,
            final(result)@,
            found_in_stmt(*st, search_of(params@, consts@, fc@, fp@, current@)),
            fc@,
            current@,
        ),
    decreases st, 0int,
{
    let ghost s = search_of(params@, consts@, fc@, fp@, current@);
    let ghost before = result@;
    proof {
        lemma_extends_empty(before, fc@, current@);
    }
    match st {
        Statement::Expr(e) => find_inherited_in_expr(e, params, consts, fc, fp, current, result),
        Statement::Let { value, .. } => find_inherited_in_expr(value, params, consts, fc, fp, current, result),
        Statement::Return(r) => match r {
            Some(e) => find_inherited_in_expr(e, params, consts, fc, fp, current, result),
            None => {},
        },
        Statement::Guard { condition, else_body } => {
            let ghost f1 = found_in_expr(*condition, s);
            let ghost f2 = found_in_stmts(else_body@, else_body@.len() as int, s);
            proof {
                lemma_all_ok_split(f1, f2);
            }
            find_inherited_in_expr(condition, params, consts, fc, fp, current, result);
            let ghost mid = result@;
            find_inherited_in_stmts(else_body, params, consts, fc, fp, current, result);
            proof {
                lemma_extends_trans(before, mid, result@, f1, f2, fc@, current@);
            }
        },
        Statement::GuardLet { else_body } => {
            find_inherited_in_stmts(else_body, params, consts, fc, fp, current, result);
        },
        Statement::Other => {},
    }
}

/// Collects, in order, the constraints that a function named `current`,
/// with parameters `params` and body constants `consts`, inherits from the
/// constrained functions that `stmts` call, given the constraints `fc` and
/// parameters `fp` of every function.
pub fn find_inherited_in_stmts(
    stmts: &Vec<Statement>,
    params: &Vec<String>,
    consts: &NameMap<i64>,
    fc: &NameMap<Vec<ParamConstraint>>,
    fp: &NameMap<Vec<String>>,
    current: &str,
    result: &mut Vec<InheritedConstraint>,
)
    requires
        consts.wf(),
        fc.wf(),
        fp.wf(),
        all_ok(
            found_in_stmts(stmts@, stmts@.len() as int, search_of(params@, consts@, fc@, fp@, current@)),
        ),
    ensures
        extends(
            old(result)@,
            final(result)@,
            found_in_stmts(stmts@, stmts@.len() as int, search_of(params@, consts@, fc@, fp@, current@)),
            fc@,
            current@,
        ),
    decreases stmts, 1int,
{
    let ghost s = search_of(params@, consts@, fc@, fp@, current@);
    let ghost before = result@;
    proof {
        lemma_extends_empty(before, fc@, current@);
        lemma_found_stmts_ok(stmts@, stmts@.len() as int, s);
    }
    let mut k: usize = 0;
    while k < stmts.len()
        invariant
            k <= stmts@.len(),
            consts.wf(),
            fc.wf(),
            fp.wf(),
            s == search_of(params@, consts@, fc@, fp@, current@),
            forall|a: int| 0 <= a <= stmts@.len() ==> all_ok(#[trigger] found_in_stmts(stmts@, a, s)),
            extends(before, result@, found_in_stmts(stmts@, k as int, s), fc@, current@),
        decreases stmts@.len() - k,
    {
        assert(all_ok(found_in_stmts(stmts@, k + 1, s)));
        proof {
            lemma_all_ok_split(found_in_stmts(stmts@, k as int, s), found_in_stmt(stmts@[k as int], s));
        }
        let ghost mid = result@;
        find_inherited_in_stmt(&stmts[k], params, consts, fc, fp, current, result);
        proof {
            lemma_extends_trans(before, mid, result@, found_in_stmts(stmts@, k as int, s), found_in_stmt(stmts@[k as int], s), fc@, current@);
        }
        k = k + 1;
    }
}


// ---------------------------------------------------------------------------
// The constraints each function of an interface inherits
// ---------------------------------------------------------------------------

/// A function of an interface, as the search reads it.
pub struct FuncDef {
    pub name: String,
    pub params: Vec<String>,
    pub body: Option<Vec<Statement>>,
}

/// The constraints a function inherits through its body.
pub open spec fn func_found(
    f: FuncDef,
    fc: Map<Seq<char>, Vec<ParamConstraint>>,
    fp: Map<Seq<char>, Vec<String>>,
) -> Seq<Found> {
    match f.body {
        Some(b) => found_in_stmts(
            b@,
            b@.len() as int,
            search_of(f.params@, body_constants(b@, b@.len() as int), fc, fp, f.name@),
        ),
        None => Seq::empty(),
    }
}

/// Each of the first `k` functions that inherits any constraint, mapped to
/// what it inherits (a later function of the same name wins).
pub open spec fn inherited_table(
    funcs: Seq<FuncDef>,
    k: int,
    fc: Map<Seq<char>, Vec<ParamConstraint>>,
    fp: Map<Seq<char>, Vec<String>>,
) -> Map<Seq<char>, Seq<Found>>
    decreases k,
{
    if k <= 0 || k > funcs.len() {
        Map::empty()
    } else {
        let prev = inherited_table(funcs, k - 1, fc, fp);
        let f = funcs[k - 1];
        if f.body is Some && func_found(f, fc, fp).len() > 0 {
            prev.insert(f.name@, func_found(f, fc, fp))
        } else {
            prev
        }
    }
}

/// Computing the constraints each function inherits stays in the `i64`
/// range.
pub open spec fn funcs_ok(
    funcs: Seq<FuncDef>,
    fc: Map<Seq<char>, Vec<ParamConstraint>>,
    fp: Map<Seq<char>, Vec<String>>,
) -> bool {
    forall|k: int|
        0 <= k < funcs.len() ==> match (#[trigger] funcs[k]).body {
            Some(b) => body_constants_ok(b@) && all_ok(func_found(funcs[k], fc, fp)),
            None => true,
        }
}

/// `r` holds, for each function of `funcs` that inherits constraints, what
/// it inherits from the constrained functions it calls, given the
/// constraints `fc` and the parameters `fp` of every function.
pub open spec fn inherited_holds(
    r: Map<Seq<char>, Vec<InheritedConstraint>>,
    funcs: Seq<FuncDef>,
    fc: Map<Seq<char>, Vec<ParamConstraint>>,
    fp: Map<Seq<char>, Vec<String>>,
) -> bool {
    &&& r.dom() == inherited_table(funcs, funcs.len() as int, fc, fp).dom()
    &&& forall|name: Seq<char>|
        #[trigger] r.contains_key(name) ==> extends(
            Seq::empty(),
            r[name]@,
            inherited_table(funcs, funcs.len() as int, fc, fp)[name],
            fc,
            name,
        )
}

/// The constraints that each function of `funcs` with a body inherits from
/// the constrained functions it calls, given the constraints `fc` and the
/// parameters `fp` of every function; functions that inherit none are left
/// out.
pub fn compute_inherited_constraints(
    funcs: &Vec<FuncDef>,
    fc: &NameMap<Vec<ParamConstraint>>,
    fp: &NameMap<Vec<String>>,
) -> (r: NameMap<Vec<InheritedConstraint>>)
    requires
        fc.wf(),
        fp.wf(),
        funcs_ok(funcs@, fc@, fp@),
    ensures
        r.wf(),
        inherited_holds(r@, funcs@, fc@, fp@),
{
    let mut result: NameMap<Vec<InheritedConstraint>> = NameMap::new();
    let mut k: usize = 0;
    while k < funcs.len()
        invariant
            k <= funcs@.len(),
            fc.wf(),
            fp.wf(),
            funcs_ok(funcs@, fc@, fp@),
            result.wf(),
            result@.dom() == inherited_table(funcs@, k as int, fc@, fp@).dom(),
            forall|name: Seq<char>|
                #[trigger] result@.contains_key(name) ==> extends(
                    Seq::empty(),
                    result@[name]@,
                    inherited_table(funcs@, k as int, fc@, fp@)[name],
                    fc@,
                    name,
                ),
        decreases funcs@.len() - k,
    {
        let f = &funcs[k];
        assert(funcs_ok(funcs@, fc@, fp@) ==> match funcs@[k as int].body {
            Some(b) => body_constants_ok(b@) && all_ok(func_found(funcs@[k as int], fc@, fp@)),
            None => true,
        });
        match &f.body {
            Some(body) => {
                let consts = collect_body_constants(body);
                let mut inherited: Vec<InheritedConstraint> = Vec::new();
                find_inherited_in_stmts(body, &f.params, &consts, fc, fp, f.name.as_str(), &mut inherited);
                assert(inherited@.subrange(0, 0) =~= Seq::<InheritedConstraint>::empty());
                if inherited.len() > 0 {
                    let ghost prev = result@;
                    result.insert(f.name.clone(), inherited);
                    proof {
                        assert(result@.dom() =~= inherited_table(funcs@, k + 1, fc@, fp@).dom());
                    }
                } else {
                    assert(inherited_table(funcs@, k + 1, fc@, fp@) == inherited_table(
                        funcs@,
                        k as int,
                        fc@,
                        fp@,
                    ));
                }
            },
            None => {},
        }
        k = k + 1;
    }
    result
}


// ---------------------------------------------------------------------------
// A function never inherits its own constraints
// ---------------------------------------------------------------------------

/// None of `fs` is a constraint of the function named `name`.
pub open spec fn not_from(fs: Seq<Found>, name: Seq<char>) -> bool {
    forall|k: int| 0 <= k < fs.len() ==> (#[trigger] fs[k]).callee != name
}

proof fn lemma_not_from_concat(f1: Seq<Found>, f2: Seq<Found>, name: Seq<char>)
    requires
        not_from(f1, name),
        not_from(f2, name),
    ensures
        not_from(f1 + f2, name),
{
    assert forall|k: int| 0 <= k < (f1 + f2).len() implies (#[trigger] (f1 + f2)[k]).callee != name by {
        if k < f1.len() {
            assert((f1 + f2)[k] == f1[k]);
        } else {
            assert((f1 + f2)[k] == f2[k - f1.len()]);
        }
    }
}

proof fn lemma_expr_not_self(e: BodyExpr, s: Search)
    ensures
        not_from(found_in_expr(e, s), s.current),
    decreases e, 0int,
{
    match e {
        BodyExpr::Call { func, args, .. } => {
            vstd::std_specs::vec::axiom_vec_decreases_to_view(args);
            lemma_args_not_self(args@, args@.len() as int, s);
            lemma_not_from_concat(
                found_at_head(*func, args@, s),
                found_in_args(args@, args@.len() as int, s),
                s.current,
            );
        },
        BodyExpr::Binary { lhs, rhs, .. } => {
            lemma_expr_not_self(*lhs, s);
            lemma_expr_not_self(*rhs, s);
            lemma_not_from_concat(found_in_expr(*lhs, s), found_in_expr(*rhs, s), s.current);
        },
        BodyExpr::If { cond, then_branch, else_branch, .. } => {
            vstd::std_specs::vec::axiom_vec_decreases_to_view(then_branch);
            lemma_expr_not_self(*cond, s);
            lemma_stmts_not_self(then_branch@, then_branch@.len() as int, s);
            let f3 = match else_branch {
                Some(es) => found_in_stmts(es@, es@.len() as int, s),
                None => Seq::empty(),
            };
            match else_branch {
                Some(es) => {
                    vstd::std_specs::vec::axiom_vec_decreases_to_view(es);
                    lemma_stmts_not_self(es@, es@.len() as int, s);
                },
                None => {},
            }
            lemma_not_from_concat(
                found_in_expr(*cond, s),
                found_in_stmts(then_branch@, then_branch@.len() as int, s),
                s.current,
            );
            lemma_not_from_concat(
                found_in_expr(*cond, s) + found_in_stmts(
                    then_branch@,
                    then_branch@.len() as int,
                    s,
                ),
                f3,
                s.current,
            );
        },
        BodyExpr::Neg(inner) => {
            lemma_expr_not_self(*inner, s);
        },
        BodyExpr::Not { inner, .. } => {
            lemma_expr_not_self(*inner, s);
        },
        _ => {},
    }
}

proof fn lemma_args_not_self(es: Seq<BodyExpr>, k: int, s: Search)
    ensures
        not_from(found_in_args(es, k, s), s.current),
    decreases es, k,
{
    if k > 0 && k <= es.len() {
        lemma_args_not_self(es, k - 1, s);
        lemma_expr_not_self(es[k - 1], s);
        lemma_not_from_concat(found_in_args(es, k - 1, s), found_in_expr(es[k - 1], s), s.current);
    }
}

proof fn lemma_stmt_not_self(st: Statement, s: Search)
    ensures
        not_from(found_in_stmt(st, s), s.current),
    decreases st, 0int,
{
    match st {
        Statement::Expr(e) => lemma_expr_not_self(e, s),
        Statement::Let { value, .. } => lemma_expr_not_self(value, s),
        Statement::Return(r) => match r {
            Some(e) => lemma_expr_not_self(e, s),
            None => {},
        },
        Statement::Guard { condition, else_body } => {
            vstd::std_specs::vec::axiom_vec_decreases_to_view(else_body);
            lemma_expr_not_self(condition, s);
            lemma_stmts_not_self(else_body@, else_body@.len() as int, s);
            lemma_not_from_concat(
                found_in_expr(condition, s),
                found_in_stmts(else_body@, else_body@.len() as int, s),
                s.current,
            );
        },
        Statement::GuardLet { else_body } => {
            vstd::std_specs::vec::axiom_vec_decreases_to_view(else_body);
            lemma_stmts_not_self(else_body@, else_body@.len() as int, s);
        },
        Statement::Other => {},
    }
}

proof fn lemma_stmts_not_self(ss: Seq<Statement>, k: int, s: Search)
    ensures
        not_from(found_in_stmts(ss, k, s), s.current),
    decreases ss, k,
{
    if k > 0 && k <= ss.len() {
        lemma_stmts_not_self(ss, k - 1, s);
        lemma_stmt_not_self(ss[k - 1], s);
        lemma_not_from_concat(found_in_stmts(ss, k - 1, s), found_in_stmt(ss[k - 1], s), s.current);
    }
}

/// A function never inherits a constraint of its own: whatever a function
/// inherits comes from the other functions it calls.
pub proof fn no_function_inherits_from_itself(
    funcs: Seq<FuncDef>,
    fc: Map<Seq<char>, Vec<ParamConstraint>>,
    fp: Map<Seq<char>, Vec<String>>,
)
    ensures
        forall|name: Seq<char>|
            #[trigger] inherited_table(funcs, funcs.len() as int, fc, fp).contains_key(name)
                ==> not_from(inherited_table(funcs, funcs.len() as int, fc, fp)[name], name),
{
    lemma_table_not_self(funcs, funcs.len() as int, fc, fp);
}

proof fn lemma_table_not_self(
    funcs: Seq<FuncDef>,
    k: int,
    fc: Map<Seq<char>, Vec<ParamConstraint>>,
    fp: Map<Seq<char>, Vec<String>>,
)
    ensures
        forall|name: Seq<char>|
            #[trigger] inherited_table(funcs, k, fc, fp).contains_key(name) ==> not_from(
                inherited_table(funcs, k, fc, fp)[name],
                name,
            ),
    decreases k,
{
    if k > 0 && k <= funcs.len() {
        lemma_table_not_self(funcs, k - 1, fc, fp);
        let f = funcs[k - 1];
        match f.body {
            Some(b) => {
                lemma_stmts_not_self(
                    b@,
                    b@.len() as int,
                    search_of(f.params@, body_constants(b@, b@.len() as int), fc, fp, f.name@),
                );
                assert(not_from(func_found(f, fc, fp), f.name@));
            },
            None => {},
        }
        let prev = inherited_table(funcs, k - 1, fc, fp);
        assert forall|name: Seq<char>|
            #[trigger] inherited_table(funcs, k, fc, fp).contains_key(name) implies not_from(
                inherited_table(funcs, k, fc, fp)[name],
                name,
            ) by {
            if name != f.name@ || !(f.body is Some && func_found(f, fc, fp).len() > 0) {
                assert(prev.contains_key(name));
            }
        }
    }
}

} // verus!
