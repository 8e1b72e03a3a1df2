//! Checking a call against the constraints of the function it calls: each
//! constraint on a parameter is evaluated with the call's arguments, and a
//! violated or undecidable one is reported.
use vstd::prelude::*;
use crate::constraints::{
    arg_name_spec, const_lookup, const_value, constraint_text, eval_constraint_with_mapping,
    eval_spec, fmt_constraint_with_values, get_arg_name, mapping_lookup, no_overflow,
    string_views, value_of, ConstraintEvalResult, EvalView, Expr, ParamConstraint,
};
use crate::checked::debug_quoted;
use crate::diagnostics::{Diagnostic, DiagnosticCode, Severity, Span};
use crate::hush::{check_hush_comment, hush_views, hushes, HushComment};
use crate::name_map::NameMap;
use crate::text::{chars_of, join, join_parts, push_range, push_str, str_eq, string_of, views};

verus! {

/// What std's `Debug` prints for a list of strings: `[`, each string as
/// `Debug` prints it, separated by `, `, then `]` (`["a", "b"]`).
pub open spec fn debug_list(v: Seq<Seq<char>>) -> Seq<char> {
    "["@ + join(v.map_values(|s: Seq<char>| debug_quoted(s)), ", "@) + "]"@
}

/// std's `Debug` for `Vec<String>`, through `format!("{:?}")`: the list in
/// brackets, each string printed by `Debug` for `str` (named
/// `debug_quoted`), separated by `, `.
#[verifier::external_body]
fn debug_names(v: &Vec<String>) -> (s: String)
    ensures
        s@ == debug_list(string_views(v@)),
{
    format!("{:?}", v)
}

// ---------------------------------------------------------------------------
// Binding parameters to arguments
// ---------------------------------------------------------------------------

/// Each parameter name bound to the index of its argument, for the first
/// `n` parameters; where a name repeats, the later parameter wins.
pub open spec fn param_map(params: Seq<Seq<char>>, n: int) -> Map<Seq<char>, usize>
    decreases params.len(),
{
    if params.len() == 0 {
        Map::empty()
    } else {
        let m = param_map(params.drop_last(), n);
        if params.len() - 1 < n {
            m.insert(params.last(), (params.len() - 1) as usize)
        } else {
            m
        }
    }
}

/// The index of the first parameter called `name`, or -1.
pub open spec fn first_index(params: Seq<Seq<char>>, name: Seq<char>) -> int
    decreases params.len(),
{
    if params.len() == 0 {
        -1
    } else {
        let f = first_index(params.drop_last(), name);
        if f >= 0 {
            f
        } else if params.last() == name {
            params.len() - 1
        } else {
            -1
        }
    }
}

proof fn lemma_param_map_range(params: Seq<Seq<char>>, n: int, x: Seq<char>)
    ensures
        param_map(params, n).contains_key(x) ==> param_map(params, n)[x] < n
            && param_map(params, n)[x] < params.len(),
    decreases params.len(),
{
    if params.len() > 0 {
        lemma_param_map_range(params.drop_last(), n, x);
    }
}

proof fn lemma_first_index(params: Seq<Seq<char>>, name: Seq<char>)
    ensures
        -1 <= first_index(params, name) < params.len(),
        first_index(params, name) >= 0 ==> params[first_index(params, name)] == name,
        first_index(params, name) < 0 ==> forall|k: int|
            0 <= k < params.len() ==> params[k] != name,
    decreases params.len(),
{
    if params.len() > 0 {
        lemma_first_index(params.drop_last(), name);
        if first_index(params, name) < 0 {
            assert forall|k: int| 0 <= k < params.len() implies params[k] != name by {
                if k < params.len() - 1 {
                    assert(params.drop_last()[k] == params[k]);
                }
            }
        }
    }
}

/// Binds the first `n_args` parameters to their arguments' indices.
pub fn map_params(params: &Vec<String>, n_args: usize) -> (m: NameMap<usize>)
    ensures
        m.wf(),
        m@ == param_map(string_views(params@), n_args as int),
{
    let mut m: NameMap<usize> = NameMap::new();
    let mut i: usize = 0;
    while i < params.len()
        invariant
            i <= params@.len(),
            m.wf(),
            m@ == param_map(string_views(params@).take(i as int), n_args as int),
        decreases params@.len() - i,
    {
        let ghost ps = string_views(params@);
        assert(ps.take(i + 1).drop_last() =~= ps.take(i as int));
        assert(ps.take(i + 1).last() == params@[i as int]@);
        if i < n_args {
            m.insert(params[i].clone(), i);
        }
        i = i + 1;
    }
    assert(string_views(params@).take(params@.len() as int) =~= string_views(params@));
    m
}

fn first_param_index(params: &Vec<String>, name: &str) -> (r: Option<usize>)
    ensures
        match r {
            Some(i) => i as int == first_index(string_views(params@), name@),
            None => first_index(string_views(params@), name@) < 0,
        },
{
    let ghost ps = string_views(params@);
    let mut i: usize = 0;
    while i < params.len()
        invariant
            i <= params@.len(),
            ps == string_views(params@),
            first_index(ps.take(i as int), name@) < 0,
        decreases params@.len() - i,
    {
        assert(ps.take(i + 1).drop_last() =~= ps.take(i as int));
        if str_eq(params[i].as_str(), name) {
            proof {
                lemma_first_index_prefix(ps, name@, i + 1);
            }
            return Some(i);
        }
        i = i + 1;
    }
    assert(ps.take(params@.len() as int) =~= ps);
    None
}

proof fn lemma_first_index_prefix(ps: Seq<Seq<char>>, name: Seq<char>, k: int)
    requires
        0 < k <= ps.len(),
        first_index(ps.take(k), name) >= 0,
    ensures
        first_index(ps, name) == first_index(ps.take(k), name),
    decreases ps.len(),
{
    if k < ps.len() {
        assert(ps.drop_last().take(k) =~= ps.take(k));
        lemma_first_index_prefix(ps.drop_last(), name, k);
    } else {
        assert(ps.take(k) =~= ps);
    }
}

// ---------------------------------------------------------------------------
// The messages
// ---------------------------------------------------------------------------

/// The constant value of an argument, as an `i64`.
pub open spec fn arg_value_of(arg: Expr, consts: Map<Seq<char>, i64>) -> Option<i64> {
    match value_of(arg, const_lookup(consts), true) {
        Some(v) => Some(v as i64),
        None => None,
    }
}

/// How the argument bound to parameter `x` is named, or `x` itself.
pub open spec fn bound_arg_name(x: Seq<char>, pm: Map<Seq<char>, usize>, args: Seq<Expr>) -> Seq<
    char,
> {
    if pm.contains_key(x) {
        arg_name_spec(args[pm[x] as int])
    } else {
        x
    }
}

/// The message reported for a constraint on parameter `param` of `func`
/// that evaluated to `ev`, its argument being `args[idx]`; empty where the
/// constraint holds.
pub open spec fn direct_message(
    func: Seq<char>,
    param: Seq<char>,
    c: Expr,
    idx: int,
    arg_value: Option<i64>,
    ev: EvalView,
    pm: Map<Seq<char>, usize>,
    args: Seq<Expr>,
    consts: Map<Seq<char>, i64>,
) -> Seq<char> {
    let shown = match arg_value {
        Some(v) => v,
        None => 0,
    };
    let text = constraint_text(c, param, shown, pm, args, consts);
    match ev {
        EvalView::Violated(_) => arg_name_spec(args[idx]) + " does not satisfy the constraint \""@
            + text + "\" on "@ + func,
        EvalView::NeedsPropagation(vars) => if forall|k: int|
            0 <= k < vars.len() ==> pm.contains_key(#[trigger] vars[k]) {
            bound_arg_name(param, pm, args) + " may not satisfy the constraint \""@ + text
                + "\" because "@ + join(
                vars.map_values(|v: Seq<char>| bound_arg_name(v, pm, args)),
                " and "@,
            ) + " is an unconstrained parameter, "@ + func + " must be called with a guard"@
        } else {
            "Cannot verify constraint on '"@ + param + "': unresolved variables "@ + debug_list(
                vars,
            )
        },
        EvalView::Satisfied => Seq::empty(),
    }
}

/// The severity and code of the diagnostic for an evaluation `ev` with
/// message `message`: inside a test every message is an error, or
/// informational where a hush comment acknowledges it; elsewhere a
/// violation is an error and an undecided constraint a warning.
pub open spec fn diagnostic_kind(ev: EvalView, message: Seq<char>, in_test: bool, hushed: bool) -> Option<
    (Severity, DiagnosticCode),
> {
    if in_test && message.len() > 0 {
        if hushed {
            Some((Severity::Info, DiagnosticCode::ConstraintViolation))
        } else {
            Some((Severity::Error, DiagnosticCode::ConstraintViolation))
        }
    } else {
        match ev {
            EvalView::Violated(_) => Some((Severity::Error, DiagnosticCode::ConstraintViolation)),
            EvalView::NeedsPropagation(_) => Some(
                (Severity::Warning, DiagnosticCode::ConstraintPropagation),
            ),
            EvalView::Satisfied => None,
        }
    }
}

/// A diagnostic as a value: message, span, severity and code.
pub type DiagView = (Seq<char>, Span, Severity, DiagnosticCode);

/// The view of a diagnostic.
pub open spec fn diag_view(d: Diagnostic) -> DiagView {
    (d.message@, d.span, d.severity, d.code)
}

/// The diagnostic, if any, for constraint `c` of `func` at a call with
/// arguments `args` at `span`.
pub open spec fn constraint_diagnostic(
    func: Seq<char>,
    params: Seq<Seq<char>>,
    c: ParamConstraint,
    args: Seq<Expr>,
    span: Span,
    consts: Map<Seq<char>, i64>,
    locals: Seq<String>,
    in_test: bool,
    hush: Seq<(int, int, Seq<char>)>,
    offsets: Seq<usize>,
) -> Option<DiagView> {
    let idx = first_index(params, c.param_name@);
    if 0 <= idx < args.len() {
        let pm = param_map(params, args.len() as int);
        let av = arg_value_of(args[idx], consts);
        let ev = eval_spec(
            c.constraint,
            mapping_lookup(c.param_name@, av, pm, args, consts),
            consts,
            locals,
        );
        let msg = direct_message(func, c.param_name@, c.constraint, idx, av, ev, pm, args, consts);
        let hushed = exists|k: int| 0 <= k < hush.len() && #[trigger] hushes(hush[k], offsets, span, msg);
        match diagnostic_kind(ev, msg, in_test, hushed) {
            Some((sev, code)) => Some((msg, span, sev, code)),
            None => None,
        }
    } else {
        None
    }
}

/// The diagnostics of a call, constraint by constraint.
pub open spec fn call_diagnostics(
    func: Seq<char>,
    params: Seq<Seq<char>>,
    cs: Seq<ParamConstraint>,
    args: Seq<Expr>,
    span: Span,
    consts: Map<Seq<char>, i64>,
    locals: Seq<String>,
    in_test: bool,
    hush: Seq<(int, int, Seq<char>)>,
    offsets: Seq<usize>,
) -> Seq<DiagView>
    decreases cs.len(),
{
    if cs.len() == 0 {
        Seq::empty()
    } else {
        let prev = call_diagnostics(
            func,
            params,
            cs.drop_last(),
            args,
            span,
            consts,
            locals,
            in_test,
            hush,
            offsets,
        );
        match constraint_diagnostic(
            func,
            params,
            cs.last(),
            args,
            span,
            consts,
            locals,
            in_test,
            hush,
            offsets,
        ) {
            Some(d) => prev.push(d),
            None => prev,
        }
    }
}


// ---------------------------------------------------------------------------
// Checking a call
// ---------------------------------------------------------------------------

fn push_string(v: &mut Vec<char>, s: &String)
    ensures
        final(v)@ == old(v)@ + s@,
{
    push_str(v, s.as_str());
}

/// How the argument bound to parameter `x` is named.
fn bound_arg_name_exec(x: &str, pm: &NameMap<usize>, args: &[Expr]) -> (r: String)
    requires
        pm.wf(),
        forall|k: Seq<char>| #[trigger] pm@.contains_key(k) ==> pm@[k] < args@.len(),
    ensures
        r@ == bound_arg_name(x@, pm@, args@),
{
    let xc = chars_of(x);
    match pm.get(xc.as_slice()) {
        Some(i) => get_arg_name(&args[*i]),
        None => x.to_string(),
    }
}

/// The message for a constraint that evaluated to `ev`.
fn constraint_message(
    func: &str,
    c: &ParamConstraint,
    idx: usize,
    arg_value: Option<i64>,
    ev: &ConstraintEvalResult,
    pm: &NameMap<usize>,
    args: &[Expr],
    constants: &NameMap<i64>,
) -> (m: String)
    requires
        pm.wf(),
        constants.wf(),
        crate::constraints::args_ok(pm@, args@, constants@),
        idx < args@.len(),
    ensures
        m@ == direct_message(
            func@,
            c.param_name@,
            c.constraint,
            idx as int,
            arg_value,
            ev@,
            pm@,
            args@,
            constants@,
        ),
{
    let shown = match arg_value {
        Some(v) => v,
        None => 0,
    };
    let mut v: Vec<char> = Vec::new();
    match ev {
        ConstraintEvalResult::Violated(_) => {
            let text = fmt_constraint_with_values(
                &c.constraint,
                c.param_name.as_str(),
                shown,
                pm,
                args,
                constants,
            );
            push_string(&mut v, &get_arg_name(&args[idx]));
            push_str(&mut v, " does not satisfy the constraint \"");
            push_string(&mut v, &text);
            push_str(&mut v, "\" on ");
            push_str(&mut v, func);
        },
        ConstraintEvalResult::NeedsPropagation(vars) => {
            let ghost vv = string_views(vars@);
            let mut all_bound = true;
            let mut names: Vec<Vec<char>> = Vec::new();
            let mut k: usize = 0;
            while k < vars.len()
                invariant
                    k <= vars@.len(),
                    vv == string_views(vars@),
                    pm.wf(),
                    forall|x: Seq<char>| #[trigger] pm@.contains_key(x) ==> pm@[x] < args@.len(),
                    all_bound == forall|j: int| 0 <= j < k ==> pm@.contains_key(#[trigger] vv[j]),
                    views(names@) == vv.take(k as int).map_values(
                        |x: Seq<char>| bound_arg_name(x, pm@, args@),
                    ),
                decreases vars@.len() - k,
            {
                let xc = chars_of(vars[k].as_str());
                if !pm.contains(xc.as_slice()) {
                    all_bound = false;
                }
                let name = bound_arg_name_exec(vars[k].as_str(), pm, args);
                let ghost before = views(names@);
                names.push(chars_of(name.as_str()));
                assert(views(names@) =~= before.push(name@));
                k = k + 1;
                assert(vv.take(k as int).map_values(|x: Seq<char>| bound_arg_name(x, pm@, args@))
                    =~= vv.take(k - 1).map_values(|x: Seq<char>| bound_arg_name(x, pm@, args@)).push(
                    bound_arg_name(vv[k - 1], pm@, args@),
                ));
            }
            assert(vv.take(vars@.len() as int) =~= vv);
            if all_bound {
                let text = fmt_constraint_with_values(
                    &c.constraint,
                    c.param_name.as_str(),
                    shown,
                    pm,
                    args,
                    constants,
                );
                push_string(&mut v, &bound_arg_name_exec(c.param_name.as_str(), pm, args));
                push_str(&mut v, " may not satisfy the constraint \"");
                push_string(&mut v, &text);
                push_str(&mut v, "\" because ");
                let joined = join_parts(&names, " and ");
                push_range(&mut v, joined.as_slice(), 0, joined.len());
                assert(joined@.subrange(0, joined@.len() as int) =~= joined@);
                push_str(&mut v, " is an unconstrained parameter, ");
                push_str(&mut v, func);
                push_str(&mut v, " must be called with a guard");
            } else {
                push_str(&mut v, "Cannot verify constraint on '");
                push_string(&mut v, &c.param_name);
                push_str(&mut v, "': unresolved variables ");
                push_string(&mut v, &debug_names(vars));
            }
        },
        ConstraintEvalResult::Satisfied => {},
    }
    string_of(v.as_slice())
}


/// Every argument evaluates without overflow, and so does every
/// constraint whose parameter has an argument.
pub open spec fn call_evaluable(
    params: Seq<Seq<char>>,
    cs: Seq<ParamConstraint>,
    args: Seq<Expr>,
    consts: Map<Seq<char>, i64>,
) -> bool {
    &&& forall|k: int| 0 <= k < args.len() ==> no_overflow(#[trigger] args[k], const_lookup(consts), true)
    &&& forall|j: int|
        0 <= j < cs.len() ==> {
            let c = #[trigger] cs[j];
            let idx = first_index(params, c.param_name@);
            0 <= idx < args.len() ==> no_overflow(
                c.constraint,
                mapping_lookup(
                    c.param_name@,
                    arg_value_of(args[idx], consts),
                    param_map(params, args.len() as int),
                    args,
                    consts,
                ),
                false,
            )
        }
}

/// Checks a call of `func_name` with `args` at `span` against the
/// constraints on `func_name`'s parameters `params` (in the order they are
/// declared), then against the constraints it inherits, given the
/// constants and locals in scope, whether the call stands in a test, and
/// the source's hush comments and line offsets.
pub fn check_call_constraints(
    func_name: &str,
    params: &Vec<String>,
    constraints: &Vec<ParamConstraint>,
    inherited: &Vec<InheritedConstraint>,
    args: &[Expr],
    span: Span,
    constants: &NameMap<i64>,
    locals: &Vec<String>,
    in_test: bool,
    hush: &[HushComment],
    line_offsets: &[usize],
) -> (r: Vec<Diagnostic>)
    requires
        constants.wf(),
        call_evaluable(string_views(params@), constraints@, args@, constants@),
        forall|j: int|
            0 <= j < inherited@.len() ==> inherited_evaluable(
                #[trigger] inherited@[j],
                param_map(string_views(params@), args@.len() as int),
                args@,
                constants@,
            ),
        line_offsets@.len() > 0 ==> line_offsets@[0] == 0,
        span.end < usize::MAX,
    ensures
        r@.map_values(|d: Diagnostic| diag_view(d)) == call_diagnostics(
            func_name@,
            string_views(params@),
            constraints@,
            args@,
            span,
            constants@,
            locals@,
            in_test,
            hush_views(hush@),
            line_offsets@,
        ) + inherited_diagnostics(
            inherited@,
            param_map(string_views(params@), args@.len() as int),
            args@,
            span,
            constants@,
            locals@,
            in_test,
            hush_views(hush@),
            line_offsets@,
        ),
{
    let ghost ps = string_views(params@);
    let ghost hv = hush_views(hush@);
    let n_args = args.len();
    let pm = map_params(params, n_args);
    proof {
        assert forall|x: Seq<char>| #[trigger] pm@.contains_key(x) implies pm@[x] < args@.len() by {
            lemma_param_map_range(ps, n_args as int, x);
        }
    }
    let mut out: Vec<Diagnostic> = Vec::new();
    let mut j: usize = 0;
    while j < constraints.len()
        invariant
            j <= constraints@.len(),
            n_args == args@.len(),
            ps == string_views(params@),
            hv == hush_views(hush@),
            pm.wf(),
            pm@ == param_map(ps, n_args as int),
            forall|x: Seq<char>| #[trigger] pm@.contains_key(x) ==> pm@[x] < args@.len(),
            constants.wf(),
            call_evaluable(ps, constraints@, args@, constants@),
            line_offsets@.len() > 0 ==> line_offsets@[0] == 0,
            span.end < usize::MAX,
            out@.map_values(|d: Diagnostic| diag_view(d)) == call_diagnostics(
                func_name@,
                ps,
                constraints@.take(j as int),
                args@,
                span,
                constants@,
                locals@,
                in_test,
                hv,
                line_offsets@,
            ),
        decreases constraints@.len() - j,
    {
        let c = &constraints[j];
        assert(constraints@.take(j + 1).drop_last() =~= constraints@.take(j as int));
        assert(constraints@.take(j + 1).last() == constraints@[j as int]);
        let ghost before = out@.map_values(|d: Diagnostic| diag_view(d));
        match first_param_index(params, c.param_name.as_str()) {
            Some(idx) => {
                if idx < n_args {
                    assert(crate::constraints::args_ok(pm@, args@, constants@));
                    assert(no_overflow(args@[idx as int], const_lookup(constants@), true));
                    let arg_value = const_value(&args[idx], constants);
                    let ev = eval_constraint_with_mapping(
                        &c.constraint,
                        c.param_name.as_str(),
                        arg_value,
                        &pm,
                        args,
                        constants,
                        locals,
                    );
                    let msg = constraint_message(
                        func_name,
                        c,
                        idx,
                        arg_value,
                        &ev,
                        &pm,
                        args,
                        constants,
                    );
                    let hushed = if in_test && msg.as_str().unicode_len() > 0 {
                        check_hush_comment(hush, line_offsets, span, msg.as_str())
                    } else {
                        false
                    };
                    proof {
                        assert forall|k: int| 0 <= k < hush@.len() implies hv[k] == hush@[k]@ by {}
                        if in_test && msg@.len() > 0 {
                            if hushed {
                                let k = choose|k: int|
                                    0 <= k < hush@.len() && #[trigger] hushes(
                                        hush@[k]@,
                                        line_offsets@,
                                        span,
                                        msg@,
                                    );
                                assert(hushes(hv[k], line_offsets@, span, msg@));
                            } else {
                                assert forall|k: int| 0 <= k < hv.len() implies !#[trigger] hushes(
                                    hv[k],
                                    line_offsets@,
                                    span,
                                    msg@,
                                ) by {
                                    assert(hv[k] == hush@[k]@);
                                }
                            }
                        }
                    }
                    let kind = if in_test && msg.as_str().unicode_len() > 0 {
                        if hushed {
                            Some((Severity::Info, DiagnosticCode::ConstraintViolation))
                        } else {
                            Some((Severity::Error, DiagnosticCode::ConstraintViolation))
                        }
                    } else {
                        match ev {
                            ConstraintEvalResult::Violated(_) => Some(
                                (Severity::Error, DiagnosticCode::ConstraintViolation),
                            ),
                            ConstraintEvalResult::NeedsPropagation(_) => Some(
                                (Severity::Warning, DiagnosticCode::ConstraintPropagation),
                            ),
                            ConstraintEvalResult::Satisfied => None,
                        }
                    };
                    match kind {
                        Some((severity, code)) => {
                            let d = Diagnostic { message: msg, span, severity, code };
                            out.push(d);
                            assert(out@.map_values(|d: Diagnostic| diag_view(d)) =~= before.push(
                                diag_view(d),
                            ));
                        },
                        None => {},
                    }
                }
            },
            None => {},
        }
        j = j + 1;
    }
    assert(constraints@.take(constraints@.len() as int) =~= constraints@);
    let ghost direct = out@.map_values(|d: Diagnostic| diag_view(d));
    let mut j: usize = 0;
    while j < inherited.len()
        invariant
            j <= inherited@.len(),
            n_args == args@.len(),
            pm.wf(),
            pm@ == param_map(ps, n_args as int),
            ps == string_views(params@),
            hv == hush_views(hush@),
            forall|x: Seq<char>| #[trigger] pm@.contains_key(x) ==> pm@[x] < args@.len(),
            constants.wf(),
            call_evaluable(ps, constraints@, args@, constants@),
            forall|i: int|
                0 <= i < inherited@.len() ==> inherited_evaluable(
                    #[trigger] inherited@[i],
                    param_map(ps, args@.len() as int),
                    args@,
                    constants@,
                ),
            line_offsets@.len() > 0 ==> line_offsets@[0] == 0,
            span.end < usize::MAX,
            out@.map_values(|d: Diagnostic| diag_view(d)) == direct + inherited_diagnostics(
                inherited@.take(j as int),
                pm@,
                args@,
                span,
                constants@,
                locals@,
                in_test,
                hv,
                line_offsets@,
            ),
        decreases inherited@.len() - j,
    {
        assert(inherited@.take(j + 1).drop_last() =~= inherited@.take(j as int));
        assert(inherited@.take(j + 1).last() == inherited@[j as int]);
        let ghost before = out@.map_values(|d: Diagnostic| diag_view(d));
        match check_inherited_constraint(
            &inherited[j],
            &pm,
            args,
            span,
            constants,
            locals,
            in_test,
            hush,
            line_offsets,
        ) {
            Some(d) => {
                out.push(d);
                assert(out@.map_values(|d: Diagnostic| diag_view(d)) =~= before.push(
                    diag_view(d),
                ));
            },
            None => {},
        }
        j = j + 1;
    }
    assert(inherited@.take(inherited@.len() as int) =~= inherited@);
    out
}


// ---------------------------------------------------------------------------
// Inherited constraints
// ---------------------------------------------------------------------------

/// Where a parameter of a constrained function gets its value from in a
/// function that calls it: a constant, or a parameter of the caller.
pub enum ParamSource {
    Constant(i64),
    Param(String),
}

/// A constraint of `target_func` that a function inherits by calling it
/// (through the functions `via`), with the sources of the target's
/// parameters, in the order in which they are looked at.
pub struct InheritedConstraint {
    pub target_func: String,
    pub via: Vec<String>,
    pub constraint: ParamConstraint,
    pub target_param_sources: Vec<(String, ParamSource)>,
}

/// `a` comes before `b` in the order of `String`s (code point by code
/// point, a proper prefix first).
pub open spec fn str_lt(a: Seq<char>, b: Seq<char>) -> bool
    decreases a.len(),
{
    if a.len() == 0 {
        b.len() > 0
    } else if b.len() == 0 {
        false
    } else if a[0] != b[0] {
        a[0] < b[0]
    } else {
        str_lt(a.drop_first(), b.drop_first())
    }
}

proof fn lemma_str_lt_total(a: Seq<char>, b: Seq<char>)
    ensures
        a != b ==> str_lt(a, b) || str_lt(b, a),
        !(str_lt(a, b) && str_lt(b, a)),
    decreases a.len(),
{
    if a.len() > 0 && b.len() > 0 && a[0] == b[0] {
        lemma_str_lt_total(a.drop_first(), b.drop_first());
        if a != b {
            assert(a =~= seq![a[0]] + a.drop_first());
            assert(b =~= seq![b[0]] + b.drop_first());
        }
    } else if a.len() == 0 && b.len() == 0 {
        assert(a =~= b);
    }
}

proof fn lemma_str_lt_transitive(a: Seq<char>, b: Seq<char>, c: Seq<char>)
    requires
        str_lt(a, b),
        str_lt(b, c),
    ensures
        str_lt(a, c),
    decreases a.len(),
{
    if a.len() > 0 && b.len() > 0 && c.len() > 0 && a[0] == b[0] && b[0] == c[0] {
        lemma_str_lt_transitive(a.drop_first(), b.drop_first(), c.drop_first());
    }
}

/// Whether `a` comes before `b`.
fn chars_lt(a: &[char], b: &[char]) -> (r: bool)
    ensures
        r == str_lt(a@, b@),
{
    let mut i: usize = 0;
    assert(a@.skip(0) =~= a@);
    assert(b@.skip(0) =~= b@);
    while i < a.len() && i < b.len() && a[i] == b[i]
        invariant
            i <= a@.len(),
            i <= b@.len(),
            str_lt(a@, b@) == str_lt(a@.skip(i as int), b@.skip(i as int)),
        decreases a@.len() - i,
    {
        assert(a@.skip(i as int).drop_first() =~= a@.skip(i + 1));
        assert(b@.skip(i as int).drop_first() =~= b@.skip(i + 1));
        i = i + 1;
    }
    if i == a.len() {
        i < b.len()
    } else if i == b.len() {
        false
    } else {
        a[i] < b[i]
    }
}

/// The least name mapped by `m`.
pub open spec fn least_key<V>(m: Map<Seq<char>, V>) -> Seq<char> {
    choose|k: Seq<char>|
        m.contains_key(k) && forall|j: Seq<char>| m.contains_key(j) ==> !#[trigger] str_lt(j, k)
}

/// The index of the entry with the least name, if there are entries.
fn least_entry<V>(m: &NameMap<V>) -> (r: Option<usize>)
    requires
        m.wf(),
    ensures
        match r {
            Some(i) => i < m.entries@.len() && m.entries@[i as int].0@ == least_key(m@)
                && m@.contains_key(least_key(m@)),
            None => m@.dom().is_empty(),
        },
{
    let n = m.entries.len();
    if n == 0 {
        proof {
            assert forall|k: Seq<char>| !m@.contains_key(k) by {
                crate::name_map::lemma_entries_map_domain(m.entries@, k);
            }
            assert(m@.dom() =~= Set::<Seq<char>>::empty());
        }
        return None;
    }
    let mut best: usize = 0;
    let mut best_chars = chars_of(m.entries[0].0.as_str());
    let mut i: usize = 1;
    proof {
        lemma_str_lt_total(m.entries@[0].0@, m.entries@[0].0@);
    }
    while i < n
        invariant
            n == m.entries@.len(),
            1 <= i <= n,
            best < i,
            best_chars@ == m.entries@[best as int].0@,
            forall|j: int| 0 <= j < i ==> !str_lt(m.entries@[j].0@, m.entries@[best as int].0@),
        decreases n - i,
    {
        let c = chars_of(m.entries[i].0.as_str());
        if chars_lt(c.as_slice(), best_chars.as_slice()) {
            proof {
                assert forall|j: int| 0 <= j < i + 1 implies !str_lt(
                    m.entries@[j].0@,
                    m.entries@[i as int].0@,
                ) by {
                    if j < i && str_lt(m.entries@[j].0@, m.entries@[i as int].0@) {
                        lemma_str_lt_transitive(
                            m.entries@[j].0@,
                            m.entries@[i as int].0@,
                            m.entries@[best as int].0@,
                        );
                    }
                    lemma_str_lt_total(m.entries@[j].0@, m.entries@[i as int].0@);
                }
            }
            best = i;
            best_chars = c;
        }
        i = i + 1;
    }
    proof {
        let bk = m.entries@[best as int].0@;
        crate::name_map::lemma_entries_map_domain(m.entries@, bk);
        assert forall|j: Seq<char>| m@.contains_key(j) implies !#[trigger] str_lt(j, bk) by {
            crate::name_map::lemma_entries_map_domain(m.entries@, j);
            let e = choose|e: int| 0 <= e < m.entries@.len() && m.entries@[e].0@ == j;
        }
        let lk = least_key(m@);
        assert(m@.contains_key(lk) && forall|j: Seq<char>|
            m@.contains_key(j) ==> !#[trigger] str_lt(j, lk));
        lemma_str_lt_total(lk, bk);
    }
    Some(best)
}


/// The values the sources give the target's parameters: a constant, or
/// the constant value of the caller's argument for a caller parameter that
/// has one; later sources win.
pub open spec fn source_values(
    s: Seq<(String, ParamSource)>,
    pm: Map<Seq<char>, usize>,
    args: Seq<Expr>,
    consts: Map<Seq<char>, i64>,
) -> Map<Seq<char>, Option<i64>>
    decreases s.len(),
{
    if s.len() == 0 {
        Map::empty()
    } else {
        let m = source_values(s.drop_last(), pm, args, consts);
        match s.last().1 {
            ParamSource::Constant(v) => m.insert(s.last().0@, Some(v)),
            ParamSource::Param(p) => if pm.contains_key(p@) {
                m.insert(s.last().0@, arg_value_of(args[pm[p@] as int], consts))
            } else {
                m
            },
        }
    }
}

/// The caller's argument index for each target parameter that a caller
/// parameter with an argument gives its value.
pub open spec fn source_args(s: Seq<(String, ParamSource)>, pm: Map<Seq<char>, usize>) -> Map<
    Seq<char>,
    usize,
>
    decreases s.len(),
{
    if s.len() == 0 {
        Map::empty()
    } else {
        let m = source_args(s.drop_last(), pm);
        match s.last().1 {
            ParamSource::Constant(_) => m,
            ParamSource::Param(p) => if pm.contains_key(p@) {
                m.insert(s.last().0@, pm[p@])
            } else {
                m
            },
        }
    }
}

/// The caller parameters named by the sources that have no argument, in
/// source order.
pub open spec fn unresolved_sources(s: Seq<(String, ParamSource)>, pm: Map<Seq<char>, usize>) -> Seq<
    Seq<char>,
>
    decreases s.len(),
{
    if s.len() == 0 {
        Seq::empty()
    } else {
        let u = unresolved_sources(s.drop_last(), pm);
        match s.last().1 {
            ParamSource::Constant(_) => u,
            ParamSource::Param(p) => if pm.contains_key(p@) {
                u
            } else {
                u.push(p@)
            },
        }
    }
}

/// How a violated inherited constraint names the argument: the argument
/// given to the constrained parameter, else the argument given to the
/// least-named parameter that has one, else the parameter itself.
pub open spec fn inherited_arg_name(param: Seq<char>, t2c: Map<Seq<char>, usize>, args: Seq<Expr>) -> Seq<
    char,
> {
    if t2c.contains_key(param) {
        arg_name_spec(args[t2c[param] as int])
    } else if !t2c.dom().is_empty() {
        arg_name_spec(args[t2c[least_key(t2c)] as int])
    } else {
        param
    }
}

/// The value the constrained parameter gets, if any.
pub open spec fn target_value(tv: Map<Seq<char>, Option<i64>>, param: Seq<char>) -> Option<i64> {
    if tv.contains_key(param) {
        tv[param]
    } else {
        None
    }
}

/// The message for an inherited constraint that evaluated to `ev`, or
/// `None` where nothing is reported.
pub open spec fn inherited_message(
    inh: InheritedConstraint,
    ev: EvalView,
    tv: Map<Seq<char>, Option<i64>>,
    t2c: Map<Seq<char>, usize>,
    unresolved: Seq<Seq<char>>,
    args: Seq<Expr>,
    consts: Map<Seq<char>, i64>,
) -> Option<Seq<char>> {
    let param = inh.constraint.param_name@;
    let shown = match target_value(tv, param) {
        Some(v) => v,
        None => 0,
    };
    let text = crate::constraints::constraint_text_map(inh.constraint.constraint, param, shown, tv, consts);
    let via = " (via "@ + join(string_views(inh.via@), " via "@) + ")"@;
    match ev {
        EvalView::Violated(_) => Some(
            inherited_arg_name(param, t2c, args) + " does not satisfy the constraint \""@ + text
                + "\" on "@ + inh.target_func@ + via,
        ),
        EvalView::NeedsPropagation(vars) => if unresolved.len() == 0 && vars.len() == 0 {
            None
        } else if unresolved.len() > 0 {
            Some(
                "Cannot verify transitive constraint on '"@ + param + "': unresolved variables "@
                    + debug_list(unresolved),
            )
        } else if forall|k: int| 0 <= k < vars.len() ==> t2c.contains_key(#[trigger] vars[k]) {
            Some(
                bound_arg_name(param, t2c, args) + " may not satisfy the constraint \""@ + text
                    + "\" because "@ + join(
                    vars.map_values(|v: Seq<char>| bound_arg_name(v, t2c, args)),
                    " and "@,
                ) + " is an unconstrained parameter, "@ + inh.target_func@
                    + " must be called with a guard"@ + via,
            )
        } else {
            None
        },
        EvalView::Satisfied => None,
    }
}

/// The diagnostic, if any, for an inherited constraint at a call whose
/// parameters are bound to arguments by `pm`.
pub open spec fn inherited_diagnostic(
    inh: InheritedConstraint,
    pm: Map<Seq<char>, usize>,
    args: Seq<Expr>,
    span: Span,
    consts: Map<Seq<char>, i64>,
    locals: Seq<String>,
    in_test: bool,
    hush: Seq<(int, int, Seq<char>)>,
    offsets: Seq<usize>,
) -> Option<DiagView> {
    let s = inh.target_param_sources@;
    let tv = source_values(s, pm, args, consts);
    let t2c = source_args(s, pm);
    let param = inh.constraint.param_name@;
    let ev = eval_spec(
        inh.constraint.constraint,
        crate::constraints::value_map_lookup(param, target_value(tv, param), tv, consts),
        consts,
        locals,
    );
    match inherited_message(inh, ev, tv, t2c, unresolved_sources(s, pm), args, consts) {
        Some(msg) => {
            let hushed = exists|k: int|
                0 <= k < hush.len() && #[trigger] hushes(hush[k], offsets, span, msg);
            match diagnostic_kind(ev, msg, in_test, hushed) {
                Some((sev, code)) => Some((msg, span, sev, code)),
                None => None,
            }
        },
        None => None,
    }
}


/// The sources' values, argument indices and unresolved caller parameters.
fn resolve_sources(
    sources: &Vec<(String, ParamSource)>,
    pm: &NameMap<usize>,
    args: &[Expr],
    constants: &NameMap<i64>,
) -> (r: (NameMap<Option<i64>>, NameMap<usize>, Vec<String>))
    requires
        pm.wf(),
        constants.wf(),
        forall|x: Seq<char>| #[trigger] pm@.contains_key(x) ==> pm@[x] < args@.len(),
        forall|k: int|
            0 <= k < args@.len() ==> no_overflow(#[trigger] args@[k], const_lookup(constants@), true),
    ensures
        r.0.wf(),
        r.0@ == source_values(sources@, pm@, args@, constants@),
        r.1.wf(),
        r.1@ == source_args(sources@, pm@),
        string_views(r.2@) == unresolved_sources(sources@, pm@),
{
    let mut tv: NameMap<Option<i64>> = NameMap::new();
    let mut t2c: NameMap<usize> = NameMap::new();
    let mut unresolved: Vec<String> = Vec::new();
    let mut i: usize = 0;
    while i < sources.len()
        invariant
            i <= sources@.len(),
            pm.wf(),
            constants.wf(),
            forall|x: Seq<char>| #[trigger] pm@.contains_key(x) ==> pm@[x] < args@.len(),
            forall|k: int|
                0 <= k < args@.len() ==> no_overflow(#[trigger] args@[k], const_lookup(constants@), true),
            tv.wf(),
            t2c.wf(),
            tv@ == source_values(sources@.take(i as int), pm@, args@, constants@),
            t2c@ == source_args(sources@.take(i as int), pm@),
            string_views(unresolved@) == unresolved_sources(sources@.take(i as int), pm@),
        decreases sources@.len() - i,
    {
        let ghost st = sources@.take(i + 1);
        assert(st.drop_last() =~= sources@.take(i as int));
        assert(st.last() == sources@[i as int]);
        let (tp, src) = &sources[i];
        match src {
            ParamSource::Constant(v) => {
                tv.insert(tp.clone(), Some(*v));
            },
            ParamSource::Param(p) => {
                let pc = chars_of(p.as_str());
                match pm.get(pc.as_slice()) {
                    Some(idx) => {
                        let val = const_value(&args[*idx], constants);
                        tv.insert(tp.clone(), val);
                        t2c.insert(tp.clone(), *idx);
                    },
                    None => {
                        let ghost before = string_views(unresolved@);
                        unresolved.push(p.clone());
                        assert(string_views(unresolved@) =~= before.push(p@));
                    },
                }
            },
        }
        i = i + 1;
    }
    assert(sources@.take(sources@.len() as int) =~= sources@);
    (tv, t2c, unresolved)
}

/// The message for an inherited constraint that evaluated to `ev`, or
/// `None` where nothing is reported.
fn inherited_message_exec(
    inh: &InheritedConstraint,
    ev: &ConstraintEvalResult,
    tv: &NameMap<Option<i64>>,
    t2c: &NameMap<usize>,
    unresolved: &Vec<String>,
    args: &[Expr],
    constants: &NameMap<i64>,
) -> (r: Option<String>)
    requires
        tv.wf(),
        t2c.wf(),
        constants.wf(),
        forall|x: Seq<char>| #[trigger] t2c@.contains_key(x) ==> t2c@[x] < args@.len(),
    ensures
        match r {
            Some(m) => inherited_message(
                *inh,
                ev@,
                tv@,
                t2c@,
                string_views(unresolved@),
                args@,
                constants@,
            ) == Some(m@),
            None => inherited_message(
                *inh,
                ev@,
                tv@,
                t2c@,
                string_views(unresolved@),
                args@,
                constants@,
            ) is None,
        },
{
    let param = inh.constraint.param_name.as_str();
    let pc = chars_of(param);
    let arg_value = match tv.get(pc.as_slice()) {
        Some(v) => *v,
        None => None,
    };
    let shown = match arg_value {
        Some(v) => v,
        None => 0,
    };
    let mut via_chars: Vec<char> = Vec::new();
    push_str(&mut via_chars, " (via ");
    let mut via_parts: Vec<Vec<char>> = Vec::new();
    let mut k: usize = 0;
    while k < inh.via.len()
        invariant
            k <= inh.via@.len(),
            views(via_parts@) == string_views(inh.via@).take(k as int),
        decreases inh.via@.len() - k,
    {
        let ghost before = views(via_parts@);
        via_parts.push(chars_of(inh.via[k].as_str()));
        assert(views(via_parts@) =~= before.push(inh.via@[k as int]@));
        assert(string_views(inh.via@).take(k + 1) =~= string_views(inh.via@).take(k as int).push(
            inh.via@[k as int]@,
        ));
        k = k + 1;
    }
    assert(string_views(inh.via@).take(inh.via@.len() as int) =~= string_views(inh.via@));
    let joined_via = join_parts(&via_parts, " via ");
    push_range(&mut via_chars, joined_via.as_slice(), 0, joined_via.len());
    assert(joined_via@.subrange(0, joined_via@.len() as int) =~= joined_via@);
    push_str(&mut via_chars, ")");
    let mut v: Vec<char> = Vec::new();
    match ev {
        ConstraintEvalResult::Violated(_) => {
            let text = crate::constraints::fmt_constraint_with_value_map(
                &inh.constraint.constraint,
                param,
                shown,
                tv,
                constants,
            );
            let name = match t2c.get(pc.as_slice()) {
                Some(i) => get_arg_name(&args[*i]),
                None => match least_entry(t2c) {
                    Some(e) => {
                        proof {
                            crate::name_map::lemma_entries_map_value(t2c.entries@, e as int);
                        }
                        get_arg_name(&args[t2c.entries[e].1])
                    },
                    None => param.to_string(),
                },
            };
            push_string(&mut v, &name);
            push_str(&mut v, " does not satisfy the constraint \"");
            push_string(&mut v, &text);
            push_str(&mut v, "\" on ");
            push_string(&mut v, &inh.target_func);
            push_range(&mut v, via_chars.as_slice(), 0, via_chars.len());
            assert(via_chars@.subrange(0, via_chars@.len() as int) =~= via_chars@);
            Some(string_of(v.as_slice()))
        },
        ConstraintEvalResult::NeedsPropagation(vars) => {
            if unresolved.len() == 0 && vars.len() == 0 {
                return None;
            }
            if unresolved.len() > 0 {
                push_str(&mut v, "Cannot verify transitive constraint on '");
                push_str(&mut v, param);
                push_str(&mut v, "': unresolved variables ");
                push_string(&mut v, &debug_names(unresolved));
                return Some(string_of(v.as_slice()));
            }
            let ghost vv = string_views(vars@);
            let mut all_bound = true;
            let mut names: Vec<Vec<char>> = Vec::new();
            let mut k: usize = 0;
            while k < vars.len()
                invariant
                    k <= vars@.len(),
                    vv == string_views(vars@),
                    t2c.wf(),
                    forall|x: Seq<char>| #[trigger] t2c@.contains_key(x) ==> t2c@[x] < args@.len(),
                    all_bound == forall|j: int| 0 <= j < k ==> t2c@.contains_key(#[trigger] vv[j]),
                    views(names@) == vv.take(k as int).map_values(
                        |x: Seq<char>| bound_arg_name(x, t2c@, args@),
                    ),
                decreases vars@.len() - k,
            {
                let xc = chars_of(vars[k].as_str());
                if !t2c.contains(xc.as_slice()) {
                    all_bound = false;
                }
                let name = bound_arg_name_exec(vars[k].as_str(), t2c, args);
                let ghost before = views(names@);
                names.push(chars_of(name.as_str()));
                assert(views(names@) =~= before.push(name@));
                k = k + 1;
                assert(vv.take(k as int).map_values(|x: Seq<char>| bound_arg_name(x, t2c@, args@))
                    =~= vv.take(k - 1).map_values(|x: Seq<char>| bound_arg_name(x, t2c@, args@)).push(
                    bound_arg_name(vv[k - 1], t2c@, args@),
                ));
            }
            assert(vv.take(vars@.len() as int) =~= vv);
            if !all_bound {
                return None;
            }
            let text = crate::constraints::fmt_constraint_with_value_map(
                &inh.constraint.constraint,
                param,
                shown,
                tv,
                constants,
            );
            push_string(&mut v, &bound_arg_name_exec(param, t2c, args));
            push_str(&mut v, " may not satisfy the constraint \"");
            push_string(&mut v, &text);
            push_str(&mut v, "\" because ");
            let joined = join_parts(&names, " and ");
            push_range(&mut v, joined.as_slice(), 0, joined.len());
            assert(joined@.subrange(0, joined@.len() as int) =~= joined@);
            push_str(&mut v, " is an unconstrained parameter, ");
            push_string(&mut v, &inh.target_func);
            push_str(&mut v, " must be called with a guard");
            push_range(&mut v, via_chars.as_slice(), 0, via_chars.len());
            assert(via_chars@.subrange(0, via_chars@.len() as int) =~= via_chars@);
            Some(string_of(v.as_slice()))
        },
        ConstraintEvalResult::Satisfied => None,
    }
}


/// The diagnostic for an evaluation `ev` reported as `msg`.
fn diagnostic_for(
    ev: &ConstraintEvalResult,
    msg: String,
    in_test: bool,
    hush: &[HushComment],
    line_offsets: &[usize],
    span: Span,
) -> (r: Option<Diagnostic>)
    requires
        line_offsets@.len() > 0 ==> line_offsets@[0] == 0,
        span.end < usize::MAX,
    ensures
        ({
            let hushed = exists|k: int|
                0 <= k < hush_views(hush@).len() && #[trigger] hushes(
                    hush_views(hush@)[k],
                    line_offsets@,
                    span,
                    msg@,
                );
            match diagnostic_kind(ev@, msg@, in_test, hushed) {
                Some((sev, code)) => r matches Some(d) && diag_view(d) == (msg@, span, sev, code),
                None => r is None,
            }
        }),
{
    let ghost hv = hush_views(hush@);
    let nonempty = msg.as_str().unicode_len() > 0;
    let hushed = if in_test && nonempty {
        check_hush_comment(hush, line_offsets, span, msg.as_str())
    } else {
        false
    };
    proof {
        assert forall|k: int| 0 <= k < hush@.len() implies hv[k] == hush@[k]@ by {}
        if in_test && nonempty {
            if hushed {
                let k = choose|k: int|
                    0 <= k < hush@.len() && #[trigger] hushes(hush@[k]@, line_offsets@, span, msg@);
                assert(hushes(hv[k], line_offsets@, span, msg@));
            } else {
                assert forall|k: int| 0 <= k < hv.len() implies !#[trigger] hushes(
                    hv[k],
                    line_offsets@,
                    span,
                    msg@,
                ) by {
                    assert(hv[k] == hush@[k]@);
                }
            }
        }
    }
    let kind = if in_test && nonempty {
        if hushed {
            Some((Severity::Info, DiagnosticCode::ConstraintViolation))
        } else {
            Some((Severity::Error, DiagnosticCode::ConstraintViolation))
        }
    } else {
        match ev {
            ConstraintEvalResult::Violated(_) => Some(
                (Severity::Error, DiagnosticCode::ConstraintViolation),
            ),
            ConstraintEvalResult::NeedsPropagation(_) => Some(
                (Severity::Warning, DiagnosticCode::ConstraintPropagation),
            ),
            ConstraintEvalResult::Satisfied => None,
        }
    };
    match kind {
        Some((severity, code)) => Some(Diagnostic { message: msg, span, severity, code }),
        None => None,
    }
}

/// An inherited constraint's evaluation stays in the `i64` range.
pub open spec fn inherited_evaluable(
    inh: InheritedConstraint,
    pm: Map<Seq<char>, usize>,
    args: Seq<Expr>,
    consts: Map<Seq<char>, i64>,
) -> bool {
    let tv = source_values(inh.target_param_sources@, pm, args, consts);
    let param = inh.constraint.param_name@;
    no_overflow(
        inh.constraint.constraint,
        crate::constraints::value_map_lookup(param, target_value(tv, param), tv, consts),
        false,
    )
}

/// Checks a call, whose parameters are bound to `args` by `param_to_arg`,
/// against a constraint it inherits from a function it calls.
pub fn check_inherited_constraint(
    inh: &InheritedConstraint,
    param_to_arg: &NameMap<usize>,
    args: &[Expr],
    span: Span,
    constants: &NameMap<i64>,
    locals: &Vec<String>,
    in_test: bool,
    hush: &[HushComment],
    line_offsets: &[usize],
) -> (r: Option<Diagnostic>)
    requires
        param_to_arg.wf(),
        constants.wf(),
        forall|x: Seq<char>| #[trigger] param_to_arg@.contains_key(x) ==> param_to_arg@[x] < args@.len(),
        forall|k: int|
            0 <= k < args@.len() ==> no_overflow(#[trigger] args@[k], const_lookup(constants@), true),
        inherited_evaluable(*inh, param_to_arg@, args@, constants@),
        line_offsets@.len() > 0 ==> line_offsets@[0] == 0,
        span.end < usize::MAX,
    ensures
        match r {
            Some(d) => inherited_diagnostic(
                *inh,
                param_to_arg@,
                args@,
                span,
                constants@,
                locals@,
                in_test,
                hush_views(hush@),
                line_offsets@,
            ) == Some(diag_view(d)),
            None => inherited_diagnostic(
                *inh,
                param_to_arg@,
                args@,
                span,
                constants@,
                locals@,
                in_test,
                hush_views(hush@),
                line_offsets@,
            ) is None,
        },
{
    let (tv, t2c, unresolved) = resolve_sources(
        &inh.target_param_sources,
        param_to_arg,
        args,
        constants,
    );
    proof {
        assert forall|x: Seq<char>| #[trigger] t2c@.contains_key(x) implies t2c@[x] < args@.len() by {
            lemma_source_args_range(inh.target_param_sources@, param_to_arg@, args@.len() as int, x);
        }
    }
    let param = inh.constraint.param_name.as_str();
    let pc = chars_of(param);
    let arg_value = match tv.get(pc.as_slice()) {
        Some(v) => *v,
        None => None,
    };
    let ev = crate::constraints::eval_constraint_with_value_map(
        &inh.constraint.constraint,
        param,
        arg_value,
        &tv,
        constants,
        locals,
    );
    match inherited_message_exec(inh, &ev, &tv, &t2c, &unresolved, args, constants) {
        Some(msg) => diagnostic_for(&ev, msg, in_test, hush, line_offsets, span),
        None => None,
    }
}

proof fn lemma_source_args_range(
    s: Seq<(String, ParamSource)>,
    pm: Map<Seq<char>, usize>,
    n: int,
    x: Seq<char>,
)
    requires
        forall|y: Seq<char>| #[trigger] pm.contains_key(y) ==> pm[y] < n,
    ensures
        source_args(s, pm).contains_key(x) ==> source_args(s, pm)[x] < n,
    decreases s.len(),
{
    if s.len() > 0 {
        lemma_source_args_range(s.drop_last(), pm, n, x);
    }
}


/// The diagnostics of the inherited constraints of a call, in order.
pub open spec fn inherited_diagnostics(
    inhs: Seq<InheritedConstraint>,
    pm: Map<Seq<char>, usize>,
    args: Seq<Expr>,
    span: Span,
    consts: Map<Seq<char>, i64>,
    locals: Seq<String>,
    in_test: bool,
    hush: Seq<(int, int, Seq<char>)>,
    offsets: Seq<usize>,
) -> Seq<DiagView>
    decreases inhs.len(),
{
    if inhs.len() == 0 {
        Seq::empty()
    } else {
        let prev = inherited_diagnostics(
            inhs.drop_last(),
            pm,
            args,
            span,
            consts,
            locals,
            in_test,
            hush,
            offsets,
        );
        match inherited_diagnostic(inhs.last(), pm, args, span, consts, locals, in_test, hush, offsets) {
            Some(d) => prev.push(d),
            None => prev,
        }
    }
}


// ---------------------------------------------------------------------------
// Laws
// ---------------------------------------------------------------------------

/// Hush comments matter only inside tests: outside a test the diagnostics
/// of a call are the same whatever hush comments the source holds.
pub proof fn hush_only_in_tests(
    func: Seq<char>,
    params: Seq<Seq<char>>,
    cs: Seq<ParamConstraint>,
    args: Seq<Expr>,
    span: Span,
    consts: Map<Seq<char>, i64>,
    locals: Seq<String>,
    hush_a: Seq<(int, int, Seq<char>)>,
    offsets_a: Seq<usize>,
    hush_b: Seq<(int, int, Seq<char>)>,
    offsets_b: Seq<usize>,
)
    ensures
        call_diagnostics(func, params, cs, args, span, consts, locals, false, hush_a, offsets_a)
            == call_diagnostics(func, params, cs, args, span, consts, locals, false, hush_b, offsets_b),
    decreases cs.len(),
{
    if cs.len() > 0 {
        hush_only_in_tests(
            func,
            params,
            cs.drop_last(),
            args,
            span,
            consts,
            locals,
            hush_a,
            offsets_a,
            hush_b,
            offsets_b,
        );
    }
}

/// A hushed diagnostic keeps its message and code and only becomes
/// informational: inside a test, a constraint that is reported is reported
/// with the same message whether or not a hush comment acknowledges it,
/// as an error when none does.
pub proof fn hush_keeps_message(
    func: Seq<char>,
    params: Seq<Seq<char>>,
    c: ParamConstraint,
    args: Seq<Expr>,
    span: Span,
    consts: Map<Seq<char>, i64>,
    locals: Seq<String>,
    hush: Seq<(int, int, Seq<char>)>,
    offsets: Seq<usize>,
)
    ensures
        match (
            constraint_diagnostic(func, params, c, args, span, consts, locals, true, hush, offsets),
            constraint_diagnostic(func, params, c, args, span, consts, locals, true, Seq::empty(), offsets),
        ) {
            (Some(h), Some(e)) => h.0 == e.0 && h.3 == e.3 && e.2 == Severity::Error && (h.2
                == Severity::Error || h.2 == Severity::Info),
            (None, None) => true,
            _ => false,
        },
{
    reveal_strlit(" does not satisfy the constraint \"");
    reveal_strlit(" may not satisfy the constraint \"");
    reveal_strlit("Cannot verify constraint on '");
}

} // verus!
