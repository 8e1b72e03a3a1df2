//! The type checker's passes over a file: validating functions, type
//! definitions, `use`s, interfaces and worlds against the collected
//! definitions.
use vstd::prelude::*;
use crate::ast::{
    Case, Field, Func, Gate, ImportExport, ImportExportKind, IncludeStatement, Interface,
    InterfaceItem, Param, ResourceMethod, Statement, TopLevelItem, TopLevelUse, TypeDef,
    TypeDefKind, UseName, UseStatement, WitFile, World, WorldItem,
};
use crate::body_check::{
    append_diags, check_block_upto, check_expr, copy_locals, diags_of, kind_wf, push_diag,
    push_string, push_text_error, with_type, Ctx, Scope,
};
use crate::body_spec::{
    block_check, err, expr_check, lemma_block_ok, lemma_expr_ok, lemma_stmt_ok, stmt_check, Env,
    State,
};
use crate::checked::{checked_debug, checked_eq, clone_checked, push_checked_debug, same_checked};
use crate::constraints::{names_contain, string_views};
use crate::diagnostics::{Diagnostic, DiagnosticCode, Severity, Span};
use crate::file_spec::{
    after_func_body, after_method_body, opt_body, case_types, constructor_spec, declared_of, env_of, field_types, func_body, func_stmts,
    gate_check, gates_check, has_constraint, has_test_gate, import_locals, is_test_gate, lemma_case_types_ok,
    lemma_constructor_ok, lemma_field_types_ok, lemma_gates_ok, lemma_iface_items_ok,
    lemma_import_export_ok, lemma_methods_ok, lemma_top_items_ok, lemma_validate_func_ok,
    lemma_validate_method_ok, lemma_validate_typedef_ok, lemma_validate_use_ok,
    lemma_world_items_ok, method_body, methods_spec, note, param_locals, return_mismatch,
    set_add, set_remove, top_items_spec, type_params_of, typedef_name_of, use_names_spec,
    validate_func_spec, validate_import_export_spec, validate_include_spec,
    validate_interface_spec, validate_method_spec, validate_top_use_spec, validate_typedef_spec,
    case_mentions, defines_itself,
    validate_use_spec, verr, vparams, vtype, world_items_spec, iface_items_spec, add_all,
    remove_all, Fixed, VState,
};
use crate::hush::{hush_views, HushComment};
use crate::interfaces::{InterfaceInfo, WorldInfo};
use crate::name_map::{insert_entries, NameMap};
use crate::numbers::push_decimal;
use crate::package_path::package_path_to_string;
use crate::text::{chars_of, push_str};
use crate::types::{
    checked_of, diag_views, mentions_type, ty_mentions, opt_view, ty_to_checked, validate_type, CheckedType, Id, Ty,
    TypeTable,
};

verus! {

/// The checker: the collected definitions, the validation state, and the
/// state of the body being checked.
pub struct Checker {
    pub types: TypeTable,
    pub interfaces: NameMap<InterfaceInfo>,
    pub worlds: NameMap<WorldInfo>,
    pub current_interface: Option<String>,
    pub resolving: Vec<String>,
    pub imported_interface_bindings: Vec<String>,
    pub type_params: Vec<String>,
    /// The name a method's receiver is bound to: `self`.
    pub self_key: String,
    pub hush_comments: Vec<HushComment>,
    pub in_test_function: bool,
    pub current_return_type: Option<CheckedType>,
    pub source_line_offsets: Vec<usize>,
    pub scope: Scope,
}

impl Checker {
    /// What validation reads.
    pub open spec fn fixed(&self) -> Fixed {
        Fixed {
            types: self.types@,
            interfaces: self.interfaces@,
            worlds: self.worlds@,
            imported: self.imported_interface_bindings@,
            self_key: self.self_key,
            hush: hush_views(self.hush_comments@),
            offsets: self.source_line_offsets@,
        }
    }

    /// What validation changes.
    pub open spec fn vstate(&self) -> VState {
        VState {
            scope: self.scope.state(),
            resolving: self.resolving@,
            type_params: self.type_params@,
            in_test: self.in_test_function,
            return_type: self.current_return_type,
            current_interface: self.current_interface,
        }
    }

    /// The tables are well formed, the receiver is named `self`, and the
    /// first line starts at offset 0.
    pub open spec fn wf(&self) -> bool {
        &&& self.types.wf()
        &&& self.interfaces.wf()
        &&& self.worlds.wf()
        &&& forall|k: Seq<char>| #[trigger] self.interfaces@.contains_key(k) ==> self.interfaces@[k].wf()
        &&& forall|k: (Option<Seq<char>>, Seq<char>)|
            #[trigger] self.types@.contains_key(k) ==> kind_wf(self.types@[k].kind)
        &&& self.self_key@ == "self"@
        &&& self.source_line_offsets@.len() > 0 ==> self.source_line_offsets@[0] == 0
        &&& self.scope.wf()
    }
}

fn opt_str(o: &Option<String>) -> (r: Option<&str>)
    ensures
        opt_view(r) == match *o {
            Some(s) => Some(s@),
            None => None::<Seq<char>>,
        },
{
    match o {
        Some(s) => Some(s.as_str()),
        None => None,
    }
}

fn opt_ref(o: &Option<CheckedType>) -> (r: Option<&CheckedType>)
    ensures
        match r {
            Some(t) => *o == Some(*t),
            None => *o is None,
        },
{
    match o {
        Some(t) => Some(t),
        None => None,
    }
}

pub(crate) fn set_add_exec(v: &mut Vec<String>, x: &String)
    ensures
        final(v)@ == set_add(old(v)@, *x),
{
    if !names_contain(v, x.as_str()) {
        v.push(x.clone());
    }
}

fn set_remove_exec(v: &mut Vec<String>, x: &String)
    ensures
        final(v)@ == set_remove(old(v)@, x@),
{
    let mut r: Vec<String> = Vec::new();
    let mut i: usize = 0;
    while i < v.len()
        invariant
            i <= v@.len(),
            r@ == set_remove(v@.take(i as int), x@),
        decreases v@.len() - i,
    {
        assert(v@.take(i + 1).drop_last() =~= v@.take(i as int));
        if !crate::text::str_eq(v[i].as_str(), x.as_str()) {
            r.push(v[i].clone());
        }
        i = i + 1;
    }
    assert(v@.take(i as int) =~= v@);
    *v = r;
}

// ---------------------------------------------------------------------------
// Functions and their bodies
// ---------------------------------------------------------------------------

fn return_mismatch_exec(sc: &mut Scope, declared: &Option<CheckedType>, t: &CheckedType, span: Span)
    requires
        old(sc).wf(),
    ensures
        final(sc).wf(),
        final(sc).state() == return_mismatch(*declared, *t, span, old(sc).state()),
{
    match declared {
        Some(d) => {
            if !checked_eq(t, d) && !matches!(t, CheckedType::Unknown) && !matches!(
                d,
                CheckedType::Unknown,
            ) {
                let mut m: Vec<char> = Vec::new();
                push_str(&mut m, "Return type mismatch: expected ");
                push_checked_debug(&mut m, d);
                push_str(&mut m, ", found ");
                push_checked_debug(&mut m, t);
                push_diag(sc, m, span, DiagnosticCode::TypeMismatch);
            }
        },
        None => {},
    }
}

fn run_func_stmts(
    ctx: &Ctx,
    sc: &mut Scope,
    ss: &Vec<Statement>,
    k: usize,
    declared: &Option<CheckedType>,
    span: Span,
) -> (t: CheckedType)
    requires
        ctx.wf(),
        old(sc).wf(),
        k <= ss@.len(),
        func_stmts(ss@, k as int, *declared, span, old(sc).state(), ctx.env()).1.ok,
    ensures
        final(sc).wf(),
        (t, final(sc).state()) == func_stmts(ss@, k as int, *declared, span, old(sc).state(), ctx.env()),
    decreases k,
{
    if k == 0 {
        CheckedType::Unknown
    } else {
        let ghost prev = func_stmts(ss@, k - 1, *declared, span, old(sc).state(), ctx.env());
        proof {
            match ss@[k - 1] {
                Statement::Return(r) => match r {
                    Some(e) => {
                        lemma_expr_ok(e, prev.1, ctx.env());
                    },
                    None => {},
                },
                Statement::Expr(e) => {
                    lemma_expr_ok(e, prev.1, ctx.env());
                    lemma_stmt_ok(ss@[k - 1], prev.1, ctx.env());
                },
                _ => {
                    lemma_stmt_ok(ss@[k - 1], prev.1, ctx.env());
                },
            }
        }
        let before = run_func_stmts(ctx, sc, ss, k - 1, declared, span);
        match &ss[k - 1] {
            Statement::Return(r) => match r {
                Some(e) => {
                    let t = check_expr(ctx, sc, e);
                    return_mismatch_exec(sc, declared, &t, span);
                    t
                },
                None => {
                    if declared.is_some() {
                        push_text_error(sc, "Missing return value", span, DiagnosticCode::TypeMismatch);
                    }
                    before
                },
            },
            Statement::Expr(e) => {
                if k == ss.len() {
                    let t = check_expr(ctx, sc, e);
                    return_mismatch_exec(sc, declared, &t, span);
                    t
                } else {
                    crate::body_check::validate_statement(ctx, sc, &ss[k - 1]);
                    before
                }
            },
            _ => {
                crate::body_check::validate_statement(ctx, sc, &ss[k - 1]);
                before
            },
        }
    }
}

fn has_test(gs: &Vec<Gate>) -> (b: bool)
    ensures
        b == has_test_gate(gs@),
{
    let mut i: usize = 0;
    while i < gs.len()
        invariant
            i <= gs@.len(),
            forall|j: int| 0 <= j < i ==> !is_test_gate(#[trigger] gs@[j]),
        decreases gs@.len() - i,
    {
        if matches!(gs[i], Gate::Test) || matches!(gs[i], Gate::TestHelper) {
            assert(is_test_gate(gs@[i as int]));
            return true;
        }
        i = i + 1;
    }
    false
}

fn any_constraint(ps: &Vec<Param>) -> (b: bool)
    ensures
        b == has_constraint(ps@),
{
    let mut i: usize = 0;
    while i < ps.len()
        invariant
            i <= ps@.len(),
            forall|j: int| 0 <= j < i ==> (#[trigger] ps@[j]).constraint is None,
        decreases ps@.len() - i,
    {
        if ps[i].constraint.is_some() {
            return true;
        }
        i = i + 1;
    }
    false
}

fn push_note(sc: &mut Scope, msg: Vec<char>, span: Span, sev: Severity, code: DiagnosticCode)
    requires
        old(sc).wf(),
    ensures
        final(sc).wf(),
        final(sc).state() == note(old(sc).state(), msg@, span, sev, code),
{
    let d = Diagnostic { message: crate::text::string_of(msg.as_slice()), span, severity: sev, code };
    let ghost before = sc.diagnostics@;
    sc.diagnostics.push(d);
    assert(diags_of(sc.diagnostics@) =~= diags_of(before).push(
        crate::call_check::diag_view(d),
    ));
}

fn validate_gate(sc: &mut Scope, g: &Gate, span: Span)
    requires
        old(sc).wf(),
    ensures
        final(sc).wf(),
        final(sc).state() == gate_check(*g, span, old(sc).state()),
{
    match g {
        Gate::Deprecated { version } => {
            let mut m: Vec<char> = Vec::new();
            push_str(&mut m, "Deprecated since version ");
            push_decimal(&mut m, version.major);
            push_str(&mut m, ".");
            push_decimal(&mut m, version.minor);
            push_str(&mut m, ".");
            push_decimal(&mut m, version.patch);
            push_note(sc, m, span, Severity::Warning, DiagnosticCode::DeprecatedFeature);
        },
        Gate::Unstable { feature } => {
            let mut m: Vec<char> = Vec::new();
            push_str(&mut m, "Unstable feature: ");
            push_string(&mut m, &feature.name);
            push_note(sc, m, span, Severity::Info, DiagnosticCode::UnstableFeature);
        },
        _ => {},
    }
}

fn check_gates(sc: &mut Scope, gs: &Vec<Gate>, span: Span)
    requires
        old(sc).wf(),
    ensures
        final(sc).wf(),
        final(sc).state() == gates_check(gs@, gs@.len() as int, span, old(sc).state()),
{
    let ghost st0 = sc.state();
    let mut k: usize = 0;
    while k < gs.len()
        invariant
            k <= gs@.len(),
            sc.wf(),
            sc.state() == gates_check(gs@, k as int, span, st0),
        decreases gs@.len() - k,
    {
        validate_gate(sc, &gs[k], span);
        k = k + 1;
    }
}

impl Checker {
    fn validate_type_into(&mut self, t: &Ty)
        requires
            old(self).wf(),
        ensures
            final(self).wf(),
            final(self).fixed() == old(self).fixed(),
            final(self).vstate() == vtype(old(self).vstate(), *t, old(self).fixed()),
    {
        let cur = opt_str(&self.current_interface);
        let ds = validate_type(t, &self.type_params, &self.types, cur);
        assert(diags_of(ds@) =~= diag_views(ds@));
        append_diags(&mut self.scope, ds);
    }

    fn validate_params(&mut self, ps: &Vec<Param>)
        requires
            old(self).wf(),
        ensures
            final(self).wf(),
            final(self).fixed() == old(self).fixed(),
            final(self).vstate() == vparams(ps@, ps@.len() as int, old(self).vstate(), old(self).fixed()),
    {
        let ghost vs0 = self.vstate();
        let mut k: usize = 0;
        while k < ps.len()
            invariant
                k <= ps@.len(),
                self.wf(),
                self.fixed() == old(self).fixed(),
                self.vstate() == vparams(ps@, k as int, vs0, old(self).fixed()),
            decreases ps@.len() - k,
        {
            self.validate_type_into(&ps[k].ty);
            k = k + 1;
        }
    }

    /// The locals a body starts from: the imported interfaces, then the
    /// receiver if `with_self`, then the parameters.
    fn start_locals(&mut self, ps: &Vec<Param>, with_self: bool)
        requires
            old(self).wf(),
        ensures
            final(self).wf(),
            final(self).fixed() == old(self).fixed(),
            final(self).vstate() == (VState {
                scope: State {
                    locals: param_locals(
                        if with_self {
                            insert_entries(
                                import_locals(
                                    Seq::empty(),
                                    old(self).fixed().imported,
                                    old(self).fixed().imported.len() as int,
                                ),
                                old(self).fixed().self_key,
                                CheckedType::I32,
                            )
                        } else {
                            import_locals(
                                Seq::empty(),
                                old(self).fixed().imported,
                                old(self).fixed().imported.len() as int,
                            )
                        },
                        ps@,
                        ps@.len() as int,
                    ),
                    ..old(self).vstate().scope
                },
                ..old(self).vstate()
            }),
    {
        self.scope.locals = NameMap::new();
        let mut k: usize = 0;
        while k < self.imported_interface_bindings.len()
            invariant
                k <= self.imported_interface_bindings@.len(),
                self.wf(),
                self.fixed() == old(self).fixed(),
                self.vstate() == (VState {
                    scope: State {
                        locals: import_locals(Seq::empty(), self.imported_interface_bindings@, k as int),
                        ..old(self).vstate().scope
                    },
                    ..old(self).vstate()
                }),
            decreases self.imported_interface_bindings@.len() - k,
        {
            let name = self.imported_interface_bindings[k].clone();
            let t = CheckedType::Interface(self.imported_interface_bindings[k].clone());
            self.scope.locals.insert(name, t);
            k = k + 1;
        }
        if with_self {
            let key = self.self_key.clone();
            self.scope.locals.insert(key, CheckedType::I32);
        }
        let ghost base = self.scope.locals.entries@;
        let mut j: usize = 0;
        while j < ps.len()
            invariant
                j <= ps@.len(),
                self.wf(),
                self.fixed() == old(self).fixed(),
                self.vstate() == (VState {
                    scope: State { locals: param_locals(base, ps@, j as int), ..old(self).vstate().scope },
                    ..old(self).vstate()
                }),
            decreases ps@.len() - j,
        {
            let name = ps[j].name.name.clone();
            let t = ty_to_checked(&ps[j].ty);
            self.scope.locals.insert(name, t);
            j = j + 1;
        }
    }

    fn run_body(&mut self, f: &Func, body: &Vec<Statement>)
        requires
            old(self).wf(),
            func_body(*f, body@, old(self).vstate(), old(self).fixed()).scope.ok,
        ensures
            final(self).wf(),
            final(self).fixed() == old(self).fixed(),
            final(self).vstate() == func_body(*f, body@, old(self).vstate(), old(self).fixed()),
    {
        let ghost vs0 = self.vstate();
        let ghost fx = self.fixed();
        let was_in_test = self.in_test_function;
        let was_return = match &self.current_return_type {
            Some(t) => Some(clone_checked(t)),
            None => None,
        };
        self.in_test_function = has_test(&f.gates);
        self.current_return_type = match &f.result {
            Some(t) => Some(ty_to_checked(t)),
            None => None,
        };
        self.start_locals(&f.params, false);
        self.scope.constants = NameMap::new();
        let declared = match &f.result {
            Some(t) => Some(ty_to_checked(t)),
            None => None,
        };
        let inferred = {
            let ctx = Ctx {
                types: &self.types,
                interfaces: &self.interfaces,
                current_interface: opt_str(&self.current_interface),
                return_type: opt_ref(&self.current_return_type),
                in_test: self.in_test_function,
                hush: self.hush_comments.as_slice(),
                offsets: self.source_line_offsets.as_slice(),
            };
            assert(ctx.env() == env_of(
                fx,
                VState { in_test: has_test_gate(f.gates@), return_type: declared_of(f.result), ..vs0 },
            ));
            run_func_stmts(&ctx, &mut self.scope, body, body.len(), &declared, f.name.span)
        };
        if declared.is_some() && matches!(inferred, CheckedType::Unknown) && body.len() > 0 {
            if !matches!(body[body.len() - 1], Statement::Return(_)) {
                push_note(
                    &mut self.scope,
                    chars_of("Function may not return a value"),
                    f.name.span,
                    Severity::Warning,
                    DiagnosticCode::TypeMismatch,
                );
            }
        }
        self.in_test_function = was_in_test;
        self.current_return_type = was_return;
    }

    /// Validates a function: its parameter and result types, that a
    /// constrained function returns a result, its body, and its gates.
    pub fn validate_func(&mut self, f: &Func)
        requires
            old(self).wf(),
            validate_func_spec(*f, old(self).vstate(), old(self).fixed()).scope.ok,
        ensures
            final(self).wf(),
            final(self).fixed() == old(self).fixed(),
            final(self).vstate() == validate_func_spec(*f, old(self).vstate(), old(self).fixed()),
    {
        let ghost vs0 = self.vstate();
        let ghost fx = self.fixed();
        proof {
            lemma_validate_func_ok(*f, vs0, fx);
        }
        self.validate_params(&f.params);
        if any_constraint(&f.params) {
            let is_result = match &f.result {
                Some(t) => matches!(t, Ty::Result { .. }),
                None => false,
            };
            if !is_result {
                let mut m: Vec<char> = Vec::new();
                push_str(&mut m, "Function '");
                push_string(&mut m, &f.name.name);
                push_str(&mut m, "' with parameter constraints must return result");
                push_diag(&mut self.scope, m, f.name.span, DiagnosticCode::ConstraintViolation);
            }
        }
        match &f.result {
            Some(t) => self.validate_type_into(t),
            None => {},
        }
        let ghost v3 = self.vstate();
        proof {
            lemma_gates_ok(
                f.gates@,
                f.gates@.len() as int,
                f.name.span,
                after_func_body(*f, v3, fx).scope,
            );
        }
        match &f.body {
            Some(b) => self.run_body(f, b),
            None => {},
        }
        check_gates(&mut self.scope, &f.gates, f.name.span);
    }

    fn run_method_body(&mut self, f: &Func, body: &Vec<Statement>)
        requires
            old(self).wf(),
            method_body(*f, body@, old(self).vstate(), old(self).fixed()).scope.ok,
        ensures
            final(self).wf(),
            final(self).fixed() == old(self).fixed(),
            final(self).vstate() == method_body(*f, body@, old(self).vstate(), old(self).fixed()),
    {
        let ghost vs0 = self.vstate();
        let ghost fx = self.fixed();
        let was_in_test = self.in_test_function;
        let was_return = match &self.current_return_type {
            Some(t) => Some(clone_checked(t)),
            None => None,
        };
        self.in_test_function = has_test(&f.gates);
        self.current_return_type = match &f.result {
            Some(t) => Some(ty_to_checked(t)),
            None => None,
        };
        self.start_locals(&f.params, true);
        let declared = match &f.result {
            Some(t) => Some(ty_to_checked(t)),
            None => None,
        };
        {
            let ctx = Ctx {
                types: &self.types,
                interfaces: &self.interfaces,
                current_interface: opt_str(&self.current_interface),
                return_type: opt_ref(&self.current_return_type),
                in_test: self.in_test_function,
                hush: self.hush_comments.as_slice(),
                offsets: self.source_line_offsets.as_slice(),
            };
            let ghost env = ctx.env();
            assert(env == env_of(
                fx,
                VState { in_test: has_test_gate(f.gates@), return_type: declared_of(f.result), ..vs0 },
            ));
            let ghost st0 = self.scope.state();
            let ghost s1 = block_check(body@, body@.len() as int, st0, env);
            proof {
                lemma_block_ok(body@, body@.len() as int, st0, env);
                if body@.len() > 0 {
                    match body@.last() {
                        Statement::Return(r) => match r {
                            Some(e) => {
                                lemma_expr_ok(e, s1, env);
                            },
                            None => {},
                        },
                        _ => {},
                    }
                }
            }
            check_block_upto(&ctx, &mut self.scope, body, body.len());
            if body.len() > 0 {
                match &body[body.len() - 1] {
                    Statement::Return(r) => match r {
                        Some(e) => {
                            let t = check_expr(&ctx, &mut self.scope, e);
                            return_mismatch_exec(&mut self.scope, &declared, &t, f.name.span);
                        },
                        None => {},
                    },
                    _ => {},
                }
            }
        }
        self.in_test_function = was_in_test;
        self.current_return_type = was_return;
    }

    /// Validates a resource method that takes `self`.
    pub fn validate_func_with_self(&mut self, f: &Func)
        requires
            old(self).wf(),
            validate_method_spec(*f, old(self).vstate(), old(self).fixed()).scope.ok,
        ensures
            final(self).wf(),
            final(self).fixed() == old(self).fixed(),
            final(self).vstate() == validate_method_spec(*f, old(self).vstate(), old(self).fixed()),
    {
        let ghost vs0 = self.vstate();
        let ghost fx = self.fixed();
        proof {
            lemma_validate_method_ok(*f, vs0, fx);
        }
        self.validate_params(&f.params);
        match &f.result {
            Some(t) => self.validate_type_into(t),
            None => {},
        }
        let ghost v3 = self.vstate();
        proof {
            lemma_gates_ok(
                f.gates@,
                f.gates@.len() as int,
                f.name.span,
                after_method_body(*f, v3, fx).scope,
            );
        }
        match &f.body {
            Some(b) => self.run_method_body(f, b),
            None => {},
        }
        check_gates(&mut self.scope, &f.gates, f.name.span);
    }

    fn validate_constructor(&mut self, params: &Vec<Param>, result: &Option<Ty>, body: &Option<Vec<Statement>>)
        requires
            old(self).wf(),
            constructor_spec(
                params@,
                *result,
                opt_body(*body),
                old(self).vstate(),
                old(self).fixed(),
            ).scope.ok,
        ensures
            final(self).wf(),
            final(self).fixed() == old(self).fixed(),
            final(self).vstate() == constructor_spec(
                params@,
                *result,
                opt_body(*body),
                old(self).vstate(),
                old(self).fixed(),
            ),
    {
        let ghost fx = self.fixed();
        proof {
            lemma_constructor_ok(
                params@,
                *result,
                opt_body(*body),
                self.vstate(),
                fx,
            );
        }
        self.validate_params(params);
        match result {
            Some(t) => self.validate_type_into(t),
            None => {},
        }
        match body {
            Some(b) => {
                let ghost v2 = self.vstate();
                self.scope.locals = NameMap::new();
                let mut j: usize = 0;
                while j < params.len()
                    invariant
                        j <= params@.len(),
                        self.wf(),
                        self.fixed() == fx,
                        self.vstate() == (VState {
                            scope: State {
                                locals: param_locals(Seq::empty(), params@, j as int),
                                ..v2.scope
                            },
                            ..v2
                        }),
                    decreases params@.len() - j,
                {
                    let name = params[j].name.name.clone();
                    let t = ty_to_checked(&params[j].ty);
                    self.scope.locals.insert(name, t);
                    j = j + 1;
                }
                let ctx = Ctx {
                    types: &self.types,
                    interfaces: &self.interfaces,
                    current_interface: opt_str(&self.current_interface),
                    return_type: opt_ref(&self.current_return_type),
                    in_test: self.in_test_function,
                    hush: self.hush_comments.as_slice(),
                    offsets: self.source_line_offsets.as_slice(),
                };
                assert(ctx.env() == env_of(fx, v2));
                check_block_upto(&ctx, &mut self.scope, b, b.len());
            },
            None => {},
        }
    }
}


pub(crate) fn typedef_name(k: &TypeDefKind) -> (r: &String)
    ensures
        *r == typedef_name_of(*k),
{
    match k {
        TypeDefKind::Alias { name, .. } => &name.name,
        TypeDefKind::Record { name, .. } => &name.name,
        TypeDefKind::Variant { name, .. } => &name.name,
        TypeDefKind::Enum { name, .. } => &name.name,
        TypeDefKind::Flags { name, .. } => &name.name,
        TypeDefKind::Resource { name, .. } => &name.name,
    }
}

/// Whether a type definition names its own type inside its definition.
pub fn typedef_defines_itself(k: &TypeDefKind) -> (r: bool)
    ensures
        r == defines_itself(*k),
{
    let n = typedef_name(k).as_str();
    match k {
        TypeDefKind::Alias { ty, .. } => mentions_type(ty, n),
        TypeDefKind::Record { fields, .. } => {
            let mut i: usize = 0;
            while i < fields.len()
                invariant
                    i <= fields@.len(),
                    n@ == typedef_name_of(*k)@,
                    *k matches TypeDefKind::Record { fields: f, .. } && f == *fields,
                    forall|j: int| 0 <= j < i ==> !#[trigger] ty_mentions(fields@[j].ty, n@),
                decreases fields@.len() - i,
            {
                if mentions_type(&fields[i].ty, n) {
                    assert(ty_mentions(fields@[i as int].ty, n@));
                    return true;
                }
                i = i + 1;
            }
            false
        },
        TypeDefKind::Variant { cases, .. } => {
            let mut i: usize = 0;
            while i < cases.len()
                invariant
                    i <= cases@.len(),
                    n@ == typedef_name_of(*k)@,
                    *k matches TypeDefKind::Variant { cases: c, .. } && c == *cases,
                    forall|j: int| 0 <= j < i ==> !#[trigger] case_mentions(cases@[j], n@),
                decreases cases@.len() - i,
            {
                let hit = match &cases[i].ty {
                    Some(t) => mentions_type(t, n),
                    None => false,
                };
                assert(hit == case_mentions(cases@[i as int], n@));
                if hit {
                    return true;
                }
                i = i + 1;
            }
            false
        },
        _ => false,
    }
}

fn typedef_params(k: &TypeDefKind) -> (r: Option<&Vec<Id>>)
    ensures
        match r {
            Some(v) => v@ == type_params_of(*k),
            None => type_params_of(*k) == Seq::<Id>::empty(),
        },
{
    match k {
        TypeDefKind::Alias { type_params, .. } => Some(type_params),
        TypeDefKind::Record { type_params, .. } => Some(type_params),
        TypeDefKind::Variant { type_params, .. } => Some(type_params),
        _ => None,
    }
}

impl Checker {
    fn validate_methods(&mut self, ms: &Vec<ResourceMethod>)
        requires
            old(self).wf(),
            methods_spec(ms@, ms@.len() as int, old(self).vstate(), old(self).fixed()).scope.ok,
        ensures
            final(self).wf(),
            final(self).fixed() == old(self).fixed(),
            final(self).vstate() == methods_spec(ms@, ms@.len() as int, old(self).vstate(), old(self).fixed()),
    {
        self.validate_methods_upto(ms, ms.len());
    }

    fn validate_methods_upto(&mut self, ms: &Vec<ResourceMethod>, k: usize)
        requires
            old(self).wf(),
            k <= ms@.len(),
            methods_spec(ms@, k as int, old(self).vstate(), old(self).fixed()).scope.ok,
        ensures
            final(self).wf(),
            final(self).fixed() == old(self).fixed(),
            final(self).vstate() == methods_spec(ms@, k as int, old(self).vstate(), old(self).fixed()),
        decreases k,
    {
        if k > 0 {
            let ghost fx = self.fixed();
            let ghost prev = methods_spec(ms@, k - 1, self.vstate(), fx);
            proof {
                match ms@[k - 1] {
                    ResourceMethod::Method(f) => lemma_validate_method_ok(f, prev, fx),
                    ResourceMethod::Static(f) => lemma_validate_func_ok(f, prev, fx),
                    ResourceMethod::Constructor { params, result, body, .. } => lemma_constructor_ok(
                        params@,
                        result,
                        opt_body(body),
                        prev,
                        fx,
                    ),
                }
            }
            self.validate_methods_upto(ms, k - 1);
            match &ms[k - 1] {
                ResourceMethod::Method(f) => self.validate_func_with_self(f),
                ResourceMethod::Static(f) => self.validate_func(f),
                ResourceMethod::Constructor { params, result, body, .. } => {
                    self.validate_constructor(params, result, body)
                },
            }
        }
    }

    fn validate_fields(&mut self, fs: &Vec<Field>)
        requires
            old(self).wf(),
        ensures
            final(self).wf(),
            final(self).fixed() == old(self).fixed(),
            final(self).vstate() == field_types(fs@, fs@.len() as int, old(self).vstate(), old(self).fixed()),
    {
        let ghost vs0 = self.vstate();
        let mut k: usize = 0;
        while k < fs.len()
            invariant
                k <= fs@.len(),
                self.wf(),
                self.fixed() == old(self).fixed(),
                self.vstate() == field_types(fs@, k as int, vs0, old(self).fixed()),
            decreases fs@.len() - k,
        {
            self.validate_type_into(&fs[k].ty);
            k = k + 1;
        }
    }

    fn validate_cases(&mut self, cs: &Vec<Case>)
        requires
            old(self).wf(),
        ensures
            final(self).wf(),
            final(self).fixed() == old(self).fixed(),
            final(self).vstate() == case_types(cs@, cs@.len() as int, old(self).vstate(), old(self).fixed()),
    {
        let ghost vs0 = self.vstate();
        let mut k: usize = 0;
        while k < cs.len()
            invariant
                k <= cs@.len(),
                self.wf(),
                self.fixed() == old(self).fixed(),
                self.vstate() == case_types(cs@, k as int, vs0, old(self).fixed()),
            decreases cs@.len() - k,
        {
            match &cs[k].ty {
                Some(t) => self.validate_type_into(t),
                None => {},
            }
            k = k + 1;
        }
    }

    fn add_type_params(&mut self, ids: &Vec<Id>)
        ensures
            *final(self) == (Checker { type_params: final(self).type_params, ..*old(self) }),
            final(self).type_params@ == add_all(old(self).type_params@, ids@, ids@.len() as int),
    {
        let mut k: usize = 0;
        while k < ids.len()
            invariant
                k <= ids@.len(),
                *self == (Checker { type_params: self.type_params, ..*old(self) }),
                self.type_params@ == add_all(old(self).type_params@, ids@, k as int),
            decreases ids@.len() - k,
        {
            set_add_exec(&mut self.type_params, &ids[k].name);
            k = k + 1;
        }
    }

    fn remove_type_params(&mut self, ids: &Vec<Id>)
        ensures
            *final(self) == (Checker { type_params: final(self).type_params, ..*old(self) }),
            final(self).type_params@ == remove_all(old(self).type_params@, ids@, ids@.len() as int),
    {
        let mut k: usize = 0;
        while k < ids.len()
            invariant
                k <= ids@.len(),
                *self == (Checker { type_params: self.type_params, ..*old(self) }),
                self.type_params@ == remove_all(old(self).type_params@, ids@, k as int),
            decreases ids@.len() - k,
        {
            set_remove_exec(&mut self.type_params, &ids[k].name);
            k = k + 1;
        }
    }

    /// Validates a type definition: a definition that is already being
    /// resolved, or that names its own type inside its definition, is a
    /// recursive type and an error; otherwise its type references are
    /// checked with its type parameters in scope, and a resource's methods
    /// are validated.
    pub fn validate_typedef(&mut self, td: &TypeDef)
        requires
            old(self).wf(),
            validate_typedef_spec(*td, old(self).vstate(), old(self).fixed()).scope.ok,
        ensures
            final(self).wf(),
            final(self).fixed() == old(self).fixed(),
            final(self).vstate() == validate_typedef_spec(*td, old(self).vstate(), old(self).fixed()),
    {
        let ghost fx = self.fixed();
        proof {
            lemma_validate_typedef_ok(*td, self.vstate(), fx);
        }
        let name = typedef_name(&td.kind);
        if names_contain(&self.resolving, name.as_str()) || typedef_defines_itself(&td.kind) {
            let mut m: Vec<char> = Vec::new();
            push_str(&mut m, "Recursive type definition: ");
            push_string(&mut m, name);
            push_diag(&mut self.scope, m, td.span, DiagnosticCode::RecursiveType);
            return;
        }
        set_add_exec(&mut self.resolving, name);
        let no_params: Vec<Id> = Vec::new();
        let tps: &Vec<Id> = match typedef_params(&td.kind) {
            Some(v) => v,
            None => &no_params,
        };
        self.add_type_params(tps);
        match &td.kind {
            TypeDefKind::Alias { ty, .. } => self.validate_type_into(ty),
            TypeDefKind::Record { fields, .. } => self.validate_fields(fields),
            TypeDefKind::Variant { cases, .. } => self.validate_cases(cases),
            TypeDefKind::Resource { methods, .. } => self.validate_methods(methods),
            _ => {},
        }
        self.remove_type_params(tps);
        set_remove_exec(&mut self.resolving, name);
    }

    /// Validates a `use`: the interface must exist, and export each name.
    pub fn validate_use_statement(&mut self, u: &UseStatement)
        requires
            old(self).wf(),
        ensures
            final(self).wf(),
            final(self).fixed() == old(self).fixed(),
            final(self).vstate() == validate_use_spec(*u, old(self).vstate(), old(self).fixed()),
    {
        let iname = &u.path.interface.name;
        let ik = chars_of(iname.as_str());
        let found = self.interfaces.contains(ik.as_slice());
        if u.path.package.is_none() && !found {
            let mut m: Vec<char> = Vec::new();
            push_str(&mut m, "Unknown interface in use statement: ");
            push_string(&mut m, iname);
            push_diag(&mut self.scope, m, u.span, DiagnosticCode::InvalidUse);
            return;
        }
        if found {
            let infos = copy_iface_names(&self.interfaces, ik.as_slice());
            self.validate_use_names_of(&u.names, &infos, iname);
        }
    }

    fn validate_use_names_of(&mut self, names: &Vec<UseName>, infos: &(Vec<String>, Vec<String>), iname: &String)
        requires
            old(self).wf(),
            old(self).interfaces@.contains_key(iname@),
            infos.0@ == old(self).interfaces@[iname@].types@,
            infos.1@ == old(self).interfaces@[iname@].functions@,
        ensures
            final(self).wf(),
            final(self).fixed() == old(self).fixed(),
            final(self).vstate() == use_names_spec(
                names@,
                names@.len() as int,
                old(self).interfaces@[iname@],
                iname@,
                old(self).vstate(),
            ),
    {
        let ghost vs0 = self.vstate();
        let ghost info = self.interfaces@[iname@];
        let mut k: usize = 0;
        while k < names.len()
            invariant
                k <= names@.len(),
                self.wf(),
                self.fixed() == old(self).fixed(),
                infos.0@ == info.types@,
                infos.1@ == info.functions@,
                self.vstate() == use_names_spec(names@, k as int, info, iname@, vs0),
            decreases names@.len() - k,
        {
            let n = &names[k].name;
            if !names_contain(&infos.0, n.name.as_str()) && !names_contain(&infos.1, n.name.as_str()) {
                let mut m: Vec<char> = Vec::new();
                push_str(&mut m, "Interface '");
                push_string(&mut m, iname);
                push_str(&mut m, "' does not export '");
                push_string(&mut m, &n.name);
                push_str(&mut m, "'");
                push_diag(&mut self.scope, m, n.span, DiagnosticCode::InvalidUse);
            }
            k = k + 1;
        }
    }

    /// Validates a top-level `use`.
    pub fn validate_top_level_use(&mut self, u: &TopLevelUse)
        requires
            old(self).wf(),
        ensures
            final(self).wf(),
            final(self).fixed() == old(self).fixed(),
            final(self).vstate() == validate_top_use_spec(*u, old(self).vstate(), old(self).fixed()),
    {
        let iname = &u.path.interface.name;
        let ik = chars_of(iname.as_str());
        if u.path.package.is_none() && !self.interfaces.contains(ik.as_slice()) {
            let mut m: Vec<char> = Vec::new();
            push_str(&mut m, "Unknown interface: ");
            push_string(&mut m, iname);
            push_diag(&mut self.scope, m, u.span, DiagnosticCode::InvalidUse);
        }
    }

    /// Validates an `include`.
    pub fn validate_include(&mut self, i: &IncludeStatement)
        requires
            old(self).wf(),
        ensures
            final(self).wf(),
            final(self).fixed() == old(self).fixed(),
            final(self).vstate() == validate_include_spec(*i, old(self).vstate(), old(self).fixed()),
    {
        if i.path.package.is_none() {
            let n = &i.path.interface.name;
            let nk = chars_of(n.as_str());
            if !self.worlds.contains(nk.as_slice()) && !self.interfaces.contains(nk.as_slice()) {
                let mut m: Vec<char> = Vec::new();
                push_str(&mut m, "Unknown world or interface to include: ");
                push_string(&mut m, n);
                push_diag(&mut self.scope, m, i.span, DiagnosticCode::InvalidUse);
            }
        }
    }

    fn validate_iface_items_upto(&mut self, items: &Vec<InterfaceItem>, k: usize)
        requires
            old(self).wf(),
            k <= items@.len(),
            iface_items_spec(items@, k as int, old(self).vstate(), old(self).fixed()).scope.ok,
        ensures
            final(self).wf(),
            final(self).fixed() == old(self).fixed(),
            final(self).vstate() == iface_items_spec(items@, k as int, old(self).vstate(), old(self).fixed()),
        decreases k,
    {
        if k > 0 {
            let ghost fx = self.fixed();
            let ghost prev = iface_items_spec(items@, k - 1, self.vstate(), fx);
            proof {
                match items@[k - 1] {
                    InterfaceItem::TypeDef(td) => lemma_validate_typedef_ok(td, prev, fx),
                    InterfaceItem::Func(f) => lemma_validate_func_ok(f, prev, fx),
                    InterfaceItem::Use(u) => lemma_validate_use_ok(u, prev, fx),
                }
            }
            self.validate_iface_items_upto(items, k - 1);
            match &items[k - 1] {
                InterfaceItem::TypeDef(td) => self.validate_typedef(td),
                InterfaceItem::Func(f) => self.validate_func(f),
                InterfaceItem::Use(u) => self.validate_use_statement(u),
            }
        }
    }

    /// Validates an import or export of a world.
    pub fn validate_import_export(&mut self, ie: &ImportExport)
        requires
            old(self).wf(),
            validate_import_export_spec(*ie, old(self).vstate(), old(self).fixed()).scope.ok,
        ensures
            final(self).wf(),
            final(self).fixed() == old(self).fixed(),
            final(self).vstate() == validate_import_export_spec(*ie, old(self).vstate(), old(self).fixed()),
    {
        match &ie.kind {
            ImportExportKind::Path(p) => {
                let pk = chars_of(p.interface.name.as_str());
                if p.package.is_none() && !self.interfaces.contains(pk.as_slice()) {
                    let mut m: Vec<char> = Vec::new();
                    push_str(&mut m, "Unknown interface: ");
                    push_string(&mut m, &p.interface.name);
                    push_diag(&mut self.scope, m, ie.span, DiagnosticCode::UnknownInterface);
                }
            },
            ImportExportKind::Func(f) => self.validate_func(f),
            ImportExportKind::Interface(items) => self.validate_iface_items_upto(items, items.len()),
        }
    }

    fn validate_world_items_upto(&mut self, items: &Vec<WorldItem>, k: usize)
        requires
            old(self).wf(),
            k <= items@.len(),
            world_items_spec(items@, k as int, old(self).vstate(), old(self).fixed()).scope.ok,
        ensures
            final(self).wf(),
            final(self).fixed() == old(self).fixed(),
            final(self).vstate() == world_items_spec(items@, k as int, old(self).vstate(), old(self).fixed()),
        decreases k,
    {
        if k > 0 {
            let ghost fx = self.fixed();
            let ghost prev = world_items_spec(items@, k - 1, self.vstate(), fx);
            proof {
                match items@[k - 1] {
                    WorldItem::TypeDef(td) => lemma_validate_typedef_ok(td, prev, fx),
                    WorldItem::Import(ie) => lemma_import_export_ok(ie, prev, fx),
                    WorldItem::Export(ie) => lemma_import_export_ok(ie, prev, fx),
                    WorldItem::Use(u) => lemma_validate_use_ok(u, prev, fx),
                    WorldItem::Include(_) => {},
                }
            }
            self.validate_world_items_upto(items, k - 1);
            match &items[k - 1] {
                WorldItem::TypeDef(td) => self.validate_typedef(td),
                WorldItem::Import(ie) => self.validate_import_export(ie),
                WorldItem::Export(ie) => self.validate_import_export(ie),
                WorldItem::Use(u) => self.validate_use_statement(u),
                WorldItem::Include(i) => self.validate_include(i),
            }
        }
    }

    /// Validates an interface, with the interface as the current scope.
    pub fn validate_interface(&mut self, iface: &Interface)
        requires
            old(self).wf(),
            validate_interface_spec(*iface, old(self).vstate(), old(self).fixed()).scope.ok,
        ensures
            final(self).wf(),
            final(self).fixed() == old(self).fixed(),
            final(self).vstate() == validate_interface_spec(*iface, old(self).vstate(), old(self).fixed()),
    {
        self.current_interface = Some(iface.name.name.clone());
        self.validate_iface_items_upto(&iface.items, iface.items.len());
        self.current_interface = None;
    }

    /// Validates a world's items.
    pub fn validate_world(&mut self, w: &World)
        requires
            old(self).wf(),
            world_items_spec(w.items@, w.items@.len() as int, old(self).vstate(), old(self).fixed()).scope.ok,
        ensures
            final(self).wf(),
            final(self).fixed() == old(self).fixed(),
            final(self).vstate() == world_items_spec(
                w.items@,
                w.items@.len() as int,
                old(self).vstate(),
                old(self).fixed(),
            ),
    {
        self.validate_world_items_upto(&w.items, w.items.len());
    }

    fn validate_items_upto(&mut self, items: &Vec<TopLevelItem>, k: usize)
        requires
            old(self).wf(),
            k <= items@.len(),
            top_items_spec(items@, k as int, old(self).vstate(), old(self).fixed()).scope.ok,
        ensures
            final(self).wf(),
            final(self).fixed() == old(self).fixed(),
            final(self).vstate() == top_items_spec(items@, k as int, old(self).vstate(), old(self).fixed()),
        decreases k,
    {
        if k > 0 {
            let ghost fx = self.fixed();
            let ghost prev = top_items_spec(items@, k - 1, self.vstate(), fx);
            proof {
                match items@[k - 1] {
                    TopLevelItem::Interface(i) => {
                        lemma_iface_items_ok(
                            i.items@,
                            i.items@.len() as int,
                            VState { current_interface: Some(i.name.name), ..prev },
                            fx,
                        );
                    },
                    TopLevelItem::World(w) => lemma_world_items_ok(w.items@, w.items@.len() as int, prev, fx),
                    _ => {},
                }
            }
            self.validate_items_upto(items, k - 1);
            match &items[k - 1] {
                TopLevelItem::Interface(i) => self.validate_interface(i),
                TopLevelItem::World(w) => self.validate_world(w),
                TopLevelItem::Use(u) => self.validate_top_level_use(u),
                TopLevelItem::NestedPackage(p) => {
                    let mut m: Vec<char> = Vec::new();
                    push_str(&mut m, "Nested packages are not supported (found '");
                    push_string(&mut m, &package_path_to_string(&p.path));
                    push_str(&mut m, "')");
                    push_diag(&mut self.scope, m, p.span, DiagnosticCode::NestedPackageUnsupported);
                },
            }
        }
    }

    /// Validates every item of a file against the collected definitions.
    pub fn validate_file(&mut self, file: &WitFile)
        requires
            old(self).wf(),
            top_items_spec(file.items@, file.items@.len() as int, old(self).vstate(), old(self).fixed()).scope.ok,
        ensures
            final(self).wf(),
            final(self).fixed() == old(self).fixed(),
            final(self).vstate() == top_items_spec(
                file.items@,
                file.items@.len() as int,
                old(self).vstate(),
                old(self).fixed(),
            ),
    {
        self.validate_items_upto(&file.items, file.items.len());
    }
}

/// Copies of the type and function names an interface exports.
fn copy_iface_names(m: &NameMap<InterfaceInfo>, key: &[char]) -> (r: (Vec<String>, Vec<String>))
    requires
        m.wf(),
        m@.contains_key(key@),
    ensures
        r.0@ == m@[key@].types@,
        r.1@ == m@[key@].functions@,
{
    match m.get(key) {
        Some(i) => (copy_names(&i.types), copy_names(&i.functions)),
        None => (Vec::new(), Vec::new()),
    }
}

fn copy_names(v: &Vec<String>) -> (r: Vec<String>)
    ensures
        r@ == v@,
{
    let mut r: Vec<String> = Vec::new();
    let mut i: usize = 0;
    while i < v.len()
        invariant
            i <= v@.len(),
            r@ == v@.take(i as int),
        decreases v@.len() - i,
    {
        r.push(v[i].clone());
        assert(v@.take(i + 1) =~= v@.take(i as int).push(v@[i as int]));
        i = i + 1;
    }
    assert(v@.take(i as int) =~= v@);
    r
}

} // verus!
