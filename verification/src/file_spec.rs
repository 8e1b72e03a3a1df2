//! What validating a file means once its definitions are collected: the
//! diagnostics of functions and their bodies, gates, type definitions,
//! `use`s, includes, imports and exports, interfaces and worlds, as spec
//! functions over the file's syntax and the collected tables.
use vstd::prelude::*;
use crate::ast::{
    Case, Field, Func, Gate, ImportExport, ImportExportKind, IncludeStatement, Interface,
    InterfaceItem, Param, ResourceMethod, Statement, TopLevelItem, TopLevelUse, TypeDef,
    TypeDefKind, UseStatement, World, WorldItem,
};
use crate::body_spec::{
    block_check, err, expr_check, lemma_block_ok, lemma_expr_ok, lemma_stmt_ok, stmt_check, Env,
    State,
};
use crate::checked::{checked_debug, same_checked};
use crate::constraints::string_views;
use crate::call_check::DiagView;
use crate::diagnostics::{DiagnosticCode, Severity, Span};
use crate::interfaces::{InterfaceInfo, WorldInfo};
use crate::name_map::insert_entries;
use crate::numbers::decimal;
use crate::package_path::package_path_text;
use crate::types::{checked_of, ty_mentions, type_diags, CheckedType, Id, Ty, TypeInfo};

verus! {

/// What validation reads and does not change: the collected types,
/// interfaces and worlds, the interfaces that worlds import, the receiver's
/// name, and the source's hush comments and line offsets.
pub struct Fixed {
    pub types: Map<(Option<Seq<char>>, Seq<char>), TypeInfo>,
    pub interfaces: Map<Seq<char>, InterfaceInfo>,
    pub worlds: Map<Seq<char>, WorldInfo>,
    pub imported: Seq<String>,
    pub self_key: String,
    pub hush: Seq<(int, int, Seq<char>)>,
    pub offsets: Seq<usize>,
}

/// What validation changes: the body-checking state, the type names being
/// resolved, the type parameters in scope, whether a test is being checked,
/// the declared return type, and the current interface.
pub struct VState {
    pub scope: State,
    pub resolving: Seq<String>,
    pub type_params: Seq<String>,
    pub in_test: bool,
    pub return_type: Option<CheckedType>,
    pub current_interface: Option<String>,
}

/// The current interface's name.
pub open spec fn current_view(vs: VState) -> Option<Seq<char>> {
    match vs.current_interface {
        Some(s) => Some(s@),
        None => None,
    }
}

/// The body-checking context.
pub open spec fn env_of(fx: Fixed, vs: VState) -> Env {
    Env {
        types: fx.types,
        interfaces: fx.interfaces,
        current_interface: current_view(vs),
        return_type: vs.return_type,
        in_test: vs.in_test,
        hush: fx.hush,
        offsets: fx.offsets,
    }
}

/// Replaces the body-checking state.
pub open spec fn with_scope(vs: VState, s: State) -> VState {
    VState { scope: s, ..vs }
}

/// Adds a diagnostic of the given severity.
pub open spec fn note(st: State, msg: Seq<char>, span: Span, sev: Severity, code: DiagnosticCode) -> State {
    State { diags: st.diags.push((msg, span, sev, code)), ..st }
}

/// Adds an error.
pub open spec fn verr(vs: VState, msg: Seq<char>, span: Span, code: DiagnosticCode) -> VState {
    with_scope(vs, err(vs.scope, msg, span, code))
}

/// The errors for the unknown names in a type reference.
pub open spec fn vtype(vs: VState, t: Ty, fx: Fixed) -> VState {
    with_scope(
        vs,
        State {
            diags: vs.scope.diags + type_diags(t, vs.type_params, fx.types, current_view(vs)),
            ..vs.scope
        },
    )
}

/// The type references of the first `k` parameters.
pub open spec fn vparams(ps: Seq<Param>, k: int, vs: VState, fx: Fixed) -> VState
    decreases k,
{
    if k <= 0 || k > ps.len() {
        vs
    } else {
        vtype(vparams(ps, k - 1, vs, fx), ps[k - 1].ty, fx)
    }
}

/// `x` added to a set of names kept as a list.
pub open spec fn set_add(s: Seq<String>, x: String) -> Seq<String> {
    if string_views(s).contains(x@) {
        s
    } else {
        s.push(x)
    }
}

/// `x` taken out of a set of names kept as a list.
pub open spec fn set_remove(s: Seq<String>, x: Seq<char>) -> Seq<String>
    decreases s.len(),
{
    if s.len() == 0 {
        s
    } else {
        let r = set_remove(s.drop_last(), x);
        if s.last()@ != x {
            r.push(s.last())
        } else {
            r
        }
    }
}

/// Each of the first `k` names added.
pub open spec fn add_all(s: Seq<String>, ids: Seq<Id>, k: int) -> Seq<String>
    decreases k,
{
    if k <= 0 || k > ids.len() {
        s
    } else {
        set_add(add_all(s, ids, k - 1), ids[k - 1].name)
    }
}

/// Each of the first `k` names taken out.
pub open spec fn remove_all(s: Seq<String>, ids: Seq<Id>, k: int) -> Seq<String>
    decreases k,
{
    if k <= 0 || k > ids.len() {
        s
    } else {
        set_remove(remove_all(s, ids, k - 1), ids[k - 1].name@)
    }
}

/// A test or test-helper gate.
pub open spec fn is_test_gate(g: Gate) -> bool {
    g is Test || g is TestHelper
}

/// Some gate marks a test.
pub open spec fn has_test_gate(gs: Seq<Gate>) -> bool {
    exists|i: int| 0 <= i < gs.len() && is_test_gate(#[trigger] gs[i])
}

/// Some parameter has a `where` constraint.
pub open spec fn has_constraint(ps: Seq<Param>) -> bool {
    exists|i: int| 0 <= i < ps.len() && (#[trigger] ps[i]).constraint is Some
}

/// The locals that the imported interfaces bind, the first `k` of them.
pub open spec fn import_locals(base: Seq<(String, CheckedType)>, imported: Seq<String>, k: int) -> Seq<
    (String, CheckedType),
>
    decreases k,
{
    if k <= 0 || k > imported.len() {
        base
    } else {
        insert_entries(
            import_locals(base, imported, k - 1),
            imported[k - 1],
            CheckedType::Interface(imported[k - 1]),
        )
    }
}

/// The locals that the first `k` parameters bind.
pub open spec fn param_locals(base: Seq<(String, CheckedType)>, ps: Seq<Param>, k: int) -> Seq<
    (String, CheckedType),
>
    decreases k,
{
    if k <= 0 || k > ps.len() {
        base
    } else {
        insert_entries(param_locals(base, ps, k - 1), ps[k - 1].name.name, checked_of(ps[k - 1].ty))
    }
}

/// An error when a returned type differs from the declared one.
pub open spec fn return_mismatch(declared: Option<CheckedType>, t: CheckedType, span: Span, st: State) -> State {
    match declared {
        Some(d) => if !same_checked(t, d) && !(t is Unknown) && !(d is Unknown) {
            err(
                st,
                "Return type mismatch: expected "@ + checked_debug(d) + ", found "@ + checked_debug(t),
                span,
                DiagnosticCode::TypeMismatch,
            )
        } else {
            st
        },
        None => st,
    }
}

/// The inferred return type and state after the first `k` statements of a
/// function body.
pub open spec fn func_stmts(
    ss: Seq<Statement>,
    k: int,
    declared: Option<CheckedType>,
    span: Span,
    st: State,
    env: Env,
) -> (CheckedType, State)
    decreases k,
{
    if k <= 0 || k > ss.len() {
        (CheckedType::Unknown, st)
    } else {
        let prev = func_stmts(ss, k - 1, declared, span, st, env);
        match ss[k - 1] {
            Statement::Return(r) => match r {
                Some(e) => {
                    let x = expr_check(e, prev.1, env);
                    (x.0, return_mismatch(declared, x.0, span, x.1))
                },
                None => (
                    prev.0,
                    if declared is Some {
                        err(prev.1, "Missing return value"@, span, DiagnosticCode::TypeMismatch)
                    } else {
                        prev.1
                    },
                ),
            },
            Statement::Expr(e) => if k == ss.len() {
                let x = expr_check(e, prev.1, env);
                (x.0, return_mismatch(declared, x.0, span, x.1))
            } else {
                (prev.0, stmt_check(ss[k - 1], prev.1, env))
            },
            _ => (prev.0, stmt_check(ss[k - 1], prev.1, env)),
        }
    }
}

/// The declared return type of a function.
pub open spec fn declared_of(result: Option<Ty>) -> Option<CheckedType> {
    match result {
        Some(t) => Some(checked_of(t)),
        None => None,
    }
}

/// The state after a function body: locals start from the imported
/// interfaces and the parameters, constants start empty; the test flag and
/// the declared return type are put back afterwards.
pub open spec fn func_body(f: Func, body: Seq<Statement>, vs: VState, fx: Fixed) -> VState {
    let declared = declared_of(f.result);
    let inner = VState { in_test: has_test_gate(f.gates@), return_type: declared, ..vs };
    let locals = param_locals(
        import_locals(Seq::empty(), fx.imported, fx.imported.len() as int),
        f.params@,
        f.params@.len() as int,
    );
    let st0 = State { locals, constants: Map::empty(), ..vs.scope };
    let r = func_stmts(body, body.len() as int, declared, f.name.span, st0, env_of(fx, inner));
    let s1 = if declared is Some && r.0 is Unknown && body.len() > 0 && !(body.last() is Return) {
        note(
            r.1,
            "Function may not return a value"@,
            f.name.span,
            Severity::Warning,
            DiagnosticCode::TypeMismatch,
        )
    } else {
        r.1
    };
    with_scope(vs, s1)
}

/// The diagnostics of the first `k` gates.
pub open spec fn gates_check(gs: Seq<Gate>, k: int, span: Span, st: State) -> State
    decreases k,
{
    if k <= 0 || k > gs.len() {
        st
    } else {
        gate_check(gs[k - 1], span, gates_check(gs, k - 1, span, st))
    }
}

/// Checking one gate: a deprecated function gets a warning, an unstable one
/// a note.
pub open spec fn gate_check(g: Gate, span: Span, st: State) -> State {
    match g {
        Gate::Deprecated { version } => note(
            st,
            "Deprecated since version "@ + decimal(version.major as nat) + "."@ + decimal(
                version.minor as nat,
            ) + "."@ + decimal(version.patch as nat),
            span,
            Severity::Warning,
            DiagnosticCode::DeprecatedFeature,
        ),
        Gate::Unstable { feature } => note(
            st,
            "Unstable feature: "@ + feature.name@,
            span,
            Severity::Info,
            DiagnosticCode::UnstableFeature,
        ),
        _ => st,
    }
}

/// Validating a function: parameter and result types, the rule that a
/// constrained function returns a result, its body, and its gates.
pub open spec fn validate_func_spec(f: Func, vs: VState, fx: Fixed) -> VState {
    let v1 = vparams(f.params@, f.params@.len() as int, vs, fx);
    let v2 = if has_constraint(f.params@) && !(f.result matches Some(t) && t is Result) {
        verr(
            v1,
            "Function '"@ + f.name.name@ + "' with parameter constraints must return result"@,
            f.name.span,
            DiagnosticCode::ConstraintViolation,
        )
    } else {
        v1
    };
    let v3 = match f.result {
        Some(t) => vtype(v2, t, fx),
        None => v2,
    };
    let v4 = match f.body {
        Some(b) => func_body(f, b@, v3, fx),
        None => v3,
    };
    with_scope(v4, gates_check(f.gates@, f.gates@.len() as int, f.name.span, v4.scope))
}

/// The state after a method body: like a function body, with the receiver
/// bound as `self` and the constants kept; every statement is checked, and
/// a final `return` is checked once more against the declared type.
pub open spec fn method_body(f: Func, body: Seq<Statement>, vs: VState, fx: Fixed) -> VState {
    let declared = declared_of(f.result);
    let inner = VState { in_test: has_test_gate(f.gates@), return_type: declared, ..vs };
    let env = env_of(fx, inner);
    let locals = param_locals(
        insert_entries(
            import_locals(Seq::empty(), fx.imported, fx.imported.len() as int),
            fx.self_key,
            CheckedType::I32,
        ),
        f.params@,
        f.params@.len() as int,
    );
    let st0 = State { locals, ..vs.scope };
    let s1 = block_check(body, body.len() as int, st0, env);
    let s2 = if body.len() > 0 {
        match body.last() {
            Statement::Return(r) => match r {
                Some(e) => {
                    let x = expr_check(e, s1, env);
                    return_mismatch(declared, x.0, f.name.span, x.1)
                },
                None => s1,
            },
            _ => s1,
        }
    } else {
        s1
    };
    with_scope(vs, s2)
}

/// Validating a resource method that takes `self`.
pub open spec fn validate_method_spec(f: Func, vs: VState, fx: Fixed) -> VState {
    let v1 = vparams(f.params@, f.params@.len() as int, vs, fx);
    let v3 = match f.result {
        Some(t) => vtype(v1, t, fx),
        None => v1,
    };
    let v4 = match f.body {
        Some(b) => method_body(f, b@, v3, fx),
        None => v3,
    };
    with_scope(v4, gates_check(f.gates@, f.gates@.len() as int, f.name.span, v4.scope))
}

/// Validating a resource constructor: its types, then its body with the
/// parameters as the only locals.
pub open spec fn constructor_spec(
    params: Seq<Param>,
    result: Option<Ty>,
    body: Option<Seq<Statement>>,
    vs: VState,
    fx: Fixed,
) -> VState {
    let v1 = vparams(params, params.len() as int, vs, fx);
    let v2 = match result {
        Some(t) => vtype(v1, t, fx),
        None => v1,
    };
    match body {
        Some(b) => {
            let st0 = State {
                locals: param_locals(Seq::empty(), params, params.len() as int),
                ..v2.scope
            };
            with_scope(v2, block_check(b, b.len() as int, st0, env_of(fx, v2)))
        },
        None => v2,
    }
}

/// Validating the first `k` methods of a resource.
pub open spec fn methods_spec(ms: Seq<ResourceMethod>, k: int, vs: VState, fx: Fixed) -> VState
    decreases k,
{
    if k <= 0 || k > ms.len() {
        vs
    } else {
        let prev = methods_spec(ms, k - 1, vs, fx);
        match ms[k - 1] {
            ResourceMethod::Method(f) => validate_method_spec(f, prev, fx),
            ResourceMethod::Static(f) => validate_func_spec(f, prev, fx),
            ResourceMethod::Constructor { params, result, body, .. } => constructor_spec(
                params@,
                result,
                match body {
                    Some(b) => Some(b@),
                    None => None,
                },
                prev,
                fx,
            ),
        }
    }
}

/// The type references of the first `k` record fields.
pub open spec fn field_types(fs: Seq<Field>, k: int, vs: VState, fx: Fixed) -> VState
    decreases k,
{
    if k <= 0 || k > fs.len() {
        vs
    } else {
        vtype(field_types(fs, k - 1, vs, fx), fs[k - 1].ty, fx)
    }
}

/// The payload type references of the first `k` variant cases.
pub open spec fn case_types(cs: Seq<Case>, k: int, vs: VState, fx: Fixed) -> VState
    decreases k,
{
    if k <= 0 || k > cs.len() {
        vs
    } else {
        let prev = case_types(cs, k - 1, vs, fx);
        match cs[k - 1].ty {
            Some(t) => vtype(prev, t, fx),
            None => prev,
        }
    }
}

/// The name a type definition defines.
pub open spec fn typedef_name_of(k: TypeDefKind) -> String {
    match k {
        TypeDefKind::Alias { name, .. } => name.name,
        TypeDefKind::Record { name, .. } => name.name,
        TypeDefKind::Variant { name, .. } => name.name,
        TypeDefKind::Enum { name, .. } => name.name,
        TypeDefKind::Flags { name, .. } => name.name,
        TypeDefKind::Resource { name, .. } => name.name,
    }
}

/// The type parameters a type definition declares.
pub open spec fn type_params_of(k: TypeDefKind) -> Seq<Id> {
    match k {
        TypeDefKind::Alias { type_params, .. } => type_params@,
        TypeDefKind::Record { type_params, .. } => type_params@,
        TypeDefKind::Variant { type_params, .. } => type_params@,
        _ => Seq::empty(),
    }
}

/// Whether a case's payload names the type `n`.
pub open spec fn case_mentions(c: Case, n: Seq<char>) -> bool {
    match c.ty {
        Some(t) => ty_mentions(t, n),
        None => false,
    }
}

/// Whether a type definition names its own type inside its definition: in
/// an alias's target, a record field's type or a variant case's payload.
pub open spec fn defines_itself(k: TypeDefKind) -> bool {
    let n = typedef_name_of(k)@;
    match k {
        TypeDefKind::Alias { ty, .. } => ty_mentions(ty, n),
        TypeDefKind::Record { fields, .. } => exists|i: int|
            0 <= i < fields@.len() && #[trigger] ty_mentions(fields@[i].ty, n),
        TypeDefKind::Variant { cases, .. } => exists|i: int|
            0 <= i < cases@.len() && #[trigger] case_mentions(cases@[i], n),
        _ => false,
    }
}

/// Validating a type definition: a definition that is already being
/// resolved, or that names its own type inside its definition, is a
/// recursive type and an error; otherwise its type references are checked
/// with its type parameters in scope, and a resource's methods are
/// validated.
pub open spec fn validate_typedef_spec(td: TypeDef, vs: VState, fx: Fixed) -> VState {
    let name = typedef_name_of(td.kind);
    if string_views(vs.resolving).contains(name@) || defines_itself(td.kind) {
        verr(vs, "Recursive type definition: "@ + name@, td.span, DiagnosticCode::RecursiveType)
    } else {
        let tps = type_params_of(td.kind);
        let v1 = VState {
            resolving: set_add(vs.resolving, name),
            type_params: add_all(vs.type_params, tps, tps.len() as int),
            ..vs
        };
        let v2 = match td.kind {
            TypeDefKind::Alias { ty, .. } => vtype(v1, ty, fx),
            TypeDefKind::Record { fields, .. } => field_types(fields@, fields@.len() as int, v1, fx),
            TypeDefKind::Variant { cases, .. } => case_types(cases@, cases@.len() as int, v1, fx),
            TypeDefKind::Resource { methods, .. } => methods_spec(
                methods@,
                methods@.len() as int,
                v1,
                fx,
            ),
            _ => v1,
        };
        VState {
            type_params: remove_all(v2.type_params, tps, tps.len() as int),
            resolving: set_remove(v2.resolving, name@),
            ..v2
        }
    }
}

/// Field `i` of a record definition has the record's own name as its type.
pub open spec fn field_names_its_record(k: TypeDefKind, i: int) -> bool {
    match k {
        TypeDefKind::Record { name, fields, .. } => 0 <= i < fields@.len() && match fields@[i].ty {
            Ty::Named(id) => id.name@ == name.name@,
            _ => false,
        },
        _ => false,
    }
}

/// A record with a field whose type names the record itself is a recursive
/// type: validating it adds exactly the error "Recursive type definition:
/// <name>" at the definition, with code `RecursiveType`.
pub proof fn self_naming_record_is_recursive(td: TypeDef, i: int, vs: VState, fx: Fixed)
    requires
        field_names_its_record(td.kind, i),
    ensures
        validate_typedef_spec(td, vs, fx).scope.diags == vs.scope.diags.push(
            (
                "Recursive type definition: "@ + typedef_name_of(td.kind)@,
                td.span,
                Severity::Error,
                DiagnosticCode::RecursiveType,
            ),
        ),
{
    if let TypeDefKind::Record { name, fields, .. } = td.kind {
        assert(ty_mentions(fields@[i].ty, name.name@));
        assert(defines_itself(td.kind));
    }
}

/// Validating a `use`: the interface must exist (in this package), and
/// export each name.
pub open spec fn validate_use_spec(u: UseStatement, vs: VState, fx: Fixed) -> VState {
    let iname = u.path.interface.name@;
    if u.path.package is None && !fx.interfaces.contains_key(iname) {
        verr(
            vs,
            "Unknown interface in use statement: "@ + iname,
            u.span,
            DiagnosticCode::InvalidUse,
        )
    } else if fx.interfaces.contains_key(iname) {
        use_names_spec(u.names@, u.names@.len() as int, fx.interfaces[iname], iname, vs)
    } else {
        vs
    }
}

/// The errors for the first `k` names of a `use` that the interface does
/// not export.
pub open spec fn use_names_spec(
    names: Seq<crate::ast::UseName>,
    k: int,
    info: InterfaceInfo,
    iname: Seq<char>,
    vs: VState,
) -> VState
    decreases k,
{
    if k <= 0 || k > names.len() {
        vs
    } else {
        let prev = use_names_spec(names, k - 1, info, iname, vs);
        let n = names[k - 1].name;
        if !string_views(info.types@).contains(n.name@) && !string_views(info.functions@).contains(
            n.name@,
        ) {
            verr(
                prev,
                "Interface '"@ + iname + "' does not export '"@ + n.name@ + "'"@,
                n.span,
                DiagnosticCode::InvalidUse,
            )
        } else {
            prev
        }
    }
}

/// Validating a top-level `use`.
pub open spec fn validate_top_use_spec(u: TopLevelUse, vs: VState, fx: Fixed) -> VState {
    let iname = u.path.interface.name@;
    if u.path.package is None && !fx.interfaces.contains_key(iname) {
        verr(vs, "Unknown interface: "@ + iname, u.span, DiagnosticCode::InvalidUse)
    } else {
        vs
    }
}

/// Validating an `include`.
pub open spec fn validate_include_spec(i: IncludeStatement, vs: VState, fx: Fixed) -> VState {
    let n = i.path.interface.name@;
    if i.path.package is None && !fx.worlds.contains_key(n) && !fx.interfaces.contains_key(n) {
        verr(
            vs,
            "Unknown world or interface to include: "@ + n,
            i.span,
            DiagnosticCode::InvalidUse,
        )
    } else {
        vs
    }
}

/// Validating the first `k` items of an interface.
pub open spec fn iface_items_spec(items: Seq<InterfaceItem>, k: int, vs: VState, fx: Fixed) -> VState
    decreases k,
{
    if k <= 0 || k > items.len() {
        vs
    } else {
        let prev = iface_items_spec(items, k - 1, vs, fx);
        match items[k - 1] {
            InterfaceItem::TypeDef(td) => validate_typedef_spec(td, prev, fx),
            InterfaceItem::Func(f) => validate_func_spec(f, prev, fx),
            InterfaceItem::Use(u) => validate_use_spec(u, prev, fx),
        }
    }
}

/// Validating an import or export.
pub open spec fn validate_import_export_spec(ie: ImportExport, vs: VState, fx: Fixed) -> VState {
    match ie.kind {
        ImportExportKind::Path(p) => if p.package is None && !fx.interfaces.contains_key(
            p.interface.name@,
        ) {
            verr(
                vs,
                "Unknown interface: "@ + p.interface.name@,
                ie.span,
                DiagnosticCode::UnknownInterface,
            )
        } else {
            vs
        },
        ImportExportKind::Func(f) => validate_func_spec(f, vs, fx),
        ImportExportKind::Interface(items) => iface_items_spec(items@, items@.len() as int, vs, fx),
    }
}

/// Validating the first `k` items of a world.
pub open spec fn world_items_spec(items: Seq<WorldItem>, k: int, vs: VState, fx: Fixed) -> VState
    decreases k,
{
    if k <= 0 || k > items.len() {
        vs
    } else {
        let prev = world_items_spec(items, k - 1, vs, fx);
        match items[k - 1] {
            WorldItem::TypeDef(td) => validate_typedef_spec(td, prev, fx),
            WorldItem::Import(ie) => validate_import_export_spec(ie, prev, fx),
            WorldItem::Export(ie) => validate_import_export_spec(ie, prev, fx),
            WorldItem::Use(u) => validate_use_spec(u, prev, fx),
            WorldItem::Include(i) => validate_include_spec(i, prev, fx),
        }
    }
}

/// Validating an interface: its items with the interface as the current
/// scope.
pub open spec fn validate_interface_spec(iface: Interface, vs: VState, fx: Fixed) -> VState {
    let inner = VState { current_interface: Some(iface.name.name), ..vs };
    let v = iface_items_spec(iface.items@, iface.items@.len() as int, inner, fx);
    VState { current_interface: None, ..v }
}

/// Validating the first `k` items of a file.
pub open spec fn top_items_spec(items: Seq<TopLevelItem>, k: int, vs: VState, fx: Fixed) -> VState
    decreases k,
{
    if k <= 0 || k > items.len() {
        vs
    } else {
        let prev = top_items_spec(items, k - 1, vs, fx);
        match items[k - 1] {
            TopLevelItem::Interface(i) => validate_interface_spec(i, prev, fx),
            TopLevelItem::World(w) => world_items_spec(w.items@, w.items@.len() as int, prev, fx),
            TopLevelItem::Use(u) => validate_top_use_spec(u, prev, fx),
            TopLevelItem::NestedPackage(p) => verr(
                prev,
                "Nested packages are not supported (found '"@ + package_path_text(p.path) + "')"@,
                p.span,
                DiagnosticCode::NestedPackageUnsupported,
            ),
        }
    }
}



/// The state after a function's body, if it has one.
pub open spec fn after_func_body(f: Func, vs: VState, fx: Fixed) -> VState {
    match f.body {
        Some(b) => func_body(f, b@, vs, fx),
        None => vs,
    }
}

/// The state after a method's body, if it has one.
pub open spec fn after_method_body(f: Func, vs: VState, fx: Fixed) -> VState {
    match f.body {
        Some(b) => method_body(f, b@, vs, fx),
        None => vs,
    }
}

/// An optional body as statements.
pub open spec fn opt_body(body: Option<Vec<Statement>>) -> Option<Seq<Statement>> {
    match body {
        Some(b) => Some(b@),
        None => None,
    }
}

// ---------------------------------------------------------------------------
// Once out of range, always out of range
// ---------------------------------------------------------------------------

pub proof fn lemma_vparams_ok(ps: Seq<Param>, k: int, vs: VState, fx: Fixed)
    ensures
        vparams(ps, k, vs, fx).scope.ok == vs.scope.ok,
    decreases k,
{
    if k > 0 && k <= ps.len() {
        lemma_vparams_ok(ps, k - 1, vs, fx);
    }
}

proof fn lemma_grows_trans(a: Seq<DiagView>, b: Seq<DiagView>, c: Seq<DiagView>)
    requires
        crate::body_spec::grows(a, b),
        crate::body_spec::grows(b, c),
    ensures
        crate::body_spec::grows(a, c),
{
    assert forall|i: int| 0 <= i < a.len() implies #[trigger] c[i] == a[i] by {
        assert(c[i] == b[i]);
    }
}

proof fn lemma_gates_grow(gs: Seq<Gate>, k: int, span: Span, st: State)
    ensures
        crate::body_spec::grows(st.diags, gates_check(gs, k, span, st).diags),
    decreases k,
{
    if k > 0 && k <= gs.len() {
        lemma_gates_grow(gs, k - 1, span, st);
        let prev = gates_check(gs, k - 1, span, st);
        assert(crate::body_spec::grows(prev.diags, gate_check(gs[k - 1], span, prev).diags));
        lemma_grows_trans(st.diags, prev.diags, gate_check(gs[k - 1], span, prev).diags);
    }
}

proof fn lemma_func_stmts_grow(
    ss: Seq<Statement>,
    j: int,
    k: int,
    declared: Option<CheckedType>,
    span: Span,
    st: State,
    env: Env,
)
    requires
        0 <= j <= k <= ss.len(),
    ensures
        crate::body_spec::grows(
            func_stmts(ss, j, declared, span, st, env).1.diags,
            func_stmts(ss, k, declared, span, st, env).1.diags,
        ),
    decreases k - j,
{
    if j < k {
        lemma_func_stmts_grow(ss, j, k - 1, declared, span, st, env);
        let prev = func_stmts(ss, k - 1, declared, span, st, env);
        let next = func_stmts(ss, k, declared, span, st, env);
        match ss[k - 1] {
            Statement::Return(r) => match r {
                Some(e) => {
                    lemma_expr_ok(e, prev.1, env);
                },
                None => {},
            },
            Statement::Expr(e) => {
                lemma_expr_ok(e, prev.1, env);
                lemma_stmt_ok(ss[k - 1], prev.1, env);
            },
            _ => {
                lemma_stmt_ok(ss[k - 1], prev.1, env);
            },
        }
        assert(crate::body_spec::grows(prev.1.diags, next.1.diags));
        lemma_grows_trans(func_stmts(ss, j, declared, span, st, env).1.diags, prev.1.diags, next.1.diags);
    }
}

/// In a function that declares a result, a bare `return` is an error: the
/// function's diagnostics include "Missing return value" at its name, with
/// code `TypeMismatch`, wherever the `return` stands in the body.
pub proof fn bare_return_in_valued_function_is_reported(f: Func, i: int, vs: VState, fx: Fixed)
    requires
        f.result is Some,
        f.body is Some,
        0 <= i < f.body->Some_0@.len(),
        f.body->Some_0@[i] == Statement::Return(None),
    ensures
        validate_func_spec(f, vs, fx).scope.diags.contains(
            ("Missing return value"@, f.name.span, Severity::Error, DiagnosticCode::TypeMismatch),
        ),
{
    let target = ("Missing return value"@, f.name.span, Severity::Error, DiagnosticCode::TypeMismatch);
    let b = f.body->Some_0@;
    let v1 = vparams(f.params@, f.params@.len() as int, vs, fx);
    let v2 = if has_constraint(f.params@) && !(f.result matches Some(t) && t is Result) {
        verr(
            v1,
            "Function '"@ + f.name.name@ + "' with parameter constraints must return result"@,
            f.name.span,
            DiagnosticCode::ConstraintViolation,
        )
    } else {
        v1
    };
    let v3 = match f.result {
        Some(t) => vtype(v2, t, fx),
        None => v2,
    };
    let declared = declared_of(f.result);
    let inner = VState { in_test: has_test_gate(f.gates@), return_type: declared, ..v3 };
    let locals = param_locals(
        import_locals(Seq::empty(), fx.imported, fx.imported.len() as int),
        f.params@,
        f.params@.len() as int,
    );
    let st0 = State { locals, constants: Map::empty(), ..v3.scope };
    let env = env_of(fx, inner);
    let at = func_stmts(b, i + 1, declared, f.name.span, st0, env);
    let before = func_stmts(b, i, declared, f.name.span, st0, env);
    assert(at.1.diags == before.1.diags.push(target));
    let p = before.1.diags.len() as int;
    assert(at.1.diags[p] == target);
    lemma_func_stmts_grow(b, i + 1, b.len() as int, declared, f.name.span, st0, env);
    let r = func_stmts(b, b.len() as int, declared, f.name.span, st0, env);
    assert(r.1.diags[p] == target);
    let v4 = func_body(f, b, v3, fx);
    assert(v4.scope.diags[p] == target);
    lemma_gates_grow(f.gates@, f.gates@.len() as int, f.name.span, v4.scope);
    let fin = validate_func_spec(f, vs, fx);
    assert(fin.scope.diags[p] == target);
}

pub proof fn lemma_gates_ok(gs: Seq<Gate>, k: int, span: Span, st: State)
    ensures
        gates_check(gs, k, span, st).ok == st.ok,
    decreases k,
{
    if k > 0 && k <= gs.len() {
        lemma_gates_ok(gs, k - 1, span, st);
    }
}

pub proof fn lemma_func_stmts_ok(
    ss: Seq<Statement>,
    k: int,
    declared: Option<CheckedType>,
    span: Span,
    st: State,
    env: Env,
)
    ensures
        func_stmts(ss, k, declared, span, st, env).1.ok ==> st.ok,
    decreases k,
{
    if k > 0 && k <= ss.len() {
        lemma_func_stmts_ok(ss, k - 1, declared, span, st, env);
        let prev = func_stmts(ss, k - 1, declared, span, st, env);
        match ss[k - 1] {
            Statement::Return(r) => match r {
                Some(e) => {
                    lemma_expr_ok(e, prev.1, env);
                },
                None => {},
            },
            Statement::Expr(e) => {
                lemma_expr_ok(e, prev.1, env);
                lemma_stmt_ok(ss[k - 1], prev.1, env);
            },
            _ => {
                lemma_stmt_ok(ss[k - 1], prev.1, env);
            },
        }
    }
}

pub proof fn lemma_validate_func_ok(f: Func, vs: VState, fx: Fixed)
    ensures
        validate_func_spec(f, vs, fx).scope.ok ==> vs.scope.ok,
{
    lemma_vparams_ok(f.params@, f.params@.len() as int, vs, fx);
    let v1 = vparams(f.params@, f.params@.len() as int, vs, fx);
    let v2 = if has_constraint(f.params@) && !(f.result matches Some(t) && t is Result) {
        verr(
            v1,
            "Function '"@ + f.name.name@ + "' with parameter constraints must return result"@,
            f.name.span,
            DiagnosticCode::ConstraintViolation,
        )
    } else {
        v1
    };
    let v3 = match f.result {
        Some(t) => vtype(v2, t, fx),
        None => v2,
    };
    match f.body {
        Some(b) => {
            let declared = declared_of(f.result);
            let inner = VState { in_test: has_test_gate(f.gates@), return_type: declared, ..v3 };
            let locals = param_locals(
                import_locals(Seq::empty(), fx.imported, fx.imported.len() as int),
                f.params@,
                f.params@.len() as int,
            );
            let st0 = State { locals, constants: Map::empty(), ..v3.scope };
            lemma_func_stmts_ok(b@, b@.len() as int, declared, f.name.span, st0, env_of(fx, inner));
        },
        None => {},
    }
    let v4 = match f.body {
        Some(b) => func_body(f, b@, v3, fx),
        None => v3,
    };
    lemma_gates_ok(f.gates@, f.gates@.len() as int, f.name.span, v4.scope);
}

pub proof fn lemma_validate_method_ok(f: Func, vs: VState, fx: Fixed)
    ensures
        validate_method_spec(f, vs, fx).scope.ok ==> vs.scope.ok,
{
    lemma_vparams_ok(f.params@, f.params@.len() as int, vs, fx);
    let v1 = vparams(f.params@, f.params@.len() as int, vs, fx);
    let v3 = match f.result {
        Some(t) => vtype(v1, t, fx),
        None => v1,
    };
    match f.body {
        Some(b) => {
            let body = b@;
            let declared = declared_of(f.result);
            let inner = VState { in_test: has_test_gate(f.gates@), return_type: declared, ..v3 };
            let env = env_of(fx, inner);
            let locals = param_locals(
                insert_entries(
                    import_locals(Seq::empty(), fx.imported, fx.imported.len() as int),
                    fx.self_key,
                    CheckedType::I32,
                ),
                f.params@,
                f.params@.len() as int,
            );
            let st0 = State { locals, ..v3.scope };
            lemma_block_ok(body, body.len() as int, st0, env);
            let s1 = block_check(body, body.len() as int, st0, env);
            if body.len() > 0 {
                match body.last() {
                    Statement::Return(r) => match r {
                        Some(e) => {
                            lemma_expr_ok(e, s1, env);
                        },
                        None => {},
                    },
                    _ => {},
                }
            }
        },
        None => {},
    }
    let v4 = match f.body {
        Some(b) => method_body(f, b@, v3, fx),
        None => v3,
    };
    lemma_gates_ok(f.gates@, f.gates@.len() as int, f.name.span, v4.scope);
}

pub proof fn lemma_constructor_ok(
    params: Seq<Param>,
    result: Option<Ty>,
    body: Option<Seq<Statement>>,
    vs: VState,
    fx: Fixed,
)
    ensures
        constructor_spec(params, result, body, vs, fx).scope.ok ==> vs.scope.ok,
{
    lemma_vparams_ok(params, params.len() as int, vs, fx);
    let v1 = vparams(params, params.len() as int, vs, fx);
    let v2 = match result {
        Some(t) => vtype(v1, t, fx),
        None => v1,
    };
    match body {
        Some(b) => {
            let st0 = State {
                locals: param_locals(Seq::empty(), params, params.len() as int),
                ..v2.scope
            };
            lemma_block_ok(b, b.len() as int, st0, env_of(fx, v2));
        },
        None => {},
    }
}

pub proof fn lemma_methods_ok(ms: Seq<ResourceMethod>, k: int, vs: VState, fx: Fixed)
    ensures
        methods_spec(ms, k, vs, fx).scope.ok ==> vs.scope.ok,
    decreases k,
{
    if k > 0 && k <= ms.len() {
        lemma_methods_ok(ms, k - 1, vs, fx);
        let prev = methods_spec(ms, k - 1, vs, fx);
        match ms[k - 1] {
            ResourceMethod::Method(f) => lemma_validate_method_ok(f, prev, fx),
            ResourceMethod::Static(f) => lemma_validate_func_ok(f, prev, fx),
            ResourceMethod::Constructor { params, result, body, .. } => lemma_constructor_ok(
                params@,
                result,
                match body {
                    Some(b) => Some(b@),
                    None => None,
                },
                prev,
                fx,
            ),
        }
    }
}

pub proof fn lemma_field_types_ok(fs: Seq<Field>, k: int, vs: VState, fx: Fixed)
    ensures
        field_types(fs, k, vs, fx).scope.ok == vs.scope.ok,
    decreases k,
{
    if k > 0 && k <= fs.len() {
        lemma_field_types_ok(fs, k - 1, vs, fx);
    }
}

pub proof fn lemma_case_types_ok(cs: Seq<Case>, k: int, vs: VState, fx: Fixed)
    ensures
        case_types(cs, k, vs, fx).scope.ok == vs.scope.ok,
    decreases k,
{
    if k > 0 && k <= cs.len() {
        lemma_case_types_ok(cs, k - 1, vs, fx);
    }
}

pub proof fn lemma_validate_typedef_ok(td: TypeDef, vs: VState, fx: Fixed)
    ensures
        validate_typedef_spec(td, vs, fx).scope.ok ==> vs.scope.ok,
{
    let name = typedef_name_of(td.kind);
    if !string_views(vs.resolving).contains(name@) && !defines_itself(td.kind) {
        let tps = type_params_of(td.kind);
        let v1 = VState {
            resolving: set_add(vs.resolving, name),
            type_params: add_all(vs.type_params, tps, tps.len() as int),
            ..vs
        };
        match td.kind {
            TypeDefKind::Record { fields, .. } => lemma_field_types_ok(
                fields@,
                fields@.len() as int,
                v1,
                fx,
            ),
            TypeDefKind::Variant { cases, .. } => lemma_case_types_ok(
                cases@,
                cases@.len() as int,
                v1,
                fx,
            ),
            TypeDefKind::Resource { methods, .. } => lemma_methods_ok(
                methods@,
                methods@.len() as int,
                v1,
                fx,
            ),
            _ => {},
        }
    }
}

pub proof fn lemma_use_names_ok(
    names: Seq<crate::ast::UseName>,
    k: int,
    info: InterfaceInfo,
    iname: Seq<char>,
    vs: VState,
)
    ensures
        use_names_spec(names, k, info, iname, vs).scope.ok == vs.scope.ok,
    decreases k,
{
    if k > 0 && k <= names.len() {
        lemma_use_names_ok(names, k - 1, info, iname, vs);
    }
}

pub proof fn lemma_validate_use_ok(u: UseStatement, vs: VState, fx: Fixed)
    ensures
        validate_use_spec(u, vs, fx).scope.ok == vs.scope.ok,
{
    let iname = u.path.interface.name@;
    if fx.interfaces.contains_key(iname) {
        lemma_use_names_ok(u.names@, u.names@.len() as int, fx.interfaces[iname], iname, vs);
    }
}

pub proof fn lemma_iface_items_ok(items: Seq<InterfaceItem>, k: int, vs: VState, fx: Fixed)
    ensures
        iface_items_spec(items, k, vs, fx).scope.ok ==> vs.scope.ok,
    decreases k,
{
    if k > 0 && k <= items.len() {
        lemma_iface_items_ok(items, k - 1, vs, fx);
        let prev = iface_items_spec(items, k - 1, vs, fx);
        match items[k - 1] {
            InterfaceItem::TypeDef(td) => lemma_validate_typedef_ok(td, prev, fx),
            InterfaceItem::Func(f) => lemma_validate_func_ok(f, prev, fx),
            InterfaceItem::Use(u) => lemma_validate_use_ok(u, prev, fx),
        }
    }
}

pub proof fn lemma_import_export_ok(ie: ImportExport, vs: VState, fx: Fixed)
    ensures
        validate_import_export_spec(ie, vs, fx).scope.ok ==> vs.scope.ok,
{
    match ie.kind {
        ImportExportKind::Func(f) => lemma_validate_func_ok(f, vs, fx),
        ImportExportKind::Interface(items) => lemma_iface_items_ok(
            items@,
            items@.len() as int,
            vs,
            fx,
        ),
        _ => {},
    }
}

pub proof fn lemma_world_items_ok(items: Seq<WorldItem>, k: int, vs: VState, fx: Fixed)
    ensures
        world_items_spec(items, k, vs, fx).scope.ok ==> vs.scope.ok,
    decreases k,
{
    if k > 0 && k <= items.len() {
        lemma_world_items_ok(items, k - 1, vs, fx);
        let prev = world_items_spec(items, k - 1, vs, fx);
        match items[k - 1] {
            WorldItem::TypeDef(td) => lemma_validate_typedef_ok(td, prev, fx),
            WorldItem::Import(ie) => lemma_import_export_ok(ie, prev, fx),
            WorldItem::Export(ie) => lemma_import_export_ok(ie, prev, fx),
            WorldItem::Use(u) => lemma_validate_use_ok(u, prev, fx),
            WorldItem::Include(_) => {},
        }
    }
}

pub proof fn lemma_top_items_ok(items: Seq<TopLevelItem>, k: int, vs: VState, fx: Fixed)
    ensures
        top_items_spec(items, k, vs, fx).scope.ok ==> vs.scope.ok,
    decreases k,
{
    if k > 0 && k <= items.len() {
        lemma_top_items_ok(items, k - 1, vs, fx);
        let prev = top_items_spec(items, k - 1, vs, fx);
        match items[k - 1] {
            TopLevelItem::Interface(i) => {
                lemma_iface_items_ok(
                    i.items@,
                    i.items@.len() as int,
                    VState { current_interface: Some(i.name.name), ..prev },
                    fx,
                );
            },
            TopLevelItem::World(w) => lemma_world_items_ok(w.items@, w.items@.len() as int, prev, fx),
            _ => {},
        }
    }
}


// ---------------------------------------------------------------------------
// Collecting definitions
// ---------------------------------------------------------------------------

/// What collecting definitions decides: the keys of the defined types, the
/// names of the interfaces and worlds, the interfaces that worlds import,
/// and the diagnostics for duplicates.
pub struct CKeys {
    pub types: Set<(Option<Seq<char>>, Seq<char>)>,
    pub interfaces: Set<Seq<char>>,
    pub worlds: Set<Seq<char>>,
    pub imported: Seq<String>,
    pub diags: Seq<crate::call_check::DiagView>,
}

/// Adds an error to the collected diagnostics.
pub open spec fn cerr(ck: CKeys, msg: Seq<char>, span: Span) -> CKeys {
    CKeys {
        diags: ck.diags.push((msg, span, Severity::Error, DiagnosticCode::DuplicateDefinition)),
        ..ck
    }
}

/// Collecting a type definition in `iface` (none for a world): a second
/// definition of a key is an error.
pub open spec fn collect_typedef_spec(td: TypeDef, iface: Option<Seq<char>>, ck: CKeys) -> CKeys {
    let name = typedef_name_of(td.kind)@;
    if ck.types.contains((iface, name)) {
        cerr(ck, "Duplicate type definition: "@ + name, td.span)
    } else {
        CKeys { types: ck.types.insert((iface, name)), ..ck }
    }
}

/// Collecting the type definitions among the first `k` items of an
/// interface.
pub open spec fn collect_iface_items_spec(items: Seq<InterfaceItem>, k: int, iface: Seq<char>, ck: CKeys) -> CKeys
    decreases k,
{
    if k <= 0 || k > items.len() {
        ck
    } else {
        let prev = collect_iface_items_spec(items, k - 1, iface, ck);
        match items[k - 1] {
            InterfaceItem::TypeDef(td) => collect_typedef_spec(td, Some(iface), prev),
            _ => prev,
        }
    }
}

/// The type names an interface defines, among its first `k` items.
pub open spec fn iface_type_names(items: Seq<InterfaceItem>, k: int) -> Seq<String>
    decreases k,
{
    if k <= 0 || k > items.len() {
        Seq::empty()
    } else {
        let prev = iface_type_names(items, k - 1);
        match items[k - 1] {
            InterfaceItem::TypeDef(td) => prev.push(typedef_name_of(td.kind)),
            _ => prev,
        }
    }
}

/// The function names an interface defines, among its first `k` items.
pub open spec fn iface_func_names(items: Seq<InterfaceItem>, k: int) -> Seq<String>
    decreases k,
{
    if k <= 0 || k > items.len() {
        Seq::empty()
    } else {
        let prev = iface_func_names(items, k - 1);
        match items[k - 1] {
            InterfaceItem::Func(f) => prev.push(f.name.name),
            _ => prev,
        }
    }
}

/// Collecting an interface: a second interface of the same name is an
/// error; otherwise its type definitions are collected and its name
/// recorded.
pub open spec fn collect_interface_spec(iface: Interface, ck: CKeys) -> CKeys {
    let name = iface.name.name@;
    if ck.interfaces.contains(name) {
        cerr(ck, "Duplicate interface definition: "@ + name, iface.span)
    } else {
        let c1 = collect_iface_items_spec(iface.items@, iface.items@.len() as int, name, ck);
        CKeys { interfaces: c1.interfaces.insert(name), ..c1 }
    }
}

/// Collecting the first `k` items of a world: its type definitions, and
/// the interfaces its path imports bring in.
pub open spec fn collect_world_items_spec(items: Seq<WorldItem>, k: int, ck: CKeys) -> CKeys
    decreases k,
{
    if k <= 0 || k > items.len() {
        ck
    } else {
        let prev = collect_world_items_spec(items, k - 1, ck);
        match items[k - 1] {
            WorldItem::Import(ie) => match ie.kind {
                ImportExportKind::Path(p) => CKeys {
                    imported: set_add(prev.imported, p.interface.name),
                    ..prev
                },
                _ => prev,
            },
            WorldItem::TypeDef(td) => collect_typedef_spec(td, None, prev),
            _ => prev,
        }
    }
}

/// The names a world imports, among its first `k` items.
pub open spec fn world_import_names(items: Seq<WorldItem>, k: int) -> Seq<String>
    decreases k,
{
    if k <= 0 || k > items.len() {
        Seq::empty()
    } else {
        let prev = world_import_names(items, k - 1);
        match items[k - 1] {
            WorldItem::Import(ie) => match ie.kind {
                ImportExportKind::Path(p) => prev.push(p.interface.name),
                _ => match ie.name {
                    Some(n) => prev.push(n.name),
                    None => prev,
                },
            },
            _ => prev,
        }
    }
}

/// The names a world exports, among its first `k` items.
pub open spec fn world_export_names(items: Seq<WorldItem>, k: int) -> Seq<String>
    decreases k,
{
    if k <= 0 || k > items.len() {
        Seq::empty()
    } else {
        let prev = world_export_names(items, k - 1);
        match items[k - 1] {
            WorldItem::Export(ie) => match ie.name {
                Some(n) => prev.push(n.name),
                None => prev,
            },
            _ => prev,
        }
    }
}

/// Collecting a world: a second world of the same name is an error;
/// otherwise its items are collected and its name recorded.
pub open spec fn collect_world_spec(w: World, ck: CKeys) -> CKeys {
    let name = w.name.name@;
    if ck.worlds.contains(name) {
        cerr(ck, "Duplicate world definition: "@ + name, w.span)
    } else {
        let c1 = collect_world_items_spec(w.items@, w.items@.len() as int, ck);
        CKeys { worlds: c1.worlds.insert(name), ..c1 }
    }
}

/// Collecting the first `k` items of a file.
pub open spec fn collect_items_spec(items: Seq<TopLevelItem>, k: int, ck: CKeys) -> CKeys
    decreases k,
{
    if k <= 0 || k > items.len() {
        ck
    } else {
        let prev = collect_items_spec(items, k - 1, ck);
        match items[k - 1] {
            TopLevelItem::Interface(i) => collect_interface_spec(i, prev),
            TopLevelItem::World(w) => collect_world_spec(w, prev),
            _ => prev,
        }
    }
}

/// The built-in type names, which are always defined.
pub open spec fn builtin_key(name: Seq<char>) -> bool {
    ||| name == "bool"@
    ||| name == "s8"@
    ||| name == "s16"@
    ||| name == "s32"@
    ||| name == "s64"@
    ||| name == "u8"@
    ||| name == "u16"@
    ||| name == "u32"@
    ||| name == "u64"@
    ||| name == "f32"@
    ||| name == "f64"@
    ||| name == "char"@
    ||| name == "string"@
    ||| name == "list"@
    ||| name == "option"@
    ||| name == "result"@
}

/// Collecting a file's definitions: its interfaces and worlds, then the
/// built-in types that it does not define itself.
pub open spec fn collect_definitions_spec(items: Seq<TopLevelItem>, ck: CKeys) -> CKeys {
    let c1 = collect_items_spec(items, items.len() as int, ck);
    CKeys {
        types: c1.types.union(Set::new(|k: (Option<Seq<char>>, Seq<char>)| k.0 is None && builtin_key(k.1))),
        ..c1
    }
}

} // verus!
