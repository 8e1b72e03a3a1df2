use kettu::ast::{
    MatchArm, Pattern,
    Case, Expr, Field, Func, Gate, ImportExport, ImportExportKind, Interface, InterfaceItem,
    NestedPackage, Param, Statement, TopLevelItem, TypeDef, TypeDefKind, UsePath, Version, WitFile,
    World, WorldItem,
};
use kettu::collect::{check, check_package, check_with_source};
use kettu::constraints::BinOp;
use kettu::diagnostics::{Diagnostic, DiagnosticCode, Severity, Span};
use kettu::package_path::{PackagePath, PackageVersion};
use kettu::types::{Id, PrimitiveTy, Ty};

fn sp(start: usize, end: usize) -> Span {
    Span { start, end }
}

fn id(name: &str) -> Id {
    Id { name: name.to_string(), span: sp(0, 0) }
}

fn id_at(name: &str, start: usize) -> Id {
    Id { name: name.to_string(), span: sp(start, start + name.len()) }
}

fn s32() -> Ty {
    Ty::Primitive(PrimitiveTy::S32)
}

fn prim(p: PrimitiveTy) -> Ty {
    Ty::Primitive(p)
}

fn result_ty(ok: Ty, err: Ty) -> Ty {
    Ty::Result { ok: Some(Box::new(ok)), err: Some(Box::new(err)) }
}

fn param(name: &str, ty: Ty) -> Param {
    Param { name: id(name), ty, constraint: None }
}

fn param_where(name: &str, ty: Ty, constraint: Expr) -> Param {
    Param { name: id(name), ty, constraint: Some(constraint) }
}

fn func(name: &str, params: Vec<Param>, result: Option<Ty>, body: Option<Vec<Statement>>) -> Func {
    Func { name: id(name), params, result, gates: vec![], body, span: sp(0, 0) }
}

fn num(n: i64) -> Expr {
    Expr::Integer(n, sp(0, 0))
}

fn boolean(b: bool) -> Expr {
    Expr::Bool(b, sp(0, 0))
}

fn var(name: &str) -> Expr {
    Expr::Ident(id(name))
}

fn bin(lhs: Expr, op: BinOp, rhs: Expr) -> Expr {
    Expr::Binary { lhs: Box::new(lhs), op, rhs: Box::new(rhs), span: sp(0, 0) }
}

fn call(name: &str, args: Vec<Expr>) -> Expr {
    Expr::Call { func: Box::new(var(name)), args, span: sp(0, 0) }
}

fn variant(ty_name: &str, case_name: &str, payload: Option<Expr>) -> Expr {
    Expr::VariantLiteral {
        ty_name: Some(id(ty_name)),
        case_name: id(case_name),
        payload: payload.map(Box::new),
        span: sp(0, 0),
    }
}

fn ok_true() -> Expr {
    variant("result", "ok", Some(boolean(true)))
}

fn let_(name: &str, value: Expr) -> Statement {
    Statement::Let { name: id(name), value }
}

fn ret(e: Expr) -> Statement {
    Statement::Return(Some(e))
}

fn stmt(e: Expr) -> Statement {
    Statement::Expr(e)
}

fn iface(name: &str, items: Vec<InterfaceItem>) -> TopLevelItem {
    TopLevelItem::Interface(Interface { name: id(name), items, span: sp(0, 0) })
}

fn file(items: Vec<TopLevelItem>) -> WitFile {
    WitFile { items }
}

fn errors(diags: &[Diagnostic]) -> Vec<&Diagnostic> {
    diags.iter().filter(|d| d.severity == Severity::Error).collect()
}

fn record(name: &str, fields: Vec<(&str, Ty)>) -> InterfaceItem {
    InterfaceItem::TypeDef(TypeDef {
        kind: TypeDefKind::Record {
            name: id(name),
            type_params: vec![],
            fields: fields.into_iter().map(|(n, t)| Field { name: id(n), ty: t }).collect(),
        },
        span: sp(0, 0),
    })
}

fn variant_def(name: &str, cases: Vec<(&str, Option<Ty>)>) -> InterfaceItem {
    InterfaceItem::TypeDef(TypeDef {
        kind: TypeDefKind::Variant {
            name: id(name),
            type_params: vec![],
            cases: cases.into_iter().map(|(n, t)| Case { name: id(n), ty: t }).collect(),
        },
        span: sp(0, 0),
    })
}

/// `bounded: func(small: s32, big: s32 where big > small) -> result<bool, string>`
fn bounded() -> InterfaceItem {
    InterfaceItem::Func(func(
        "bounded",
        vec![
            param("small", s32()),
            param_where("big", s32(), bin(var("big"), BinOp::Gt, var("small"))),
        ],
        Some(result_ty(prim(PrimitiveTy::Bool), prim(PrimitiveTy::String))),
        Some(vec![stmt(ok_true())]),
    ))
}

fn test_gate(f: Func) -> Func {
    Func { gates: vec![Gate::Test], ..f }
}

#[test]
fn test_unknown_type_error() {
    let ast = file(vec![iface(
        "foo",
        vec![InterfaceItem::Func(func(
            "bar",
            vec![param("x", Ty::Named(id("unknown-type")))],
            None,
            None,
        ))],
    )]);
    let diags = check(&ast);
    assert!(!diags.is_empty(), "Should have diagnostics");
    assert_eq!(diags[0].code, DiagnosticCode::UnknownType);
}

#[test]
fn test_valid_types() {
    let ast = file(vec![iface(
        "foo",
        vec![
            record("my-record", vec![("x", prim(PrimitiveTy::U32))]),
            InterfaceItem::Func(func(
                "bar",
                vec![param("x", Ty::Named(id("my-record")))],
                Some(prim(PrimitiveTy::String)),
                None,
            )),
        ],
    )]);
    let diags = check(&ast);
    assert!(diags.is_empty(), "Should have no errors: {:?}", diags);
}

#[test]
fn test_duplicate_type() {
    let ast = file(vec![iface(
        "foo",
        vec![
            record("bar", vec![("x", prim(PrimitiveTy::U32))]),
            record("bar", vec![("y", prim(PrimitiveTy::U32))]),
        ],
    )]);
    let diags = check(&ast);
    assert!(!diags.is_empty(), "Should have duplicate error");
    assert_eq!(diags[0].code, DiagnosticCode::DuplicateDefinition);
}

#[test]
fn test_nested_packages_reported() {
    let root = file(vec![TopLevelItem::NestedPackage(NestedPackage {
        path: PackagePath {
            namespace: vec!["nested".to_string()],
            name: vec!["demo".to_string()],
            version: Some(PackageVersion { major: 1, minor: 2, patch: 3, prerelease: None }),
        },
        span: sp(0, 1),
    })]);
    let diags = check(&root);
    let errors = errors(&diags);
    assert!(
        errors.iter().any(|d| d.code == DiagnosticCode::NestedPackageUnsupported),
        "Should flag nested packages as unsupported: {:?}",
        errors
    );
}

#[test]
fn test_unknown_variable() {
    let ast = file(vec![iface(
        "ops",
        vec![InterfaceItem::Func(func(
            "compute",
            vec![param("x", s32())],
            Some(s32()),
            Some(vec![ret(var("y"))]),
        ))],
    )]);
    let diags = check(&ast);
    assert!(!diags.is_empty(), "Should have unknown variable error");
    assert_eq!(diags[0].code, DiagnosticCode::UnknownVariable);
}

#[test]
fn test_valid_expression() {
    let ast = file(vec![iface(
        "ops",
        vec![InterfaceItem::Func(func(
            "compute",
            vec![param("x", s32())],
            Some(s32()),
            Some(vec![let_("y", bin(var("x"), BinOp::Add, num(1))), ret(var("y"))]),
        ))],
    )]);
    let diags = check(&ast);
    let errors = errors(&diags);
    assert!(errors.is_empty(), "Should have no errors: {:?}", errors);
}

#[test]
fn test_deprecated_function() {
    let old = Func {
        gates: vec![Gate::Deprecated { version: Version { major: 2, minor: 0, patch: 0 } }],
        ..func("old-func", vec![], None, None)
    };
    let ast = file(vec![iface("versioned", vec![InterfaceItem::Func(old)])]);
    let diags = check(&ast);
    let warnings: Vec<_> = diags.iter().filter(|d| d.severity == Severity::Warning).collect();
    assert!(!warnings.is_empty(), "Should have deprecation warning");
    assert_eq!(warnings[0].code, DiagnosticCode::DeprecatedFeature);
}

#[test]
fn test_return_type_mismatch() {
    let ast = file(vec![iface(
        "foo",
        vec![InterfaceItem::Func(func("bar", vec![], Some(s32()), Some(vec![ret(boolean(true))])))],
    )]);
    let diags = check(&ast);
    let errors = errors(&diags);
    assert!(!errors.is_empty(), "Should have type mismatch error");
    assert!(errors[0].message.contains("mismatch"), "Error should mention mismatch: {}", errors[0].message);
}

fn my_result() -> InterfaceItem {
    variant_def("my-result", vec![("ok", Some(s32())), ("err", Some(prim(PrimitiveTy::String)))])
}

#[test]
fn test_qualified_variant_literal_valid() {
    let ast = file(vec![iface(
        "foo",
        vec![
            my_result(),
            InterfaceItem::Func(func(
                "bar",
                vec![],
                None,
                Some(vec![let_("v", variant("my-result", "ok", Some(num(42))))]),
            )),
        ],
    )]);
    let diags = check(&ast);
    let errors = errors(&diags);
    assert!(errors.is_empty(), "Should have no errors: {:?}", errors);
}

#[test]
fn test_qualified_variant_literal_unknown_case() {
    let ast = file(vec![iface(
        "foo",
        vec![
            my_result(),
            InterfaceItem::Func(func(
                "bar",
                vec![],
                None,
                Some(vec![let_("v", variant("my-result", "nope", Some(num(42))))]),
            )),
        ],
    )]);
    let diags = check(&ast);
    let errors = errors(&diags);
    assert!(!errors.is_empty(), "Should have a variant case error");
    assert!(
        errors.iter().any(|d| d.message.contains("Unknown case 'nope' in variant type 'my-result'")),
        "Should report unknown qualified variant case: {:?}",
        errors
    );
}

#[test]
fn test_qualified_variant_literal_unknown_type() {
    let ast = file(vec![iface(
        "foo",
        vec![InterfaceItem::Func(func(
            "bar",
            vec![],
            None,
            Some(vec![let_("v", variant("missing-type", "ok", Some(num(42))))]),
        ))],
    )]);
    let diags = check(&ast);
    let errors = errors(&diags);
    assert!(!errors.is_empty(), "Should have unknown type error");
    assert!(
        errors.iter().any(|d| d.message.contains("Unknown type: missing-type")),
        "Should report unknown qualified variant type: {:?}",
        errors
    );
}

#[test]
fn test_qualified_variant_literal_missing_required_payload() {
    let ast = file(vec![iface(
        "foo",
        vec![
            my_result(),
            InterfaceItem::Func(func("bar", vec![], None, Some(vec![let_("v", variant("my-result", "ok", None))]))),
        ],
    )]);
    let diags = check(&ast);
    let errors = errors(&diags);
    assert!(!errors.is_empty(), "Should have payload arity error");
    assert!(
        errors.iter().any(|d| d.message.contains("Case 'my-result#ok' requires a payload")),
        "Should report missing payload for qualified variant case: {:?}",
        errors
    );
}

#[test]
fn test_qualified_variant_literal_rejects_unexpected_payload() {
    let ast = file(vec![iface(
        "foo",
        vec![
            variant_def("switch", vec![("on", None), ("off", None)]),
            InterfaceItem::Func(func(
                "bar",
                vec![],
                None,
                Some(vec![let_("v", variant("switch", "on", Some(num(1))))]),
            )),
        ],
    )]);
    let diags = check(&ast);
    let errors = errors(&diags);
    assert!(!errors.is_empty(), "Should have payload arity error");
    assert!(
        errors.iter().any(|d| d.message.contains("Case 'switch#on' does not accept a payload")),
        "Should report unexpected payload for qualified variant case: {:?}",
        errors
    );
}

fn if_expr(then_value: Expr, else_value: Expr) -> Expr {
    Expr::If {
        cond: Box::new(boolean(true)),
        then_branch: vec![stmt(then_value)],
        else_branch: Some(vec![stmt(else_value)]),
        span: sp(0, 0),
    }
}

fn conditionals(name: &str, result: Ty, body: Expr) -> WitFile {
    file(vec![iface(
        "conditionals",
        vec![InterfaceItem::Func(func(name, vec![], Some(result), Some(vec![ret(body)])))],
    )])
}

#[test]
fn test_if_expression_return_type_mismatch_detected() {
    let ast = conditionals("bad", prim(PrimitiveTy::String), if_expr(boolean(false), boolean(true)));
    let diags = check(&ast);
    let errors = errors(&diags);
    assert!(!errors.is_empty(), "Should have type mismatch error");
    assert!(
        errors.iter().any(|d| d.message.contains("Return type mismatch")),
        "Should report return type mismatch for if expression: {:?}",
        errors
    );
}

#[test]
fn test_if_expression_return_type_matches_declared_type() {
    let ast = conditionals("ok", prim(PrimitiveTy::Bool), if_expr(boolean(false), boolean(true)));
    let diags = check(&ast);
    let errors = errors(&diags);
    assert!(errors.is_empty(), "Should have no errors: {:?}", errors);
}

#[test]
fn test_if_expression_branch_type_mismatch_diagnostic() {
    let ast = conditionals("bad", prim(PrimitiveTy::Bool), if_expr(boolean(false), num(1)));
    let diags = check(&ast);
    let errors = errors(&diags);
    assert!(!errors.is_empty(), "Should have if branch mismatch error");
    assert!(
        errors.iter().any(|d| d.message.contains("If branch type mismatch")),
        "Should report if branch type mismatch: {:?}",
        errors
    );
}

#[test]
fn test_if_expression_branch_types_match_no_branch_error() {
    let ast = conditionals("ok", prim(PrimitiveTy::Bool), if_expr(boolean(false), boolean(true)));
    let diags = check(&ast);
    assert!(
        !diags.iter().any(|d| d.message.contains("If branch type mismatch")),
        "Should not have branch mismatch errors"
    );
}

fn effects(f: Func) -> WitFile {
    file(vec![iface("effects", vec![InterfaceItem::Func(f)])])
}

#[test]
fn test_guard_statement_type_checks() {
    let ast = effects(func(
        "classify",
        vec![param("flag", prim(PrimitiveTy::Bool))],
        Some(s32()),
        Some(vec![
            Statement::Guard { condition: var("flag"), else_body: vec![ret(num(0))] },
            stmt(num(1)),
        ]),
    ));
    let diags = check(&ast);
    let errors = errors(&diags);
    assert!(errors.is_empty(), "guard should type-check: {:?}", errors);
}

#[test]
fn test_guard_statement_requires_bool_condition() {
    let ast = effects(func(
        "classify",
        vec![],
        Some(s32()),
        Some(vec![Statement::Guard { condition: num(42), else_body: vec![ret(num(0))] }, stmt(num(1))]),
    ));
    let diags = check(&ast);
    let errors = errors(&diags);
    assert!(!errors.is_empty(), "guard with non-bool condition should be rejected");
    assert!(
        errors.iter().any(|d| d.message.contains("Guard condition requires bool")),
        "expected guard condition error, got: {:?}",
        errors
    );
}

#[test]
fn test_guard_statement_requires_exiting_else_block() {
    let ast = effects(func(
        "classify",
        vec![param("flag", prim(PrimitiveTy::Bool))],
        Some(s32()),
        Some(vec![
            Statement::Guard { condition: var("flag"), else_body: vec![let_("fallback", num(0))] },
            stmt(num(1)),
        ]),
    ));
    let diags = check(&ast);
    let errors = errors(&diags);
    assert!(
        errors.iter().any(|d| d.message.contains("must exit the current scope")),
        "expected guard scope-exit error, got: {:?}",
        errors
    );
}

fn constrained_file(caller: Func) -> WitFile {
    file(vec![iface("test", vec![bounded(), InterfaceItem::Func(caller)])])
}

#[test]
fn test_constraint_violation_detected() {
    let ast = constrained_file(func(
        "caller",
        vec![],
        Some(prim(PrimitiveTy::Bool)),
        Some(vec![
            let_("big", num(10)),
            let_("small", num(20)),
            stmt(call("bounded", vec![var("small"), var("big")])),
            stmt(boolean(true)),
        ]),
    ));
    let diags = check(&ast);
    let errors = errors(&diags);
    assert!(
        errors.iter().any(|d| d.message.contains("does not satisfy the constraint")),
        "expected constraint violation error, got: {:?}",
        errors
    );
}

#[test]
fn test_constraint_satisfied_no_error() {
    let ast = constrained_file(func(
        "caller",
        vec![],
        Some(prim(PrimitiveTy::Bool)),
        Some(vec![
            let_("big", num(20)),
            let_("small", num(10)),
            stmt(call("bounded", vec![var("small"), var("big")])),
            stmt(boolean(true)),
        ]),
    ));
    let diags = check(&ast);
    let constraint_errors: Vec<_> =
        diags.iter().filter(|d| d.code == DiagnosticCode::ConstraintViolation).collect();
    assert!(constraint_errors.is_empty(), "expected no constraint errors, got: {:?}", constraint_errors);
}

#[test]
fn test_constraint_propagation_with_non_const_arg() {
    let ast = constrained_file(func(
        "caller",
        vec![param("x", s32())],
        Some(prim(PrimitiveTy::Bool)),
        Some(vec![
            let_("big", num(10)),
            stmt(call("bounded", vec![var("x"), var("big")])),
            stmt(boolean(true)),
        ]),
    ));
    let diags = check(&ast);
    let warnings: Vec<_> = diags
        .iter()
        .filter(|d| d.severity == Severity::Warning && d.code == DiagnosticCode::ConstraintPropagation)
        .collect();
    assert!(
        warnings.iter().any(|d| d.message.contains("may not satisfy")),
        "expected constraint propagation warning, got: {:?}",
        warnings
    );
}

#[test]
fn test_transitive_constraint_propagation() {
    let caller = func(
        "caller",
        vec![param("x", s32())],
        Some(result_ty(prim(PrimitiveTy::Bool), prim(PrimitiveTy::String))),
        Some(vec![let_("big", num(10)), stmt(call("bounded", vec![var("x"), var("big")])), stmt(ok_true())]),
    );
    let outer = func(
        "outer",
        vec![],
        Some(prim(PrimitiveTy::Bool)),
        Some(vec![let_("v", num(10)), stmt(call("caller", vec![var("v")])), stmt(boolean(true))]),
    );
    let ast = file(vec![iface(
        "test",
        vec![bounded(), InterfaceItem::Func(caller), InterfaceItem::Func(outer)],
    )]);
    let diags = check(&ast);
    let errors: Vec<_> = diags
        .iter()
        .filter(|d| d.severity == Severity::Error && d.code == DiagnosticCode::ConstraintViolation)
        .collect();
    assert!(
        errors.iter().any(|d| d.message.contains("via caller")),
        "expected transitive constraint violation with 'via caller', got: {:?}",
        errors
    );
}

#[test]
fn test_hush_comment_matching_exact_text() {
    let source = r#"
            package local:test;
            interface test {
                @test
                bounded: func(small: s32, big: s32 where big > small) -> result<bool, string> {
                    result#ok(true)
                }
                @test
                caller: func() -> bool {
                    let big = 10;
                    let small = 20;
                    bounded(small, big);
                    ///    ^ big does not satisfy the constraint "big (10) > small (20)" on bounded
                    true
                }
            }
        "#;
    let at = source.find("bounded(small, big)").unwrap();
    let call_expr = Expr::Call {
        func: Box::new(Expr::Ident(id_at("bounded", at))),
        args: vec![Expr::Ident(id_at("small", at + 8)), Expr::Ident(id_at("big", at + 15))],
        span: sp(at, at + 19),
    };
    let callee = match bounded() {
        InterfaceItem::Func(f) => test_gate(f),
        other => other_func(other),
    };
    let caller = test_gate(func(
        "caller",
        vec![],
        Some(prim(PrimitiveTy::Bool)),
        Some(vec![let_("big", num(10)), let_("small", num(20)), stmt(call_expr), stmt(boolean(true))]),
    ));
    let ast = file(vec![iface("test", vec![InterfaceItem::Func(callee), InterfaceItem::Func(caller)])]);
    let diags = check_with_source(&ast, source);
    let infos: Vec<_> = diags.iter().filter(|d| d.severity == Severity::Info).collect();
    let errors: Vec<_> = diags
        .iter()
        .filter(|d| d.severity == Severity::Error && d.code == DiagnosticCode::ConstraintViolation)
        .collect();
    assert!(!infos.is_empty(), "expected info diagnostic for hushed error, got diags: {:?}", diags);
    assert!(errors.is_empty(), "expected no error diagnostics for hushed error, got: {:?}", errors);
}

fn other_func(item: InterfaceItem) -> Func {
    match item {
        InterfaceItem::Func(f) => f,
        _ => func("none", vec![], None, None),
    }
}

#[test]
fn test_world_imports_unknown_interface() {
    let ast = file(vec![TopLevelItem::World(World {
        name: id("w"),
        items: vec![WorldItem::Import(ImportExport {
            name: None,
            kind: ImportExportKind::Path(UsePath { package: None, interface: id("missing") }),
            span: sp(0, 0),
        })],
        span: sp(0, 0),
    })]);
    let diags = check(&ast);
    assert!(
        diags.iter().any(|d| d.code == DiagnosticCode::UnknownInterface),
        "expected an unknown interface error, got: {:?}",
        diags
    );
}

#[test]
fn duplicate_interfaces_and_worlds_are_reported() {
    let w = || TopLevelItem::World(World { name: id("w"), items: vec![], span: sp(3, 4) });
    let ast = file(vec![iface("a", vec![]), iface("a", vec![]), w(), w()]);
    let diags = check(&ast);
    let messages: Vec<&str> = diags.iter().map(|d| d.message.as_str()).collect();
    assert_eq!(messages, vec!["Duplicate interface definition: a", "Duplicate world definition: w"]);
    assert!(diags.iter().all(|d| d.code == DiagnosticCode::DuplicateDefinition));
}

#[test]
fn package_files_see_each_others_definitions() {
    let point = match record("point", vec![("x", s32())]) {
        InterfaceItem::TypeDef(td) => td,
        _ => unreachable!(),
    };
    let first = file(vec![TopLevelItem::World(World {
        name: id("shapes"),
        items: vec![WorldItem::TypeDef(point)],
        span: sp(0, 0),
    })]);
    let second = file(vec![iface(
        "users",
        vec![InterfaceItem::Func(func("f", vec![param("p", Ty::Named(id("point")))], None, None))],
    )]);
    let alone = check(&second);
    assert!(alone.iter().any(|d| d.code == DiagnosticCode::UnknownType));
    let together = check_package(&[first, second]);
    assert!(together.iter().all(|d| d.code != DiagnosticCode::UnknownType), "{:?}", together);
}

#[test]
fn builtin_types_are_known() {
    let ast = file(vec![iface(
        "builtins",
        vec![InterfaceItem::Func(func(
            "f",
            vec![param("a", Ty::Named(id("result"))), param("b", Ty::Named(id("option")))],
            None,
            None,
        ))],
    )]);
    let diags = check(&ast);
    assert!(diags.is_empty(), "{:?}", diags);
}

fn pattern(ty_name: Option<&str>, case_name: &str, binding: Option<&str>) -> Pattern {
    Pattern::Variant { ty_name: ty_name.map(id), case_name: id(case_name), binding: binding.map(id), span: sp(0, 0) }
}

fn arm(p: Pattern, value: Expr) -> MatchArm {
    MatchArm { pattern: p, body: vec![stmt(value)] }
}

fn match_expr(scrutinee: Expr, arms: Vec<MatchArm>) -> Expr {
    Expr::Match { scrutinee: Box::new(scrutinee), arms, span: sp(0, 0) }
}

fn one_func_file(iface_name: &str, mut items: Vec<InterfaceItem>, f: Func) -> WitFile {
    items.push(InterfaceItem::Func(f));
    file(vec![iface(iface_name, items)])
}

fn assert_no_errors(ast: &WitFile) {
    let diags = check(ast);
    let errors = errors(&diags);
    assert!(errors.is_empty(), "Should have no errors: {:?}", errors);
}

fn assert_return_mismatch(ast: &WitFile) {
    let diags = check(ast);
    let errors = errors(&diags);
    assert!(!errors.is_empty(), "Should have return type mismatch error");
    assert!(
        errors.iter().any(|d| d.message.contains("Return type mismatch")),
        "Should report return type mismatch: {:?}",
        errors
    );
}

fn my_result_plain_err() -> InterfaceItem {
    variant_def("my-result", vec![("ok", Some(s32())), ("err", None)])
}

fn match_test_file(scrutinee_ty: &str, value: Expr, p: Pattern) -> WitFile {
    let def = if scrutinee_ty == "switch" {
        variant_def("switch", vec![("on", None), ("off", None)])
    } else {
        my_result_plain_err()
    };
    one_func_file(
        "foo",
        vec![def],
        func(
            "bar",
            vec![],
            Some(prim(PrimitiveTy::Bool)),
            Some(vec![
                let_("r", value),
                ret(match_expr(var("r"), vec![arm(p, boolean(true)), arm(Pattern::Other, boolean(false))])),
            ]),
        ),
    )
}

#[test]
fn test_qualified_match_pattern_unknown_type() {
    let ast = match_test_file("my-result", variant("my-result", "ok", Some(num(42))), pattern(Some("missing"), "ok", Some("v")));
    let diags = check(&ast);
    let errors = errors(&diags);
    assert!(!errors.is_empty(), "Should have unknown type error");
    assert!(
        errors.iter().any(|d| d.message.contains("Unknown type: missing")),
        "Should report unknown qualified pattern type: {:?}",
        errors
    );
}

#[test]
fn test_qualified_match_pattern_unknown_case() {
    let ast = match_test_file("my-result", variant("my-result", "ok", Some(num(42))), pattern(Some("my-result"), "nope", Some("v")));
    let diags = check(&ast);
    let errors = errors(&diags);
    assert!(!errors.is_empty(), "Should have unknown case error");
    assert!(
        errors.iter().any(|d| d.message.contains("Unknown case 'nope' in variant type 'my-result'")),
        "Should report unknown qualified pattern case: {:?}",
        errors
    );
}

#[test]
fn test_qualified_match_pattern_requires_binding_for_payload_case() {
    let ast = match_test_file("my-result", variant("my-result", "ok", Some(num(42))), pattern(Some("my-result"), "ok", None));
    let diags = check(&ast);
    let errors = errors(&diags);
    assert!(!errors.is_empty(), "Should have pattern binding arity error");
    assert!(
        errors.iter().any(|d| d.message.contains("Case 'my-result#ok' pattern requires a binding for payload")),
        "Should report missing binding for payload case pattern: {:?}",
        errors
    );
}

#[test]
fn test_qualified_match_pattern_rejects_binding_for_plain_case() {
    let ast = match_test_file("switch", variant("switch", "on", None), pattern(Some("switch"), "on", Some("v")));
    let diags = check(&ast);
    let errors = errors(&diags);
    assert!(!errors.is_empty(), "Should have pattern binding arity error");
    assert!(
        errors.iter().any(|d| d.message.contains("Case 'switch#on' pattern must not bind a payload")),
        "Should report unexpected binding for plain case pattern: {:?}",
        errors
    );
}

fn option_match_file(result: PrimitiveTy) -> WitFile {
    let none = Expr::VariantLiteral { ty_name: None, case_name: id("none"), payload: None, span: sp(0, 0) };
    one_func_file(
        "option-result-tests",
        vec![],
        func(
            "test-none",
            vec![],
            Some(prim(result)),
            Some(vec![
                let_("x", none),
                ret(match_expr(
                    var("x"),
                    vec![
                        arm(pattern(None, "some", Some("_")), boolean(false)),
                        arm(pattern(None, "none", None), boolean(true)),
                    ],
                )),
            ]),
        ),
    )
}

#[test]
fn test_match_expression_return_type_mismatch_detected() {
    assert_return_mismatch(&option_match_file(PrimitiveTy::String));
}

#[test]
fn test_match_expression_return_type_matches_declared_type() {
    assert_no_errors(&option_match_file(PrimitiveTy::Bool));
}

fn calls_file(name: &str, result: PrimitiveTy) -> WitFile {
    file(vec![iface(
        "calls",
        vec![
            InterfaceItem::Func(func("helper", vec![], Some(prim(PrimitiveTy::Bool)), Some(vec![ret(boolean(true))]))),
            InterfaceItem::Func(func(name, vec![], Some(prim(result)), Some(vec![ret(call("helper", vec![]))]))),
        ],
    )])
}

#[test]
fn test_function_call_return_type_mismatch_detected() {
    assert_return_mismatch(&calls_file("bad", PrimitiveTy::String));
}

#[test]
fn test_function_call_return_type_matches_declared_type() {
    assert_no_errors(&calls_file("ok", PrimitiveTy::Bool));
}

fn field_of(e: Expr, field: &str) -> Expr {
    Expr::Field { expr: Box::new(e), field: id(field), span: sp(0, 0) }
}

fn records_file(name: &str, result: Ty) -> WitFile {
    one_func_file(
        "records",
        vec![record("point", vec![("x", s32()), ("y", s32())])],
        func(name, vec![param("p", Ty::Named(id("point")))], Some(result), Some(vec![ret(field_of(var("p"), "x"))])),
    )
}

#[test]
fn test_record_field_access_return_type_mismatch_detected() {
    assert_return_mismatch(&records_file("bad", prim(PrimitiveTy::String)));
}

#[test]
fn test_record_field_access_return_type_matches_declared_type() {
    assert_no_errors(&records_file("ok", s32()));
}

fn list_of(t: Ty) -> Ty {
    Ty::List(Box::new(t))
}

fn lists_file(name: &str, result: Ty, body: Expr) -> WitFile {
    one_func_file("lists", vec![], func(name, vec![param("arr", list_of(s32()))], Some(result), Some(vec![ret(body)])))
}

fn index0() -> Expr {
    Expr::Index { expr: Box::new(var("arr")), index: Box::new(num(0)), span: sp(0, 0) }
}

fn slice01() -> Expr {
    Expr::Slice { expr: Box::new(var("arr")), start: Box::new(num(0)), end: Box::new(num(1)), span: sp(0, 0) }
}

#[test]
fn test_index_expression_return_type_mismatch_detected() {
    assert_return_mismatch(&lists_file("bad-index", prim(PrimitiveTy::String), index0()));
}

#[test]
fn test_index_expression_return_type_matches_declared_type() {
    assert_no_errors(&lists_file("ok-index", s32(), index0()));
}

#[test]
fn test_slice_expression_return_type_mismatch_detected() {
    assert_return_mismatch(&lists_file("bad-slice", list_of(prim(PrimitiveTy::String)), slice01()));
}

#[test]
fn test_slice_expression_return_type_matches_declared_type() {
    assert_no_errors(&lists_file("ok-slice", list_of(s32()), slice01()));
}

fn option_of(t: Ty) -> Ty {
    Ty::Option(Box::new(t))
}

fn effects_fn(name: &str, params: Vec<Param>, result: Ty, body: Vec<Statement>) -> WitFile {
    effects(func(name, params, Some(result), Some(body)))
}

fn try_v() -> Expr {
    Expr::Try { expr: Box::new(var("v")), span: sp(0, 0) }
}

#[test]
fn test_try_expression_return_type_mismatch_detected() {
    assert_return_mismatch(&effects_fn("bad-try", vec![param("v", option_of(s32()))], prim(PrimitiveTy::String), vec![ret(try_v())]));
}

#[test]
fn test_try_expression_return_type_matches_declared_type() {
    assert_no_errors(&effects_fn("ok-try", vec![param("v", option_of(s32()))], s32(), vec![ret(try_v())]));
}

fn await_f() -> Expr {
    Expr::Await { expr: Box::new(var("f")), span: sp(0, 0) }
}

fn future_of(t: Ty) -> Ty {
    Ty::Future(Some(Box::new(t)))
}

#[test]
fn test_await_expression_return_type_mismatch_detected() {
    assert_return_mismatch(&effects_fn("bad-await", vec![param("f", future_of(s32()))], prim(PrimitiveTy::String), vec![ret(await_f())]));
}

#[test]
fn test_await_expression_return_type_matches_declared_type() {
    assert_no_errors(&effects_fn("ok-await", vec![param("f", future_of(s32()))], s32(), vec![ret(await_f())]));
}

fn chain_file(name: &str, result: Ty) -> WitFile {
    let chain = Expr::OptionalChain { expr: Box::new(var("p")), field: id("x"), span: sp(0, 0) };
    one_func_file(
        "effects",
        vec![record("point", vec![("x", s32())])],
        func(name, vec![param("p", option_of(Ty::Named(id("point"))))], Some(result), Some(vec![ret(chain)])),
    )
}

#[test]
fn test_optional_chain_return_type_mismatch_detected() {
    assert_return_mismatch(&chain_file("bad-chain", option_of(prim(PrimitiveTy::String))));
}

#[test]
fn test_optional_chain_return_type_matches_declared_type() {
    assert_no_errors(&chain_file("ok-chain", option_of(s32())));
}

fn spawn(body: Vec<Statement>) -> Expr {
    Expr::Spawn { body, span: sp(0, 0) }
}

fn atomic_store() -> Statement {
    stmt(Expr::AtomicStore { addr: Box::new(num(0)), value: Box::new(num(1)), span: sp(0, 0) })
}

fn atomic_block(body: Vec<Statement>) -> Expr {
    Expr::AtomicBlock { body, span: sp(0, 0) }
}

fn join(tid: Expr) -> Statement {
    stmt(Expr::ThreadJoin { tid: Box::new(tid), span: sp(0, 0) })
}

fn shared_let(name: &str, value: Expr) -> Statement {
    Statement::SharedLet { name: id(name), initial_value: value }
}

fn effects_errors(name: &str, body: Vec<Statement>) -> Vec<Diagnostic> {
    check(&effects_fn(name, vec![], s32(), body)).into_iter().filter(|d| d.severity == Severity::Error).collect()
}

#[test]
fn test_spawn_returns_thread_id() {
    let errors = effects_errors("go", vec![let_("tid", spawn(vec![atomic_store()])), stmt(num(0))]);
    assert!(errors.is_empty(), "spawn should type-check cleanly: {:?}", errors);
}

#[test]
fn test_thread_id_arithmetic_rejected() {
    let errors = effects_errors(
        "go",
        vec![let_("tid", spawn(vec![atomic_store()])), stmt(bin(var("tid"), BinOp::Add, num(1)))],
    );
    assert!(!errors.is_empty(), "arithmetic on ThreadId should be rejected");
}

#[test]
fn test_shared_let_type_checks() {
    let errors = effects_errors("counter", vec![shared_let("counter", num(0)), stmt(num(0))]);
    assert!(errors.is_empty(), "shared let should type-check: {:?}", errors);
}

#[test]
fn test_atomic_block_type_checks() {
    let errors = effects_errors("go", vec![stmt(atomic_block(vec![stmt(num(42))]))]);
    assert!(errors.is_empty(), "atomic block should type-check: {:?}", errors);
}

#[test]
fn test_shared_let_and_atomic_block_combined() {
    let errors = effects_errors(
        "inc",
        vec![
            shared_let("counter", num(0)),
            let_("tid", spawn(vec![stmt(atomic_block(vec![stmt(num(1))]))])),
            stmt(num(0)),
        ],
    );
    assert!(errors.is_empty(), "combined shared let + atomic should type-check: {:?}", errors);
}

#[test]
fn test_atomic_block_empty_body() {
    let errors = effects_errors("noop", vec![stmt(atomic_block(vec![]))]);
    assert!(errors.is_empty(), "empty atomic block should type-check: {:?}", errors);
}

#[test]
fn test_thread_join_type_checks() {
    let errors = effects_errors("go", vec![let_("tid", spawn(vec![stmt(num(1))])), join(var("tid")), stmt(num(0))]);
    assert!(errors.is_empty(), "thread.join(tid) should type-check: {:?}", errors);
}

#[test]
fn test_thread_join_rejects_non_thread_id() {
    let errors = effects_errors("go", vec![join(num(42))]);
    assert!(!errors.is_empty(), "thread.join(42) should be rejected \u{2014} requires ThreadId");
}

#[test]
fn test_spawn_join_combined() {
    let errors = effects_errors(
        "go",
        vec![
            shared_let("counter", num(0)),
            let_("tid", spawn(vec![stmt(atomic_block(vec![stmt(num(1))]))])),
            join(var("tid")),
            stmt(num(0)),
        ],
    );
    assert!(errors.is_empty(), "spawn + join + shared let should type-check: {:?}", errors);
}

#[test]
fn test_guard_statement_allows_continue_inside_loop() {
    let list = Expr::ListLiteral { elements: vec![num(1), num(2), num(3)], span: sp(0, 0) };
    let body = vec![
        Statement::Guard {
            condition: bin(var("item"), BinOp::Ne, num(2)),
            else_body: vec![Statement::Continue { condition: None }],
        },
        Statement::CompoundAssign { name: id("total"), op: BinOp::Add, value: var("item") },
    ];
    let errors = effects_errors(
        "sum",
        vec![
            let_("total", num(0)),
            stmt(Expr::ForEach { variable: id("item"), collection: Box::new(list), body, span: sp(0, 0) }),
            stmt(var("total")),
        ],
    );
    assert!(errors.is_empty(), "guard with continue inside a loop should type-check: {:?}", errors);
}

fn guard_let_file(v_ty: Ty, else_body: Vec<Statement>) -> WitFile {
    effects_fn(
        "unwrap",
        vec![param("v", v_ty)],
        s32(),
        vec![Statement::GuardLet { name: id("value"), value: var("v"), else_body }, stmt(var("value"))],
    )
}

#[test]
fn test_guard_let_statement_type_checks_and_binds_payload() {
    let diags = check(&guard_let_file(option_of(s32()), vec![ret(num(0))]));
    let errors = errors(&diags);
    assert!(errors.is_empty(), "guard let should type-check and bind payload: {:?}", errors);
}

#[test]
fn test_guard_let_accepts_result_ok_payload() {
    let diags = check(&guard_let_file(result_ty(s32(), prim(PrimitiveTy::String)), vec![ret(num(0))]));
    let errors = errors(&diags);
    assert!(errors.is_empty(), "guard let should unwrap result ok payloads: {:?}", errors);
}

#[test]
fn test_guard_let_requires_option_or_result_source() {
    let diags = check(&guard_let_file(s32(), vec![ret(num(0))]));
    let errors = errors(&diags);
    assert!(
        errors.iter().any(|d| d.message.contains("Guard let requires option<T> or result<T, E>")),
        "expected guard let source type error, got: {:?}",
        errors
    );
}

#[test]
fn test_guard_let_requires_exiting_else_block() {
    let diags = check(&guard_let_file(option_of(s32()), vec![let_("fallback", num(0))]));
    let errors = errors(&diags);
    assert!(
        errors.iter().any(|d| d.message.contains("`guard let` else block must exit the current scope")),
        "expected guard let scope-exit error, got: {:?}",
        errors
    );
}

fn constraint_errors_of(diags: &[Diagnostic]) -> Vec<&Diagnostic> {
    diags.iter().filter(|d| d.severity == Severity::Error && d.code == DiagnosticCode::ConstraintViolation).collect()
}

fn bool_result() -> Ty {
    result_ty(prim(PrimitiveTy::Bool), prim(PrimitiveTy::String))
}

fn constrained_callee(name: &str, p: &str, constraint: Expr) -> InterfaceItem {
    InterfaceItem::Func(func(
        name,
        vec![param_where(p, s32(), constraint)],
        Some(bool_result()),
        Some(vec![stmt(ok_true())]),
    ))
}

fn simple_caller(body: Vec<Statement>) -> InterfaceItem {
    InterfaceItem::Func(func("caller", vec![], Some(prim(PrimitiveTy::Bool)), Some(body)))
}

fn neg(n: i64) -> Expr {
    Expr::Neg(Box::new(num(n)), sp(0, 0))
}

#[test]
fn test_constraint_less_than_operator() {
    let ast = file(vec![iface(
        "test",
        vec![
            constrained_callee("limited", "count", bin(var("count"), BinOp::Lt, num(10))),
            simple_caller(vec![stmt(call("limited", vec![num(15)])), stmt(boolean(true))]),
        ],
    )]);
    let diags = check(&ast);
    let errors = constraint_errors_of(&diags);
    assert!(
        errors.iter().any(|d| d.message.contains("does not satisfy the constraint")),
        "expected constraint violation with < operator, got: {:?}",
        errors
    );
}

#[test]
fn test_constraint_less_than_satisfied() {
    let ast = file(vec![iface(
        "test",
        vec![
            constrained_callee("limited", "count", bin(var("count"), BinOp::Lt, num(10))),
            simple_caller(vec![stmt(call("limited", vec![num(5)])), stmt(boolean(true))]),
        ],
    )]);
    let diags = check(&ast);
    let constraint_errors: Vec<_> = diags.iter().filter(|d| d.code == DiagnosticCode::ConstraintViolation).collect();
    assert!(
        constraint_errors.is_empty(),
        "expected no constraint errors for satisfied < constraint, got: {:?}",
        constraint_errors
    );
}

#[test]
fn test_constraint_with_integer_literal_one_side() {
    let ast = file(vec![iface(
        "test",
        vec![
            constrained_callee("positive", "x", bin(var("x"), BinOp::Gt, num(0))),
            simple_caller(vec![stmt(call("positive", vec![num(0)])), stmt(boolean(true))]),
        ],
    )]);
    let diags = check(&ast);
    let errors = constraint_errors_of(&diags);
    assert!(
        errors.iter().any(|d| d.message.contains("does not satisfy the constraint")),
        "expected constraint violation with literal, got: {:?}",
        errors
    );
}

fn err_fail() -> Expr {
    variant("result", "err", Some(Expr::String("fail".to_string(), sp(0, 0))))
}

#[test]
fn test_constraint_propagation_guard_let_suppresses() {
    let caller = func(
        "caller",
        vec![param("x", s32())],
        Some(bool_result()),
        Some(vec![
            let_("big", num(10)),
            Statement::GuardLet {
                name: id("result"),
                value: call("bounded", vec![var("x"), var("big")]),
                else_body: vec![ret(err_fail())],
            },
            stmt(var("result")),
        ]),
    );
    let diags = check(&constrained_file(caller));
    let constraint_diags: Vec<_> = diags
        .iter()
        .filter(|d| d.code == DiagnosticCode::ConstraintViolation || d.code == DiagnosticCode::ConstraintPropagation)
        .collect();
    assert!(constraint_diags.is_empty(), "expected no constraint diagnostics inside guard-let, got: {:?}", constraint_diags);
}

#[test]
fn test_constraint_propagation_non_test_function() {
    let caller = func(
        "caller",
        vec![param("x", s32())],
        Some(prim(PrimitiveTy::Bool)),
        Some(vec![let_("big", num(10)), stmt(call("bounded", vec![var("x"), var("big")])), stmt(boolean(true))]),
    );
    let diags = check(&constrained_file(caller));
    let constraint_diags: Vec<_> = diags
        .iter()
        .filter(|d| d.code == DiagnosticCode::ConstraintViolation || d.code == DiagnosticCode::ConstraintPropagation)
        .collect();
    assert!(
        constraint_diags.iter().all(|d| d.severity == Severity::Warning),
        "expected warnings (not errors) for propagation in non-test function, got: {:?}",
        constraint_diags
    );
}

/// The call `name(args)` written at the `nth` occurrence of `text` in `source`.
fn call_in(source: &str, text: &str, nth: usize, name: &str, args: Vec<Expr>) -> Expr {
    let at = source.match_indices(text).nth(nth).map(|(i, _)| i).unwrap();
    Expr::Call { func: Box::new(Expr::Ident(id_at(name, at))), args, span: sp(at, at + text.len()) }
}

/// The `bounded` function and a caller whose body is `let big = 10; let small = 20;`,
/// then `rest`; both marked `@test` when `tests` holds.
fn hush_file(tests: bool, rest: Vec<Statement>) -> WitFile {
    let callee = other_func(bounded());
    let mut body = vec![let_("big", num(10)), let_("small", num(20))];
    body.extend(rest);
    let caller = func("caller", vec![], Some(prim(PrimitiveTy::Bool)), Some(body));
    let (callee, caller) = if tests { (test_gate(callee), test_gate(caller)) } else { (callee, caller) };
    file(vec![iface("test", vec![InterfaceItem::Func(callee), InterfaceItem::Func(caller)])])
}

fn small_big() -> Vec<Expr> {
    vec![var("small"), var("big")]
}

#[test]
fn test_hush_comment_mismatch_still_error() {
    let source = r#"
            package local:test;
            interface test {
                @test
                bounded: func(small: s32, big: s32 where big > small) -> result<bool, string> {
                    result#ok(true)
                }
                @test
                caller: func() -> bool {
                    let big = 10;
                    let small = 20;
                    bounded(small, big);
                    ///    ^ wrong text that does not match
                    true
                }
            }
        "#;
    let ast = hush_file(true, vec![stmt(call_in(source, "bounded(small, big)", 0, "bounded", small_big())), stmt(boolean(true))]);
    let diags = check_with_source(&ast, source);
    let errors = constraint_errors_of(&diags);
    assert!(!errors.is_empty(), "expected error diagnostic when hush text doesn't match, got diags: {:?}", diags);
}

#[test]
fn test_hush_comment_wrong_column_still_error() {
    let source = r#"
            package local:test;
            interface test {
                @test
                bounded: func(small: s32, big: s32 where big > small) -> result<bool, string> {
                    result#ok(true)
                }
                @test
                caller: func() -> bool {
                    let big = 10;
                    let small = 20;
                    bounded(small, big);
                    ///                          ^ big does not satisfy the constraint "big (10) > small (20)" on bounded
                    true
                }
            }
        "#;
    let ast = hush_file(true, vec![stmt(call_in(source, "bounded(small, big)", 0, "bounded", small_big())), stmt(boolean(true))]);
    let diags = check_with_source(&ast, source);
    let errors = constraint_errors_of(&diags);
    assert!(!errors.is_empty(), "expected error when ^ column is far from span, got diags: {:?}", diags);
}

#[test]
fn test_hush_comment_wrong_line_still_error() {
    let source = r#"
            package local:test;
            interface test {
                @test
                bounded: func(small: s32, big: s32 where big > small) -> result<bool, string> {
                    result#ok(true)
                }
                @test
                caller: func() -> bool {
                    let big = 10;
                    let small = 20;
                    bounded(small, big);
                    let x = 1;
                    ///    ^ big does not satisfy the constraint "big (10) > small (20)" on bounded
                    true
                }
            }
        "#;
    let ast = hush_file(true, vec![stmt(call_in(source, "bounded(small, big)", 0, "bounded", small_big())), let_("x", num(1)), stmt(boolean(true))]);
    let diags = check_with_source(&ast, source);
    let errors = constraint_errors_of(&diags);
    assert!(!errors.is_empty(), "expected error when hush comment is on wrong line, got diags: {:?}", diags);
}

#[test]
fn test_hush_comment_only_in_test_function() {
    let source = r#"
            package local:test;
            interface test {
                bounded: func(small: s32, big: s32 where big > small) -> result<bool, string> {
                    result#ok(true)
                }
                caller: func() -> bool {
                    let big = 10;
                    let small = 20;
                    bounded(small, big);
                    ///    ^ big does not satisfy the constraint "big (10) > small (20)" on bounded
                    true
                }
            }
        "#;
    let ast = hush_file(false, vec![stmt(call_in(source, "bounded(small, big)", 0, "bounded", small_big())), stmt(boolean(true))]);
    let diags = check_with_source(&ast, source);
    let infos: Vec<_> = diags.iter().filter(|d| d.severity == Severity::Info).collect();
    let errors = constraint_errors_of(&diags);
    assert!(infos.is_empty(), "expected no info diagnostics in non-test function, got: {:?}", infos);
    assert!(!errors.is_empty(), "expected error diagnostic in non-test function even with hush comment, got: {:?}", errors);
}

#[test]
fn test_multiple_hush_comments_in_same_function() {
    let source = r#"
            package local:test;
            interface test {
                @test
                bounded: func(small: s32, big: s32 where big > small) -> result<bool, string> {
                    result#ok(true)
                }
                @test
                caller: func() -> bool {
                    let big = 10;
                    let small = 20;
                    bounded(small, big);
                    ///    ^ big does not satisfy the constraint "big (10) > small (20)" on bounded
                    bounded(small, big);
                    ///    ^ big does not satisfy the constraint "big (10) > small (20)" on bounded
                    true
                }
            }
        "#;
    let ast = hush_file(
        true,
        vec![
            stmt(call_in(source, "bounded(small, big)", 0, "bounded", small_big())),
            stmt(call_in(source, "bounded(small, big)", 1, "bounded", small_big())),
            stmt(boolean(true)),
        ],
    );
    let diags = check_with_source(&ast, source);
    let infos: Vec<_> =
        diags.iter().filter(|d| d.severity == Severity::Info && d.code == DiagnosticCode::ConstraintViolation).collect();
    assert_eq!(infos.len(), 2, "expected 2 info diagnostics for 2 hushed errors, got: {:?}", diags);
}

#[test]
fn test_constrained_func_must_return_result() {
    let f = func(
        "bounded",
        vec![param("small", s32()), param_where("big", s32(), bin(var("big"), BinOp::Gt, var("small")))],
        Some(prim(PrimitiveTy::Bool)),
        Some(vec![stmt(boolean(true))]),
    );
    let diags = check(&file(vec![iface("test", vec![InterfaceItem::Func(f)])]));
    assert!(
        diags.iter().any(|d| d.message.contains("must return result") && d.code == DiagnosticCode::ConstraintViolation),
        "expected error about constrained function needing Result return type, got: {:?}",
        diags
    );
}

#[test]
fn test_constrained_func_returns_result_ok() {
    let diags = check(&file(vec![iface("test", vec![bounded()])]));
    let constraint_errors: Vec<_> = diags.iter().filter(|d| d.code == DiagnosticCode::ConstraintViolation).collect();
    assert!(constraint_errors.is_empty(), "expected no errors for constrained func returning result, got: {:?}", constraint_errors);
}

#[test]
fn test_result_ok_infers_function_return_type() {
    let f = func(
        "bounded",
        vec![param("small", s32()), param_where("big", s32(), bin(var("big"), BinOp::Gt, var("small")))],
        Some(bool_result()),
        Some(vec![ret(ok_true())]),
    );
    let diags = check(&file(vec![iface("test", vec![InterfaceItem::Func(f)])]));
    let type_errors: Vec<_> = diags.iter().filter(|d| d.code == DiagnosticCode::TypeMismatch).collect();
    assert!(type_errors.is_empty(), "expected no type mismatch for result#ok in result-returning func, got: {:?}", type_errors);
}

#[test]
fn test_constraint_violation_with_swapped_args() {
    let ast = constrained_file(func(
        "caller",
        vec![],
        Some(prim(PrimitiveTy::Bool)),
        Some(vec![
            let_("a", num(10)),
            let_("b", num(20)),
            stmt(call("bounded", vec![var("b"), var("a")])),
            stmt(boolean(true)),
        ]),
    ));
    let diags = check(&ast);
    let errors = constraint_errors_of(&diags);
    assert_eq!(errors.len(), 1, "expected exactly one constraint violation for swapped args, got: {:?}", errors);
    assert!(errors[0].message.contains("does not satisfy the constraint"), "error message should mention constraint violation: {}", errors[0].message);
}

#[test]
fn test_constraint_with_local_constant_chain() {
    let ast = file(vec![iface(
        "test",
        vec![
            constrained_callee("positive", "x", bin(var("x"), BinOp::Gt, num(0))),
            simple_caller(vec![
                let_("val", neg(5)),
                let_("copy", var("val")),
                stmt(call("positive", vec![var("copy")])),
                stmt(boolean(true)),
            ]),
        ],
    )]);
    let diags = check(&ast);
    let errors = constraint_errors_of(&diags);
    assert!(
        errors.iter().any(|d| d.message.contains("does not satisfy the constraint")),
        "expected constraint violation through local constant chain, got: {:?}",
        errors
    );
}

#[test]
fn test_hush_comment_in_test_helper() {
    let source = r#"
            package local:test;
            interface test {
                bounded: func(small: s32, big: s32 where big > small) -> result<bool, string> {
                    result#ok(true)
                }
                @test-helper
                helper: func(x: s32) -> result<bool, string> {
                    let big = 10;
                    bounded(x, big);
                    ///    ^ big may not satisfy the constraint "big (10) > small (x)" because x is an unconstrained parameter, bounded must be called with a guard
                    guard let r = bounded(x, big) else {
                        return result#err("fail");
                    };
                    r
                }
            }
        "#;
    let helper = Func {
        gates: vec![Gate::TestHelper],
        ..func(
            "helper",
            vec![param("x", s32())],
            Some(bool_result()),
            Some(vec![
                let_("big", num(10)),
                stmt(call_in(source, "bounded(x, big)", 0, "bounded", vec![var("x"), var("big")])),
                Statement::GuardLet {
                    name: id("r"),
                    value: call_in(source, "bounded(x, big)", 1, "bounded", vec![var("x"), var("big")]),
                    else_body: vec![ret(err_fail())],
                },
                stmt(var("r")),
            ]),
        )
    };
    let ast = file(vec![iface("test", vec![bounded(), InterfaceItem::Func(helper)])]);
    let diags = check_with_source(&ast, source);
    let infos: Vec<_> = diags.iter().filter(|d| d.severity == Severity::Info).collect();
    assert!(!infos.is_empty(), "expected info diagnostic for hushed error in @test-helper, got diags: {:?}", diags);
}

fn transitive_file(big: i64, outer_call: Expr, outer_test: bool) -> WitFile {
    let caller = func(
        "caller",
        vec![param("x", s32())],
        Some(bool_result()),
        Some(vec![let_("big", num(big)), stmt(call("bounded", vec![var("x"), var("big")])), stmt(ok_true())]),
    );
    let outer = func(
        "outer",
        vec![],
        Some(prim(PrimitiveTy::Bool)),
        Some(vec![let_("v", num(10)), stmt(outer_call), stmt(boolean(true))]),
    );
    let outer = if outer_test { test_gate(outer) } else { outer };
    file(vec![iface("test", vec![bounded(), InterfaceItem::Func(caller), InterfaceItem::Func(outer)])])
}

#[test]
fn test_transitive_constraint_satisfied() {
    let diags = check(&transitive_file(20, call("caller", vec![var("v")]), false));
    let constraint_errors: Vec<_> = diags.iter().filter(|d| d.code == DiagnosticCode::ConstraintViolation).collect();
    assert!(
        constraint_errors.is_empty(),
        "expected no constraint errors for satisfied transitive constraint, got: {:?}",
        constraint_errors
    );
}

#[test]
fn test_transitive_constraint_with_hush() {
    let source = r#"
            package local:test;
            interface test {
                bounded: func(small: s32, big: s32 where big > small) -> result<bool, string> {
                    result#ok(true)
                }
                caller: func(x: s32) -> result<bool, string> {
                    let big = 10;
                    bounded(x, big);
                    result#ok(true)
                }
                @test
                outer: func() -> bool {
                    let v = 10;
                    caller(v);
                    ///    ^ v does not satisfy the constraint "big (10) > small (10)" on bounded (via caller)
                    true
                }
            }
        "#;
    let ast = transitive_file(10, call_in(source, "caller(v)", 0, "caller", vec![var("v")]), true);
    let diags = check_with_source(&ast, source);
    let infos: Vec<_> = diags.iter().filter(|d| d.severity == Severity::Info).collect();
    let errors = constraint_errors_of(&diags);
    assert!(!infos.is_empty(), "expected info diagnostic for hushed transitive constraint, got diags: {:?}", diags);
    assert!(errors.is_empty(), "expected no error diagnostics for hushed transitive constraint, got: {:?}", errors);
}

fn length_alias() -> InterfaceItem {
    InterfaceItem::TypeDef(TypeDef {
        kind: TypeDefKind::Alias {
            name: id("length"),
            type_params: vec![],
            ty: s32(),
            constraint: Some(bin(var("it"), BinOp::Gt, num(0))),
        },
        span: sp(0, 0),
    })
}

fn use_length() -> InterfaceItem {
    InterfaceItem::Func(func(
        "use-length",
        vec![param("l", Ty::Named(id("length")))],
        Some(bool_result()),
        Some(vec![stmt(ok_true())]),
    ))
}

fn alias_caller(arg: Expr) -> InterfaceItem {
    InterfaceItem::Func(test_gate(func(
        "caller",
        vec![],
        Some(prim(PrimitiveTy::Bool)),
        Some(vec![stmt(call("use-length", vec![arg])), stmt(boolean(true))]),
    )))
}

#[test]
fn test_type_alias_constraint_on_param() {
    let source = r#"
            package local:test;
            interface test {
                type length = s32 where it > 0;
                use-length: func(l: length) -> result<bool, string> {
                    result#ok(true)
                }
                @test
                caller: func() -> bool {
                    use-length(-5);
                    true
                }
            }
        "#;
    let ast = file(vec![iface("test", vec![length_alias(), use_length(), alias_caller(neg(5))])]);
    let diags = check_with_source(&ast, source);
    let errors = constraint_errors_of(&diags);
    assert!(!errors.is_empty(), "expected constraint violation from type alias on param, got: {:?}", diags);
}

#[test]
fn test_type_alias_constraint_satisfied_on_param() {
    let source = r#"
            package local:test;
            interface test {
                type length = s32 where it > 0;
                use-length: func(l: length) -> result<bool, string> {
                    result#ok(true)
                }
                @test
                caller: func() -> bool {
                    use-length(10);
                    true
                }
            }
        "#;
    let ast = file(vec![iface("test", vec![length_alias(), use_length(), alias_caller(num(10))])]);
    let diags = check_with_source(&ast, source);
    let errors: Vec<_> = diags.iter().filter(|d| d.code == DiagnosticCode::ConstraintViolation).collect();
    assert!(errors.is_empty(), "expected no errors for satisfied type alias constraint, got: {:?}", errors);
}

#[test]
fn test_type_alias_constraint_propagation() {
    let source = r#"
            package local:test;
            interface test {
                type length = s32 where it > 0;
                use-length: func(l: length) -> result<bool, string> {
                    result#ok(true)
                }
                intermediate: func(x: s32) -> result<bool, string> {
                    use-length(x);
                    result#ok(true)
                }
                @test
                outer: func() -> bool {
                    intermediate(-1);
                    true
                }
            }
        "#;
    let intermediate = InterfaceItem::Func(func(
        "intermediate",
        vec![param("x", s32())],
        Some(bool_result()),
        Some(vec![stmt(call("use-length", vec![var("x")])), stmt(ok_true())]),
    ));
    let outer = InterfaceItem::Func(test_gate(func(
        "outer",
        vec![],
        Some(prim(PrimitiveTy::Bool)),
        Some(vec![stmt(call("intermediate", vec![neg(1)])), stmt(boolean(true))]),
    )));
    let ast = file(vec![iface("test", vec![length_alias(), use_length(), intermediate, outer])]);
    let diags = check_with_source(&ast, source);
    let errors = constraint_errors_of(&diags);
    assert!(!errors.is_empty(), "expected transitive type alias constraint violation, got: {:?}", diags);
}

#[test]
fn forward_reference_to_later_type_is_known() {
    let ast = file(vec![iface(
        "shapes",
        vec![
            InterfaceItem::Func(func("area", vec![param("c", Ty::Named(id("circle")))], Some(s32()), None)),
            record("circle", vec![("r", s32())]),
        ],
    )]);
    let diags = check(&ast);
    assert!(diags.is_empty(), "{:?}", diags);
}

#[test]
fn single_file_package_matches_file_check() {
    let make = || {
        file(vec![iface(
            "ops",
            vec![
                record("bar", vec![("x", s32())]),
                record("bar", vec![("y", s32())]),
                InterfaceItem::Func(func("f", vec![], Some(s32()), Some(vec![ret(var("nope"))]))),
            ],
        )])
    };
    let alone: Vec<(String, DiagnosticCode)> = check(&make()).into_iter().map(|d| (d.message, d.code)).collect();
    let package: Vec<(String, DiagnosticCode)> =
        check_package(&[make()]).into_iter().map(|d| (d.message, d.code)).collect();
    assert_eq!(alone.len(), 2);
    assert_eq!(alone, package);
}

fn recursive_errors(diags: &[Diagnostic]) -> Vec<&Diagnostic> {
    diags
        .iter()
        .filter(|d| d.severity == Severity::Error && d.code == DiagnosticCode::RecursiveType)
        .collect()
}

#[test]
fn test_self_referencing_record_is_recursive() {
    let ast = file(vec![iface("foo", vec![record("node", vec![("next", Ty::Named(id("node")))])])]);
    let diags = check(&ast);
    let rec = recursive_errors(&diags);
    assert_eq!(rec.len(), 1, "{:?}", diags);
    assert_eq!(rec[0].message, "Recursive type definition: node");
}

#[test]
fn test_record_recursive_through_list_and_option() {
    let ast = file(vec![iface(
        "foo",
        vec![
            record("tree", vec![("kids", Ty::List(Box::new(Ty::Named(id("tree")))))]),
            record("chain", vec![("v", s32()), ("next", Ty::Option(Box::new(Ty::Named(id("chain")))))]),
        ],
    )]);
    let diags = check(&ast);
    assert_eq!(recursive_errors(&diags).len(), 2, "{:?}", diags);
}

#[test]
fn test_variant_and_alias_recursive() {
    let ast = file(vec![iface(
        "foo",
        vec![
            variant_def("expr", vec![("lit", Some(s32())), ("neg", Some(Ty::Named(id("expr"))))]),
            InterfaceItem::TypeDef(TypeDef {
                kind: TypeDefKind::Alias {
                    name: id("pairs"),
                    type_params: vec![],
                    ty: Ty::Tuple(vec![s32(), Ty::Named(id("pairs"))]),
                    constraint: None,
                },
                span: sp(0, 0),
            }),
        ],
    )]);
    let diags = check(&ast);
    let rec = recursive_errors(&diags);
    assert_eq!(rec.len(), 2, "{:?}", diags);
    assert_eq!(rec[0].message, "Recursive type definition: expr");
    assert_eq!(rec[1].message, "Recursive type definition: pairs");
}

#[test]
fn test_non_recursive_records_pass() {
    let ast = file(vec![iface(
        "foo",
        vec![
            record("leaf", vec![("v", s32())]),
            record("node", vec![("left", Ty::Named(id("leaf"))), ("right", Ty::Option(Box::new(Ty::Named(id("leaf")))))]),
        ],
    )]);
    let diags = check(&ast);
    assert!(recursive_errors(&diags).is_empty(), "{:?}", diags);
    assert!(errors(&diags).is_empty(), "{:?}", diags);
}

fn mixed_file() -> WitFile {
    file(vec![iface(
        "foo",
        vec![
            record("node", vec![("next", Ty::Named(id("node")))]),
            InterfaceItem::Func(func("bar", vec![param("x", Ty::Named(id("missing")))], None, None)),
            bounded(),
        ],
    )])
}

fn diag_rows(ds: &[Diagnostic]) -> Vec<(String, usize, usize, Severity, DiagnosticCode)> {
    ds.iter().map(|d| (d.message.clone(), d.span.start, d.span.end, d.severity, d.code)).collect()
}

#[test]
fn test_source_without_hush_comments_checks_as_file() {
    let f = mixed_file();
    let plain = check(&f);
    assert!(!plain.is_empty());
    for src in ["", "interface foo {}\n", "/// a doc comment\n// ^ not a hush\nx"] {
        assert_eq!(diag_rows(&check_with_source(&f, src)), diag_rows(&plain));
    }
}

#[test]
fn test_one_file_package_checks_as_file() {
    let f = mixed_file();
    assert_eq!(diag_rows(&check_package(&[mixed_file()])), diag_rows(&check(&f)));
    assert!(check_package(&[]).is_empty());
}
