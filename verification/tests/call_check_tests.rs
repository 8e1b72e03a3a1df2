use kettu::call_check::{
    check_call_constraints, check_inherited_constraint, map_params, InheritedConstraint,
    ParamSource,
};
use kettu::constraints::{BinOp, Expr, ParamConstraint};
use kettu::diagnostics::{DiagnosticCode, Severity, Span};
use kettu::hush::{compute_line_offsets, extract_hush_comments};
use kettu::name_map::NameMap;

fn ident(name: &str) -> Expr {
    Expr::Ident(name.to_string())
}

fn binary(lhs: Expr, op: BinOp, rhs: Expr) -> Expr {
    Expr::Binary { lhs: Box::new(lhs), op, rhs: Box::new(rhs) }
}

fn constants(pairs: &[(&str, i64)]) -> NameMap<i64> {
    let mut m = NameMap::new();
    for (k, v) in pairs {
        m.insert(k.to_string(), *v);
    }
    m
}

fn names(v: &[&str]) -> Vec<String> {
    v.iter().map(|s| s.to_string()).collect()
}

/// `bounded: func(small: s32, big: s32 where big > small)`.
fn bounded_constraint() -> ParamConstraint {
    ParamConstraint {
        param_name: "big".to_string(),
        constraint: binary(ident("big"), BinOp::Gt, ident("small")),
    }
}

const SPAN: Span = Span { start: 0, end: 1 };

#[test]
fn constraint_violation_is_an_error() {
    let diags = check_call_constraints(
        "bounded",
        &names(&["small", "big"]),
        &vec![bounded_constraint()],
        &vec![],
        &[ident("small"), ident("big")],
        SPAN,
        &constants(&[("big", 10), ("small", 20)]),
        &vec![],
        false,
        &[],
        &[],
    );
    assert_eq!(diags.len(), 1);
    assert_eq!(diags[0].severity, Severity::Error);
    assert_eq!(diags[0].code, DiagnosticCode::ConstraintViolation);
    assert_eq!(
        diags[0].message,
        "big does not satisfy the constraint \"big (10) > small (20)\" on bounded"
    );
}

#[test]
fn satisfied_constraint_reports_nothing() {
    let diags = check_call_constraints(
        "bounded",
        &names(&["small", "big"]),
        &vec![bounded_constraint()],
        &vec![],
        &[ident("small"), ident("big")],
        SPAN,
        &constants(&[("big", 20), ("small", 10)]),
        &vec![],
        false,
        &[],
        &[],
    );
    assert!(diags.is_empty());
}

#[test]
fn literal_arguments_are_named_value() {
    let limited = ParamConstraint {
        param_name: "count".to_string(),
        constraint: binary(ident("count"), BinOp::Lt, Expr::Integer(10)),
    };
    let diags = check_call_constraints(
        "limited",
        &names(&["count"]),
        &vec![limited],
        &vec![],
        &[Expr::Integer(15)],
        SPAN,
        &NameMap::new(),
        &vec![],
        false,
        &[],
        &[],
    );
    assert_eq!(diags.len(), 1);
    assert_eq!(
        diags[0].message,
        "value does not satisfy the constraint \"count (15) < 10\" on limited"
    );
}

#[test]
fn unknown_argument_needs_propagation_outside_tests() {
    // `caller: func(x: s32) { bounded(x, big) }` with `big` known.
    let diags = check_call_constraints(
        "bounded",
        &names(&["small", "big"]),
        &vec![bounded_constraint()],
        &vec![],
        &[ident("x"), ident("big")],
        SPAN,
        &constants(&[("big", 10)]),
        &vec![],
        false,
        &[],
        &[],
    );
    assert_eq!(diags.len(), 1);
    assert_eq!(diags[0].severity, Severity::Warning);
    assert_eq!(diags[0].code, DiagnosticCode::ConstraintPropagation);
    assert_eq!(
        diags[0].message,
        "big may not satisfy the constraint \"big (10) > small (x)\" because x is an unconstrained parameter, bounded must be called with a guard"
    );
}

#[test]
fn inside_tests_propagation_is_an_error() {
    let diags = check_call_constraints(
        "bounded",
        &names(&["small", "big"]),
        &vec![bounded_constraint()],
        &vec![],
        &[ident("x"), ident("big")],
        SPAN,
        &constants(&[("big", 10)]),
        &vec![],
        true,
        &[],
        &[],
    );
    assert_eq!(diags.len(), 1);
    assert_eq!(diags[0].severity, Severity::Error);
    assert_eq!(diags[0].code, DiagnosticCode::ConstraintViolation);
}

#[test]
fn free_names_that_are_not_parameters_cannot_be_verified() {
    let c = ParamConstraint {
        param_name: "n".to_string(),
        constraint: binary(ident("n"), BinOp::Lt, ident("limit")),
    };
    let diags = check_call_constraints(
        "f",
        &names(&["n"]),
        &vec![c],
        &vec![],
        &[Expr::Integer(3)],
        SPAN,
        &NameMap::new(),
        &vec![],
        false,
        &[],
        &[],
    );
    assert_eq!(diags.len(), 1);
    assert_eq!(diags[0].severity, Severity::Warning);
    assert_eq!(
        diags[0].message,
        "Cannot verify constraint on 'n': unresolved variables [\"n\", \"limit\"]"
    );
}

#[test]
fn hushed_violation_in_a_test_is_informational() {
    let source = "    bounded(small, big);\n    ///    ^ big does not satisfy the constraint \"big (10) > small (20)\" on bounded\n";
    let span = Span { start: 4, end: 23 };
    let hush = extract_hush_comments(source);
    let offsets = compute_line_offsets(source);
    let run = |in_test: bool, big: i64| {
        check_call_constraints(
            "bounded",
            &names(&["small", "big"]),
            &vec![bounded_constraint()],
            &vec![],
            &[ident("small"), ident("big")],
            span,
            &constants(&[("big", big), ("small", 20)]),
            &vec![],
            in_test,
            &hush,
            &offsets,
        )
    };
    let diags = run(true, 10);
    assert_eq!(diags.len(), 1);
    assert_eq!(diags[0].severity, Severity::Info);
    assert_eq!(diags[0].code, DiagnosticCode::ConstraintViolation);
    // Outside a test the comment changes nothing.
    let diags = run(false, 10);
    assert_eq!(diags[0].severity, Severity::Error);
    // A different message is not acknowledged.
    let diags = run(true, 11);
    assert_eq!(diags[0].severity, Severity::Error);
}

#[test]
fn parameters_bind_to_arguments_by_position() {
    let m = map_params(&names(&["a", "b", "a", "c"]), 3);
    let key: Vec<char> = "a".chars().collect();
    assert_eq!(m.get(&key), Some(&2));
    let key: Vec<char> = "b".chars().collect();
    assert_eq!(m.get(&key), Some(&1));
    let key: Vec<char> = "c".chars().collect();
    assert_eq!(m.get(&key), None);
}

fn inherited(sources: Vec<(String, ParamSource)>) -> InheritedConstraint {
    InheritedConstraint {
        target_func: "bounded".to_string(),
        via: names(&["caller"]),
        constraint: bounded_constraint(),
        target_param_sources: sources,
    }
}

#[test]
fn transitive_violation_names_the_chain() {
    // outer calls caller(v) with v = 10; caller calls bounded(x, big) with big = 10.
    let inh = inherited(vec![
        ("small".to_string(), ParamSource::Param("x".to_string())),
        ("big".to_string(), ParamSource::Constant(10)),
    ]);
    let mut pm = NameMap::new();
    pm.insert("x".to_string(), 0usize);
    let d = check_inherited_constraint(
        &inh,
        &pm,
        &[ident("v")],
        SPAN,
        &constants(&[("v", 10)]),
        &vec![],
        false,
        &[],
        &[],
    )
    .unwrap();
    assert_eq!(d.severity, Severity::Error);
    assert_eq!(
        d.message,
        "v does not satisfy the constraint \"big (10) > small (10)\" on bounded (via caller)"
    );
}

#[test]
fn transitive_constraint_satisfied_reports_nothing() {
    let inh = inherited(vec![
        ("small".to_string(), ParamSource::Param("x".to_string())),
        ("big".to_string(), ParamSource::Constant(10)),
    ]);
    let mut pm = NameMap::new();
    pm.insert("x".to_string(), 0usize);
    let d = check_inherited_constraint(
        &inh,
        &pm,
        &[Expr::Integer(3)],
        SPAN,
        &NameMap::new(),
        &vec![],
        false,
        &[],
        &[],
    );
    assert!(d.is_none());
}

#[test]
fn transitive_with_unbound_caller_parameter_is_unresolved() {
    let inh = inherited(vec![
        ("small".to_string(), ParamSource::Param("x".to_string())),
        ("big".to_string(), ParamSource::Constant(10)),
    ]);
    let d = check_inherited_constraint(
        &inh,
        &NameMap::new(),
        &[],
        SPAN,
        &NameMap::new(),
        &vec![],
        false,
        &[],
        &[],
    )
    .unwrap();
    assert_eq!(d.severity, Severity::Warning);
    assert_eq!(d.code, DiagnosticCode::ConstraintPropagation);
    assert_eq!(
        d.message,
        "Cannot verify transitive constraint on 'big': unresolved variables [\"x\"]"
    );
}

#[test]
fn transitive_with_unknown_argument_needs_a_guard() {
    let inh = inherited(vec![
        ("small".to_string(), ParamSource::Param("x".to_string())),
        ("big".to_string(), ParamSource::Constant(10)),
    ]);
    let mut pm = NameMap::new();
    pm.insert("x".to_string(), 0usize);
    // Without `big` among the locals, `big` itself stays free and nothing is reported.
    let d = check_inherited_constraint(
        &inh,
        &pm,
        &[ident("w")],
        SPAN,
        &NameMap::new(),
        &vec![],
        false,
        &[],
        &[],
    );
    assert!(d.is_none());
    let d = check_inherited_constraint(
        &inh,
        &pm,
        &[ident("w")],
        SPAN,
        &NameMap::new(),
        &names(&["big"]),
        false,
        &[],
        &[],
    )
    .unwrap();
    assert_eq!(d.severity, Severity::Warning);
    assert_eq!(
        d.message,
        "big may not satisfy the constraint \"big (10) > small (?)\" because w is an unconstrained parameter, bounded must be called with a guard (via caller)"
    );
}

#[test]
fn call_check_appends_inherited_diagnostics() {
    let inh = inherited(vec![
        ("small".to_string(), ParamSource::Param("x".to_string())),
        ("big".to_string(), ParamSource::Constant(10)),
    ]);
    let diags = check_call_constraints(
        "caller",
        &names(&["x"]),
        &vec![],
        &vec![inh],
        &[Expr::Integer(50)],
        SPAN,
        &NameMap::new(),
        &vec![],
        false,
        &[],
        &[],
    );
    assert_eq!(diags.len(), 1);
    assert_eq!(
        diags[0].message,
        "value does not satisfy the constraint \"big (10) > small (50)\" on bounded (via caller)"
    );
}
