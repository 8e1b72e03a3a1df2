use kettu::cli_rules::{
    export_runs, find_test_export, is_function_export, severity_label, stops_build, test_passed,
    test_selected, test_shape, TestShapeError,
};
use kettu::types::{Id, PrimitiveTy, Ty};
use kettu::diagnostics::{Diagnostic, DiagnosticCode, Severity, Span};
use kettu::numbers::{parse_unsigned_range, push_decimal};

#[test]
fn name_filters_select_tests() {
    assert!(test_selected("adds-numbers", None));
    assert!(test_selected("adds-numbers", Some("num")));
    assert!(!test_selected("adds-numbers", Some("sub")));
    assert!(test_selected("x", Some("")));
}

#[test]
fn exports_run_tests_by_bare_or_qualified_name() {
    assert!(export_runs("t1", "t1"));
    assert!(export_runs("local:test/tests#t1", "t1"));
    assert!(!export_runs("local:test/tests#xt1", "t1"));
    assert!(!export_runs("t10", "t1"));
    let exports = vec!["memory".to_string(), "a#t2".to_string(), "t2".to_string()];
    assert_eq!(find_test_export(&exports, "t2"), Some(1));
    assert_eq!(find_test_export(&exports, "t3"), None);
}

#[test]
fn allocator_exports_are_not_functions() {
    assert!(!is_function_export("memory"));
    assert!(!is_function_export("cabi_realloc"));
    assert!(!is_function_export("cabi_arena_reset"));
    assert!(is_function_export("run"));
}

fn diag(message: &str, severity: Severity) -> Diagnostic {
    Diagnostic { message: message.to_string(), span: Span { start: 0, end: 0 }, severity, code: DiagnosticCode::UnknownVariable }
}

#[test]
fn unknown_import_aliases_do_not_stop_a_build() {
    let aliases = vec!["math".to_string()];
    assert!(!stops_build(&diag("Unknown variable: math", Severity::Error), &aliases));
    assert!(stops_build(&diag("Unknown variable: maths", Severity::Error), &aliases));
    assert!(stops_build(&diag("Type mismatch", Severity::Error), &aliases));
    assert!(!stops_build(&diag("Unknown variable: x", Severity::Warning), &aliases));
}

#[test]
fn severities_are_labelled() {
    assert_eq!(severity_label(Severity::Error), "error");
    assert_eq!(severity_label(Severity::Warning), "warning");
    assert_eq!(severity_label(Severity::Info), "info");
}

#[test]
fn rendered_numbers_parse_back() {
    for n in [0u64, 7, 10, 4096, u64::MAX] {
        let mut v = Vec::new();
        push_decimal(&mut v, n);
        assert_eq!(v.iter().collect::<String>(), n.to_string());
        assert_eq!(parse_unsigned_range(&v, 0, v.len(), u64::MAX), Some(n));
    }
    let v: Vec<char> = "300".chars().collect();
    assert_eq!(parse_unsigned_range(&v, 0, 3, 255), None);
    let v: Vec<char> = "+12".chars().collect();
    assert_eq!(parse_unsigned_range(&v, 0, 3, 255), Some(12));
}

#[test]
fn test_shape_needs_a_body_and_a_bool_result() {
    let b = Ty::Primitive(PrimitiveTy::Bool);
    let s = Ty::Primitive(PrimitiveTy::S32);
    let named = Ty::Named(Id { name: "bool".to_string(), span: kettu::diagnostics::Span { start: 0, end: 0 } });
    assert_eq!(test_shape(false, Some(&b)), Some(TestShapeError::NoBody));
    assert_eq!(test_shape(false, None), Some(TestShapeError::NoBody));
    assert_eq!(test_shape(true, None), Some(TestShapeError::MustReturnBool));
    assert_eq!(test_shape(true, Some(&s)), Some(TestShapeError::MustReturnBool));
    assert_eq!(test_shape(true, Some(&named)), Some(TestShapeError::MustReturnBool));
    assert_eq!(test_shape(true, Some(&b)), None);
}

#[test]
fn test_passes_on_non_zero_result() {
    assert!(test_passed(1));
    assert!(test_passed(-3));
    assert!(!test_passed(0));
}
