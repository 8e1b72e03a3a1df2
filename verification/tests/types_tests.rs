use kettu::constraints::{BinOp, Expr, ParamConstraint};
use kettu::diagnostics::{DiagnosticCode, Severity, Span};
use kettu::interfaces::{check_call_in_interface, InterfaceInfo};
use kettu::name_map::NameMap;
use kettu::types::{
    fmt_ty, is_numeric, resolve_type, resolve_type_alias_constraint, resolve_type_info,
    ty_to_checked, validate_type, CheckedType, Id, PrimitiveTy, Ty, TypeInfo, TypeKind, TypeTable,
};

fn span(start: usize, end: usize) -> Span {
    Span { start, end }
}

fn id(name: &str, start: usize) -> Id {
    Id { name: name.to_string(), span: span(start, start + name.len()) }
}

fn prim(p: PrimitiveTy) -> Ty {
    Ty::Primitive(p)
}

fn named(name: &str, start: usize) -> Ty {
    Ty::Named(id(name, start))
}

fn info(name: &str, interface: Option<&str>, kind: TypeKind) -> TypeInfo {
    TypeInfo {
        name: name.to_string(),
        kind,
        span: span(0, 0),
        interface: interface.map(|s| s.to_string()),
    }
}

fn alias(target: Ty, constraint: Option<Expr>) -> TypeKind {
    TypeKind::Alias { target: Box::new(target), constraint }
}

#[test]
fn formats_nested_types() {
    let t = Ty::Result {
        ok: Some(Box::new(Ty::List(Box::new(prim(PrimitiveTy::U32))))),
        err: None,
    };
    assert_eq!(fmt_ty(&t), "result<list<u32>, ()>");
    let tuple = Ty::Tuple(vec![prim(PrimitiveTy::S32), prim(PrimitiveTy::String)]);
    assert_eq!(fmt_ty(&tuple), "(s32, string)");
    let generic = Ty::Generic { name: id("pair", 0), args: vec![prim(PrimitiveTy::S32)] };
    assert_eq!(fmt_ty(&generic), "pair<s32>");
    assert_eq!(fmt_ty(&Ty::Future(None)), "future");
    assert_eq!(fmt_ty(&Ty::Stream(Some(Box::new(prim(PrimitiveTy::U8))))), "stream<u8>");
    assert_eq!(fmt_ty(&Ty::Borrow(id("file", 0))), "borrow<file>");
    assert_eq!(fmt_ty(&Ty::Own(id("file", 0))), "own<file>");
    assert_eq!(fmt_ty(&Ty::Option(Box::new(named("point", 0)))), "option<point>");
}

#[test]
fn checked_types_follow_the_primitive() {
    assert!(matches!(ty_to_checked(&prim(PrimitiveTy::Bool)), CheckedType::Bool));
    assert!(matches!(ty_to_checked(&prim(PrimitiveTy::U32)), CheckedType::I32));
    assert!(matches!(ty_to_checked(&prim(PrimitiveTy::S64)), CheckedType::I64));
    assert!(matches!(ty_to_checked(&prim(PrimitiveTy::Char)), CheckedType::String));
    assert!(matches!(ty_to_checked(&prim(PrimitiveTy::U8)), CheckedType::Unknown));
    match ty_to_checked(&Ty::List(Box::new(named("point", 0)))) {
        CheckedType::List(inner) => match *inner {
            CheckedType::Named(n) => assert_eq!(n, "point"),
            _ => panic!("expected a named element type"),
        },
        _ => panic!("expected a list"),
    }
    assert!(matches!(
        ty_to_checked(&Ty::Tuple(vec![prim(PrimitiveTy::S32)])),
        CheckedType::Unknown
    ));
}

#[test]
fn numbers_and_unknown_are_numeric() {
    assert!(is_numeric(&CheckedType::I32));
    assert!(is_numeric(&CheckedType::F64));
    assert!(is_numeric(&CheckedType::Unknown));
    assert!(!is_numeric(&CheckedType::Bool));
    assert!(!is_numeric(&CheckedType::String));
}

#[test]
fn interface_types_shadow_global_ones() {
    let mut table = TypeTable::new();
    table.insert_new(info("point", None, TypeKind::Resource));
    table.insert_new(info("point", Some("geo"), TypeKind::Enum { cases: vec!["a".to_string()] }));
    let inner = resolve_type_info(&table, Some("geo"), "point").unwrap();
    assert_eq!(inner.interface.as_deref(), Some("geo"));
    let outer = resolve_type_info(&table, Some("other"), "point").unwrap();
    assert_eq!(outer.interface, None);
    assert!(resolve_type_info(&table, None, "missing").is_none());
}

#[test]
fn known_names_resolve() {
    let mut table = TypeTable::new();
    table.insert_new(info("point", Some("geo"), TypeKind::Resource));
    let params = vec!["T".to_string()];
    assert!(resolve_type(&params, &table, None, "T"));
    assert!(resolve_type(&params, &table, None, "u64"));
    assert!(resolve_type(&params, &table, Some("geo"), "point"));
    assert!(!resolve_type(&params, &table, None, "point"));
}

#[test]
fn unknown_names_are_reported_in_order() {
    let table = TypeTable::new();
    let params: Vec<String> = Vec::new();
    let t = Ty::Tuple(vec![
        named("missing", 1),
        Ty::Borrow(id("handle", 10)),
        Ty::Generic { name: id("pair", 20), args: vec![named("other", 25)] },
    ]);
    let ds = validate_type(&t, &params, &table, None);
    let messages: Vec<&str> = ds.iter().map(|d| d.message.as_str()).collect();
    assert_eq!(
        messages,
        vec!["Unknown type: missing", "Unknown resource: handle", "Unknown type: pair", "Unknown type: other"]
    );
    assert_eq!(ds[0].span, span(1, 8));
    assert!(matches!(ds[0].code, DiagnosticCode::UnknownType));
    assert!(matches!(ds[1].code, DiagnosticCode::UnknownResource));
    assert!(ds.iter().all(|d| matches!(d.severity, Severity::Error)));
}

#[test]
fn known_types_give_no_errors() {
    let mut table = TypeTable::new();
    table.insert_new(info("point", None, TypeKind::Enum { cases: vec!["a".to_string()] }));
    let params = vec!["T".to_string()];
    let t = Ty::Result {
        ok: Some(Box::new(named("point", 0))),
        err: Some(Box::new(named("T", 0))),
    };
    assert!(validate_type(&t, &params, &table, None).is_empty());
}

#[test]
fn alias_constraints_are_found_through_generics() {
    let mut table = TypeTable::new();
    let c = Expr::Binary {
        lhs: Box::new(Expr::Ident("it".to_string())),
        op: BinOp::Gt,
        rhs: Box::new(Expr::Integer(0)),
    };
    table.insert_new(info("positive", None, alias(prim(PrimitiveTy::S32), Some(c))));
    table.insert_new(info("plain", None, alias(prim(PrimitiveTy::S32), None)));
    let found = resolve_type_alias_constraint(&named("positive", 0), &table, None);
    match found {
        Some(Expr::Binary { op, .. }) => assert!(matches!(op, BinOp::Gt)),
        _ => panic!("expected the alias constraint"),
    }
    let generic = Ty::Generic { name: id("positive", 0), args: vec![] };
    assert!(resolve_type_alias_constraint(&generic, &table, None).is_some());
    assert!(resolve_type_alias_constraint(&named("plain", 0), &table, None).is_none());
    assert!(resolve_type_alias_constraint(&prim(PrimitiveTy::S32), &table, None).is_none());
}

fn geo_interface() -> InterfaceInfo {
    let mut iface = InterfaceInfo::new("geo".to_string(), span(0, 0));
    iface.function_params.insert("scale".to_string(), vec!["factor".to_string()]);
    let c = Expr::Binary {
        lhs: Box::new(Expr::Ident("factor".to_string())),
        op: BinOp::Gt,
        rhs: Box::new(Expr::Integer(0)),
    };
    iface.function_constraints.insert(
        "scale".to_string(),
        vec![ParamConstraint { param_name: "factor".to_string(), constraint: c }],
    );
    iface
}

#[test]
fn calls_are_checked_against_the_interface() {
    let iface = geo_interface();
    let constants = NameMap::new();
    let locals: Vec<String> = Vec::new();
    let func = id("scale", 0);
    let args = vec![Expr::Integer(0)];
    let ds = check_call_in_interface(
        false,
        Some(&iface),
        &func,
        &args,
        span(0, 8),
        &constants,
        &locals,
        false,
        &[],
        &[],
    );
    assert_eq!(ds.len(), 1);
    assert!(matches!(ds[0].code, DiagnosticCode::ConstraintViolation));
    assert!(ds[0].message.contains("on scale"));
    let ok = check_call_in_interface(
        false,
        Some(&iface),
        &func,
        &[Expr::Integer(3)],
        span(0, 8),
        &constants,
        &locals,
        false,
        &[],
        &[],
    );
    assert!(ok.is_empty());
}

#[test]
fn guards_and_missing_interfaces_check_nothing() {
    let iface = geo_interface();
    let constants = NameMap::new();
    let locals: Vec<String> = Vec::new();
    let func = id("scale", 0);
    let args = vec![Expr::Integer(0)];
    assert!(check_call_in_interface(
        true, Some(&iface), &func, &args, span(0, 8), &constants, &locals, false, &[], &[]
    )
    .is_empty());
    assert!(check_call_in_interface(
        false, None, &func, &args, span(0, 8), &constants, &locals, false, &[], &[]
    )
    .is_empty());
    let unknown = id("translate", 0);
    assert!(check_call_in_interface(
        false, Some(&iface), &unknown, &args, span(0, 8), &constants, &locals, false, &[], &[]
    )
    .is_empty());
}
