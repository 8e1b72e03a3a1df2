use kettu::debug_symbols::{
    binding_visible_at_line, max_line_for_range, normalize_path_key, register_debug_symbol,
    runtime_binding_kind, variant_case_name, variant_discriminant, DebugResumeBindingMetadata,
    DebugSymbols, DwarfBinding, DwarfBindingKind, DwarfLineRow,
};

#[test]
fn discriminants_are_byte_sums() {
    assert_eq!(variant_discriminant("ok"), 218);
    assert_eq!(variant_discriminant("err"), 329);
    assert_eq!(variant_discriminant("some"), 436);
    assert_eq!(variant_discriminant("none"), 432);
    assert_eq!(variant_discriminant(""), 0);
}

#[test]
fn case_names_come_back_from_discriminants() {
    assert_eq!(variant_case_name(218), "ok");
    assert_eq!(variant_case_name(329), "err");
    assert_eq!(variant_case_name(436), "some");
    assert_eq!(variant_case_name(432), "none");
    assert_eq!(variant_case_name(-7), "variant#-7");
}

#[test]
fn max_line_is_taken_within_the_address_range() {
    let rows = vec![
        DwarfLineRow { address: 10, line: 4 },
        DwarfLineRow { address: 20, line: 9 },
        DwarfLineRow { address: 30, line: 7 },
    ];
    assert_eq!(max_line_for_range(&rows, Some(10), Some(30)), Some(9));
    assert_eq!(max_line_for_range(&rows, Some(25), None), Some(7));
    assert_eq!(max_line_for_range(&rows, None, Some(11)), Some(4));
    assert_eq!(max_line_for_range(&rows, Some(31), None), None);
    assert_eq!(max_line_for_range(&[], None, None), None);
}

#[test]
fn lambdas_and_functions_are_kept_apart() {
    let mut symbols = DebugSymbols::new();
    register_debug_symbol(&mut symbols, "lambda#0".to_string(), 3, 4);
    register_debug_symbol(&mut symbols, "main".to_string(), 1, 9);
    register_debug_symbol(&mut symbols, "main".to_string(), 2, 8);
    assert_eq!(symbols.lambdas.len(), 1);
    assert_eq!(symbols.lambdas[0].start_line, 3);
    let key: Vec<char> = "main".chars().collect();
    let f = symbols.functions.get(&key).unwrap();
    assert_eq!((f.start_line, f.end_line), (2, 8));
}

#[test]
fn binding_kinds_and_visibility() {
    let meta = |kind: &str| DebugResumeBindingMetadata {
        name: "x".to_string(),
        local_index: 0,
        decl_line: 3,
        kind: kind.to_string(),
    };
    assert_eq!(runtime_binding_kind(&meta("parameter")), DwarfBindingKind::Parameter);
    assert_eq!(runtime_binding_kind(&meta("local")), DwarfBindingKind::Variable);

    let var = DwarfBinding { name: "x".to_string(), kind: DwarfBindingKind::Variable, decl_line: 5, local_index: None };
    let param = DwarfBinding { name: "p".to_string(), kind: DwarfBindingKind::Parameter, decl_line: 9, local_index: Some(0) };
    assert!(binding_visible_at_line(&param, 1, None));
    assert!(!binding_visible_at_line(&var, 5, None));
    assert!(binding_visible_at_line(&var, 6, None));
    let captures = vec!["x".to_string()];
    assert!(binding_visible_at_line(&var, 5, Some(&captures)));
    assert!(!binding_visible_at_line(&var, 4, Some(&captures)));
    let other = vec!["y".to_string()];
    assert!(!binding_visible_at_line(&var, 5, Some(&other)));
}

#[test]
fn path_keys_use_forward_slashes() {
    assert_eq!(normalize_path_key("C:\\src\\Main.kettu"), "C:/src/Main.kettu");
    assert_eq!(normalize_path_key("/a/b"), "/a/b");
}

#[test]
fn case_name_discriminants_round_trip() {
    for name in ["ok", "err", "some", "none"] {
        assert_eq!(variant_case_name(variant_discriminant(name)), name);
    }
    for d in [0, 1, 217, 219, 433, i32::MIN, i32::MAX] {
        assert_eq!(variant_case_name(d), format!("variant#{}", d));
    }
}
