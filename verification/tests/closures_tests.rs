use kettu::ast::{Expr, Func, Gate, Interface, InterfaceItem, Statement, TopLevelItem, WitFile};
use kettu::closures::{collect_closures_from_ast, list_tests_from_ast};
use kettu::constraints::BinOp;
use kettu::diagnostics::Span;
use kettu::types::{Id, PrimitiveTy, Ty};

fn sp(start: usize, end: usize) -> Span {
    Span { start, end }
}

fn id_at(name: &str, start: usize) -> Id {
    Id { name: name.to_string(), span: sp(start, start + name.len()) }
}

/// The lambda written as `text` in `source`, with its parameters and
/// captured names.
fn lambda_in(source: &str, text: &str, params: &[&str], captures: &[&str], body: Expr) -> Expr {
    let at = source.find(text).unwrap();
    Expr::Lambda {
        params: params.iter().map(|p| id_at(p, at)).collect(),
        body: Box::new(body),
        captures: captures.iter().map(|c| id_at(c, at)).collect(),
        span: sp(at, at + text.len()),
    }
}

fn var(name: &str) -> Expr {
    Expr::Ident(id_at(name, 0))
}

fn num(n: i64) -> Expr {
    Expr::Integer(n, sp(0, 0))
}

fn test_file(source: &str, name: &str, gates: Vec<Gate>, body: Vec<Statement>) -> WitFile {
    let at = source.find(&format!("{}: func", name)).unwrap();
    let end = source.rfind("    }").unwrap() + 5;
    let f = Func {
        name: id_at(name, at),
        params: vec![],
        result: Some(Ty::Primitive(PrimitiveTy::Bool)),
        gates,
        body: Some(body),
        span: sp(at, end),
    };
    WitFile {
        items: vec![TopLevelItem::Interface(Interface {
            name: id_at("tests", 0),
            items: vec![InterfaceItem::Func(f)],
            span: sp(0, source.len()),
        })],
    }
}

#[test]
fn closure_ranges_are_detected() {
    let source = vec![
        "package local:test;".to_string(),
        "interface tests {".to_string(),
        "    @test".to_string(),
        "    t: func() -> bool {".to_string(),
        "        let f = |x| x + 1;".to_string(),
        "        return true;".to_string(),
        "    }".to_string(),
        "}".to_string(),
    ]
    .join("\n");
    let lambda = lambda_in(
        &source,
        "|x| x + 1",
        &["x"],
        &[],
        Expr::Binary { lhs: Box::new(var("x")), op: BinOp::Add, rhs: Box::new(num(1)), span: sp(0, 0) },
    );
    let ast = test_file(
        &source,
        "t",
        vec![Gate::Test],
        vec![
            Statement::Let { name: id_at("f", 0), value: lambda },
            Statement::Return(Some(Expr::Bool(true, sp(0, 0)))),
        ],
    );
    let closures = collect_closures_from_ast(&ast, &source);
    assert_eq!(closures.len(), 1);
    assert_eq!(closures[0].start_line, 5);
    assert_eq!(closures[0].end_line, 5);
}

#[test]
fn closure_captures_are_collected() {
    let source = vec![
        "package local:test;".to_string(),
        "interface tests {".to_string(),
        "    @test".to_string(),
        "    t: func() -> bool {".to_string(),
        "        let x = 10;".to_string(),
        "        let add-x = |n| n + x;".to_string(),
        "        return true;".to_string(),
        "    }".to_string(),
        "}".to_string(),
    ]
    .join("\n");
    let lambda = lambda_in(
        &source,
        "|n| n + x",
        &["n"],
        &["x"],
        Expr::Binary { lhs: Box::new(var("n")), op: BinOp::Add, rhs: Box::new(var("x")), span: sp(0, 0) },
    );
    let ast = test_file(
        &source,
        "t",
        vec![Gate::Test],
        vec![
            Statement::Let { name: id_at("x", 0), value: num(10) },
            Statement::Let { name: id_at("add-x", 0), value: lambda },
            Statement::Return(Some(Expr::Bool(true, sp(0, 0)))),
        ],
    );
    let closures = collect_closures_from_ast(&ast, &source);
    assert_eq!(closures.len(), 1);
    assert_eq!(closures[0].captures, vec!["x"]);
}

#[test]
fn closures_are_named_and_ordered() {
    let source = "interface tests {\n    @test\n    t: func() -> bool {\n        let f = |a| call(|b| b);\n        g(|c| c);\n    }\n}";
    let inner = lambda_in(source, "|b| b", &["b"], &[], var("b"));
    let call_inner = Expr::Call { func: Box::new(var("call")), args: vec![inner], span: sp(0, 0) };
    let outer = lambda_in(source, "|a| call(|b| b)", &["a"], &[], call_inner);
    let third = lambda_in(source, "|c| c", &["c"], &[], var("c"));
    let ast = test_file(
        source,
        "t",
        vec![Gate::Test],
        vec![
            Statement::Let { name: id_at("f", 0), value: outer },
            Statement::Expr(Expr::Call { func: Box::new(var("g")), args: vec![third], span: sp(0, 0) }),
        ],
    );
    let closures = collect_closures_from_ast(&ast, source);
    let names: Vec<&str> = closures.iter().map(|c| c.name.as_str()).collect();
    assert_eq!(names, vec!["f", "closure#2", "closure#3"]);
    assert_eq!(closures[0].inline_invocation_line, None);
    assert_eq!(closures[1].inline_invocation_line, Some(4));
    assert_eq!(closures[2].start_line, 5);
    assert_eq!(closures[1].start_column as usize, source.lines().nth(3).unwrap().find("|b|").unwrap() + 1);
    assert_eq!(closures[0].debug_key as usize, source.find("|a|").unwrap());
}

#[test]
fn closures_outside_tests_are_ignored() {
    let source = "interface tests {\n    t: func() -> bool {\n        let f = |x| x;\n    }\n}";
    let lambda = lambda_in(source, "|x| x", &["x"], &[], var("x"));
    let ast = test_file(source, "t", vec![Gate::TestHelper], vec![Statement::Let { name: id_at("f", 0), value: lambda }]);
    assert!(collect_closures_from_ast(&ast, source).is_empty());
}

#[test]
fn tests_are_listed_by_line() {
    let source = "interface a {\n    @test\n    second: func() -> bool {\n    }\n    @test\n    third: func() -> bool {\n    }\n}\ninterface b {\n    @test\n    first: func() -> bool {\n    }\n}";
    let func_at = |name: &str, gates: Vec<Gate>, first_line_offset: usize| {
        let at = source.find(&format!("{}: func", name)).unwrap();
        let _ = first_line_offset;
        Func {
            name: id_at(name, at),
            params: vec![],
            result: None,
            gates,
            body: Some(vec![]),
            span: sp(at, at + source[at..].find("}").unwrap() + 1),
        }
    };
    let ast = WitFile {
        items: vec![
            TopLevelItem::Interface(Interface {
                name: id_at("a", 0),
                items: vec![
                    InterfaceItem::Func(func_at("third", vec![Gate::Test], 0)),
                    InterfaceItem::Func(func_at("second", vec![Gate::Test], 0)),
                ],
                span: sp(0, 0),
            }),
            TopLevelItem::Interface(Interface {
                name: id_at("b", 0),
                items: vec![InterfaceItem::Func(func_at("first", vec![Gate::TestHelper], 0))],
                span: sp(0, 0),
            }),
        ],
    };
    let listed = list_tests_from_ast(&ast, source);
    let names: Vec<(&str, i64, i64, usize, usize)> =
        listed.iter().map(|t| (t.name.as_str(), t.line, t.end_line, t.item, t.member)).collect();
    assert_eq!(names, vec![("second", 3, 4, 0, 1), ("third", 6, 7, 0, 0)]);
}
