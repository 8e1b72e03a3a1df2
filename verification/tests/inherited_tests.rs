use kettu::call_check::{InheritedConstraint, ParamSource};
use kettu::constraints::{BinOp, Expr, ParamConstraint};
use kettu::inherited::{
    classify_arg, collect_body_constants, compute_inherited_constraints, const_value_static,
    find_inherited_in_stmts, BodyExpr, FuncDef, Statement,
};
use kettu::name_map::NameMap;

fn ident(name: &str) -> BodyExpr {
    BodyExpr::Ident(name.to_string())
}

fn binary(lhs: BodyExpr, op: BinOp, rhs: BodyExpr, text: &str) -> BodyExpr {
    BodyExpr::Binary { lhs: Box::new(lhs), op, rhs: Box::new(rhs), text: text.to_string() }
}

fn call(name: &str, args: Vec<BodyExpr>) -> BodyExpr {
    BodyExpr::Call { func: Box::new(ident(name)), args, text: format!("call {}", name) }
}

fn names(v: &[&str]) -> Vec<String> {
    v.iter().map(|s| s.to_string()).collect()
}

fn let_stmt(name: &str, value: BodyExpr) -> Statement {
    Statement::Let { name: name.to_string(), value }
}

/// `target(limit: s32 where limit > 0)`.
fn tables() -> (NameMap<Vec<ParamConstraint>>, NameMap<Vec<String>>) {
    let mut fc = NameMap::new();
    let c = Expr::Binary {
        lhs: Box::new(Expr::Ident("limit".to_string())),
        op: BinOp::Gt,
        rhs: Box::new(Expr::Integer(0)),
    };
    fc.insert(
        "target".to_string(),
        vec![ParamConstraint { param_name: "limit".to_string(), constraint: c }],
    );
    let mut fp = NameMap::new();
    fp.insert("target".to_string(), names(&["limit"]));
    (fc, fp)
}

fn source_of(inh: &InheritedConstraint, param: &str) -> Option<String> {
    inh.target_param_sources.iter().find(|(p, _)| p == param).map(|(_, s)| match s {
        ParamSource::Constant(v) => format!("const {}", v),
        ParamSource::Param(p) => format!("param {}", p),
    })
}

#[test]
fn body_constants_follow_earlier_lets() {
    let stmts = vec![
        let_stmt("a", BodyExpr::Integer(4)),
        let_stmt("b", binary(ident("a"), BinOp::Mul, BodyExpr::Integer(3), "a * 3")),
        let_stmt("c", ident("unknown")),
        let_stmt("d", BodyExpr::Neg(Box::new(ident("b")))),
        let_stmt("e", binary(ident("a"), BinOp::Div, BodyExpr::Integer(0), "a / 0")),
    ];
    let m = collect_body_constants(&stmts);
    assert_eq!(m.get(&['a']), Some(&4));
    assert_eq!(m.get(&['b']), Some(&12));
    assert_eq!(m.get(&['c']), None);
    assert_eq!(m.get(&['d']), Some(&-12));
    assert_eq!(m.get(&['e']), None);
}

#[test]
fn static_values_divide_toward_zero() {
    let m = NameMap::new();
    let e = binary(BodyExpr::Integer(-7), BinOp::Div, BodyExpr::Integer(2), "-7 / 2");
    assert_eq!(const_value_static(&e, &m), Some(-3));
    let cmp = binary(BodyExpr::Integer(1), BinOp::Lt, BodyExpr::Integer(2), "1 < 2");
    assert_eq!(const_value_static(&cmp, &m), None);
}

#[test]
fn arguments_are_classified() {
    let params = names(&["n"]);
    let mut consts = NameMap::new();
    consts.insert("k".to_string(), 5);
    let show = |s: ParamSource| match s {
        ParamSource::Constant(v) => format!("const {}", v),
        ParamSource::Param(p) => format!("param {}", p),
    };
    assert_eq!(show(classify_arg(&ident("n"), &params, &consts)), "param n");
    assert_eq!(show(classify_arg(&ident("k"), &params, &consts)), "const 5");
    assert_eq!(show(classify_arg(&ident("q"), &params, &consts)), "param q");
    let neg = BodyExpr::Neg(Box::new(ident("k")));
    assert_eq!(show(classify_arg(&neg, &params, &consts)), "const -5");
    let sum = binary(ident("k"), BinOp::Add, BodyExpr::Integer(2), "k + 2");
    assert_eq!(show(classify_arg(&sum, &params, &consts)), "const 7");
    let open = binary(ident("n"), BinOp::Add, BodyExpr::Integer(1), "n + 1");
    assert_eq!(show(classify_arg(&open, &params, &consts)), "param n + 1");
    let neg_param = BodyExpr::Neg(Box::new(ident("n")));
    assert_eq!(show(classify_arg(&neg_param, &params, &consts)), "param n");
    assert_eq!(show(classify_arg(&BodyExpr::Other("x".to_string()), &params, &consts)), "param x");
}

#[test]
fn calls_to_constrained_functions_are_inherited() {
    let (fc, fp) = tables();
    let params = names(&["n"]);
    let stmts = vec![
        let_stmt("k", BodyExpr::Integer(3)),
        Statement::Expr(call("target", vec![ident("n")])),
        Statement::Guard {
            condition: BodyExpr::Other("cond".to_string()),
            else_body: vec![Statement::Return(Some(call("target", vec![ident("k")])))],
        },
        Statement::Expr(call("other", vec![call("target", vec![BodyExpr::Integer(9)])])),
    ];
    let consts = collect_body_constants(&stmts);
    let mut result = Vec::new();
    find_inherited_in_stmts(&stmts, &params, &consts, &fc, &fp, "caller", &mut result);
    assert_eq!(result.len(), 3);
    for inh in &result {
        assert_eq!(inh.target_func, "target");
        assert_eq!(inh.via, names(&["caller"]));
        assert_eq!(inh.constraint.param_name, "limit");
    }
    assert_eq!(source_of(&result[0], "limit"), Some("param n".to_string()));
    assert_eq!(source_of(&result[1], "limit"), Some("const 3".to_string()));
    assert_eq!(source_of(&result[2], "limit"), Some("const 9".to_string()));
}

#[test]
fn a_function_does_not_inherit_from_itself() {
    let (fc, fp) = tables();
    let params = names(&["limit"]);
    let stmts = vec![Statement::Expr(call("target", vec![ident("limit")]))];
    let consts = NameMap::new();
    let mut result = Vec::new();
    find_inherited_in_stmts(&stmts, &params, &consts, &fc, &fp, "target", &mut result);
    assert!(result.is_empty());
}

#[test]
fn functions_without_inherited_constraints_are_left_out() {
    let (fc, fp) = tables();
    let funcs = vec![
        FuncDef {
            name: "wrapper".to_string(),
            params: names(&["x"]),
            body: Some(vec![Statement::Expr(BodyExpr::If {
                cond: Box::new(BodyExpr::Other("c".to_string())),
                then_branch: vec![Statement::Expr(call("target", vec![ident("x")]))],
                else_branch: None,
                text: "if".to_string(),
            })]),
        },
        FuncDef { name: "plain".to_string(), params: names(&[]), body: Some(vec![]) },
        FuncDef { name: "declared".to_string(), params: names(&["y"]), body: None },
    ];
    let table = compute_inherited_constraints(&funcs, &fc, &fp);
    let wrapper: Vec<char> = "wrapper".chars().collect();
    let plain: Vec<char> = "plain".chars().collect();
    let got = table.get(&wrapper).unwrap();
    assert_eq!(got.len(), 1);
    assert_eq!(source_of(&got[0], "limit"), Some("param x".to_string()));
    assert!(table.get(&plain).is_none());
    assert_eq!(table.entries.len(), 1);
}
